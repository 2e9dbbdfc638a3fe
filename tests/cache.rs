use distro_rootfs::cache::{
    archive_path_in, format_timestamp, freed_bytes, list_all, load_cached, load_entry, store,
};
use distro_rootfs::manager::dirs_cache_dir;
use distro_rootfs::{
    default_cache_dir, Arch, CacheLookup, CacheMetadata, CachedRootfs, Distro, DownloadResult,
    EnsureStep, RootfsManager, Version,
};
use sha2::{Digest, Sha256};

fn make_test_result(content: &[u8], filename: &str) -> DownloadResult {
    let sha256 = hex::encode(Sha256::digest(content));
    DownloadResult {
        data: content.to_vec(),
        sha256,
        filename: filename.to_owned(),
    }
}

fn digest(content: &[u8]) -> String {
    hex::encode(Sha256::digest(content))
}

#[test]
fn store_and_load_cached() {
    let entry = "/cache/alpine/3.21/aarch64";
    let result = make_test_result(b"fake rootfs data", "rootfs.tar.gz");
    let cached = store(entry, &result, "1700000000".to_owned());

    assert_eq!(cached.metadata.sha256, result.sha256);
    assert_eq!(cached.metadata.filename, "rootfs.tar.gz");
    assert_eq!(cached.archive_path, "/cache/alpine/3.21/aarch64/rootfs.tar.gz");
    assert_eq!(cached.metadata.distro, "alpine");
    assert_eq!(cached.metadata.version, "3.21");
    assert_eq!(cached.metadata.arch, "aarch64");
    assert_eq!(cached.metadata.size, 16);

    let loaded = load_entry(entry, Some(cached.metadata.clone()), true).unwrap();
    match load_cached(loaded, &digest(b"fake rootfs data")) {
        CacheLookup::Hit(c) => {
            assert_eq!(c.metadata.sha256, result.sha256);
            assert_eq!(c.metadata.filename, "rootfs.tar.gz");
            assert_eq!(c.metadata.size, 16);
        }
        CacheLookup::Evict => panic!("intact entry evicted"),
    }
}

#[test]
fn store_with_short_directory() {
    let cached = store("only", &make_test_result(b"x", "a.tgz"), "5".to_owned());
    assert_eq!(cached.metadata.distro, "unknown");
    assert_eq!(cached.metadata.version, "unknown");
    assert_eq!(cached.metadata.arch, "only");
    assert_eq!(cached.archive_path, "only/a.tgz");
}

#[test]
fn load_cached_missing_metadata() {
    assert!(load_entry("/c/alpine/3.21/x86_64", None, false).is_none());
}

fn metadata(distro: &str, version: &str, size: u64, downloaded_at: &str) -> CacheMetadata {
    CacheMetadata {
        distro: distro.to_owned(),
        version: version.to_owned(),
        arch: "amd64".to_owned(),
        sha256: "deadbeef".to_owned(),
        filename: "rootfs.tar.xz".to_owned(),
        size,
        downloaded_at: downloaded_at.to_owned(),
    }
}

#[test]
fn load_cached_missing_archive() {
    let m = metadata("debian", "12", 100, "0");
    assert!(load_entry("/c/debian/12/amd64", Some(m), false).is_none());
}

#[test]
fn load_cached_corrupted_archive() {
    let entry = "/c/ubuntu/24.04/arm64";
    let result = make_test_result(b"original data", "rootfs.tar.xz");
    let cached = store(entry, &result, "1".to_owned());
    let loaded = load_entry(entry, Some(cached.metadata), true).unwrap();
    assert!(matches!(load_cached(loaded, &digest(b"corrupted")), CacheLookup::Evict));
}

#[test]
fn verify_integrity_valid() {
    let result = make_test_result(b"valid content", "rootfs.tar.gz");
    let cached = store("/c/alpine/3.21/aarch64", &result, "1".to_owned());
    assert!(cached.verify_integrity(&digest(b"valid content")));
}

#[test]
fn verify_integrity_corrupted() {
    let result = make_test_result(b"original", "rootfs.tar.xz");
    let cached = store("/c/debian/12/arm64", &result, "1".to_owned());
    assert!(!cached.verify_integrity(&digest(b"tampered")));
}

#[test]
fn archive_path_joins_file_name() {
    let m = metadata("debian", "12", 1, "0");
    assert_eq!(archive_path_in("/c/debian/12/amd64/", &m), "/c/debian/12/amd64/rootfs.tar.xz");
}

fn entry(distro: &str, version: &str, size: u64, at: &str) -> CachedRootfs {
    CachedRootfs {
        archive_path: format!("/c/{distro}/{version}/amd64/rootfs.tar.xz"),
        metadata: metadata(distro, version, size, at),
    }
}

#[test]
fn list_all_empty() {
    let entries = list_all(Vec::new());
    assert!(entries.is_empty());
}

#[test]
fn list_all_with_entries() {
    let found = vec![Some(entry("alpine", "3.21", 1, "1")), None, Some(entry("debian", "12", 2, "2"))];
    let entries = list_all(found);
    assert_eq!(entries.len(), 2);
    assert_eq!(entries[1].metadata.distro, "debian");
}

#[test]
fn prune_keeps_latest() {
    let entries = vec![entry("alpine", "1", 6, "1000"), entry("alpine", "2", 6, "1001"), entry("alpine", "3", 6, "1002")];
    let manager = RootfsManager::new("/c");
    let plan = manager.prune(&entries, 1);
    assert_eq!(plan, vec![true, true, false]);
    let freed = freed_bytes(&entries, &plan);
    assert!(freed > 0);
    let remaining: Vec<&CachedRootfs> = entries.iter().zip(plan.iter()).filter(|(_, p)| !**p).map(|(e, _)| e).collect();
    assert_eq!(remaining.len(), 1);
    assert_eq!(remaining[0].metadata.version, "3");
}

#[test]
fn prune_only_counts_successful_deletions() {
    let entries = vec![entry("fedora", "1", 4, "1000"), entry("fedora", "2", 4, "2000")];
    let manager = RootfsManager::new("/c");
    let plan = manager.prune(&entries, 1);
    assert_eq!(plan, vec![true, false]);
    assert_eq!(freed_bytes(&entries, &plan), 4);
    assert_eq!(freed_bytes(&entries, &vec![false, false]), 0);
}

#[test]
fn prune_groups_by_distribution() {
    let entries = vec![
        entry("alpine", "a", 10, "5"),
        entry("debian", "b", 20, "1"),
        entry("alpine", "c", 30, "7"),
        entry("debian", "d", 40, "9"),
        entry("alpine", "e", 50, "6"),
    ];
    let plan = RootfsManager::new("/c").prune(&entries, 2);
    assert_eq!(plan, vec![true, false, false, false, false]);
    let all_removed = RootfsManager::new("/c").prune(&entries, 0);
    assert_eq!(freed_bytes(&entries, &all_removed), 150);
}

#[test]
fn prune_orders_timestamps_as_strings() {
    let entries = vec![entry("void", "x", 1, "999"), entry("void", "y", 2, "1000")];
    let plan = RootfsManager::new("/c").prune(&entries, 1);
    assert_eq!(plan, vec![false, true]);
}

#[test]
fn freed_bytes_saturates() {
    let entries = vec![entry("a", "1", u64::MAX, "1"), entry("a", "2", 5, "2")];
    assert_eq!(freed_bytes(&entries, &vec![true, true]), u64::MAX);
}

#[test]
fn timestamps_are_decimal() {
    assert_eq!(format_timestamp(0), "0");
    assert_eq!(format_timestamp(1700000000), "1700000000");
    assert_eq!(format_timestamp(u64::MAX), "18446744073709551615");
}

#[test]
fn entry_dir_layout() {
    let m = RootfsManager::new("/var/cache/rootfs");
    assert_eq!(
        m.entry_dir(Distro::Ubuntu, &Version::new("24.04"), Arch::Aarch64),
        "/var/cache/rootfs/ubuntu/24.04/aarch64"
    );
    assert_eq!(m.cache_dir(), "/var/cache/rootfs");
}

#[test]
fn default_cache_dirs() {
    assert_eq!(default_cache_dir(Some("/xdg"), Some("/home/u")), "/xdg/arcbox/rootfs");
    assert_eq!(default_cache_dir(None, Some("/home/u")), "/home/u/.local/share/arcbox/rootfs");
    assert_eq!(default_cache_dir(None, None), "/tmp/arcbox/rootfs");
    assert_eq!(dirs_cache_dir(None, Some("/home/u/")), "/home/u/.local/share");
}

#[test]
fn prune_frees_removed_sizes() {
    let entries = vec![entry("alpine", "1", 6, "1000"), entry("alpine", "2", 6, "1001"), entry("alpine", "3", 6, "1002")];
    let plan = RootfsManager::new("/c").prune(&entries, 1);
    assert_eq!(freed_bytes(&entries, &plan), 12);
    assert_eq!(freed_bytes(&entries, &vec![true, false, false]), 6);
}

#[test]
fn prune_keeps_min_per_distribution() {
    let entries = vec![entry("a", "1", 1, "3"), entry("b", "1", 1, "1"), entry("a", "2", 1, "2"), entry("a", "3", 1, "1")];
    let plan = RootfsManager::new("/c").prune(&entries, 2);
    assert_eq!(plan, vec![false, false, false, true]);
}

#[test]
fn ensure_serves_or_downloads() {
    let m = RootfsManager::new("/c");
    let c = entry("alpine", "3.21", 1, "1");
    match m.ensure_step(Some(c)) {
        EnsureStep::Serve(x) => assert_eq!(x.metadata.version, "3.21"),
        EnsureStep::Download => panic!("present entry downloaded again"),
    }
    assert!(matches!(m.ensure_step(None), EnsureStep::Download));
}
