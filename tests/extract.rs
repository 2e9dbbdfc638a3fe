use distro_rootfs::cache::{CacheMetadata, CachedRootfs};
use distro_rootfs::{Error, ExtractFormat};

#[test]
fn detect_tar_gz() {
    let p = "/tmp/rootfs.tar.gz";
    assert!(matches!(ExtractFormat::detect(p).unwrap(), ExtractFormat::TarGz));
}

#[test]
fn detect_tgz() {
    let p = "/tmp/rootfs.tgz";
    assert!(matches!(ExtractFormat::detect(p).unwrap(), ExtractFormat::TarGz));
}

#[test]
fn detect_tar_xz() {
    let p = "/tmp/rootfs.tar.xz";
    assert!(matches!(ExtractFormat::detect(p).unwrap(), ExtractFormat::TarXz));
}

#[test]
fn detect_txz() {
    let p = "/tmp/rootfs.txz";
    assert!(matches!(ExtractFormat::detect(p).unwrap(), ExtractFormat::TarXz));
}

#[test]
fn detect_unsupported() {
    let p = "/tmp/rootfs.zip";
    assert!(ExtractFormat::detect(p).is_err());
}

#[test]
fn detect_no_extension() {
    let p = "/tmp/rootfs";
    assert!(ExtractFormat::detect(p).is_err());
}

#[test]
fn detect_reports_file_name_only() {
    match ExtractFormat::detect("/var/cache/x.tar.gz/image.zip") {
        Err(Error::UnsupportedFormat(name)) => assert_eq!(name, "image.zip"),
        other => panic!("unexpected result {:?}", other),
    }
}

#[test]
fn detect_ignores_trailing_slash() {
    assert_eq!(ExtractFormat::detect("dir/rootfs.tgz/").unwrap(), ExtractFormat::TarGz);
}

fn handle(path: &str) -> CachedRootfs {
    CachedRootfs {
        archive_path: path.to_owned(),
        metadata: CacheMetadata {
            distro: "alpine".to_owned(),
            version: "3.21".to_owned(),
            arch: "aarch64".to_owned(),
            sha256: "00".to_owned(),
            filename: "rootfs.tar.xz".to_owned(),
            size: 1,
            downloaded_at: "0".to_owned(),
        },
    }
}

#[test]
fn extract_to_plans_unpacking() {
    let job = handle("/c/alpine/3.21/aarch64/rootfs.tar.xz").extract_to("/out").unwrap();
    assert_eq!(job.archive, "/c/alpine/3.21/aarch64/rootfs.tar.xz");
    assert_eq!(job.target, "/out");
    assert_eq!(job.format, ExtractFormat::TarXz);
}

#[test]
fn extract_to_rejects_unknown_format() {
    assert!(matches!(
        handle("/c/a/1/x/rootfs.img").extract_to("/out"),
        Err(Error::UnsupportedFormat(_))
    ));
}
