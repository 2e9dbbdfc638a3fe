use distro_rootfs::provider::{get_official_provider, HashAlgorithm};
use distro_rootfs::{Arch, Distro, Error, Version};

#[test]
fn alpine_rootfs_url() {
    let p = get_official_provider(Distro::Alpine).unwrap();
    assert_eq!(
        p.rootfs_url(&Version::new("3.21.3"), Arch::Aarch64),
        "https://dl-cdn.alpinelinux.org/alpine/v3.21/releases/aarch64/alpine-minirootfs-3.21.3-aarch64.tar.gz"
    );
}

#[test]
fn alpine_rootfs_url_short_version() {
    let p = get_official_provider(Distro::Alpine).unwrap();
    assert_eq!(
        p.rootfs_url(&Version::new("3.21"), Arch::X86_64),
        "https://dl-cdn.alpinelinux.org/alpine/v3.21/releases/x86_64/alpine-minirootfs-3.21-x86_64.tar.gz"
    );
}

#[test]
fn alpine_parse_checksum() {
    let p = get_official_provider(Distro::Alpine).unwrap();
    let content = "abc123def456  alpine-minirootfs-3.20.0-aarch64.tar.gz\n";
    assert_eq!(
        p.parse_checksum(content, "alpine-minirootfs-3.20.0-aarch64.tar.gz").unwrap(),
        "abc123def456"
    );
}

#[test]
fn ubuntu_rootfs_url() {
    let p = get_official_provider(Distro::Ubuntu).unwrap();
    assert_eq!(
        p.rootfs_url(&Version::new("24.04"), Arch::Aarch64),
        "https://cloud-images.ubuntu.com/noble/current/noble-server-cloudimg-arm64-root.tar.xz"
    );
}

#[test]
fn ubuntu_rootfs_url_x86() {
    let p = get_official_provider(Distro::Ubuntu).unwrap();
    assert_eq!(
        p.rootfs_url(&Version::new("22.04"), Arch::X86_64),
        "https://cloud-images.ubuntu.com/jammy/current/jammy-server-cloudimg-amd64-root.tar.xz"
    );
}

#[test]
fn ubuntu_parse_checksum() {
    let p = get_official_provider(Distro::Ubuntu).unwrap();
    let content = "\
abc111 *noble-server-cloudimg-amd64.img
def222 *noble-server-cloudimg-arm64-root.tar.xz
ghi333 *noble-server-cloudimg-amd64-root.tar.xz
";
    assert_eq!(
        p.parse_checksum(content, "noble-server-cloudimg-arm64-root.tar.xz").unwrap(),
        "def222"
    );
}

#[test]
fn debian_rootfs_url_aarch64() {
    let p = get_official_provider(Distro::Debian).unwrap();
    assert_eq!(
        p.rootfs_url(&Version::new("12"), Arch::Aarch64),
        "https://cloud.debian.org/images/cloud/bookworm/latest/debian-12-nocloud-arm64.tar.xz"
    );
}

#[test]
fn debian_rootfs_url_x86() {
    let p = get_official_provider(Distro::Debian).unwrap();
    assert_eq!(
        p.rootfs_url(&Version::new("13"), Arch::X86_64),
        "https://cloud.debian.org/images/cloud/trixie/latest/debian-13-nocloud-amd64.tar.xz"
    );
}

#[test]
fn debian_checksum_url() {
    let p = get_official_provider(Distro::Debian).unwrap();
    assert_eq!(
        p.checksum_url(&Version::new("12"), Arch::Aarch64).unwrap(),
        "https://cloud.debian.org/images/cloud/bookworm/latest/SHA512SUMS"
    );
}

#[test]
fn debian_parse_checksum() {
    let p = get_official_provider(Distro::Debian).unwrap();
    let content = "\
aaa111  debian-12-nocloud-amd64.tar.xz
bbb222  debian-12-nocloud-arm64.tar.xz
ccc333  debian-12-genericcloud-amd64.qcow2
";
    assert_eq!(
        p.parse_checksum(content, "debian-12-nocloud-arm64.tar.xz").unwrap(),
        "bbb222"
    );
}

#[test]
fn debian_parse_checksum_not_found() {
    let p = get_official_provider(Distro::Debian).unwrap();
    let content = "aaa111  debian-12-nocloud-amd64.tar.xz\n";
    assert!(p.parse_checksum(content, "debian-12-nocloud-arm64.tar.xz").is_err());
}

#[test]
fn fedora_rootfs_url_aarch64() {
    let p = get_official_provider(Distro::Fedora).unwrap();
    assert_eq!(
        p.rootfs_url(&Version::new("41"), Arch::Aarch64),
        "https://download.fedoraproject.org/pub/fedora/linux/releases/41/Cloud/aarch64/images/Fedora-Cloud-Base-41-1.2.aarch64.raw.xz"
    );
}

#[test]
fn fedora_rootfs_url_x86() {
    let p = get_official_provider(Distro::Fedora).unwrap();
    assert_eq!(
        p.rootfs_url(&Version::new("40"), Arch::X86_64),
        "https://download.fedoraproject.org/pub/fedora/linux/releases/40/Cloud/x86_64/images/Fedora-Cloud-Base-40-1.2.x86_64.raw.xz"
    );
}

#[test]
fn fedora_checksum_url() {
    let p = get_official_provider(Distro::Fedora).unwrap();
    assert_eq!(
        p.checksum_url(&Version::new("41"), Arch::X86_64).unwrap(),
        "https://download.fedoraproject.org/pub/fedora/linux/releases/41/Cloud/x86_64/images/Fedora-Cloud-41-1.2-x86_64-CHECKSUM"
    );
}

#[test]
fn fedora_parse_checksum_bsd_style() {
    let p = get_official_provider(Distro::Fedora).unwrap();
    let content = "\
# Fedora-Cloud-41-1.2-x86_64-CHECKSUM
SHA256 (Fedora-Cloud-Base-41-1.2.x86_64.raw.xz) = abc123def456
SHA256 (Fedora-Cloud-Base-41-1.2.x86_64.qcow2) = 789ghi000jkl
";
    assert_eq!(
        p.parse_checksum(content, "Fedora-Cloud-Base-41-1.2.x86_64.raw.xz").unwrap(),
        "abc123def456"
    );
}

#[test]
fn fedora_parse_checksum_not_found() {
    let p = get_official_provider(Distro::Fedora).unwrap();
    let content = "SHA256 (other-file.raw.xz) = abc123\n";
    assert!(p.parse_checksum(content, "Fedora-Cloud-Base-41-1.2.x86_64.raw.xz").is_err());
}

#[test]
fn gnu_coreutils_no_substring_match() {
    let p = get_official_provider(Distro::Ubuntu).unwrap();
    let content = "\
aaa111 *noble-server-cloudimg-arm64-root.tar.xz
bbb222 *noble-server-cloudimg-amd64-root.tar.xz
";
    assert!(p.parse_checksum(content, "root.tar.xz").is_err());
}

#[test]
fn bsd_no_substring_match() {
    let p = get_official_provider(Distro::Fedora).unwrap();
    let content = "SHA256 (Fedora-Cloud-Base-41-1.2.x86_64.raw.xz) = abc123\n";
    assert!(p.parse_checksum(content, "raw.xz").is_err());
}

#[test]
fn hash_algorithm_debian_sha512() {
    let p = get_official_provider(Distro::Debian).unwrap();
    assert_eq!(p.hash_algorithm(), HashAlgorithm::Sha512);
}

#[test]
fn hash_algorithm_ubuntu_sha256() {
    let p = get_official_provider(Distro::Ubuntu).unwrap();
    assert_eq!(p.hash_algorithm(), HashAlgorithm::Sha256);
}

#[test]
fn no_official_provider_for_other_distros() {
    assert!(get_official_provider(Distro::Arch).is_none());
    assert!(get_official_provider(Distro::Rocky).is_none());
}

#[test]
fn major_minor_transform() {
    let p = get_official_provider(Distro::Alpine).unwrap();
    assert_eq!(p.resolve_major_minor(&Version::new("3.21.3")), "3.21");
    assert_eq!(p.resolve_major_minor(&Version::new("3.21")), "3.21");
    assert_eq!(p.resolve_major_minor(&Version::new("edge")), "edge");
}

#[test]
fn identity_transform_keeps_version() {
    let p = get_official_provider(Distro::Fedora).unwrap();
    assert_eq!(p.resolve_major_minor(&Version::new("41.1.2")), "41.1.2");
}

#[test]
fn unmapped_codename_falls_back() {
    let ubuntu = get_official_provider(Distro::Ubuntu).unwrap();
    assert_eq!(ubuntu.resolve_codename(&Version::new("18.04")), "noble");
    assert_eq!(ubuntu.resolve_codename(&Version::new("24.10")), "oracular");
    assert_eq!(
        ubuntu.rootfs_url(&Version::new("18.04"), Arch::X86_64),
        "https://cloud-images.ubuntu.com/noble/current/noble-server-cloudimg-amd64-root.tar.xz"
    );
    let debian = get_official_provider(Distro::Debian).unwrap();
    assert_eq!(debian.resolve_codename(&Version::new("sid")), "bookworm");
}

#[test]
fn checksum_hash_is_lowercased() {
    let p = get_official_provider(Distro::Ubuntu).unwrap();
    let content = "ABCDEF01 *file.tar.xz\r\n";
    assert_eq!(p.parse_checksum(content, "file.tar.xz").unwrap(), "abcdef01");
    let f = get_official_provider(Distro::Fedora).unwrap();
    let bsd = "SHA256 (f.raw.xz) =  DEADBEEF  \n";
    assert_eq!(f.parse_checksum(bsd, "f.raw.xz").unwrap(), "deadbeef");
}

#[test]
fn single_entry_ignores_filename_and_rejects_empty() {
    let p = get_official_provider(Distro::Alpine).unwrap();
    assert_eq!(p.parse_checksum("  cafe0001 other.tar.gz\nbeef0002 x\n", "unused").unwrap(), "cafe0001");
    assert!(matches!(p.parse_checksum("", "x"), Err(Error::ChecksumParse)));
    assert!(matches!(p.parse_checksum("   \nabc x\n", "x"), Err(Error::ChecksumParse)));
}

#[test]
fn bsd_requires_sha_prefix_and_ordered_parentheses() {
    let f = get_official_provider(Distro::Fedora).unwrap();
    assert!(f.parse_checksum("MD5 (a.raw.xz) = 11\n", "a.raw.xz").is_err());
    assert!(f.parse_checksum("SHA256 )a.raw.xz( = 11\n", "a.raw.xz").is_err());
    assert_eq!(f.parse_checksum("SHA512 (a.raw.xz) = 22\n", "a.raw.xz").unwrap(), "22");
}

#[test]
fn gnu_first_matching_line_wins() {
    let p = get_official_provider(Distro::Debian).unwrap();
    let content = "noseparator\n111  a.tar.xz\n222  a.tar.xz\n";
    assert_eq!(p.parse_checksum(content, "a.tar.xz").unwrap(), "111");
}

#[test]
fn gnu_strips_one_binary_marker() {
    let p = get_official_provider(Distro::Ubuntu).unwrap();
    assert_eq!(p.parse_checksum("h **x\n", "*x").unwrap(), "h");
    assert!(p.parse_checksum("h **x\n", "x").is_err());
    assert_eq!(p.parse_checksum("h  *x\n", "x").unwrap(), "h");
}
