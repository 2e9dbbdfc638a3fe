use distro_rootfs::distro::distro_from_name;
use distro_rootfs::{parse_distro_spec, Arch, Distro, Error, Version};

#[test]
fn parse_with_version() {
    let (d, v) = parse_distro_spec("alpine:3.20").unwrap();
    assert_eq!(d, Distro::Alpine);
    assert_eq!(v.as_str(), "3.20");
}

#[test]
fn parse_without_version() {
    let (d, v) = parse_distro_spec("ubuntu").unwrap();
    assert_eq!(d, Distro::Ubuntu);
    assert_eq!(v.as_str(), "24.04");
}

#[test]
fn parse_aliases() {
    assert_eq!(parse_distro_spec("almalinux").unwrap().0, Distro::Alma);
    assert_eq!(parse_distro_spec("archlinux").unwrap().0, Distro::Arch);
    assert_eq!(parse_distro_spec("rockylinux").unwrap().0, Distro::Rocky);
    assert_eq!(parse_distro_spec("voidlinux").unwrap().0, Distro::Void);
}

#[test]
fn parse_unsupported() {
    assert!(parse_distro_spec("windows").is_err());
}

#[test]
fn parse_unsupported_carries_name() {
    match parse_distro_spec("Windows:11") {
        Err(Error::UnsupportedDistro(name)) => assert_eq!(name, "Windows"),
        other => panic!("unexpected result {:?}", other),
    }
}

#[test]
fn parse_is_case_insensitive() {
    let (d, v) = parse_distro_spec("DEBIAN:13").unwrap();
    assert_eq!(d, Distro::Debian);
    assert_eq!(v.as_str(), "13");
}

#[test]
fn parse_splits_at_first_colon() {
    let (d, v) = parse_distro_spec("fedora:41:extra").unwrap();
    assert_eq!(d, Distro::Fedora);
    assert_eq!(v.as_str(), "41:extra");
}

#[test]
fn parse_empty_version() {
    let (d, v) = parse_distro_spec("gentoo:").unwrap();
    assert_eq!(d, Distro::Gentoo);
    assert_eq!(v.as_str(), "");
}

#[test]
fn lxc_release_ubuntu() {
    assert_eq!(Distro::Ubuntu.lxc_release(&Version::new("24.04")), "noble");
    assert_eq!(Distro::Ubuntu.lxc_release(&Version::new("22.04")), "jammy");
}

#[test]
fn lxc_release_debian() {
    assert_eq!(Distro::Debian.lxc_release(&Version::new("12")), "bookworm");
    assert_eq!(Distro::Debian.lxc_release(&Version::new("13")), "trixie");
}

#[test]
fn lxc_release_passthrough() {
    assert_eq!(Distro::Alpine.lxc_release(&Version::new("3.21")), "3.21");
    assert_eq!(Distro::Fedora.lxc_release(&Version::new("41")), "41");
}

#[test]
fn lxc_release_devuan_and_unknown_ubuntu() {
    assert_eq!(Distro::Devuan.lxc_release(&Version::new("5")), "daedalus");
    assert_eq!(Distro::Ubuntu.lxc_release(&Version::new("18.04")), "18.04");
}

#[test]
fn all_distros_count() {
    assert_eq!(Distro::all().len(), 16);
}

#[test]
fn lxc_names_unique() {
    let names: Vec<_> = Distro::all().iter().map(|d| d.lxc_name()).collect();
    let mut deduped = names.clone();
    deduped.sort();
    deduped.dedup();
    assert_eq!(names.len(), deduped.len());
}

#[test]
fn slugs_and_defaults() {
    assert_eq!(Distro::CentOS.as_str(), "centos");
    assert_eq!(Distro::Rocky.lxc_name(), "rockylinux");
    assert_eq!(Distro::CentOS.default_version().as_str(), "9-Stream");
    assert_eq!(Distro::OpenSuse.default_version().as_str(), "tumbleweed");
}

#[test]
fn names_resolve_to_distros() {
    assert_eq!(distro_from_name("nixos"), Some(Distro::NixOS));
    assert_eq!(distro_from_name("NixOS"), None);
    assert_eq!(distro_from_name("alma"), Some(Distro::Alma));
}

#[test]
fn arch_names() {
    assert_eq!(Arch::Aarch64.linux_name(), "aarch64");
    assert_eq!(Arch::X86_64.deb_name(), "amd64");
    assert_eq!(Arch::Aarch64.lxc_name(), "arm64");
    assert_eq!(Arch::current("x86_64"), Some(Arch::X86_64));
    assert_eq!(Arch::current("riscv64"), None);
}
