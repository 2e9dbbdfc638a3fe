//! Official per-distribution download specifications and the one resolver
//! that interprets them.

use vstd::prelude::*;
use crate::arch::{deb_name_of, linux_name_of, Arch};
use crate::checksum::{checksum_hash, find_checksum};
use crate::distro::{Distro, Version};
use crate::error::Error;
use crate::text::{
    chars_of, find_exec, find_from, lemma_find_from, lower_of, replace_all, replace_str, str_eq,
    to_lowercase,
};

pub use crate::checksum::ChecksumFormat;

verus! {

/// Hash algorithm that a checksum file uses.
#[derive(Debug, Clone, Copy, PartialEq, Eq, Structural)]
pub enum HashAlgorithm {
    /// SHA-256.
    Sha256,
    /// SHA-512.
    Sha512,
}

/// How the architecture appears in URLs.
#[derive(Debug, Clone, Copy, PartialEq, Eq, Structural)]
pub enum ArchNaming {
    /// Kernel style: `aarch64` / `x86_64`.
    Linux,
    /// Debian style: `arm64` / `amd64`.
    Debian,
}

/// The rendering of `a` under naming `n`.
pub open spec fn arch_name_of(n: ArchNaming, a: Arch) -> Seq<char> {
    match n {
        ArchNaming::Linux => linux_name_of(a),
        ArchNaming::Debian => deb_name_of(a),
    }
}

impl ArchNaming {
    /// The rendering of `arch` under this naming.
    pub fn resolve(self, arch: Arch) -> (r: &'static str)
        ensures
            r@ == arch_name_of(self, arch),
    {
        match self {
            ArchNaming::Linux => arch.linux_name(),
            ArchNaming::Debian => arch.deb_name(),
        }
    }
}

/// How `{major_minor}` is derived from the version.
#[derive(Debug, Clone, Copy, PartialEq, Eq, Structural)]
pub enum VersionTransform {
    /// The version as it is.
    Identity,
    /// The version up to its second `.`-delimited segment (`3.21.3` gives `3.21`).
    MajorMinor,
}

/// Static description of how to download and verify a distribution's root
/// filesystem archive from its official source.
pub struct DistroSpec {
    /// URL template of the archive; placeholders `{version}`, `{arch}`,
    /// `{codename}` and `{major_minor}`.
    pub rootfs_url: &'static str,
    /// URL template of the checksum file, with the same placeholders.
    pub checksum_url: Option<&'static str>,
    /// Grammar of the checksum file.
    pub checksum_format: ChecksumFormat,
    /// Hash algorithm of the checksum file.
    pub hash_algorithm: HashAlgorithm,
    /// How architecture names appear in URLs.
    pub arch_naming: ArchNaming,
    /// Version to codename pairs, looked up by exact version.
    pub codename_table: Option<Vec<(&'static str, &'static str)>>,
    /// Codename used when the table has no entry for the version.
    pub default_codename: &'static str,
    /// How `{major_minor}` is derived from the version.
    pub version_transform: VersionTransform,
}

/// The codename of the first entry of `t[k..]` for version `v`, else `default`.
pub open spec fn codename_from(
    t: Seq<(&'static str, &'static str)>,
    v: Seq<char>,
    default: Seq<char>,
    k: int,
) -> Seq<char>
    decreases t.len() - k,
{
    if 0 <= k < t.len() {
        if t[k].0@ == v {
            t[k].1@
        } else {
            codename_from(t, v, default, k + 1)
        }
    } else {
        default
    }
}

/// The codename that `cfg` gives for version `v`.
pub open spec fn codename_of(cfg: DistroSpec, v: Seq<char>) -> Seq<char> {
    match cfg.codename_table {
        Some(t) => codename_from(t@, v, cfg.default_codename@, 0),
        None => cfg.default_codename@,
    }
}

/// `v` up to, not including, its second `.`; `v` itself when it has fewer
/// than two.
pub open spec fn major_minor(v: Seq<char>) -> Seq<char> {
    match find_from(v, '.', 0) {
        Some(i) => match find_from(v, '.', i + 1) {
            Some(j) => v.subrange(0, j),
            None => v,
        },
        None => v,
    }
}

/// What `{major_minor}` stands for under transform `t`.
pub open spec fn transformed(t: VersionTransform, v: Seq<char>) -> Seq<char> {
    match t {
        VersionTransform::Identity => v,
        VersionTransform::MajorMinor => major_minor(v),
    }
}

/// `template` with each placeholder replaced, in the order `{version}`,
/// `{arch}`, `{codename}`, `{major_minor}`.
pub open spec fn fill_template(cfg: DistroSpec, template: Seq<char>, v: Seq<char>, a: Arch) -> Seq<
    char,
> {
    replace_all(
        replace_all(
            replace_all(
                replace_all(template, "{version}"@, v),
                "{arch}"@,
                arch_name_of(cfg.arch_naming, a),
            ),
            "{codename}"@,
            codename_of(cfg, v),
        ),
        "{major_minor}"@,
        transformed(cfg.version_transform, v),
    )
}

/// A version with fewer than two dots is its own major-minor form (`3.21`
/// stays `3.21`).
pub proof fn lemma_major_minor_short(v: Seq<char>)
    requires
        forall|i: int, j: int| 0 <= i < j < v.len() ==> !(#[trigger] v[i] == '.' && #[trigger] v[j] == '.'),
    ensures
        major_minor(v) == v,
{
    lemma_find_from(v, '.', 0);
    if let Some(i) = find_from(v, '.', 0) {
        lemma_find_from(v, '.', i + 1);
        if let Some(j) = find_from(v, '.', i + 1) {
            assert(v[i] == '.' && v[j] == '.');
        }
    }
}

/// A version with two dots or more is cut just before its second dot
/// (`3.21.3` gives `3.21`).
pub proof fn lemma_major_minor_cut(v: Seq<char>, i: int, j: int)
    requires
        0 <= i < j < v.len(),
        v[i] == '.',
        v[j] == '.',
        forall|k: int| 0 <= k < j && k != i ==> #[trigger] v[k] != '.',
    ensures
        major_minor(v) == v.subrange(0, j),
{
    lemma_find_from(v, '.', 0);
    let a = find_from(v, '.', 0)->0;
    assert(a == i);
    lemma_find_from(v, '.', i + 1);
    let b = find_from(v, '.', i + 1)->0;
    assert(b == j);
}

proof fn lemma_codename_from_absent(
    t: Seq<(&'static str, &'static str)>,
    v: Seq<char>,
    default: Seq<char>,
    k: int,
)
    requires
        0 <= k,
        forall|x: int| 0 <= x < t.len() ==> (#[trigger] t[x]).0@ != v,
    ensures
        codename_from(t, v, default, k) == default,
    decreases t.len() - k,
{
    if k < t.len() {
        assert(t[k].0@ != v);
        lemma_codename_from_absent(t, v, default, k + 1);
    }
}

/// A version without an entry in the codename table gets the default
/// codename.
pub proof fn lemma_codename_fallback(cfg: DistroSpec, v: Seq<char>)
    requires
        match cfg.codename_table {
            Some(t) => forall|x: int| 0 <= x < t@.len() ==> (#[trigger] t@[x]).0@ != v,
            None => true,
        },
    ensures
        codename_of(cfg, v) == cfg.default_codename@,
{
    if let Some(t) = cfg.codename_table {
        lemma_codename_from_absent(t@, v, cfg.default_codename@, 0);
    }
}

/// The one resolver, driven by a [`DistroSpec`].
pub struct TemplateProvider {
    spec: DistroSpec,
}

impl TemplateProvider {
    /// The specification this provider interprets.
    pub closed spec fn config(&self) -> DistroSpec {
        self.spec
    }

    /// A provider for `spec`.
    pub fn new(spec: DistroSpec) -> (r: Self)
        ensures
            r.config() == spec,
    {
        TemplateProvider { spec }
    }

    /// `template` with all placeholders resolved.
    fn resolve_url(&self, template: &str, version: &Version, arch: Arch) -> (r: String)
        ensures
            r@ == fill_template(self.config(), template@, version@, arch),
    {
        let arch_str = self.spec.arch_naming.resolve(arch);
        let codename = self.resolve_codename(version);
        let major_minor = self.resolve_major_minor(version);
        proof {
            reveal_strlit("{version}");
            reveal_strlit("{arch}");
            reveal_strlit("{codename}");
            reveal_strlit("{major_minor}");
        }
        let s1 = replace_str(template, "{version}", version.as_str());
        let s2 = replace_str(s1.as_str(), "{arch}", arch_str);
        let s3 = replace_str(s2.as_str(), "{codename}", codename);
        replace_str(s3.as_str(), "{major_minor}", major_minor.as_str())
    }

    /// The codename of the first table entry for `version`, else the default
    /// codename.
    pub fn resolve_codename(&self, version: &Version) -> (r: &'static str)
        ensures
            r@ == codename_of(self.config(), version@),
    {
        match &self.spec.codename_table {
            Some(table) => {
                let v = version.as_str();
                let mut k: usize = 0;
                while k < table.len()
                    invariant
                        v@ == version@,
                        self.spec.codename_table == Some(*table),
                        k <= table@.len(),
                        codename_from(table@, v@, self.spec.default_codename@, 0)
                            == codename_from(table@, v@, self.spec.default_codename@, k as int),
                    decreases table@.len() - k,
                {
                    if str_eq(table[k].0, v) {
                        return table[k].1;
                    }
                    k = k + 1;
                }
                self.spec.default_codename
            },
            None => self.spec.default_codename,
        }
    }

    /// What `{major_minor}` stands for.
    pub fn resolve_major_minor(&self, version: &Version) -> (r: String)
        ensures
            r@ == transformed(self.config().version_transform, version@),
    {
        let v = version.as_str();
        match self.spec.version_transform {
            VersionTransform::Identity => v.to_owned(),
            VersionTransform::MajorMinor => {
                let cs = chars_of(v);
                if let Some(i) = find_exec(&cs, '.', 0) {
                    if let Some(j) = find_exec(&cs, '.', i + 1) {
                        return v.substring_char(0, j).to_owned();
                    }
                }
                v.to_owned()
            },
        }
    }

    /// The hash that `content` gives for `filename`, lowercased.
    fn parse_checksum_impl(&self, content: &str, filename: &str) -> (r: Result<String, Error>)
        ensures
            match checksum_hash(self.config().checksum_format, content@, filename@) {
                Some(h) => match r {
                    Ok(s) => s@ == lower_of(h),
                    Err(_) => false,
                },
                None => r matches Err(Error::ChecksumParse),
            },
    {
        match find_checksum(self.spec.checksum_format, content, filename) {
            Some(h) => Ok(to_lowercase(h)),
            None => Err(Error::ChecksumParse),
        }
    }

    /// The download URL of the archive for `version` and `arch`.
    pub fn rootfs_url(&self, version: &Version, arch: Arch) -> (r: String)
        ensures
            r@ == fill_template(self.config(), self.config().rootfs_url@, version@, arch),
    {
        self.resolve_url(self.spec.rootfs_url, version, arch)
    }

    /// The URL of the checksum file, where the specification has one.
    pub fn checksum_url(&self, version: &Version, arch: Arch) -> (r: Option<String>)
        ensures
            match self.config().checksum_url {
                Some(t) => match r {
                    Some(u) => u@ == fill_template(self.config(), t@, version@, arch),
                    None => false,
                },
                None => r is None,
            },
    {
        match self.spec.checksum_url {
            Some(tpl) => Some(self.resolve_url(tpl, version, arch)),
            None => None,
        }
    }

    /// The hash that the checksum file `content` gives for `filename`,
    /// lowercased, or `ChecksumParse` when it gives none.
    pub fn parse_checksum(&self, content: &str, filename: &str) -> (r: Result<String, Error>)
        ensures
            match checksum_hash(self.config().checksum_format, content@, filename@) {
                Some(h) => match r {
                    Ok(s) => s@ == lower_of(h),
                    Err(_) => false,
                },
                None => r matches Err(Error::ChecksumParse),
            },
    {
        self.parse_checksum_impl(content, filename)
    }

    /// The hash algorithm of the checksum file.
    pub fn hash_algorithm(&self) -> (r: HashAlgorithm)
        ensures
            r == self.config().hash_algorithm,
    {
        self.spec.hash_algorithm
    }
}


/// Whether `t` holds exactly the version and codename pairs `pairs`, in order.
pub open spec fn table_is(t: Seq<(&'static str, &'static str)>, pairs: Seq<(Seq<char>, Seq<char>)>) -> bool {
    &&& t.len() == pairs.len()
    &&& forall|k: int| 0 <= k < t.len() ==> #[trigger] t[k].0@ == pairs[k].0 && t[k].1@ == pairs[k].1
}

/// Whether `cfg` is the Alpine Linux specification.
pub open spec fn is_alpine_spec(cfg: DistroSpec) -> bool {
    &&& cfg.rootfs_url@ == "https://dl-cdn.alpinelinux.org/alpine/v{major_minor}/releases/{arch}/alpine-minirootfs-{version}-{arch}.tar.gz"@
    &&& match cfg.checksum_url {
        Some(c) => c@ == "https://dl-cdn.alpinelinux.org/alpine/v{major_minor}/releases/{arch}/alpine-minirootfs-{version}-{arch}.tar.gz.sha256"@,
        None => false,
    }
    &&& cfg.checksum_format == ChecksumFormat::SingleEntry
    &&& cfg.hash_algorithm == HashAlgorithm::Sha256
    &&& cfg.arch_naming == ArchNaming::Linux
    &&& cfg.codename_table is None
    &&& cfg.default_codename@ == ""@
    &&& cfg.version_transform == VersionTransform::MajorMinor
}

/// The Alpine Linux official source specification.
pub fn alpine_spec() -> (r: DistroSpec)
    ensures
        is_alpine_spec(r),
{
    let table: Option<Vec<(&'static str, &'static str)>> = None;
    DistroSpec {
        rootfs_url: "https://dl-cdn.alpinelinux.org/alpine/v{major_minor}/releases/{arch}/alpine-minirootfs-{version}-{arch}.tar.gz",
        checksum_url: Some("https://dl-cdn.alpinelinux.org/alpine/v{major_minor}/releases/{arch}/alpine-minirootfs-{version}-{arch}.tar.gz.sha256"),
        checksum_format: ChecksumFormat::SingleEntry,
        hash_algorithm: HashAlgorithm::Sha256,
        arch_naming: ArchNaming::Linux,
        codename_table: table,
        default_codename: "",
        version_transform: VersionTransform::MajorMinor,
    }
}

/// Whether `cfg` is the Ubuntu cloud images specification.
pub open spec fn is_ubuntu_spec(cfg: DistroSpec) -> bool {
    &&& cfg.rootfs_url@ == "https://cloud-images.ubuntu.com/{codename}/current/{codename}-server-cloudimg-{arch}-root.tar.xz"@
    &&& match cfg.checksum_url {
        Some(c) => c@ == "https://cloud-images.ubuntu.com/{codename}/current/SHA256SUMS"@,
        None => false,
    }
    &&& cfg.checksum_format == ChecksumFormat::GnuCoreutils
    &&& cfg.hash_algorithm == HashAlgorithm::Sha256
    &&& cfg.arch_naming == ArchNaming::Debian
    &&& match cfg.codename_table {
        Some(t) => table_is(t@, seq![("20.04"@, "focal"@), ("22.04"@, "jammy"@), ("24.04"@, "noble"@), ("24.10"@, "oracular"@), ("25.04"@, "plucky"@)]),
        None => false,
    }
    &&& cfg.default_codename@ == "noble"@
    &&& cfg.version_transform == VersionTransform::Identity
}

/// The Ubuntu cloud images official source specification.
pub fn ubuntu_spec() -> (r: DistroSpec)
    ensures
        is_ubuntu_spec(r),
{
    let mut t: Vec<(&'static str, &'static str)> = Vec::new();
    t.push(("20.04", "focal"));
    t.push(("22.04", "jammy"));
    t.push(("24.04", "noble"));
    t.push(("24.10", "oracular"));
    t.push(("25.04", "plucky"));
    assert(table_is(t@, seq![("20.04"@, "focal"@), ("22.04"@, "jammy"@), ("24.04"@, "noble"@), ("24.10"@, "oracular"@), ("25.04"@, "plucky"@)]));
    let table = Some(t);
    DistroSpec {
        rootfs_url: "https://cloud-images.ubuntu.com/{codename}/current/{codename}-server-cloudimg-{arch}-root.tar.xz",
        checksum_url: Some("https://cloud-images.ubuntu.com/{codename}/current/SHA256SUMS"),
        checksum_format: ChecksumFormat::GnuCoreutils,
        hash_algorithm: HashAlgorithm::Sha256,
        arch_naming: ArchNaming::Debian,
        codename_table: table,
        default_codename: "noble",
        version_transform: VersionTransform::Identity,
    }
}

/// Whether `cfg` is the Debian cloud images specification.
pub open spec fn is_debian_spec(cfg: DistroSpec) -> bool {
    &&& cfg.rootfs_url@ == "https://cloud.debian.org/images/cloud/{codename}/latest/debian-{version}-nocloud-{arch}.tar.xz"@
    &&& match cfg.checksum_url {
        Some(c) => c@ == "https://cloud.debian.org/images/cloud/{codename}/latest/SHA512SUMS"@,
        None => false,
    }
    &&& cfg.checksum_format == ChecksumFormat::GnuCoreutils
    &&& cfg.hash_algorithm == HashAlgorithm::Sha512
    &&& cfg.arch_naming == ArchNaming::Debian
    &&& match cfg.codename_table {
        Some(t) => table_is(t@, seq![("10"@, "buster"@), ("11"@, "bullseye"@), ("12"@, "bookworm"@), ("13"@, "trixie"@)]),
        None => false,
    }
    &&& cfg.default_codename@ == "bookworm"@
    &&& cfg.version_transform == VersionTransform::Identity
}

/// The Debian cloud images official source specification.
pub fn debian_spec() -> (r: DistroSpec)
    ensures
        is_debian_spec(r),
{
    let mut t: Vec<(&'static str, &'static str)> = Vec::new();
    t.push(("10", "buster"));
    t.push(("11", "bullseye"));
    t.push(("12", "bookworm"));
    t.push(("13", "trixie"));
    assert(table_is(t@, seq![("10"@, "buster"@), ("11"@, "bullseye"@), ("12"@, "bookworm"@), ("13"@, "trixie"@)]));
    let table = Some(t);
    DistroSpec {
        rootfs_url: "https://cloud.debian.org/images/cloud/{codename}/latest/debian-{version}-nocloud-{arch}.tar.xz",
        checksum_url: Some("https://cloud.debian.org/images/cloud/{codename}/latest/SHA512SUMS"),
        checksum_format: ChecksumFormat::GnuCoreutils,
        hash_algorithm: HashAlgorithm::Sha512,
        arch_naming: ArchNaming::Debian,
        codename_table: table,
        default_codename: "bookworm",
        version_transform: VersionTransform::Identity,
    }
}

/// Whether `cfg` is the Fedora cloud images specification.
pub open spec fn is_fedora_spec(cfg: DistroSpec) -> bool {
    &&& cfg.rootfs_url@ == "https://download.fedoraproject.org/pub/fedora/linux/releases/{version}/Cloud/{arch}/images/Fedora-Cloud-Base-{version}-1.2.{arch}.raw.xz"@
    &&& match cfg.checksum_url {
        Some(c) => c@ == "https://download.fedoraproject.org/pub/fedora/linux/releases/{version}/Cloud/{arch}/images/Fedora-Cloud-{version}-1.2-{arch}-CHECKSUM"@,
        None => false,
    }
    &&& cfg.checksum_format == ChecksumFormat::Bsd
    &&& cfg.hash_algorithm == HashAlgorithm::Sha256
    &&& cfg.arch_naming == ArchNaming::Linux
    &&& cfg.codename_table is None
    &&& cfg.default_codename@ == ""@
    &&& cfg.version_transform == VersionTransform::Identity
}

/// The Fedora cloud images official source specification.
pub fn fedora_spec() -> (r: DistroSpec)
    ensures
        is_fedora_spec(r),
{
    let table: Option<Vec<(&'static str, &'static str)>> = None;
    DistroSpec {
        rootfs_url: "https://download.fedoraproject.org/pub/fedora/linux/releases/{version}/Cloud/{arch}/images/Fedora-Cloud-Base-{version}-1.2.{arch}.raw.xz",
        checksum_url: Some("https://download.fedoraproject.org/pub/fedora/linux/releases/{version}/Cloud/{arch}/images/Fedora-Cloud-{version}-1.2-{arch}-CHECKSUM"),
        checksum_format: ChecksumFormat::Bsd,
        hash_algorithm: HashAlgorithm::Sha256,
        arch_naming: ArchNaming::Linux,
        codename_table: table,
        default_codename: "",
        version_transform: VersionTransform::Identity,
    }
}

/// Whether `d` has an official specification.
pub open spec fn has_official_spec(d: Distro) -> bool {
    d == Distro::Alpine || d == Distro::Ubuntu || d == Distro::Debian || d == Distro::Fedora
}

/// Whether `p` interprets the official specification of `d`.
pub open spec fn official_provider_for(d: Distro, p: TemplateProvider) -> bool {
    match d {
        Distro::Alpine => is_alpine_spec(p.config()),
        Distro::Ubuntu => is_ubuntu_spec(p.config()),
        Distro::Debian => is_debian_spec(p.config()),
        Distro::Fedora => is_fedora_spec(p.config()),
        _ => false,
    }
}

/// The official template provider for `distro`; only Alpine, Ubuntu, Debian
/// and Fedora have one, the others use the unified image index.
pub fn get_official_provider(distro: Distro) -> (r: Option<TemplateProvider>)
    ensures
        r is Some <==> has_official_spec(distro),
        r matches Some(p) ==> official_provider_for(distro, p),
{
    let spec = match distro {
        Distro::Alpine => alpine_spec(),
        Distro::Ubuntu => ubuntu_spec(),
        Distro::Debian => debian_spec(),
        Distro::Fedora => fedora_spec(),
        _ => return None,
    };
    Some(TemplateProvider::new(spec))
}

} // verus!
