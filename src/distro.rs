//! The registry of supported distributions, version strings, and the
//! parsing of `name[:version]` specifications.

use vstd::prelude::*;
use crate::error::Error;
use crate::text::{chars_of, find_exec, find_from, lower_of, str_eq, to_lowercase};

verus! {

/// Supported Linux distributions.
#[derive(Debug, Clone, Copy, PartialEq, Eq, Hash, Structural)]
pub enum Distro {
    /// AlmaLinux, a RHEL-compatible enterprise distribution.
    Alma,
    /// Alpine Linux, a lightweight musl-based distribution.
    Alpine,
    /// Arch Linux, a rolling-release distribution.
    Arch,
    /// CentOS Stream, the upstream RHEL development platform.
    CentOS,
    /// Debian, a universal, stable distribution.
    Debian,
    /// Devuan, a Debian fork without systemd.
    Devuan,
    /// Fedora, a cutting-edge RPM-based distribution.
    Fedora,
    /// Gentoo, a source-based distribution.
    Gentoo,
    /// Kali Linux, a penetration testing distribution.
    Kali,
    /// NixOS, a declarative, reproducible distribution.
    NixOS,
    /// openEuler, an enterprise distribution.
    OpenEuler,
    /// openSUSE, a community RPM-based distribution.
    OpenSuse,
    /// Oracle Linux, a RHEL-compatible enterprise distribution.
    Oracle,
    /// Rocky Linux, a RHEL-compatible community distribution.
    Rocky,
    /// Ubuntu, a popular Debian-based distribution.
    Ubuntu,
    /// Void Linux, an independent rolling-release distribution.
    Void,
}

/// The identifier used in cache paths.
pub open spec fn slug_of(d: Distro) -> Seq<char> {
    match d {
        Distro::Alma => "alma"@,
        Distro::Alpine => "alpine"@,
        Distro::Arch => "arch"@,
        Distro::CentOS => "centos"@,
        Distro::Debian => "debian"@,
        Distro::Devuan => "devuan"@,
        Distro::Fedora => "fedora"@,
        Distro::Gentoo => "gentoo"@,
        Distro::Kali => "kali"@,
        Distro::NixOS => "nixos"@,
        Distro::OpenEuler => "openeuler"@,
        Distro::OpenSuse => "opensuse"@,
        Distro::Oracle => "oracle"@,
        Distro::Rocky => "rocky"@,
        Distro::Ubuntu => "ubuntu"@,
        Distro::Void => "void"@,
    }
}

/// The name used by the unified image index.
pub open spec fn index_name_of(d: Distro) -> Seq<char> {
    match d {
        Distro::Alma => "almalinux"@,
        Distro::Alpine => "alpine"@,
        Distro::Arch => "archlinux"@,
        Distro::CentOS => "centos"@,
        Distro::Debian => "debian"@,
        Distro::Devuan => "devuan"@,
        Distro::Fedora => "fedora"@,
        Distro::Gentoo => "gentoo"@,
        Distro::Kali => "kali"@,
        Distro::NixOS => "nixos"@,
        Distro::OpenEuler => "openeuler"@,
        Distro::OpenSuse => "opensuse"@,
        Distro::Oracle => "oracle"@,
        Distro::Rocky => "rockylinux"@,
        Distro::Ubuntu => "ubuntu"@,
        Distro::Void => "voidlinux"@,
    }
}

/// The version used when none is given.
pub open spec fn default_version_of(d: Distro) -> Seq<char> {
    match d {
        Distro::Alma => "9"@,
        Distro::Alpine => "3.21"@,
        Distro::Arch => "current"@,
        Distro::CentOS => "9-Stream"@,
        Distro::Debian => "12"@,
        Distro::Devuan => "daedalus"@,
        Distro::Fedora => "41"@,
        Distro::Gentoo => "current"@,
        Distro::Kali => "current"@,
        Distro::NixOS => "25.05"@,
        Distro::OpenEuler => "24.03"@,
        Distro::OpenSuse => "tumbleweed"@,
        Distro::Oracle => "9"@,
        Distro::Rocky => "9"@,
        Distro::Ubuntu => "24.04"@,
        Distro::Void => "current"@,
    }
}

/// The release name that the unified image index uses for version `v`.
pub open spec fn index_release_of(d: Distro, v: Seq<char>) -> Seq<char> {
    match d {
        Distro::Ubuntu => if v == "20.04"@ {
            "focal"@
        } else if v == "22.04"@ {
            "jammy"@
        } else if v == "24.04"@ {
            "noble"@
        } else if v == "24.10"@ {
            "oracular"@
        } else if v == "25.04"@ {
            "plucky"@
        } else {
            v
        },
        Distro::Debian => if v == "10"@ {
            "buster"@
        } else if v == "11"@ {
            "bullseye"@
        } else if v == "12"@ {
            "bookworm"@
        } else if v == "13"@ {
            "trixie"@
        } else {
            v
        },
        Distro::Devuan => if v == "4"@ {
            "chimaera"@
        } else if v == "5"@ {
            "daedalus"@
        } else if v == "6"@ {
            "excalibur"@
        } else {
            v
        },
        Distro::OpenSuse => if v == "15.6"@ {
            "15.6"@
        } else if v == "16.0"@ {
            "16.0"@
        } else if v == "tumbleweed"@ {
            "tumbleweed"@
        } else {
            v
        },
        _ => v,
    }
}

/// The distribution that a lowercase name or alias denotes.
pub open spec fn distro_named(s: Seq<char>) -> Option<Distro> {
    if s == "alma"@ || s == "almalinux"@ {
        Some(Distro::Alma)
    } else if s == "alpine"@ {
        Some(Distro::Alpine)
    } else if s == "arch"@ || s == "archlinux"@ {
        Some(Distro::Arch)
    } else if s == "centos"@ {
        Some(Distro::CentOS)
    } else if s == "debian"@ {
        Some(Distro::Debian)
    } else if s == "devuan"@ {
        Some(Distro::Devuan)
    } else if s == "fedora"@ {
        Some(Distro::Fedora)
    } else if s == "gentoo"@ {
        Some(Distro::Gentoo)
    } else if s == "kali"@ {
        Some(Distro::Kali)
    } else if s == "nixos"@ {
        Some(Distro::NixOS)
    } else if s == "openeuler"@ {
        Some(Distro::OpenEuler)
    } else if s == "opensuse"@ {
        Some(Distro::OpenSuse)
    } else if s == "oracle"@ {
        Some(Distro::Oracle)
    } else if s == "rocky"@ || s == "rockylinux"@ {
        Some(Distro::Rocky)
    } else if s == "ubuntu"@ {
        Some(Distro::Ubuntu)
    } else if s == "void"@ || s == "voidlinux"@ {
        Some(Distro::Void)
    } else {
        None
    }
}

/// Every supported distribution, in declaration order.
pub open spec fn all_distros() -> Seq<Distro> {
    seq![
        Distro::Alma,
        Distro::Alpine,
        Distro::Arch,
        Distro::CentOS,
        Distro::Debian,
        Distro::Devuan,
        Distro::Fedora,
        Distro::Gentoo,
        Distro::Kali,
        Distro::NixOS,
        Distro::OpenEuler,
        Distro::OpenSuse,
        Distro::Oracle,
        Distro::Rocky,
        Distro::Ubuntu,
        Distro::Void,
    ]
}

impl Distro {
    /// The identifier used in cache paths.
    pub fn as_str(&self) -> (r: &'static str)
        ensures
            r@ == slug_of(*self),
    {
        match self {
            Distro::Alma => "alma",
            Distro::Alpine => "alpine",
            Distro::Arch => "arch",
            Distro::CentOS => "centos",
            Distro::Debian => "debian",
            Distro::Devuan => "devuan",
            Distro::Fedora => "fedora",
            Distro::Gentoo => "gentoo",
            Distro::Kali => "kali",
            Distro::NixOS => "nixos",
            Distro::OpenEuler => "openeuler",
            Distro::OpenSuse => "opensuse",
            Distro::Oracle => "oracle",
            Distro::Rocky => "rocky",
            Distro::Ubuntu => "ubuntu",
            Distro::Void => "void",
        }
    }

    /// The name used by the unified image index.
    pub fn lxc_name(&self) -> (r: &'static str)
        ensures
            r@ == index_name_of(*self),
    {
        match self {
            Distro::Alma => "almalinux",
            Distro::Alpine => "alpine",
            Distro::Arch => "archlinux",
            Distro::CentOS => "centos",
            Distro::Debian => "debian",
            Distro::Devuan => "devuan",
            Distro::Fedora => "fedora",
            Distro::Gentoo => "gentoo",
            Distro::Kali => "kali",
            Distro::NixOS => "nixos",
            Distro::OpenEuler => "openeuler",
            Distro::OpenSuse => "opensuse",
            Distro::Oracle => "oracle",
            Distro::Rocky => "rockylinux",
            Distro::Ubuntu => "ubuntu",
            Distro::Void => "voidlinux",
        }
    }

    /// The version used when none is given.
    pub fn default_version(&self) -> (r: Version)
        ensures
            r@ == default_version_of(*self),
    {
        match self {
            Distro::Alma => Version::new("9"),
            Distro::Alpine => Version::new("3.21"),
            Distro::Arch => Version::new("current"),
            Distro::CentOS => Version::new("9-Stream"),
            Distro::Debian => Version::new("12"),
            Distro::Devuan => Version::new("daedalus"),
            Distro::Fedora => Version::new("41"),
            Distro::Gentoo => Version::new("current"),
            Distro::Kali => Version::new("current"),
            Distro::NixOS => Version::new("25.05"),
            Distro::OpenEuler => Version::new("24.03"),
            Distro::OpenSuse => Version::new("tumbleweed"),
            Distro::Oracle => Version::new("9"),
            Distro::Rocky => Version::new("9"),
            Distro::Ubuntu => Version::new("24.04"),
            Distro::Void => Version::new("current"),
        }
    }

    /// Maps a user-facing version to the release name of the unified image
    /// index; most distributions use the version as it is.
    pub fn lxc_release(&self, version: &Version) -> (r: String)
        ensures
            r@ == index_release_of(*self, version@),
    {
        let v = version.as_str();
        match self {
            Distro::Ubuntu => if str_eq(v, "20.04") {
                "focal".to_owned()
            } else if str_eq(v, "22.04") {
                "jammy".to_owned()
            } else if str_eq(v, "24.04") {
                "noble".to_owned()
            } else if str_eq(v, "24.10") {
                "oracular".to_owned()
            } else if str_eq(v, "25.04") {
                "plucky".to_owned()
            } else {
                v.to_owned()
            },
            Distro::Debian => if str_eq(v, "10") {
                "buster".to_owned()
            } else if str_eq(v, "11") {
                "bullseye".to_owned()
            } else if str_eq(v, "12") {
                "bookworm".to_owned()
            } else if str_eq(v, "13") {
                "trixie".to_owned()
            } else {
                v.to_owned()
            },
            Distro::Devuan => if str_eq(v, "4") {
                "chimaera".to_owned()
            } else if str_eq(v, "5") {
                "daedalus".to_owned()
            } else if str_eq(v, "6") {
                "excalibur".to_owned()
            } else {
                v.to_owned()
            },
            Distro::OpenSuse => if str_eq(v, "15.6") {
                "15.6".to_owned()
            } else if str_eq(v, "16.0") {
                "16.0".to_owned()
            } else if str_eq(v, "tumbleweed") {
                "tumbleweed".to_owned()
            } else {
                v.to_owned()
            },
            _ => v.to_owned(),
        }
    }

    /// Every supported distribution.
    pub fn all() -> (r: Vec<Distro>)
        ensures
            r@ == all_distros(),
    {
        let mut r: Vec<Distro> = Vec::new();
        r.push(Distro::Alma);
        r.push(Distro::Alpine);
        r.push(Distro::Arch);
        r.push(Distro::CentOS);
        r.push(Distro::Debian);
        r.push(Distro::Devuan);
        r.push(Distro::Fedora);
        r.push(Distro::Gentoo);
        r.push(Distro::Kali);
        r.push(Distro::NixOS);
        r.push(Distro::OpenEuler);
        r.push(Distro::OpenSuse);
        r.push(Distro::Oracle);
        r.push(Distro::Rocky);
        r.push(Distro::Ubuntu);
        r.push(Distro::Void);
        assert(r@ =~= all_distros());
        r
    }
}

/// A distribution version string, such as `"3.21"`, `"24.04"` or `"bookworm"`.
#[derive(Debug, Clone, PartialEq, Eq, Hash)]
pub struct Version(String);

impl View for Version {
    type V = Seq<char>;

    closed spec fn view(&self) -> Seq<char> {
        self.0@
    }
}

impl Version {
    /// A version holding the characters of `version`.
    pub fn new(version: &str) -> (r: Self)
        ensures
            r@ == version@,
    {
        Version(version.to_owned())
    }

    /// The version as a string slice.
    pub fn as_str(&self) -> (r: &str)
        ensures
            r@ == self@,
    {
        self.0.as_str()
    }
}

/// The distribution that a name or alias denotes.
pub fn distro_from_name(s: &str) -> (r: Option<Distro>)
    ensures
        r == distro_named(s@),
{
    if str_eq(s, "alma") || str_eq(s, "almalinux") {
        Some(Distro::Alma)
    } else if str_eq(s, "alpine") {
        Some(Distro::Alpine)
    } else if str_eq(s, "arch") || str_eq(s, "archlinux") {
        Some(Distro::Arch)
    } else if str_eq(s, "centos") {
        Some(Distro::CentOS)
    } else if str_eq(s, "debian") {
        Some(Distro::Debian)
    } else if str_eq(s, "devuan") {
        Some(Distro::Devuan)
    } else if str_eq(s, "fedora") {
        Some(Distro::Fedora)
    } else if str_eq(s, "gentoo") {
        Some(Distro::Gentoo)
    } else if str_eq(s, "kali") {
        Some(Distro::Kali)
    } else if str_eq(s, "nixos") {
        Some(Distro::NixOS)
    } else if str_eq(s, "openeuler") {
        Some(Distro::OpenEuler)
    } else if str_eq(s, "opensuse") {
        Some(Distro::OpenSuse)
    } else if str_eq(s, "oracle") {
        Some(Distro::Oracle)
    } else if str_eq(s, "rocky") || str_eq(s, "rockylinux") {
        Some(Distro::Rocky)
    } else if str_eq(s, "ubuntu") {
        Some(Distro::Ubuntu)
    } else if str_eq(s, "void") || str_eq(s, "voidlinux") {
        Some(Distro::Void)
    } else {
        None
    }
}

/// The name part of a `name[:version]` specification.
pub open spec fn spec_name(spec: Seq<char>) -> Seq<char> {
    match find_from(spec, ':', 0) {
        Some(i) => spec.subrange(0, i),
        None => spec,
    }
}

/// The version part of a `name[:version]` specification, if it has one.
pub open spec fn spec_version(spec: Seq<char>) -> Option<Seq<char>> {
    match find_from(spec, ':', 0) {
        Some(i) => Some(spec.subrange(i + 1, spec.len() as int)),
        None => None,
    }
}

/// Parses a specification such as `"alpine:3.20"` or `"ubuntu"`: the name,
/// in any case, is split from the version at the first colon, and a missing
/// version is the distribution's default.
pub fn parse_distro_spec(spec: &str) -> (r: Result<(Distro, Version), Error>)
    ensures
        match distro_named(lower_of(spec_name(spec@))) {
            Some(d) => match r {
                Ok(p) => p.0 == d && p.1@ == match spec_version(spec@) {
                    Some(v) => v,
                    None => default_version_of(d),
                },
                Err(_) => false,
            },
            None => match r {
                Err(Error::UnsupportedDistro(n)) => n@ == spec_name(spec@),
                _ => false,
            },
        },
{
    let cs = chars_of(spec);
    let n = cs.len();
    let (name, version) = match find_exec(&cs, ':', 0) {
        Some(i) => (spec.substring_char(0, i), Some(spec.substring_char(i + 1, n))),
        None => (spec, None),
    };
    let lower = to_lowercase(name);
    let distro = match distro_from_name(lower.as_str()) {
        Some(d) => d,
        None => return Err(Error::UnsupportedDistro(name.to_owned())),
    };
    let version = match version {
        Some(v) => Version::new(v),
        None => distro.default_version(),
    };
    Ok((distro, version))
}

} // verus!
