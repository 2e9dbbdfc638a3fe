//! Target CPU architectures and their three renderings.

use vstd::prelude::*;
use crate::text::str_eq;

verus! {

/// Target CPU architecture for distribution images.
#[derive(Debug, Clone, Copy, PartialEq, Eq, Hash, Structural)]
pub enum Arch {
    /// ARM 64-bit.
    Aarch64,
    /// x86 64-bit.
    X86_64,
}

/// Kernel-style name.
pub open spec fn linux_name_of(a: Arch) -> Seq<char> {
    match a {
        Arch::Aarch64 => "aarch64"@,
        Arch::X86_64 => "x86_64"@,
    }
}

/// Debian-style name, which the unified image index uses too.
pub open spec fn deb_name_of(a: Arch) -> Seq<char> {
    match a {
        Arch::Aarch64 => "arm64"@,
        Arch::X86_64 => "amd64"@,
    }
}

impl Arch {
    /// The architecture that a compiler target names `target_arch`
    /// (`"aarch64"` or `"x86_64"`), if supported.
    pub fn current(target_arch: &str) -> (r: Option<Self>)
        ensures
            r == (if target_arch@ == "aarch64"@ {
                Some(Arch::Aarch64)
            } else if target_arch@ == "x86_64"@ {
                Some(Arch::X86_64)
            } else {
                None
            }),
    {
        if str_eq(target_arch, "aarch64") {
            Some(Arch::Aarch64)
        } else if str_eq(target_arch, "x86_64") {
            Some(Arch::X86_64)
        } else {
            None
        }
    }

    /// The name used by the Linux kernel and most distributions.
    pub fn linux_name(&self) -> (r: &'static str)
        ensures
            r@ == linux_name_of(*self),
    {
        match self {
            Arch::Aarch64 => "aarch64",
            Arch::X86_64 => "x86_64",
        }
    }

    /// The Debian/Ubuntu-style name.
    pub fn deb_name(&self) -> (r: &'static str)
        ensures
            r@ == deb_name_of(*self),
    {
        match self {
            Arch::Aarch64 => "arm64",
            Arch::X86_64 => "amd64",
        }
    }

    /// The name used by the unified image index (the Debian-style name).
    pub fn lxc_name(&self) -> (r: &'static str)
        ensures
            r@ == deb_name_of(*self),
    {
        self.deb_name()
    }
}

} // verus!
