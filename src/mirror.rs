//! Mirrors of the unified image index and its files.

use vstd::prelude::*;
use crate::text::{concat_str, trim_end_char, trim_end_char_exec};

verus! {

/// Where the unified image index and its images are fetched from. Every
/// mirror serves the same index layout; only the base URL differs.
#[derive(Debug, Clone)]
pub enum Mirror {
    /// images.linuxcontainers.org
    Official,
    /// mirrors.tuna.tsinghua.edu.cn/lxc-images
    Tuna,
    /// mirrors.ustc.edu.cn/lxc-images
    Ustc,
    /// mirrors.bfsu.edu.cn/lxc-images
    Bfsu,
    /// Any other base URL.
    Custom(String),
}

/// The base URL of a mirror, without trailing slashes.
pub open spec fn base_url_of(m: Mirror) -> Seq<char> {
    match m {
        Mirror::Official => "https://images.linuxcontainers.org"@,
        Mirror::Tuna => "https://mirrors.tuna.tsinghua.edu.cn/lxc-images"@,
        Mirror::Ustc => "https://mirrors.ustc.edu.cn/lxc-images"@,
        Mirror::Bfsu => "https://mirrors.bfsu.edu.cn/lxc-images"@,
        Mirror::Custom(url) => trim_end_char(url@, '/'),
    }
}

impl Mirror {
    /// The base URL for this mirror, without trailing slashes.
    pub fn base_url(&self) -> (r: &str)
        ensures
            r@ == base_url_of(*self),
    {
        match self {
            Mirror::Official => "https://images.linuxcontainers.org",
            Mirror::Tuna => "https://mirrors.tuna.tsinghua.edu.cn/lxc-images",
            Mirror::Ustc => "https://mirrors.ustc.edu.cn/lxc-images",
            Mirror::Bfsu => "https://mirrors.bfsu.edu.cn/lxc-images",
            Mirror::Custom(url) => trim_end_char_exec(url.as_str(), '/'),
        }
    }

    /// The URL of the index document.
    pub fn streams_url(&self) -> (r: String)
        ensures
            r@ == base_url_of(*self) + "/streams/v1/images.json"@,
    {
        concat_str(self.base_url(), "/streams/v1/images.json")
    }

    /// The download URL of a path taken from the index.
    pub fn image_url(&self, path: &str) -> (r: String)
        ensures
            r@ == base_url_of(*self) + "/"@ + path@,
    {
        let mut r = concat_str(self.base_url(), "/");
        r.append(path);
        r
    }

    /// A short name: `official`, `tuna`, `ustc`, `bfsu`, or `custom(<url>)`.
    pub fn label(&self) -> (r: String)
        ensures
            r@ == match *self {
                Mirror::Official => "official"@,
                Mirror::Tuna => "tuna"@,
                Mirror::Ustc => "ustc"@,
                Mirror::Bfsu => "bfsu"@,
                Mirror::Custom(url) => "custom("@ + url@ + ")"@,
            },
    {
        match self {
            Mirror::Official => "official".to_owned(),
            Mirror::Tuna => "tuna".to_owned(),
            Mirror::Ustc => "ustc".to_owned(),
            Mirror::Bfsu => "bfsu".to_owned(),
            Mirror::Custom(url) => {
                let mut r = concat_str("custom(", url.as_str());
                r.append(")");
                r
            },
        }
    }

    /// The preset mirrors, without `Custom`.
    pub fn presets() -> (r: Vec<Mirror>)
        ensures
            r@ == seq![Mirror::Official, Mirror::Tuna, Mirror::Ustc, Mirror::Bfsu],
    {
        let mut r: Vec<Mirror> = Vec::new();
        r.push(Mirror::Official);
        r.push(Mirror::Tuna);
        r.push(Mirror::Ustc);
        r.push(Mirror::Bfsu);
        assert(r@ =~= seq![Mirror::Official, Mirror::Tuna, Mirror::Ustc, Mirror::Bfsu]);
        r
    }
}

impl Default for Mirror {
    fn default() -> (r: Self)
        ensures
            r == Mirror::Official,
    {
        Mirror::Official
    }
}

} // verus!
