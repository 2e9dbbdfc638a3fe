//! The cache root: where entries live, and the time stamps they carry.

use vstd::prelude::*;
use crate::arch::{linux_name_of, Arch};
use crate::cache::{list_all, present_from, prune_plan, pruned, CachedRootfs};
use crate::distro::{slug_of, Distro, Version};
use crate::path::{join_path, join_path_exec};

verus! {

/// What ensuring an archive does once its entry has been looked up.
#[derive(Debug)]
pub enum EnsureStep {
    /// The entry is present and intact: hand it out.
    Serve(CachedRootfs),
    /// The entry is missing or was evicted: download the archive through the
    /// image index, then store it in the entry directory.
    Download,
}

/// Manages the cache root of downloaded archives.
pub struct RootfsManager {
    cache_dir: String,
}

/// The directory of the entry for a distribution slug, version and
/// architecture name under `root`.
pub open spec fn entry_dir_of(root: Seq<char>, d: Distro, v: Seq<char>, a: Arch) -> Seq<char> {
    join_path(join_path(join_path(root, slug_of(d)), v), linux_name_of(a))
}

impl RootfsManager {
    /// The cache root.
    pub closed spec fn root(&self) -> Seq<char> {
        self.cache_dir@
    }

    /// A manager of the cache rooted at `cache_dir`; the caller creates the
    /// directory.
    pub fn new(cache_dir: &str) -> (r: Self)
        ensures
            r.root() == cache_dir@,
    {
        RootfsManager { cache_dir: cache_dir.to_owned() }
    }

    /// The cache root.
    pub fn cache_dir(&self) -> (r: &str)
        ensures
            r@ == self.root(),
    {
        self.cache_dir.as_str()
    }

    /// The directory `<root>/<distro>/<version>/<arch>` of an entry.
    pub fn entry_dir(&self, distro: Distro, version: &Version, arch: Arch) -> (r: String)
        ensures
            r@ == entry_dir_of(self.root(), distro, version@, arch),
    {
        let a = join_path_exec(self.cache_dir.as_str(), distro.as_str());
        let b = join_path_exec(a.as_str(), version.as_str());
        join_path_exec(b.as_str(), arch.linux_name())
    }

    /// The step of ensuring an archive after looking its entry up, where
    /// `cached` is the intact entry found, if any.
    pub fn ensure_step(&self, cached: Option<CachedRootfs>) -> (r: EnsureStep)
        ensures
            match cached {
                Some(c) => r matches EnsureStep::Serve(x) && x == c,
                None => r is Download,
            },
    {
        match cached {
            Some(c) => EnsureStep::Serve(c),
            None => EnsureStep::Download,
        }
    }

    /// The cached entries among those a walk of the cache root loaded.
    pub fn list_cached(&self, found: Vec<Option<CachedRootfs>>) -> (r: Vec<CachedRootfs>)
        ensures
            r@ == present_from(found@, 0),
    {
        list_all(found)
    }

    /// Which of the listed `entries` to remove so that at most `keep_latest`
    /// of each distribution remain, the newest.
    pub fn prune(&self, entries: &Vec<CachedRootfs>, keep_latest: usize) -> (r: Vec<bool>)
        ensures
            r@.len() == entries@.len(),
            forall|i: int| 0 <= i < r@.len() ==> #[trigger] r@[i] == pruned(entries@, keep_latest as int, i),
    {
        prune_plan(entries, keep_latest)
    }
}

/// The base data directory: `$XDG_DATA_HOME` when set, else
/// `$HOME/.local/share`, else `/tmp`.
pub open spec fn data_dir_of(xdg_data_home: Option<Seq<char>>, home: Option<Seq<char>>) -> Seq<char> {
    match xdg_data_home {
        Some(d) => d,
        None => match home {
            Some(h) => join_path(h, ".local/share"@),
            None => "/tmp"@,
        },
    }
}

/// The base data directory, given the values of `XDG_DATA_HOME` and `HOME`.
pub fn dirs_cache_dir(xdg_data_home: Option<&str>, home: Option<&str>) -> (r: String)
    ensures
        r@ == data_dir_of(
            match xdg_data_home {
                Some(d) => Some(d@),
                None => None,
            },
            match home {
                Some(h) => Some(h@),
                None => None,
            },
        ),
{
    match xdg_data_home {
        Some(d) => d.to_owned(),
        None => match home {
            Some(h) => join_path_exec(h, ".local/share"),
            None => "/tmp".to_owned(),
        },
    }
}

/// The default cache root, `<data dir>/arcbox/rootfs`.
pub fn default_cache_dir(xdg_data_home: Option<&str>, home: Option<&str>) -> (r: String)
    ensures
        r@ == join_path(
            join_path(
                data_dir_of(
                    match xdg_data_home {
                        Some(d) => Some(d@),
                        None => None,
                    },
                    match home {
                        Some(h) => Some(h@),
                        None => None,
                    },
                ),
                "arcbox"@,
            ),
            "rootfs"@,
        ),
{
    let base = dirs_cache_dir(xdg_data_home, home);
    let a = join_path_exec(base.as_str(), "arcbox");
    join_path_exec(a.as_str(), "rootfs")
}

} // verus!
