//! Resolution, download verification and local caching of Linux
//! distribution root filesystem archives.
//!
//! A (distribution, version, architecture) triple resolves to a download URL
//! and an expected hash, either through a distribution's official URL
//! templates and checksum file ([`provider`]) or through the unified image
//! index ([`lxc`]). Downloaded bytes are checked against that hash
//! ([`download`]) and kept in a cache keyed by
//! `<root>/<distro>/<version>/<arch>/` ([`cache`], [`manager`]).

pub mod arch;
pub mod cache;
pub mod checksum;
pub mod digest;
pub mod distro;
pub mod download;
pub mod error;
pub mod extract;
pub mod lxc;
pub mod manager;
pub mod mirror;
pub mod path;
pub mod provider;
pub mod text;

pub use arch::Arch;
pub use cache::{CacheLookup, CacheMetadata, CachedRootfs};
pub use distro::{parse_distro_spec, Distro, Version};
pub use download::{actual_hash, verify_hash, DownloadResult};
pub use error::Error;
pub use extract::{ExtractFormat, ExtractJob};
pub use manager::{default_cache_dir, EnsureStep, RootfsManager};
pub use mirror::Mirror;
