//! The unified image index: its document model and the resolution of a
//! distribution, version and architecture to a root filesystem download.

use vstd::prelude::*;
use crate::arch::{deb_name_of, Arch};
use crate::distro::{index_name_of, index_release_of, slug_of, Distro, Version};
use crate::error::Error;
use crate::mirror::{base_url_of, Mirror};
use crate::checksum::after_last;
use crate::text::{
    chars_of, concat_str, ends_with, ends_with_exec, lemma_str_less_total, lemma_str_less_trans,
    lower_of, rfind_exec, str_eq, str_less, str_lt, to_lowercase,
};

verus! {

/// A downloadable file within a build.
pub struct Item {
    /// File type tag, such as `"root.tar.xz"`.
    pub ftype: String,
    /// SHA-256 hex digest.
    pub sha256: String,
    /// Size in bytes.
    pub size: u64,
    /// Path relative to the mirror's base URL.
    pub path: String,
}

/// One build of a product: its items, keyed by item name.
pub struct ProductVersion {
    /// Item name and item pairs; names are distinct.
    pub items: Vec<(String, Item)>,
}

/// A product: one distribution release, architecture and variant.
pub struct Product {
    /// Architecture string, such as `"amd64"`.
    pub arch: String,
    /// Operating system name, such as `"Alpine"`.
    pub os: String,
    /// Release identifier, such as `"3.21"` or `"noble"`.
    pub release: String,
    /// Human-readable release title.
    pub release_title: String,
    /// Image variant, such as `"default"` or `"cloud"`.
    pub variant: String,
    /// Build timestamp and build pairs; timestamps are distinct.
    pub versions: Vec<(String, ProductVersion)>,
}

/// The index document.
pub struct SimplestreamsIndex {
    /// Product key and product pairs; keys are distinct.
    pub products: Vec<(String, Product)>,
}

impl SimplestreamsIndex {
    /// Whether the index is as its JSON document makes it: product keys,
    /// the build timestamps of each product and the item names of each build
    /// are distinct, being the keys of JSON objects.
    pub open spec fn wf(&self) -> bool {
        &&& keys_distinct(self.products@)
        &&& forall|i: int|
            0 <= i < self.products@.len() ==> #[trigger] keys_distinct(
                self.products@[i].1.versions@,
            )
        &&& forall|i: int, j: int|
            0 <= i < self.products@.len() && 0 <= j < self.products@[i].1.versions@.len()
                ==> #[trigger] keys_distinct(self.products@[i].1.versions@[j].1.items@)
    }
}

/// Where to download an image and what to expect of it; the hash is
/// lowercased.
pub struct ResolvedImage {
    /// Full download URL.
    pub url: String,
    /// Expected SHA-256 hex digest.
    pub sha256: String,
    /// Size in bytes.
    pub size: u64,
    /// File name, such as `"rootfs.tar.xz"`.
    pub filename: String,
}

/// Whether the keys of `entries` are pairwise distinct, as in the index
/// document, where they are the keys of a JSON object.
pub open spec fn keys_distinct<V>(entries: Seq<(String, V)>) -> bool {
    forall|i: int, j: int|
        0 <= i < entries.len() && 0 <= j < entries.len() && i != j ==> entries[i].0@
            != entries[j].0@
}

/// Index of the first entry of `entries[k..]` whose key is `key`.
pub open spec fn key_index<V>(entries: Seq<(String, V)>, key: Seq<char>, k: int) -> Option<int>
    decreases entries.len() - k,
{
    if 0 <= k < entries.len() {
        if entries[k].0@ == key {
            Some(k)
        } else {
            key_index(entries, key, k + 1)
        }
    } else {
        None
    }
}

/// Whether entry `i` holds the greatest key, and is the first that does.
pub open spec fn is_latest<V>(entries: Seq<(String, V)>, i: int) -> bool {
    &&& 0 <= i < entries.len()
    &&& forall|j: int| 0 <= j < i ==> str_less(#[trigger] entries[j].0@, entries[i].0@)
    &&& forall|j: int| i <= j < entries.len() ==> !str_less(entries[i].0@, #[trigger] entries[j].0@)
}

/// The variants tried, in order of preference.
pub open spec fn variant_order() -> Seq<Seq<char>> {
    seq!["default"@, "cloud"@]
}

/// The product key `"{distro}:{release}:{arch}:{variant}"`.
pub open spec fn product_key(d: Distro, v: Seq<char>, a: Arch, variant: Seq<char>) -> Seq<char> {
    index_name_of(d) + ":"@ + index_release_of(d, v) + ":"@ + deb_name_of(a) + ":"@ + variant
}

/// The key and index of the product found under the first variant, from the
/// `k`-th on, that the index holds.
pub open spec fn chosen_from(
    products: Seq<(String, Product)>,
    d: Distro,
    v: Seq<char>,
    a: Arch,
    k: int,
) -> Option<(Seq<char>, int)>
    decreases variant_order().len() - k,
{
    if 0 <= k < variant_order().len() {
        let key = product_key(d, v, a, variant_order()[k]);
        match key_index(products, key, 0) {
            Some(i) => Some((key, i)),
            None => chosen_from(products, d, v, a, k + 1),
        }
    } else {
        None
    }
}

/// Index of the first item of `items[k..]` whose type tag is `tag`.
pub open spec fn ftype_index(items: Seq<(String, Item)>, tag: Seq<char>, k: int) -> Option<int>
    decreases items.len() - k,
{
    if 0 <= k < items.len() {
        if items[k].1.ftype@ == tag {
            Some(k)
        } else {
            ftype_index(items, tag, k + 1)
        }
    } else {
        None
    }
}

/// Index of the first item of `items[k..]` whose path ends with `suffix`.
pub open spec fn path_index(items: Seq<(String, Item)>, suffix: Seq<char>, k: int) -> Option<int>
    decreases items.len() - k,
{
    if 0 <= k < items.len() {
        if ends_with(items[k].1.path@, suffix) {
            Some(k)
        } else {
            path_index(items, suffix, k + 1)
        }
    } else {
        None
    }
}

/// The root filesystem item of a build: the first tagged `root.tar.xz`,
/// else the first whose path ends in `rootfs.tar.xz`.
pub open spec fn rootfs_index(items: Seq<(String, Item)>) -> Option<int> {
    match ftype_index(items, "root.tar.xz"@, 0) {
        Some(i) => Some(i),
        None => path_index(items, "rootfs.tar.xz"@, 0),
    }
}

/// Whether `r` is what resolving `d`, `v`, `a` against `index` on mirror `m`
/// gives.
pub open spec fn resolves_as(
    m: Mirror,
    index: SimplestreamsIndex,
    d: Distro,
    v: Seq<char>,
    a: Arch,
    r: Result<ResolvedImage, Error>,
) -> bool {
    match chosen_from(index.products@, d, v, a, 0) {
        None => match r {
            Err(Error::ProductNotFound { distro, version, arch }) => distro@ == slug_of(d)
                && version@ == v && arch@ == deb_name_of(a),
            _ => false,
        },
        Some((key, pi)) => {
            let builds = index.products@[pi].1.versions@;
            if exists|vi: int| is_latest(builds, vi) {
                let vi = choose|vi: int| is_latest(builds, vi);
                let items = builds[vi].1.items@;
                match rootfs_index(items) {
                    Some(ii) => {
                        let it = items[ii].1;
                        match r {
                            Ok(img) => img.url@ == base_url_of(m) + "/"@ + it.path@ && img.sha256@
                                == lower_of(it.sha256@) && img.size == it.size && img.filename@
                                == after_last(it.path@, '/'),
                            Err(_) => false,
                        }
                    },
                    None => match r {
                        Err(Error::RootfsNotFound { product_key }) => product_key@ == key,
                        _ => false,
                    },
                }
            } else {
                match r {
                    Err(Error::RootfsNotFound { product_key }) => product_key@ == key,
                    _ => false,
                }
            }
        },
    }
}

proof fn lemma_key_index_bounds<V>(entries: Seq<(String, V)>, key: Seq<char>, k: int)
    requires
        0 <= k,
    ensures
        match key_index(entries, key, k) {
            Some(i) => k <= i < entries.len() && entries[i].0@ == key,
            None => true,
        },
    decreases entries.len() - k,
{
    if k < entries.len() && entries[k].0@ != key {
        lemma_key_index_bounds(entries, key, k + 1);
    }
}

/// With distinct keys, the first entry holding a key is the only one: the
/// lookup agrees with a map's.
pub proof fn lemma_key_index_distinct<V>(entries: Seq<(String, V)>, key: Seq<char>, i: int)
    requires
        keys_distinct(entries),
        0 <= i < entries.len(),
        entries[i].0@ == key,
    ensures
        key_index(entries, key, 0) == Some(i),
{
    lemma_key_index_bounds(entries, key, 0);
    lemma_key_index_none_before(entries, key, 0, i);
}

proof fn lemma_key_index_none_before<V>(entries: Seq<(String, V)>, key: Seq<char>, k: int, i: int)
    requires
        keys_distinct(entries),
        0 <= k <= i < entries.len(),
        entries[i].0@ == key,
    ensures
        key_index(entries, key, k) == Some(i),
    decreases i - k,
{
    if k < i {
        assert(entries[k].0@ != entries[i].0@);
        lemma_key_index_none_before(entries, key, k + 1, i);
    }
}

/// On a valid index the product that resolution picks is the one the
/// document holds under the chosen key: no other entry carries that key.
pub proof fn lemma_chosen_product_keyed(index: SimplestreamsIndex, d: Distro, v: Seq<char>, a: Arch)
    requires
        index.wf(),
    ensures
        chosen_from(index.products@, d, v, a, 0) matches Some((key, pi)) ==> {
            &&& 0 <= pi < index.products@.len()
            &&& index.products@[pi].0@ == key
            &&& forall|j: int|
                0 <= j < index.products@.len() && #[trigger] index.products@[j].0@ == key ==> j == pi
        },
{
    let ps = index.products@;
    let k0 = product_key(d, v, a, variant_order()[0]);
    let k1 = product_key(d, v, a, variant_order()[1]);
    lemma_key_index_bounds(ps, k0, 0);
    lemma_key_index_bounds(ps, k1, 0);
    assert(chosen_from(ps, d, v, a, 2) is None);
    assert(chosen_from(ps, d, v, a, 1) == match key_index(ps, k1, 0) {
        Some(i) => Some((k1, i)),
        None => None::<(Seq<char>, int)>,
    });
    assert(chosen_from(ps, d, v, a, 0) == match key_index(ps, k0, 0) {
        Some(i) => Some((k0, i)),
        None => chosen_from(ps, d, v, a, 1),
    });
    if let Some((key, pi)) = chosen_from(ps, d, v, a, 0) {
        assert forall|j: int|
            0 <= j < ps.len() && #[trigger] ps[j].0@ == key implies j == pi by {
            if j != pi {
                assert(ps[j].0@ != ps[pi].0@);
            }
        }
    }
}

/// At most one entry is the latest.
pub proof fn lemma_latest_unique<V>(entries: Seq<(String, V)>, i: int, j: int)
    requires
        is_latest(entries, i),
        is_latest(entries, j),
    ensures
        i == j,
{
    if i < j {
        lemma_str_less_total(entries[i].0@, entries[j].0@);
        assert(str_less(entries[i].0@, entries[j].0@));
    } else if j < i {
        lemma_str_less_total(entries[j].0@, entries[i].0@);
        assert(str_less(entries[j].0@, entries[i].0@));
    }
}

fn key_position<V>(entries: &Vec<(String, V)>, key: &str) -> (r: Option<usize>)
    ensures
        match r {
            Some(i) => key_index(entries@, key@, 0) == Some(i as int),
            None => key_index(entries@, key@, 0) is None,
        },
{
    let mut k: usize = 0;
    while k < entries.len()
        invariant
            k <= entries@.len(),
            key_index(entries@, key@, 0) == key_index(entries@, key@, k as int),
        decreases entries@.len() - k,
    {
        if str_eq(entries[k].0.as_str(), key) {
            return Some(k);
        }
        k = k + 1;
    }
    None
}

/// The position of the first greatest key, or `None` when there are no entries.
pub fn latest_position<V>(entries: &Vec<(String, V)>) -> (r: Option<usize>)
    ensures
        match r {
            Some(i) => is_latest(entries@, i as int),
            None => entries@.len() == 0,
        },
{
    if entries.len() == 0 {
        return None;
    }
    let mut best: usize = 0;
    let mut k: usize = 1;
    proof {
        lemma_str_less_total(entries@[0].0@, entries@[0].0@);
    }
    while k < entries.len()
        invariant
            0 <= best < k <= entries@.len(),
            forall|j: int| 0 <= j < best ==> str_less(#[trigger] entries@[j].0@, entries@[best as int].0@),
            forall|j: int|
                best <= j < k ==> !str_less(entries@[best as int].0@, #[trigger] entries@[j].0@),
        decreases entries@.len() - k,
    {
        if str_lt(entries[best].0.as_str(), entries[k].0.as_str()) {
            proof {
                let kb = entries@[best as int].0@;
                let kk = entries@[k as int].0@;
                assert forall|j: int| 0 <= j < k implies str_less(#[trigger] entries@[j].0@, kk) by {
                    let kj = entries@[j].0@;
                    if j < best {
                        lemma_str_less_trans(kj, kb, kk);
                    } else {
                        lemma_str_less_total(kj, kb);
                        if kj != kb {
                            lemma_str_less_trans(kj, kb, kk);
                        }
                    }
                }
                lemma_str_less_total(kk, kk);
            }
            best = k;
        }
        k = k + 1;
    }
    Some(best)
}

fn rootfs_position(items: &Vec<(String, Item)>) -> (r: Option<usize>)
    ensures
        match r {
            Some(i) => rootfs_index(items@) == Some(i as int) && i < items@.len(),
            None => rootfs_index(items@) is None,
        },
{
    let mut k: usize = 0;
    while k < items.len()
        invariant
            k <= items@.len(),
            ftype_index(items@, "root.tar.xz"@, 0) == ftype_index(items@, "root.tar.xz"@, k as int),
        decreases items@.len() - k,
    {
        if str_eq(items[k].1.ftype.as_str(), "root.tar.xz") {
            return Some(k);
        }
        k = k + 1;
    }
    let mut k: usize = 0;
    while k < items.len()
        invariant
            k <= items@.len(),
            ftype_index(items@, "root.tar.xz"@, 0) is None,
            path_index(items@, "rootfs.tar.xz"@, 0) == path_index(items@, "rootfs.tar.xz"@, k as int),
        decreases items@.len() - k,
    {
        if ends_with_exec(items[k].1.path.as_str(), "rootfs.tar.xz") {
            return Some(k);
        }
        k = k + 1;
    }
    None
}

/// The variants tried, in order of preference.
pub fn variants() -> (r: Vec<&'static str>)
    ensures
        r@.len() == variant_order().len(),
        forall|k: int| 0 <= k < r@.len() ==> #[trigger] r@[k]@ == variant_order()[k],
{
    let mut r: Vec<&'static str> = Vec::new();
    r.push("default");
    r.push("cloud");
    r
}

/// The text after the last `/` of `path`, or all of it.
fn file_name_of(path: &str) -> (r: String)
    ensures
        r@ == after_last(path@, '/'),
{
    let cs = chars_of(path);
    let n = cs.len();
    match rfind_exec(&cs, '/') {
        Some(i) => path.substring_char(i + 1, n).to_owned(),
        None => path.to_owned(),
    }
}

/// Resolves images against an index fetched from one mirror.
pub struct LxcClient {
    mirror: Mirror,
}

impl LxcClient {
    /// The mirror whose base URL the resolved URLs start with.
    pub closed spec fn spec_mirror(&self) -> Mirror {
        self.mirror
    }

    /// A client for `mirror`.
    pub fn new(mirror: Mirror) -> (r: Self)
        ensures
            r.spec_mirror() == mirror,
    {
        LxcClient { mirror }
    }

    /// The mirror this client resolves against.
    pub fn mirror(&self) -> (r: &Mirror)
        ensures
            *r == self.spec_mirror(),
    {
        &self.mirror
    }

    /// Resolves `distro`, `version`, `arch` against `index`: the product under
    /// the first variant present, its latest build, and that build's root
    /// filesystem item. The result is defined for every index; on a valid one
    /// (`SimplestreamsIndex::wf`), each first-match lookup is the document's
    /// map lookup (`lemma_key_index_distinct`, `lemma_chosen_product_keyed`).
    pub fn resolve_from_index(
        &self,
        index: &SimplestreamsIndex,
        distro: Distro,
        version: &Version,
        arch: Arch,
    ) -> (r: Result<ResolvedImage, Error>)
        ensures
            resolves_as(self.spec_mirror(), *index, distro, version@, arch, r),
    {
        let lxc_distro = distro.lxc_name();
        let lxc_release = distro.lxc_release(version);
        let lxc_arch = arch.lxc_name();
        let order = variants();
        let mut found: Option<(String, usize)> = None;
        let mut k: usize = 0;
        while k < order.len() && found.is_none()
            invariant
                order@.len() == variant_order().len(),
                forall|j: int| 0 <= j < order@.len() ==> #[trigger] order@[j]@ == variant_order()[j],
                k <= order@.len(),
                lxc_distro@ == index_name_of(distro),
                lxc_release@ == index_release_of(distro, version@),
                lxc_arch@ == deb_name_of(arch),
                match found {
                    Some((key, i)) => chosen_from(index.products@, distro, version@, arch, 0)
                        == Some((key@, i as int)) && i < index.products@.len(),
                    None => chosen_from(index.products@, distro, version@, arch, 0)
                        == chosen_from(index.products@, distro, version@, arch, k as int),
                },
            decreases order@.len() - k,
        {
            let mut key = concat_str(lxc_distro, ":");
            key.append(lxc_release.as_str());
            key.append(":");
            key.append(lxc_arch);
            key.append(":");
            key.append(order[k]);
            assert(key@ =~= product_key(distro, version@, arch, variant_order()[k as int]));
            if let Some(i) = key_position(&index.products, key.as_str()) {
                proof {
                    lemma_key_index_bounds(index.products@, key@, 0);
                }
                found = Some((key, i));
            }
            k = k + 1;
        }
        let (used_key, pi) = match found {
            Some(f) => f,
            None => {
                return Err(
                    Error::ProductNotFound {
                        distro: distro.as_str().to_owned(),
                        version: version.as_str().to_owned(),
                        arch: lxc_arch.to_owned(),
                    },
                );
            },
        };
        let product = &index.products[pi].1;
        let vi = match latest_position(&product.versions) {
            Some(vi) => vi,
            None => {
                return Err(Error::RootfsNotFound { product_key: used_key });
            },
        };
        proof {
            assert(exists|x: int| is_latest(product.versions@, x)) by {
                assert(is_latest(product.versions@, vi as int));
            }
            let c = choose|x: int| is_latest(product.versions@, x);
            lemma_latest_unique(product.versions@, c, vi as int);
        }
        let build = &product.versions[vi].1;
        let ii = match rootfs_position(&build.items) {
            Some(ii) => ii,
            None => {
                return Err(Error::RootfsNotFound { product_key: used_key });
            },
        };
        let item = &build.items[ii].1;
        Ok(
            ResolvedImage {
                url: self.mirror.image_url(item.path.as_str()),
                sha256: to_lowercase(item.sha256.as_str()),
                size: item.size,
                filename: file_name_of(item.path.as_str()),
            },
        )
    }
}

} // verus!
