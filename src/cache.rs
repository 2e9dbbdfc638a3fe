//! The cache engine's logic: the metadata of a stored entry, loading and
//! integrity decisions, listing, and the retention plan of pruning. The
//! filesystem work around these decisions is done by the caller.

use vstd::prelude::*;
use crate::digest::{hex_of, sha256_of};
use crate::download::DownloadResult;
use crate::path::{join_path, join_path_exec, path_parts, split_path};
use crate::text::{str_eq, str_less, str_lt, lemma_str_less_total, lemma_str_less_trans};
use vstd::relations::injective_on;
use vstd::set_lib::{lemma_int_range, lemma_len_subset, lemma_map_size, lemma_subset_equality, set_int_range};

verus! {

/// Metadata stored alongside a cached archive.
#[derive(Debug, Clone)]
pub struct CacheMetadata {
    /// Distribution identifier, such as `"alpine"`.
    pub distro: String,
    /// Version string, such as `"3.21"`.
    pub version: String,
    /// Architecture, such as `"aarch64"`.
    pub arch: String,
    /// SHA-256 hex digest of the archive.
    pub sha256: String,
    /// Archive file name within the entry directory.
    pub filename: String,
    /// Archive size in bytes.
    pub size: u64,
    /// Unix time in decimal seconds when the archive was stored.
    pub downloaded_at: String,
}

/// A handle to a cached archive.
#[derive(Debug, Clone)]
pub struct CachedRootfs {
    /// Path of the archive file.
    pub archive_path: String,
    /// Its metadata.
    pub metadata: CacheMetadata,
}

/// The name of the metadata file within an entry directory.
pub fn metadata_file_name() -> (r: &'static str)
    ensures
        r@ == "metadata.json"@,
{
    "metadata.json"
}

/// The component `back` places from the end of `parts`, or `"unknown"`.
pub open spec fn part_from_end(parts: Seq<Seq<char>>, back: int) -> Seq<char> {
    if back < parts.len() {
        parts[parts.len() - 1 - back]
    } else {
        "unknown"@
    }
}

/// Whether `r` is what storing `result` in `entry_dir` at time `downloaded_at`
/// gives: the archive in the directory, and metadata whose distribution,
/// version and architecture are the directory's last three components.
pub open spec fn stored_as(
    entry_dir: Seq<char>,
    result: DownloadResult,
    downloaded_at: Seq<char>,
    r: CachedRootfs,
) -> bool {
    let parts = path_parts(entry_dir);
    &&& r.archive_path@ == join_path(entry_dir, result.filename@)
    &&& r.metadata.distro@ == part_from_end(parts, 2)
    &&& r.metadata.version@ == part_from_end(parts, 1)
    &&& r.metadata.arch@ == part_from_end(parts, 0)
    &&& r.metadata.sha256@ == result.sha256@
    &&& r.metadata.filename@ == result.filename@
    &&& r.metadata.size == result.data@.len() as u64
    &&& r.metadata.downloaded_at@ == downloaded_at
}

fn part_or_unknown(parts: &Vec<&str>, back: usize) -> (r: String)
    ensures
        r@ == part_from_end(parts@.map_values(|p: &str| p@), back as int),
{
    let ghost views = parts@.map_values(|p: &str| p@);
    if back < parts.len() {
        let p = parts[parts.len() - 1 - back];
        assert(views[parts@.len() - 1 - back] == p@);
        p.to_owned()
    } else {
        "unknown".to_owned()
    }
}

/// The handle and metadata for `result` stored in `entry_dir` at time
/// `downloaded_at`; the caller writes the archive and the metadata file.
pub fn store(entry_dir: &str, result: &DownloadResult, downloaded_at: String) -> (r: CachedRootfs)
    ensures
        stored_as(entry_dir@, *result, downloaded_at@, r),
{
    let parts = split_path(entry_dir);
    proof {
        assert(parts@.map_values(|p: &str| p@) =~= path_parts(entry_dir@));
    }
    let metadata = CacheMetadata {
        distro: part_or_unknown(&parts, 2),
        version: part_or_unknown(&parts, 1),
        arch: part_or_unknown(&parts, 0),
        sha256: result.sha256.clone(),
        filename: result.filename.clone(),
        size: result.data.len() as u64,
        downloaded_at,
    };
    CachedRootfs { archive_path: join_path_exec(entry_dir, result.filename.as_str()), metadata }
}

/// Where the archive named by `metadata` lies in `entry_dir`.
pub fn archive_path_in(entry_dir: &str, metadata: &CacheMetadata) -> (r: String)
    ensures
        r@ == join_path(entry_dir@, metadata.filename@),
{
    join_path_exec(entry_dir, metadata.filename.as_str())
}

/// Whether `r` is what loading an entry directory gives, without checking
/// integrity: nothing when the metadata or the archive it names is missing.
pub open spec fn loaded_as(
    entry_dir: Seq<char>,
    metadata: Option<CacheMetadata>,
    archive_exists: bool,
    r: Option<CachedRootfs>,
) -> bool {
    match metadata {
        Some(m) => if archive_exists {
            r matches Some(c) && c.metadata == m && c.archive_path@ == join_path(
                entry_dir,
                m.filename@,
            )
        } else {
            r is None
        },
        None => r is None,
    }
}

/// The entry of `entry_dir`, given its decoded metadata file, if any, and
/// whether the archive that the metadata names exists.
pub fn load_entry(entry_dir: &str, metadata: Option<CacheMetadata>, archive_exists: bool) -> (r:
    Option<CachedRootfs>)
    ensures
        loaded_as(entry_dir@, metadata, archive_exists, r),
{
    match metadata {
        Some(m) => {
            if !archive_exists {
                return None;
            }
            let archive_path = archive_path_in(entry_dir, &m);
            Some(CachedRootfs { archive_path, metadata: m })
        },
        None => None,
    }
}

/// What a lookup of a present entry concludes.
#[derive(Debug)]
pub enum CacheLookup {
    /// The archive is intact.
    Hit(CachedRootfs),
    /// The archive does not match its stored hash: the entry directory is to
    /// be removed and the lookup reports "not cached".
    Evict,
}

impl CachedRootfs {
    /// Whether `actual_sha256`, the digest of the archive as it is on disk,
    /// is the stored one.
    pub fn verify_integrity(&self, actual_sha256: &str) -> (r: bool)
        ensures
            r == (actual_sha256@ == self.metadata.sha256@),
    {
        str_eq(actual_sha256, self.metadata.sha256.as_str())
    }
}

/// Whether `r` is the conclusion for `entry` whose archive hashes to `actual`.
pub open spec fn concluded_as(entry: CachedRootfs, actual: Seq<char>, r: CacheLookup) -> bool {
    if actual == entry.metadata.sha256@ {
        r matches CacheLookup::Hit(c) && c == entry
    } else {
        r is Evict
    }
}

/// The conclusion for a present entry whose archive hashes to `actual_sha256`.
pub fn load_cached(entry: CachedRootfs, actual_sha256: &str) -> (r: CacheLookup)
    ensures
        concluded_as(entry, actual_sha256@, r),
{
    if entry.verify_integrity(actual_sha256) {
        CacheLookup::Hit(entry)
    } else {
        CacheLookup::Evict
    }
}

/// The loaded entries of a cache walk, in walk order.
pub open spec fn present_from(found: Seq<Option<CachedRootfs>>, k: int) -> Seq<CachedRootfs>
    decreases found.len() - k,
{
    if 0 <= k < found.len() {
        match found[k] {
            Some(c) => seq![c] + present_from(found, k + 1),
            None => present_from(found, k + 1),
        }
    } else {
        Seq::empty()
    }
}

/// The entries of a walk of every `<distro>/<version>/<arch>` directory
/// that loaded, in walk order; listing does not check integrity.
pub fn list_all(found: Vec<Option<CachedRootfs>>) -> (r: Vec<CachedRootfs>)
    ensures
        r@ == present_from(found@, 0),
{
    let mut r: Vec<CachedRootfs> = Vec::new();
    let mut found = found;
    let ghost all = found@;
    let n = found.len();
    let mut k: usize = n;
    while k > 0
        invariant
            k <= n,
            n == all.len(),
            found@ == all.subrange(0, k as int),
            r@ == present_from(all, k as int),
        decreases k,
    {
        let item = found.pop().unwrap();
        assert(item == all[k - 1]);
        match item {
            Some(c) => {
                r.insert(0, c);
                assert(r@ =~= present_from(all, k - 1));
            },
            None => {},
        }
        assert(found@ =~= all.subrange(0, k - 1));
        k = k - 1;
    }
    r
}

/// Whether entry `j` comes before entry `i` in `i`'s distribution group when
/// the group is sorted newest first (timestamps compared as strings; ties
/// keep list order).
pub open spec fn outranks(es: Seq<CachedRootfs>, j: int, i: int) -> bool {
    &&& es[j].metadata.distro@ == es[i].metadata.distro@
    &&& (str_less(es[i].metadata.downloaded_at@, es[j].metadata.downloaded_at@) || (
    es[j].metadata.downloaded_at@ == es[i].metadata.downloaded_at@ && j < i))
}

/// The number of entries of `es[..k]` that outrank entry `i`.
pub open spec fn rank_upto(es: Seq<CachedRootfs>, i: int, k: int) -> nat
    decreases k,
{
    if k <= 0 {
        0
    } else {
        rank_upto(es, i, k - 1) + if outranks(es, k - 1, i) {
            1nat
        } else {
            0nat
        }
    }
}

/// The position of entry `i` in its distribution group, sorted newest first.
pub open spec fn rank(es: Seq<CachedRootfs>, i: int) -> nat {
    rank_upto(es, i, es.len() as int)
}

/// Whether pruning to `keep` entries per distribution removes entry `i`.
pub open spec fn pruned(es: Seq<CachedRootfs>, keep: int, i: int) -> bool {
    rank(es, i) >= keep
}

proof fn lemma_rank_upto_bound(es: Seq<CachedRootfs>, i: int, k: int)
    ensures
        rank_upto(es, i, k) <= if k < 0 {
            0
        } else {
            k
        },
    decreases k,
{
    if k > 0 {
        lemma_rank_upto_bound(es, i, k - 1);
    }
}

fn outranks_exec(es: &Vec<CachedRootfs>, j: usize, i: usize) -> (r: bool)
    requires
        j < es@.len(),
        i < es@.len(),
    ensures
        r == outranks(es@, j as int, i as int),
{
    let a = &es[j].metadata;
    let b = &es[i].metadata;
    if !str_eq(a.distro.as_str(), b.distro.as_str()) {
        return false;
    }
    str_lt(b.downloaded_at.as_str(), a.downloaded_at.as_str()) || (str_eq(
        a.downloaded_at.as_str(),
        b.downloaded_at.as_str(),
    ) && j < i)
}

/// For each entry, whether pruning to `keep_latest` entries per distribution
/// removes it: the entries of each distribution, newest first, are kept up
/// to that count.
pub fn prune_plan(entries: &Vec<CachedRootfs>, keep_latest: usize) -> (r: Vec<bool>)
    ensures
        r@.len() == entries@.len(),
        forall|i: int| 0 <= i < r@.len() ==> #[trigger] r@[i] == pruned(entries@, keep_latest as int, i),
{
    let n = entries.len();
    let mut r: Vec<bool> = Vec::new();
    let mut i: usize = 0;
    while i < n
        invariant
            n == entries@.len(),
            i <= n,
            r@.len() == i,
            forall|x: int| 0 <= x < i ==> #[trigger] r@[x] == pruned(entries@, keep_latest as int, x),
        decreases n - i,
    {
        let mut count: usize = 0;
        let mut j: usize = 0;
        while j < n
            invariant
                n == entries@.len(),
                i < n,
                j <= n,
                count == rank_upto(entries@, i as int, j as int),
            decreases n - j,
        {
            proof {
                lemma_rank_upto_bound(entries@, i as int, j as int);
            }
            if outranks_exec(entries, j, i) {
                count = count + 1;
            }
            j = j + 1;
        }
        r.push(count >= keep_latest);
        i = i + 1;
    }
    r
}

/// The total size of the entries whose removal succeeded.
pub open spec fn freed_upto(es: Seq<CachedRootfs>, removed: Seq<bool>, k: int) -> nat
    decreases k,
{
    if k <= 0 {
        0
    } else {
        freed_upto(es, removed, k - 1) + if removed[k - 1] {
            es[k - 1].metadata.size as nat
        } else {
            0nat
        }
    }
}

/// The total size of the entries of `es[..k]` that pruning to `keep` removes.
pub open spec fn pruned_size_upto(es: Seq<CachedRootfs>, keep: int, k: int) -> nat
    decreases k,
{
    if k <= 0 {
        0
    } else {
        pruned_size_upto(es, keep, k - 1) + if pruned(es, keep, k - 1) {
            es[k - 1].metadata.size as nat
        } else {
            0nat
        }
    }
}

/// When every planned removal succeeds, the freed total is the size of the
/// entries that pruning removes, and nothing else.
pub proof fn lemma_freed_all_succeed(es: Seq<CachedRootfs>, keep: int, removed: Seq<bool>, k: int)
    requires
        0 <= k <= es.len(),
        removed.len() == es.len(),
        forall|i: int| 0 <= i < es.len() ==> #[trigger] removed[i] == pruned(es, keep, i),
    ensures
        freed_upto(es, removed, k) == pruned_size_upto(es, keep, k),
    decreases k,
{
    if k > 0 {
        lemma_freed_all_succeed(es, keep, removed, k - 1);
    }
}

/// A removal that fails is not counted: when the removals that succeeded are
/// among the planned ones and the removal of entry `x` failed, the freed
/// total falls short of the planned one by at least `x`'s size.
pub proof fn lemma_freed_excludes_failure(
    es: Seq<CachedRootfs>,
    keep: int,
    removed: Seq<bool>,
    x: int,
    k: int,
)
    requires
        0 <= x < k <= es.len(),
        removed.len() == es.len(),
        forall|i: int| 0 <= i < es.len() && #[trigger] removed[i] ==> pruned(es, keep, i),
        pruned(es, keep, x),
        !removed[x],
    ensures
        freed_upto(es, removed, k) + es[x].metadata.size <= pruned_size_upto(es, keep, k),
    decreases k,
{
    lemma_freed_at_most(es, keep, removed, k - 1);
    if k - 1 > x {
        lemma_freed_excludes_failure(es, keep, removed, x, k - 1);
    }
}

proof fn lemma_freed_at_most(es: Seq<CachedRootfs>, keep: int, removed: Seq<bool>, k: int)
    requires
        0 <= k <= es.len(),
        removed.len() == es.len(),
        forall|i: int| 0 <= i < es.len() && #[trigger] removed[i] ==> pruned(es, keep, i),
    ensures
        freed_upto(es, removed, k) <= pruned_size_upto(es, keep, k),
    decreases k,
{
    if k > 0 {
        lemma_freed_at_most(es, keep, removed, k - 1);
    }
}

/// The bytes freed by a prune: the sizes of the entries whose directory was
/// removed (`removed[i]`), failed removals not counted; capped at `u64::MAX`.
pub fn freed_bytes(entries: &Vec<CachedRootfs>, removed: &Vec<bool>) -> (r: u64)
    requires
        removed@.len() == entries@.len(),
    ensures
        r == if freed_upto(entries@, removed@, entries@.len() as int) > u64::MAX {
            u64::MAX as int
        } else {
            freed_upto(entries@, removed@, entries@.len() as int) as int
        },
{
    let n = entries.len();
    let mut total: u64 = 0;
    let mut k: usize = 0;
    while k < n
        invariant
            n == entries@.len(),
            removed@.len() == n,
            k <= n,
            total == if freed_upto(entries@, removed@, k as int) > u64::MAX {
                u64::MAX as int
            } else {
                freed_upto(entries@, removed@, k as int) as int
            },
        decreases n - k,
    {
        if removed[k] {
            total = total.saturating_add(entries[k].metadata.size);
        }
        k = k + 1;
    }
    total
}


/// Storing a download and then looking its entry up finds the entry intact,
/// with the stored hash, file name and size, when the archive on disk still
/// holds the downloaded bytes.
pub proof fn lemma_store_then_lookup(
    entry_dir: Seq<char>,
    result: DownloadResult,
    downloaded_at: Seq<char>,
    stored: CachedRootfs,
    loaded: Option<CachedRootfs>,
    outcome: CacheLookup,
)
    requires
        result.wf(),
        stored_as(entry_dir, result, downloaded_at, stored),
        loaded_as(entry_dir, Some(stored.metadata), true, loaded),
        match loaded {
            Some(c) => concluded_as(c, hex_of(sha256_of(result.data@)), outcome),
            None => true,
        },
    ensures
        outcome matches CacheLookup::Hit(c) && c.archive_path@ == stored.archive_path@
            && c.metadata.sha256@ == result.sha256@ && c.metadata.filename@ == result.filename@
            && c.metadata.size == result.data@.len() as u64,
{
}

/// An entry whose archive no longer hashes to the stored digest is evicted
/// by the lookup that discovers it.
pub proof fn lemma_tampered_entry_evicted(entry: CachedRootfs, actual: Seq<char>, outcome: CacheLookup)
    requires
        concluded_as(entry, actual, outcome),
        actual != entry.metadata.sha256@,
    ensures
        outcome is Evict,
{
}

proof fn lemma_rank_upto_self(es: Seq<CachedRootfs>, i: int, k: int)
    requires
        0 <= i < es.len(),
        0 <= k,
    ensures
        rank_upto(es, i, k) + (if i < k {
            1int
        } else {
            0int
        }) <= k,
    decreases k,
{
    if k > 0 {
        lemma_rank_upto_self(es, i, k - 1);
        if k - 1 == i {
            lemma_str_less_total(es[i].metadata.downloaded_at@, es[i].metadata.downloaded_at@);
        }
    }
}

proof fn lemma_rank_upto_newer(es: Seq<CachedRootfs>, i: int, j: int, k: int)
    requires
        0 <= i < es.len(),
        0 <= j < es.len(),
        k <= es.len(),
        es[i].metadata.distro@ == es[j].metadata.distro@,
        str_less(es[i].metadata.downloaded_at@, es[j].metadata.downloaded_at@),
    ensures
        rank_upto(es, i, k) >= rank_upto(es, j, k) + if 0 <= j < k {
            1int
        } else {
            0int
        },
    decreases k,
{
    if k > 0 {
        lemma_rank_upto_newer(es, i, j, k - 1);
        let x = k - 1;
        let ti = es[i].metadata.downloaded_at@;
        let tj = es[j].metadata.downloaded_at@;
        let tx = es[x].metadata.downloaded_at@;
        if outranks(es, x, j) {
            if str_less(tj, tx) {
                lemma_str_less_trans(ti, tj, tx);
            }
        }
        if x == j {
            lemma_str_less_total(tj, tj);
        }
    }
}

/// Within one distribution, pruning never removes an entry while keeping an
/// older one.
pub proof fn lemma_prune_keeps_newer(es: Seq<CachedRootfs>, keep: int, i: int, j: int)
    requires
        0 <= i < es.len(),
        0 <= j < es.len(),
        es[i].metadata.distro@ == es[j].metadata.distro@,
        str_less(es[i].metadata.downloaded_at@, es[j].metadata.downloaded_at@),
        pruned(es, keep, j),
    ensures
        pruned(es, keep, i),
{
    lemma_rank_upto_newer(es, i, j, es.len() as int);
}

/// The indices of the entries of distribution `d`.
pub open spec fn group(es: Seq<CachedRootfs>, d: Seq<char>) -> Set<int> {
    Set::new(|i: int| 0 <= i < es.len() && es[i].metadata.distro@ == d)
}

/// The indices of the entries of distribution `d` that pruning to `keep`
/// leaves in place.
pub open spec fn kept_in_group(es: Seq<CachedRootfs>, d: Seq<char>, keep: int) -> Set<int> {
    Set::new(|i: int| 0 <= i < es.len() && es[i].metadata.distro@ == d && !pruned(es, keep, i))
}

/// The entries of `es[..k]` that outrank entry `i`.
pub open spec fn outranking_upto(es: Seq<CachedRootfs>, i: int, k: int) -> Set<int> {
    Set::new(|j: int| 0 <= j < k && outranks(es, j, i))
}

proof fn lemma_rank_upto_card(es: Seq<CachedRootfs>, i: int, k: int)
    requires
        0 <= k <= es.len(),
    ensures
        outranking_upto(es, i, k).finite(),
        rank_upto(es, i, k) == outranking_upto(es, i, k).len(),
    decreases k,
{
    if k == 0 {
        assert(outranking_upto(es, i, 0) =~= Set::<int>::empty());
    } else {
        lemma_rank_upto_card(es, i, k - 1);
        if outranks(es, k - 1, i) {
            assert(outranking_upto(es, i, k) =~= outranking_upto(es, i, k - 1).insert(k - 1));
        } else {
            assert(outranking_upto(es, i, k) =~= outranking_upto(es, i, k - 1));
        }
    }
}

/// For every distribution `d` whose entries carry distinct timestamps,
/// pruning to keep `K` leaves exactly `min(K, |entries of d|)` entries of
/// `d` (the newest, by `lemma_prune_keeps_newer`), whatever the other
/// distributions hold.
pub proof fn lemma_prune_group_count(es: Seq<CachedRootfs>, d: Seq<char>, keep: int)
    requires
        0 <= keep,
        forall|i: int, j: int|
            group(es, d).contains(i) && group(es, d).contains(j) && i != j
                ==> #[trigger] es[i].metadata.downloaded_at@
                != #[trigger] es[j].metadata.downloaded_at@,
    ensures
        group(es, d).finite(),
        kept_in_group(es, d, keep).len() == if keep < group(es, d).len() {
            keep
        } else {
            group(es, d).len() as int
        },
{
    let n = es.len() as int;
    let g = group(es, d);
    let f = |i: int| rank(es, i) as int;
    let kept = kept_in_group(es, d, keep);
    lemma_int_range(0, n);
    assert(g.subset_of(set_int_range(0, n)));
    lemma_len_subset(g, set_int_range(0, n));
    let m = g.len() as int;
    let top = if keep < m {
        keep
    } else {
        m
    };
    lemma_int_range(0, m);
    lemma_int_range(0, top);
    assert forall|i: int| g.contains(i) implies #[trigger] f(i) < m by {
        lemma_rank_upto_card(es, i, n);
        let o = outranking_upto(es, i, n);
        assert(o.subset_of(g.remove(i))) by {
            assert forall|j: int| o.contains(j) implies g.remove(i).contains(j) by {
                if j == i {
                    lemma_str_less_total(es[i].metadata.downloaded_at@, es[i].metadata.downloaded_at@);
                }
            }
        }
        lemma_len_subset(o, g.remove(i));
    }
    assert forall|i: int, j: int| g.contains(i) && g.contains(j) && #[trigger] f(i) == #[trigger] f(
        j,
    ) implies i == j by {
        if i != j {
            let ti = es[i].metadata.downloaded_at@;
            let tj = es[j].metadata.downloaded_at@;
            assert(ti != tj);
            lemma_str_less_total(ti, tj);
            if str_less(ti, tj) {
                lemma_rank_upto_newer(es, i, j, n);
            } else {
                lemma_rank_upto_newer(es, j, i, n);
            }
        }
    }
    assert(injective_on(f, g));
    lemma_map_size(g, g.map(f), f);
    assert(g.map(f).subset_of(set_int_range(0, m)));
    lemma_subset_equality(g.map(f), set_int_range(0, m));
    assert(kept.subset_of(g));
    lemma_len_subset(kept, g);
    assert(injective_on(f, kept));
    lemma_map_size(kept, kept.map(f), f);
    let low = set_int_range(0, top);
    assert(kept.map(f).subset_of(low));
    assert(low.subset_of(kept.map(f))) by {
        assert forall|r: int| low.contains(r) implies kept.map(f).contains(r) by {
            assert(set_int_range(0, m).contains(r));
            assert(g.map(f).contains(r));
            let i = choose|i: int| g.contains(i) && f(i) == r;
            assert(kept.contains(i));
        }
    }
    lemma_len_subset(kept.map(f), low);
    lemma_len_subset(low, kept.map(f));
}

/// The decimal digit character of a value below 10.
pub open spec fn digit_char(d: nat) -> char {
    (d + 48) as char
}

/// The decimal text of `n`, without leading zeros.
pub open spec fn decimal_of(n: nat) -> Seq<char>
    decreases n,
{
    if n < 10 {
        seq![digit_char(n)]
    } else {
        decimal_of(n / 10) + seq![digit_char(n % 10)]
    }
}

fn digit_str(d: u64) -> (r: &'static str)
    requires
        d < 10,
    ensures
        r@ == seq![digit_char(d as nat)],
{
    proof {
        reveal_strlit("0");
        reveal_strlit("1");
        reveal_strlit("2");
        reveal_strlit("3");
        reveal_strlit("4");
        reveal_strlit("5");
        reveal_strlit("6");
        reveal_strlit("7");
        reveal_strlit("8");
        reveal_strlit("9");
    }
    let r = if d == 0 {
        "0"
    } else if d == 1 {
        "1"
    } else if d == 2 {
        "2"
    } else if d == 3 {
        "3"
    } else if d == 4 {
        "4"
    } else if d == 5 {
        "5"
    } else if d == 6 {
        "6"
    } else if d == 7 {
        "7"
    } else if d == 8 {
        "8"
    } else {
        "9"
    };
    assert(r@ =~= seq![digit_char(d as nat)]);
    r
}

/// The decimal text of `secs`, as stored in `downloaded_at`.
pub fn format_timestamp(secs: u64) -> (r: String)
    ensures
        r@ == decimal_of(secs as nat),
    decreases secs,
{
    if secs < 10 {
        digit_str(secs).to_owned()
    } else {
        let mut r = format_timestamp(secs / 10);
        r.append(digit_str(secs % 10));
        r
    }
}

/// Relies on `std::time::SystemTime::now`: whole seconds since the Unix
/// epoch, 0 for a clock set before it. Nothing is known of the value.
#[verifier::external_body]
fn unix_seconds_now() -> (r: u64) {
    std::time::SystemTime::now().duration_since(std::time::UNIX_EPOCH).unwrap_or_default().as_secs()
}

/// The current time as decimal Unix seconds.
pub fn chrono_now() -> (r: String)
    ensures
        exists|secs: u64| r@ == decimal_of(secs as nat),
{
    let secs = unix_seconds_now();
    format_timestamp(secs)
}

} // verus!
