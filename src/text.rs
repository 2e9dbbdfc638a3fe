//! Character-level string helpers shared by the resolvers and parsers.

use vstd::prelude::*;
use vstd::string::*;

verus! {

/// Unicode `White_Space`, the set that `char::is_whitespace` tests.
pub open spec fn is_ws(c: char) -> bool {
    ('\u{9}' <= c && c <= '\u{d}') || c == ' ' || c == '\u{85}' || c == '\u{a0}'
        || c == '\u{1680}' || ('\u{2000}' <= c && c <= '\u{200a}') || c == '\u{2028}'
        || c == '\u{2029}' || c == '\u{202f}' || c == '\u{205f}' || c == '\u{3000}'
}

/// Whether `c` is whitespace, as `char::is_whitespace` decides.
pub fn is_whitespace_char(c: char) -> (r: bool)
    ensures
        r == is_ws(c),
{
    ('\u{9}' <= c && c <= '\u{d}') || c == ' ' || c == '\u{85}' || c == '\u{a0}'
        || c == '\u{1680}' || ('\u{2000}' <= c && c <= '\u{200a}') || c == '\u{2028}'
        || c == '\u{2029}' || c == '\u{202f}' || c == '\u{205f}' || c == '\u{3000}'
}

/// The characters of `s`, one per element.
pub fn chars_of(s: &str) -> (r: Vec<char>)
    ensures
        r@ == s@,
{
    let n = s.unicode_len();
    let mut r: Vec<char> = Vec::new();
    let mut i: usize = 0;
    while i < n
        invariant
            n == s@.len(),
            i <= n,
            r@ == s@.subrange(0, i as int),
        decreases n - i,
    {
        r.push(s.get_char(i));
        i = i + 1;
    }
    assert(r@ =~= s@);
    r
}

/// Whether `a` and `b` hold the same characters.
pub fn str_eq(a: &str, b: &str) -> (r: bool)
    ensures
        r == (a@ == b@),
{
    let n = a.unicode_len();
    let m = b.unicode_len();
    if n != m {
        return false;
    }
    let mut i: usize = 0;
    while i < n
        invariant
            n == a@.len(),
            m == b@.len(),
            n == m,
            i <= n,
            a@.subrange(0, i as int) == b@.subrange(0, i as int),
        decreases n - i,
    {
        if a.get_char(i) != b.get_char(i) {
            assert(a@[i as int] != b@[i as int]);
            return false;
        }
        assert(a@.subrange(0, i + 1) =~= a@.subrange(0, i as int).push(a@[i as int]));
        assert(b@.subrange(0, i + 1) =~= b@.subrange(0, i as int).push(b@[i as int]));
        i = i + 1;
    }
    assert(a@ =~= a@.subrange(0, n as int));
    assert(b@ =~= b@.subrange(0, n as int));
    true
}

/// A new string holding `a` followed by `b`.
pub fn concat_str(a: &str, b: &str) -> (r: String)
    ensures
        r@ == a@ + b@,
{
    let mut s = a.to_owned();
    s.append(b);
    s
}


/// First index at or after `k` that holds whitespace, or the length.
pub open spec fn scan_ws(s: Seq<char>, k: int) -> int
    decreases s.len() - k,
{
    if 0 <= k < s.len() {
        if is_ws(s[k]) {
            k
        } else {
            scan_ws(s, k + 1)
        }
    } else {
        s.len() as int
    }
}

/// First index at or after `k` that holds no whitespace, or the length.
pub open spec fn scan_non_ws(s: Seq<char>, k: int) -> int
    decreases s.len() - k,
{
    if 0 <= k < s.len() {
        if !is_ws(s[k]) {
            k
        } else {
            scan_non_ws(s, k + 1)
        }
    } else {
        s.len() as int
    }
}

/// First index at or after `k` that holds `c`.
pub open spec fn find_from(s: Seq<char>, c: char, k: int) -> Option<int>
    decreases s.len() - k,
{
    if 0 <= k < s.len() {
        if s[k] == c {
            Some(k)
        } else {
            find_from(s, c, k + 1)
        }
    } else {
        None
    }
}

/// Last index below `e` that holds `c`.
pub open spec fn rfind_before(s: Seq<char>, c: char, e: int) -> Option<int>
    decreases e,
{
    if 0 < e <= s.len() {
        if s[e - 1] == c {
            Some(e - 1)
        } else {
            rfind_before(s, c, e - 1)
        }
    } else {
        None
    }
}

/// Length of the prefix of `s[..e]` left after dropping trailing whitespace.
pub open spec fn end_trimmed(s: Seq<char>, e: int) -> int
    decreases e,
{
    if 0 < e <= s.len() {
        if is_ws(s[e - 1]) {
            end_trimmed(s, e - 1)
        } else {
            e
        }
    } else {
        0
    }
}

/// `s` without leading whitespace.
pub open spec fn trim_start(s: Seq<char>) -> Seq<char> {
    s.subrange(scan_non_ws(s, 0), s.len() as int)
}

/// `s` without trailing whitespace.
pub open spec fn trim_end(s: Seq<char>) -> Seq<char> {
    s.subrange(0, end_trimmed(s, s.len() as int))
}

/// `s` without leading or trailing whitespace.
pub open spec fn trim(s: Seq<char>) -> Seq<char> {
    trim_start(trim_end(s))
}

/// A line without the carriage return that ends it, if any.
pub open spec fn strip_cr(l: Seq<char>) -> Seq<char> {
    if l.len() > 0 && l.last() == '\r' {
        l.drop_last()
    } else {
        l
    }
}

/// The lines of `s[start..]`: split at each line feed, with a carriage return
/// before it dropped; a final line feed opens no empty line.
pub open spec fn lines_from(s: Seq<char>, start: int) -> Seq<Seq<char>>
    decreases s.len() - start via lines_from_decreases
{
    if 0 <= start < s.len() {
        match find_from(s, '\n', start) {
            Some(i) => seq![strip_cr(s.subrange(start, i))] + lines_from(s, i + 1),
            None => seq![s.subrange(start, s.len() as int)],
        }
    } else {
        Seq::empty()
    }
}

#[via_fn]
proof fn lines_from_decreases(s: Seq<char>, start: int) {
    if 0 <= start < s.len() {
        lemma_find_from(s, '\n', start);
    }
}

/// The lines of `s`.
pub open spec fn lines(s: Seq<char>) -> Seq<Seq<char>> {
    lines_from(s, 0)
}

/// What `find_from` returns: the first `c` at or after `k`, or none there.
pub proof fn lemma_find_from(s: Seq<char>, c: char, k: int)
    requires
        0 <= k,
    ensures
        match find_from(s, c, k) {
            Some(i) => k <= i < s.len() && s[i] == c && forall|j: int| k <= j < i ==> s[j] != c,
            None => forall|j: int| k <= j < s.len() ==> s[j] != c,
        },
    decreases s.len() - k,
{
    if k < s.len() && s[k] != c {
        lemma_find_from(s, c, k + 1);
    }
}

/// `scan_ws` over the characters `cs`.
pub fn scan_ws_exec(cs: &Vec<char>, k: usize) -> (r: usize)
    requires
        k <= cs@.len(),
    ensures
        r as int == scan_ws(cs@, k as int),
        k <= r <= cs@.len(),
{
    let mut i = k;
    while i < cs.len()
        invariant
            k <= i <= cs@.len(),
            scan_ws(cs@, k as int) == scan_ws(cs@, i as int),
        decreases cs@.len() - i,
    {
        if is_whitespace_char(cs[i]) {
            return i;
        }
        i = i + 1;
    }
    i
}

/// `scan_non_ws` over the characters `cs`.
pub fn scan_non_ws_exec(cs: &Vec<char>, k: usize) -> (r: usize)
    requires
        k <= cs@.len(),
    ensures
        r as int == scan_non_ws(cs@, k as int),
        k <= r <= cs@.len(),
{
    let mut i = k;
    while i < cs.len()
        invariant
            k <= i <= cs@.len(),
            scan_non_ws(cs@, k as int) == scan_non_ws(cs@, i as int),
        decreases cs@.len() - i,
    {
        if !is_whitespace_char(cs[i]) {
            return i;
        }
        i = i + 1;
    }
    i
}

/// `find_from` over the characters `cs`.
pub fn find_exec(cs: &Vec<char>, c: char, k: usize) -> (r: Option<usize>)
    requires
        k <= cs@.len(),
    ensures
        match r {
            Some(i) => find_from(cs@, c, k as int) == Some(i as int) && k <= i < cs@.len(),
            None => find_from(cs@, c, k as int) is None,
        },
{
    let mut i = k;
    while i < cs.len()
        invariant
            k <= i <= cs@.len(),
            find_from(cs@, c, k as int) == find_from(cs@, c, i as int),
        decreases cs@.len() - i,
    {
        if cs[i] == c {
            return Some(i);
        }
        i = i + 1;
    }
    None
}

/// The last index of `c` in `cs`.
pub fn rfind_exec(cs: &Vec<char>, c: char) -> (r: Option<usize>)
    ensures
        match r {
            Some(i) => rfind_before(cs@, c, cs@.len() as int) == Some(i as int) && i < cs@.len(),
            None => rfind_before(cs@, c, cs@.len() as int) is None,
        },
{
    let mut e = cs.len();
    while e > 0
        invariant
            e <= cs@.len(),
            rfind_before(cs@, c, cs@.len() as int) == rfind_before(cs@, c, e as int),
        decreases e,
    {
        if cs[e - 1] == c {
            return Some(e - 1);
        }
        e = e - 1;
    }
    None
}

/// `end_trimmed` over the whole of `cs`.
pub fn end_trimmed_exec(cs: &Vec<char>) -> (r: usize)
    ensures
        r as int == end_trimmed(cs@, cs@.len() as int),
        r <= cs@.len(),
{
    let mut e = cs.len();
    while e > 0
        invariant
            e <= cs@.len(),
            end_trimmed(cs@, cs@.len() as int) == end_trimmed(cs@, e as int),
        decreases e,
    {
        if !is_whitespace_char(cs[e - 1]) {
            return e;
        }
        e = e - 1;
    }
    0
}

/// The lines of `s`, as slices of it.
pub fn split_lines<'a>(s: &'a str) -> (r: Vec<&'a str>)
    ensures
        r@.len() == lines(s@).len(),
        forall|k: int| 0 <= k < r@.len() ==> #[trigger] r@[k]@ == lines(s@)[k],
{
    let cs = chars_of(s);
    let n = cs.len();
    let mut r: Vec<&'a str> = Vec::new();
    let mut start: usize = 0;
    let mut i: usize = 0;
    let ghost all = lines(s@);
    while i < n
        invariant
            n == cs@.len(),
            cs@ == s@,
            start <= i <= n,
            forall|j: int| start <= j < i ==> cs@[j] != '\n',
            r@.len() + lines_from(s@, start as int).len() == all.len(),
            forall|k: int| 0 <= k < r@.len() ==> #[trigger] r@[k]@ == all[k],
            forall|k: int|
                0 <= k < lines_from(s@, start as int).len() ==> #[trigger] lines_from(
                    s@,
                    start as int,
                )[k] == all[r@.len() + k],
            all == lines(s@),
        decreases n - i,
    {
        if cs[i] == '\n' {
            proof {
                lemma_find_first(s@, '\n', start as int, i as int);
            }
            let line = if i > start && cs[i - 1] == '\r' {
                s.substring_char(start, i - 1)
            } else {
                s.substring_char(start, i)
            };
            proof {
                let whole = s@.subrange(start as int, i as int);
                if i > start && cs@[i - 1] == '\r' {
                    assert(whole.last() == '\r');
                    assert(line@ =~= whole.drop_last());
                }
                assert(line@ == strip_cr(whole));
                let rest = lines_from(s@, i + 1);
                assert(lines_from(s@, start as int) == seq![strip_cr(whole)] + rest);
                assert forall|k: int| 0 <= k < rest.len() implies #[trigger] rest[k] == all[
                    r@.len() + 1 + k
                ] by {
                    assert(rest[k] == lines_from(s@, start as int)[k + 1]);
                }
                assert(lines_from(s@, start as int)[0] == strip_cr(whole));
            }
            r.push(line);
            start = i + 1;
        }
        i = i + 1;
    }
    if start < n {
        proof {
            lemma_find_none(s@, '\n', start as int);
            assert(lines_from(s@, start as int) == seq![s@.subrange(start as int, n as int)]);
            assert(lines_from(s@, start as int)[0] == all[r@.len() as int]);
        }
        let line = s.substring_char(start, n);
        r.push(line);
    } else {
        assert(lines_from(s@, start as int).len() == 0);
    }
    r
}

proof fn lemma_find_first(s: Seq<char>, c: char, k: int, i: int)
    requires
        0 <= k <= i < s.len(),
        s[i] == c,
        forall|j: int| k <= j < i ==> s[j] != c,
    ensures
        find_from(s, c, k) == Some(i),
    decreases i - k,
{
    if k < i {
        lemma_find_first(s, c, k + 1, i);
    }
}

proof fn lemma_find_none(s: Seq<char>, c: char, k: int)
    requires
        0 <= k,
        forall|j: int| k <= j < s.len() ==> s[j] != c,
    ensures
        find_from(s, c, k) is None,
    decreases s.len() - k,
{
    if k < s.len() {
        lemma_find_none(s, c, k + 1);
    }
}


/// `s` with every occurrence of `pat`, taken left to right without overlap,
/// replaced by `rep`.
pub open spec fn replace_all(s: Seq<char>, pat: Seq<char>, rep: Seq<char>) -> Seq<char>
    decreases s.len(),
{
    if pat.len() == 0 || s.len() == 0 {
        s
    } else if pat.len() <= s.len() && s.subrange(0, pat.len() as int) == pat {
        rep + replace_all(s.subrange(pat.len() as int, s.len() as int), pat, rep)
    } else {
        seq![s[0]] + replace_all(s.drop_first(), pat, rep)
    }
}

fn matches_at(cs: &Vec<char>, i: usize, ps: &Vec<char>) -> (r: bool)
    requires
        i + ps@.len() <= cs@.len(),
    ensures
        r == (cs@.subrange(i as int, i + ps@.len()) == ps@),
{
    let m = ps.len();
    let n = cs.len();
    let mut k: usize = 0;
    while k < m
        invariant
            m == ps@.len(),
            n == cs@.len(),
            i + m <= cs@.len(),
            k <= m,
            cs@.subrange(i as int, i + k) == ps@.subrange(0, k as int),
        decreases m - k,
    {
        if cs[i + k] != ps[k] {
            assert(cs@.subrange(i as int, i + m)[k as int] != ps@[k as int]);
            return false;
        }
        assert(cs@.subrange(i as int, i + k + 1) =~= cs@.subrange(i as int, i + k).push(
            cs@[i + k],
        ));
        assert(ps@.subrange(0, k + 1) =~= ps@.subrange(0, k as int).push(ps@[k as int]));
        k = k + 1;
    }
    assert(ps@.subrange(0, m as int) =~= ps@);
    true
}

/// `s` with each occurrence of the non-empty `pat` replaced by `rep`.
pub fn replace_str(s: &str, pat: &str, rep: &str) -> (r: String)
    requires
        pat@.len() > 0,
    ensures
        r@ == replace_all(s@, pat@, rep@),
{
    let cs = chars_of(s);
    let ps = chars_of(pat);
    let n = cs.len();
    let m = ps.len();
    let mut out = String::new();
    let mut start: usize = 0;
    let mut i: usize = 0;
    assert(s@.subrange(0, n as int) =~= s@);
    while i < n
        invariant
            n == s@.len(),
            cs@ == s@,
            ps@ == pat@,
            m == pat@.len(),
            m > 0,
            start <= i <= n,
            out@ + s@.subrange(start as int, i as int) + replace_all(
                s@.subrange(i as int, n as int),
                pat@,
                rep@,
            ) == replace_all(s@, pat@, rep@),
        decreases n - i,
    {
        let tail = Ghost(s@.subrange(i as int, n as int));
        if m <= n - i && matches_at(&cs, i, &ps) {
            proof {
                assert(tail@.subrange(0, m as int) =~= s@.subrange(i as int, i + m));
                assert(tail@.subrange(m as int, tail@.len() as int) =~= s@.subrange(
                    i + m,
                    n as int,
                ));
            }
            let ghost before = out@;
            out.append(s.substring_char(start, i));
            out.append(rep);
            proof {
                assert(s@.subrange((i + m) as int, (i + m) as int) =~= Seq::<char>::empty());
                assert(out@ + s@.subrange((i + m) as int, (i + m) as int) =~= before
                    + s@.subrange(start as int, i as int) + rep@);
                assert(before + s@.subrange(start as int, i as int) + rep@ + replace_all(
                    s@.subrange(i + m, n as int),
                    pat@,
                    rep@,
                ) =~= before + s@.subrange(start as int, i as int) + (rep@ + replace_all(
                    s@.subrange(i + m, n as int),
                    pat@,
                    rep@,
                )));
            }
            i = i + m;
            start = i;
        } else {
            proof {
                if m <= n - i {
                    assert(tail@.subrange(0, m as int) =~= s@.subrange(i as int, i + m));
                }
                assert(tail@.drop_first() =~= s@.subrange(i + 1, n as int));
                assert(s@.subrange(start as int, i + 1) =~= s@.subrange(start as int, i as int)
                    + seq![s@[i as int]]);
                assert(out@ + s@.subrange(start as int, i + 1) + replace_all(
                    s@.subrange(i + 1, n as int),
                    pat@,
                    rep@,
                ) =~= out@ + s@.subrange(start as int, i as int) + (seq![s@[i as int]]
                    + replace_all(s@.subrange(i + 1, n as int), pat@, rep@)));
            }
            i = i + 1;
        }
    }
    let ghost before = out@;
    out.append(s.substring_char(start, n));
    proof {
        assert(s@.subrange(n as int, n as int) =~= Seq::<char>::empty());
        assert(out@ =~= before + s@.subrange(start as int, n as int) + replace_all(
            s@.subrange(n as int, n as int),
            pat@,
            rep@,
        ));
    }
    out
}

/// Length of the prefix of `s[..e]` left after dropping trailing `c`s.
pub open spec fn end_past(s: Seq<char>, c: char, e: int) -> int
    decreases e,
{
    if 0 < e <= s.len() {
        if s[e - 1] == c {
            end_past(s, c, e - 1)
        } else {
            e
        }
    } else {
        0
    }
}

/// `s` without its trailing `c`s.
pub open spec fn trim_end_char(s: Seq<char>, c: char) -> Seq<char> {
    s.subrange(0, end_past(s, c, s.len() as int))
}

/// `s` without its trailing `c`s, as a slice of it.
pub fn trim_end_char_exec(s: &str, c: char) -> (r: &str)
    ensures
        r@ == trim_end_char(s@, c),
{
    let cs = chars_of(s);
    let mut e = cs.len();
    while e > 0 && cs[e - 1] == c
        invariant
            cs@ == s@,
            e <= cs@.len(),
            end_past(cs@, c, cs@.len() as int) == end_past(cs@, c, e as int),
        decreases e,
    {
        e = e - 1;
    }
    s.substring_char(0, e)
}

/// Whether `a[k..]` orders before `b[k..]`, comparing characters by code
/// point and a proper prefix before its extensions.
pub open spec fn less_from(a: Seq<char>, b: Seq<char>, k: int) -> bool
    decreases a.len() - k,
{
    if k < 0 || k >= a.len() {
        0 <= k < b.len()
    } else if k >= b.len() {
        false
    } else if a[k] != b[k] {
        a[k] < b[k]
    } else {
        less_from(a, b, k + 1)
    }
}

/// The order of `str`'s `Ord`: code points compared left to right.
pub open spec fn str_less(a: Seq<char>, b: Seq<char>) -> bool {
    less_from(a, b, 0)
}

proof fn lemma_less_from_trans(a: Seq<char>, b: Seq<char>, c: Seq<char>, k: int)
    requires
        0 <= k,
        less_from(a, b, k),
        less_from(b, c, k),
    ensures
        less_from(a, c, k),
    decreases a.len() - k,
{
    if k < a.len() && k < b.len() && k < c.len() && a[k] == b[k] && b[k] == c[k] {
        lemma_less_from_trans(a, b, c, k + 1);
    }
}

proof fn lemma_less_from_total(a: Seq<char>, b: Seq<char>, k: int)
    requires
        0 <= k <= a.len(),
        k <= b.len(),
        a != b,
        a.subrange(0, k) == b.subrange(0, k),
    ensures
        less_from(a, b, k) || less_from(b, a, k),
    decreases a.len() - k,
{
    if k == a.len() && k == b.len() {
        assert(a =~= a.subrange(0, k));
        assert(b =~= b.subrange(0, k));
    } else if k < a.len() && k < b.len() && a[k] == b[k] {
        assert(a.subrange(0, k + 1) =~= a.subrange(0, k).push(a[k]));
        assert(b.subrange(0, k + 1) =~= b.subrange(0, k).push(b[k]));
        lemma_less_from_total(a, b, k + 1);
    }
}

proof fn lemma_less_from_asym(a: Seq<char>, b: Seq<char>, k: int)
    requires
        0 <= k,
        less_from(a, b, k),
    ensures
        !less_from(b, a, k),
    decreases a.len() - k,
{
    if k < a.len() && k < b.len() && a[k] == b[k] {
        lemma_less_from_asym(a, b, k + 1);
    }
}

/// `str_less` is transitive.
pub proof fn lemma_str_less_trans(a: Seq<char>, b: Seq<char>, c: Seq<char>)
    requires
        str_less(a, b),
        str_less(b, c),
    ensures
        str_less(a, c),
{
    lemma_less_from_trans(a, b, c, 0);
}

/// Of two different strings, one orders before the other, and not both ways.
pub proof fn lemma_str_less_total(a: Seq<char>, b: Seq<char>)
    ensures
        a != b ==> str_less(a, b) || str_less(b, a),
        str_less(a, b) ==> !str_less(b, a),
        !str_less(a, a),
{
    if a != b {
        assert(a.subrange(0, 0) =~= b.subrange(0, 0));
        lemma_less_from_total(a, b, 0);
    }
    if str_less(a, b) {
        lemma_less_from_asym(a, b, 0);
    }
    if str_less(a, a) {
        lemma_less_from_asym(a, a, 0);
    }
}

/// Whether `a` orders before `b`.
pub fn str_lt(a: &str, b: &str) -> (r: bool)
    ensures
        r == str_less(a@, b@),
{
    let ac = chars_of(a);
    let bc = chars_of(b);
    let n = ac.len();
    let m = bc.len();
    let mut k: usize = 0;
    while k < n && k < m && ac[k] == bc[k]
        invariant
            ac@ == a@,
            bc@ == b@,
            n == a@.len(),
            m == b@.len(),
            k <= n,
            k <= m,
            str_less(a@, b@) == less_from(a@, b@, k as int),
        decreases n - k,
    {
        k = k + 1;
    }
    if k >= n {
        k < m
    } else if k >= m {
        false
    } else {
        ac[k] < bc[k]
    }
}

/// Whether `s` ends with `suffix`.
pub open spec fn ends_with(s: Seq<char>, suffix: Seq<char>) -> bool {
    s.len() >= suffix.len() && s.subrange(s.len() - suffix.len(), s.len() as int) == suffix
}

/// Whether `s` ends with `suffix`.
pub fn ends_with_exec(s: &str, suffix: &str) -> (r: bool)
    ensures
        r == ends_with(s@, suffix@),
{
    let n = s.unicode_len();
    let m = suffix.unicode_len();
    if n < m {
        return false;
    }
    str_eq(s.substring_char(n - m, n), suffix)
}

/// What `str::to_lowercase` returns for the characters `s`.
pub uninterp spec fn lower_of(s: Seq<char>) -> Seq<char>;

/// Relies on `str::to_lowercase`: the lowercase mapping of each character,
/// which depends on the characters alone.
#[verifier::external_body]
pub(crate) fn to_lowercase(s: &str) -> (r: String)
    ensures
        r@ == lower_of(s@),
{
    s.to_lowercase()
}

} // verus!
