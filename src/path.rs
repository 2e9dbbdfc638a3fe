//! `/`-separated paths as text.

use vstd::prelude::*;
use crate::text::{chars_of, concat_str, find_exec, find_from, lemma_find_from, str_eq};

verus! {

/// `seg` appended to `base` as a path: a separator is added unless `base` is
/// empty or ends with one; an absolute `seg` replaces `base`.
pub open spec fn join_path(base: Seq<char>, seg: Seq<char>) -> Seq<char> {
    if seg.len() > 0 && seg[0] == '/' {
        seg
    } else if base.len() == 0 || base.last() == '/' {
        base + seg
    } else {
        base + seq!['/'] + seg
    }
}

/// `seg` appended to `base` as a path.
pub fn join_path_exec(base: &str, seg: &str) -> (r: String)
    ensures
        r@ == join_path(base@, seg@),
{
    let sn = seg.unicode_len();
    if sn > 0 && seg.get_char(0) == '/' {
        return seg.to_owned();
    }
    let bn = base.unicode_len();
    if bn == 0 || base.get_char(bn - 1) == '/' {
        concat_str(base, seg)
    } else {
        let mut r = concat_str(base, "/");
        proof {
            reveal_strlit("/");
        }
        r.append(seg);
        assert(r@ =~= base@ + seq!['/'] + seg@);
        r
    }
}

/// A piece between separators, kept unless it is empty or `.`.
pub open spec fn kept(p: Seq<char>) -> Seq<Seq<char>> {
    if p.len() == 0 || p == seq!['.'] {
        Seq::empty()
    } else {
        seq![p]
    }
}

/// The named components of `s[start..]`: the pieces between `/`
/// separators, without empty and `.` pieces.
pub open spec fn parts_from(s: Seq<char>, start: int) -> Seq<Seq<char>>
    decreases s.len() - start via parts_from_decreases
{
    if 0 <= start <= s.len() {
        match find_from(s, '/', start) {
            Some(i) => kept(s.subrange(start, i)) + parts_from(s, i + 1),
            None => kept(s.subrange(start, s.len() as int)),
        }
    } else {
        Seq::empty()
    }
}

#[via_fn]
proof fn parts_from_decreases(s: Seq<char>, start: int) {
    if 0 <= start <= s.len() {
        lemma_find_from(s, '/', start);
    }
}

/// The named components of path `s`.
pub open spec fn path_parts(s: Seq<char>) -> Seq<Seq<char>> {
    parts_from(s, 0)
}

fn is_kept(p: &str) -> (r: bool)
    ensures
        r == (kept(p@).len() == 1),
{
    let n = p.unicode_len();
    if n == 0 {
        return false;
    }
    if n == 1 && p.get_char(0) == '.' {
        assert(p@ =~= seq!['.']);
        return false;
    }
    proof {
        if p@ == seq!['.'] {
            assert(p@[0] == '.');
        }
    }
    true
}

/// The named components of path `s`, as slices of it.
pub fn split_path<'a>(s: &'a str) -> (r: Vec<&'a str>)
    ensures
        r@.len() == path_parts(s@).len(),
        forall|k: int| 0 <= k < r@.len() ==> #[trigger] r@[k]@ == path_parts(s@)[k],
{
    let cs = chars_of(s);
    let n = cs.len();
    let mut r: Vec<&'a str> = Vec::new();
    let mut start: usize = 0;
    let ghost all = path_parts(s@);
    loop
        invariant
            n == cs@.len(),
            cs@ == s@,
            start <= n,
            r@.len() + parts_from(s@, start as int).len() == all.len(),
            forall|k: int| 0 <= k < r@.len() ==> #[trigger] r@[k]@ == all[k],
            forall|k: int|
                0 <= k < parts_from(s@, start as int).len() ==> #[trigger] parts_from(
                    s@,
                    start as int,
                )[k] == all[r@.len() + k],
            all == path_parts(s@),
        decreases n - start,
    {
        let found = find_exec(&cs, '/', start);
        let end = match found {
            Some(i) => i,
            None => n,
        };
        let piece = s.substring_char(start, end);
        let ghost rest = match found {
            Some(i) => parts_from(s@, i + 1),
            None => Seq::<Seq<char>>::empty(),
        };
        proof {
            lemma_find_from(s@, '/', start as int);
            assert(parts_from(s@, start as int) =~= kept(piece@) + rest);
        }
        if is_kept(piece) {
            proof {
                assert(kept(piece@) =~= seq![piece@]);
                assert forall|k: int| 0 <= k < rest.len() implies #[trigger] rest[k] == all[
                    r@.len() + 1 + k
                ] by {
                    assert(rest[k] == parts_from(s@, start as int)[k + 1]);
                }
                assert(parts_from(s@, start as int)[0] == piece@);
            }
            r.push(piece);
        } else {
            proof {
                assert(kept(piece@).len() == 0);
                assert forall|k: int| 0 <= k < rest.len() implies #[trigger] rest[k] == all[
                    r@.len() + k
                ] by {
                    assert(rest[k] == parts_from(s@, start as int)[k]);
                }
            }
        }
        match found {
            Some(i) => {
                start = i + 1;
            },
            None => {
                return r;
            },
        }
    }
}

/// The last component of path `s`, or nothing when it has none or it is `..`.
pub open spec fn file_name(s: Seq<char>) -> Seq<char> {
    let ps = path_parts(s);
    if ps.len() == 0 || ps.last() == seq!['.', '.'] {
        Seq::empty()
    } else {
        ps.last()
    }
}

/// The last component of path `s`, or `""` when it has none or it is `..`.
pub fn file_name_exec<'a>(s: &'a str) -> (r: &'a str)
    ensures
        r@ == file_name(s@),
{
    let ps = split_path(s);
    let k = ps.len();
    if k == 0 {
        proof {
            reveal_strlit("");
        }
        return "";
    }
    let last = ps[k - 1];
    proof {
        reveal_strlit("..");
        reveal_strlit("");
        assert(".."@ =~= seq!['.', '.']);
    }
    if str_eq(last, "..") {
        return "";
    }
    last
}

} // verus!
