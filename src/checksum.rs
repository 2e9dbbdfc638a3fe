//! The three checksum-file grammars: a single entry, GNU coreutils lists and
//! BSD-style parenthesised lists.

use vstd::prelude::*;
use vstd::string::*;
use crate::text::{
    chars_of, end_trimmed_exec, find_exec, find_from, lines, rfind_before, rfind_exec,
    scan_non_ws, scan_non_ws_exec, scan_ws, scan_ws_exec,
    split_lines, str_eq, trim, trim_start,
};

verus! {

/// Describes how a distribution's checksum file is formatted.
#[derive(Debug, Clone, Copy, PartialEq, Eq, Structural)]
pub enum ChecksumFormat {
    /// The first whitespace-delimited token of the first line is the hash.
    SingleEntry,
    /// `<hash>  <filename>` or `<hash> *<filename>`, one per line.
    GnuCoreutils,
    /// `SHA256 (<filename>) = <hash>`, one per line.
    Bsd,
}

/// The first whitespace-delimited token of `l`.
pub open spec fn first_token(l: Seq<char>) -> Option<Seq<char>> {
    let a = scan_non_ws(l, 0);
    if a < l.len() {
        Some(l.subrange(a, scan_ws(l, a)))
    } else {
        None
    }
}

/// The hash of a single-entry checksum file.
pub open spec fn single_entry_hash(content: Seq<char>) -> Option<Seq<char>> {
    if lines(content).len() > 0 {
        first_token(lines(content)[0])
    } else {
        None
    }
}

/// A GNU coreutils line split into its hash and its file name: the hash runs
/// to the first whitespace character; the name is what follows, without
/// leading whitespace and without one binary-mode marker `*`.
pub open spec fn gnu_entry(line: Seq<char>) -> Option<(Seq<char>, Seq<char>)> {
    let w = scan_ws(line, 0);
    if w < line.len() {
        let t = trim_start(line.subrange(w + 1, line.len() as int));
        Some((line.subrange(0, w), strip_marker(t)))
    } else {
        None
    }
}

/// `t` without its first character when that is the binary-mode marker `*`.
pub open spec fn strip_marker(t: Seq<char>) -> Seq<char> {
    if t.len() > 0 && t[0] == '*' {
        t.drop_first()
    } else {
        t
    }
}

/// The part of `line` after its last `c`, or all of it when it holds none.
pub open spec fn after_last(line: Seq<char>, c: char) -> Seq<char> {
    match rfind_before(line, c, line.len() as int) {
        Some(i) => line.subrange(i + 1, line.len() as int),
        None => line,
    }
}

/// A BSD line split into its file name and its hash: the line starts with
/// `SHA`, the name lies between the first `(` and the first `)`, the hash is
/// what follows the last `=`, trimmed.
pub open spec fn bsd_entry(line: Seq<char>) -> Option<(Seq<char>, Seq<char>)> {
    if line.len() >= 3 && line.subrange(0, 3) == seq!['S', 'H', 'A'] {
        match (find_from(line, '(', 0), find_from(line, ')', 0)) {
            (Some(a), Some(b)) => if a < b {
                Some((line.subrange(a + 1, b), trim(after_last(line, '='))))
            } else {
                None
            },
            _ => None,
        }
    } else {
        None
    }
}

/// The hash that `line` gives for `filename` in a list grammar.
pub open spec fn line_hash(format: ChecksumFormat, line: Seq<char>, filename: Seq<char>) -> Option<
    Seq<char>,
> {
    match format {
        ChecksumFormat::Bsd => match bsd_entry(line) {
            Some(e) => if e.0 == filename {
                Some(e.1)
            } else {
                None
            },
            None => None,
        },
        _ => match gnu_entry(line) {
            Some(e) => if e.1 == filename {
                Some(e.0)
            } else {
                None
            },
            None => None,
        },
    }
}

/// The hash that the first matching line of `ls[k..]` gives for `filename`.
pub open spec fn lookup_from(
    format: ChecksumFormat,
    ls: Seq<Seq<char>>,
    filename: Seq<char>,
    k: int,
) -> Option<Seq<char>>
    decreases ls.len() - k,
{
    if 0 <= k < ls.len() {
        match line_hash(format, ls[k], filename) {
            Some(h) => Some(h),
            None => lookup_from(format, ls, filename, k + 1),
        }
    } else {
        None
    }
}

/// The hash, before lowercasing, that a checksum file in `format` gives for
/// `filename`.
pub open spec fn checksum_hash(format: ChecksumFormat, content: Seq<char>, filename: Seq<char>) -> Option<
    Seq<char>,
> {
    match format {
        ChecksumFormat::SingleEntry => single_entry_hash(content),
        _ => lookup_from(format, lines(content), filename, 0),
    }
}

/// The file name that `line` carries in a list grammar.
pub open spec fn entry_name(format: ChecksumFormat, line: Seq<char>) -> Option<Seq<char>> {
    match format {
        ChecksumFormat::Bsd => match bsd_entry(line) {
            Some(e) => Some(e.0),
            None => None,
        },
        _ => match gnu_entry(line) {
            Some(e) => Some(e.1),
            None => None,
        },
    }
}

proof fn lemma_lookup_from_exact(
    format: ChecksumFormat,
    ls: Seq<Seq<char>>,
    filename: Seq<char>,
    k: int,
)
    requires
        0 <= k,
        forall|j: int| 0 <= j < ls.len() ==> entry_name(format, #[trigger] ls[j]) != Some(filename),
    ensures
        lookup_from(format, ls, filename, k) is None,
    decreases ls.len() - k,
{
    if k < ls.len() {
        assert(entry_name(format, ls[k]) != Some(filename));
        lemma_lookup_from_exact(format, ls, filename, k + 1);
    }
}

/// The list grammars, GNU coreutils and BSD alike, match file names
/// exactly: when no line carries
/// `filename` itself (say, every line names a longer file that ends with
/// it), the lookup finds no hash.
pub proof fn lemma_lookup_exact(format: ChecksumFormat, content: Seq<char>, filename: Seq<char>)
    requires
        format != ChecksumFormat::SingleEntry,
        forall|k: int|
            0 <= k < lines(content).len() ==> entry_name(format, #[trigger] lines(content)[k])
                != Some(filename),
    ensures
        checksum_hash(format, content, filename) is None,
{
    lemma_lookup_from_exact(format, lines(content), filename, 0);
}

fn first_token_exec<'a>(line: &'a str) -> (r: Option<&'a str>)
    ensures
        match r {
            Some(t) => first_token(line@) == Some(t@),
            None => first_token(line@) is None,
        },
{
    let cs = chars_of(line);
    let a = scan_non_ws_exec(&cs, 0);
    if a < cs.len() {
        let b = scan_ws_exec(&cs, a);
        Some(line.substring_char(a, b))
    } else {
        None
    }
}

fn gnu_line_hash<'a>(line: &'a str, filename: &str) -> (r: Option<&'a str>)
    ensures
        match r {
            Some(h) => line_hash(ChecksumFormat::GnuCoreutils, line@, filename@) == Some(h@),
            None => line_hash(ChecksumFormat::GnuCoreutils, line@, filename@) is None,
        },
{
    let cs = chars_of(line);
    let n = cs.len();
    let w = scan_ws_exec(&cs, 0);
    if w >= n {
        return None;
    }
    let rest = line.substring_char(w + 1, n);
    let rc = chars_of(rest);
    let a = scan_non_ws_exec(&rc, 0);
    let t = rest.substring_char(a, rc.len());
    let tc = chars_of(t);
    let b: usize = if tc.len() > 0 && tc[0] == '*' {
        1
    } else {
        0
    };
    let name = t.substring_char(b, tc.len());
    assert(name@ =~= strip_marker(t@));
    if str_eq(name, filename) {
        Some(line.substring_char(0, w))
    } else {
        None
    }
}

fn bsd_line_hash<'a>(line: &'a str, filename: &str) -> (r: Option<&'a str>)
    ensures
        match r {
            Some(h) => line_hash(ChecksumFormat::Bsd, line@, filename@) == Some(h@),
            None => line_hash(ChecksumFormat::Bsd, line@, filename@) is None,
        },
{
    let cs = chars_of(line);
    let n = cs.len();
    if !(n >= 3 && cs[0] == 'S' && cs[1] == 'H' && cs[2] == 'A') {
        proof {
            if line@.len() >= 3 && line@.subrange(0, 3) == seq!['S', 'H', 'A'] {
                assert(line@.subrange(0, 3)[0] == 'S');
                assert(line@.subrange(0, 3)[1] == 'H');
                assert(line@.subrange(0, 3)[2] == 'A');
            }
        }
        return None;
    }
    assert(line@.subrange(0, 3) =~= seq!['S', 'H', 'A']);
    let open = find_exec(&cs, '(', 0);
    let close = find_exec(&cs, ')', 0);
    match (open, close) {
        (Some(a), Some(b)) => {
            if a >= b {
                return None;
            }
            let name = line.substring_char(a + 1, b);
            if !str_eq(name, filename) {
                return None;
            }
            let after = match rfind_exec(&cs, '=') {
                Some(i) => line.substring_char(i + 1, n),
                None => line,
            };
            let ac = chars_of(after);
            let e = end_trimmed_exec(&ac);
            let te = after.substring_char(0, e);
            let tc = chars_of(te);
            let s = scan_non_ws_exec(&tc, 0);
            Some(te.substring_char(s, tc.len()))
        },
        _ => None,
    }
}

/// The hash, before lowercasing, that a checksum file in `format` gives for
/// `filename`; the single-entry grammar ignores `filename`.
pub fn find_checksum<'a>(format: ChecksumFormat, content: &'a str, filename: &str) -> (r: Option<
    &'a str,
>)
    ensures
        match r {
            Some(h) => checksum_hash(format, content@, filename@) == Some(h@),
            None => checksum_hash(format, content@, filename@) is None,
        },
{
    let ls = split_lines(content);
    if format == ChecksumFormat::SingleEntry {
        if ls.len() == 0 {
            return None;
        }
        return first_token_exec(ls[0]);
    }
    let mut k: usize = 0;
    while k < ls.len()
        invariant
            format != ChecksumFormat::SingleEntry,
            ls@.len() == lines(content@).len(),
            forall|j: int| 0 <= j < ls@.len() ==> #[trigger] ls@[j]@ == lines(content@)[j],
            k <= ls@.len(),
            lookup_from(format, lines(content@), filename@, 0) == lookup_from(
                format,
                lines(content@),
                filename@,
                k as int,
            ),
        decreases ls@.len() - k,
    {
        let line = ls[k];
        let found = if format == ChecksumFormat::Bsd {
            bsd_line_hash(line, filename)
        } else {
            gnu_line_hash(line, filename)
        };
        if found.is_some() {
            return found;
        }
        k = k + 1;
    }
    None
}

} // verus!
