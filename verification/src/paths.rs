//! File-system paths as strings. Paths use `/` as their separator; on
//! Windows `\` separates too, and joins use `\`.
use vstd::prelude::*;

use crate::text::{chars_of, push_all, push_str, slice_to_vec, string_of};

verus! {

/// Whether `c` separates the components of a path.
pub open spec fn is_separator(c: char, windows: bool) -> bool {
    c == '/' || (windows && c == '\\')
}

/// The separator that joins add.
pub open spec fn separator(windows: bool) -> char {
    if windows {
        '\\'
    } else {
        '/'
    }
}

fn is_separator_char(c: char, windows: bool) -> (r: bool)
    ensures
        r == is_separator(c, windows),
{
    c == '/' || (windows && c == '\\')
}

/// `base` followed by `segment`, with one separator between them; a
/// `segment` that starts with a separator, or an empty `base`, gives
/// `segment` itself.
pub open spec fn path_join(base: Seq<char>, segment: Seq<char>, windows: bool) -> Seq<char> {
    if segment.len() > 0 && is_separator(segment[0], windows) {
        segment
    } else if base.len() == 0 {
        segment
    } else if is_separator(base.last(), windows) {
        base + segment
    } else {
        base + seq![separator(windows)] + segment
    }
}

/// Joins `segment` onto `base` (see `path_join`).
pub fn join_path(base: &str, segment: &str, windows: bool) -> (r: String)
    ensures
        r@ == path_join(base@, segment@, windows),
{
    let s = chars_of(segment);
    let b = chars_of(base);
    if s.len() > 0 && is_separator_char(s[0], windows) {
        return string_of(s.as_slice());
    }
    if b.len() == 0 {
        return string_of(s.as_slice());
    }
    let mut v = b;
    if !is_separator_char(v[v.len() - 1], windows) {
        v.push(if windows {
            '\\'
        } else {
            '/'
        });
    }
    push_all(&mut v, s.as_slice());
    string_of(v.as_slice())
}

/// `s` without its trailing separators.
pub open spec fn strip_trailing_separators(s: Seq<char>, windows: bool) -> Seq<char>
    decreases s.len(),
{
    if s.len() > 0 && is_separator(s.last(), windows) {
        strip_trailing_separators(s.drop_last(), windows)
    } else {
        s
    }
}

/// The index of the last separator of `s`.
pub open spec fn last_separator(s: Seq<char>, windows: bool) -> Option<int>
    decreases s.len(),
{
    if s.len() == 0 {
        None
    } else if is_separator(s.last(), windows) {
        Some(s.len() - 1)
    } else {
        last_separator(s.drop_last(), windows)
    }
}

/// Where the last separator stands.
pub proof fn lemma_last_separator(s: Seq<char>, windows: bool)
    ensures
        last_separator(s, windows) matches Some(i) ==> 0 <= i < s.len() && is_separator(
            s[i],
            windows,
        ) && forall|k: int| i < k < s.len() ==> !is_separator(#[trigger] s[k], windows),
        last_separator(s, windows) is None ==> forall|k: int|
            0 <= k < s.len() ==> !is_separator(#[trigger] s[k], windows),
    decreases s.len(),
{
    if s.len() > 0 && !is_separator(s.last(), windows) {
        lemma_last_separator(s.drop_last(), windows);
        assert forall|k: int| 0 <= k < s.len() - 1 implies s[k] == s.drop_last()[k] by {}
    }
}

/// The index of the last separator of `s` (see `last_separator`).
pub fn last_separator_of(s: &[char], windows: bool) -> (r: Option<usize>)
    ensures
        match last_separator(s@, windows) {
            Some(i) => r == Some(i as usize),
            None => r is None,
        },
{
    let mut k = s.len();
    assert(s@.subrange(0, k as int) == s@);
    while k > 0
        invariant
            k <= s@.len(),
            last_separator(s@, windows) == last_separator(s@.subrange(0, k as int), windows),
        decreases k,
    {
        assert(s@.subrange(0, k as int).last() == s@[k - 1]);
        if is_separator_char(s[k - 1], windows) {
            return Some(k - 1);
        }
        assert(s@.subrange(0, k as int).drop_last() == s@.subrange(0, k - 1));
        k = k - 1;
    }
    None
}

/// The directory that holds `p`: `None` for an empty path and for a root,
/// the empty path for a bare file name, the root for an entry of the root.
pub open spec fn parent_path(p: Seq<char>, windows: bool) -> Option<Seq<char>> {
    let t = strip_trailing_separators(p, windows);
    if t.len() == 0 {
        None
    } else {
        match last_separator(t, windows) {
            None => Some(Seq::<char>::empty()),
            Some(i) => {
                let head = strip_trailing_separators(t.subrange(0, i), windows);
                if head.len() == 0 {
                    Some(seq![t[i]])
                } else {
                    Some(head)
                }
            },
        }
    }
}

proof fn lemma_strip_trailing_separators(s: Seq<char>, windows: bool)
    ensures
        strip_trailing_separators(s, windows).len() <= s.len(),
        strip_trailing_separators(s, windows) == s.subrange(
            0,
            strip_trailing_separators(s, windows).len() as int,
        ),
    decreases s.len(),
{
    if s.len() > 0 && is_separator(s.last(), windows) {
        lemma_strip_trailing_separators(s.drop_last(), windows);
        assert(s.drop_last().subrange(0, strip_trailing_separators(s, windows).len() as int)
            == s.subrange(0, strip_trailing_separators(s, windows).len() as int));
    } else {
        assert(s.subrange(0, s.len() as int) == s);
    }
}

fn stripped_len(s: &[char], end: usize, windows: bool) -> (r: usize)
    requires
        end <= s@.len(),
    ensures
        r == strip_trailing_separators(s@.subrange(0, end as int), windows).len(),
        r <= end,
{
    let mut k = end;
    proof {
        lemma_strip_trailing_separators(s@.subrange(0, end as int), windows);
    }
    while k > 0 && is_separator_char(s[k - 1], windows)
        invariant
            k <= end <= s@.len(),
            strip_trailing_separators(s@.subrange(0, k as int), windows)
                == strip_trailing_separators(s@.subrange(0, end as int), windows),
        decreases k,
    {
        assert(s@.subrange(0, k as int).drop_last() == s@.subrange(0, k - 1));
        k = k - 1;
    }
    assert(strip_trailing_separators(s@.subrange(0, k as int), windows) == s@.subrange(
        0,
        k as int,
    ));
    k
}

/// The directory that holds `p` (see `parent_path`).
pub fn parent_of(p: &str, windows: bool) -> (r: Option<String>)
    ensures
        r matches Some(d) ==> parent_path(p@, windows) == Some(d@),
        r is None ==> parent_path(p@, windows) is None,
{
    let v = chars_of(p);
    let n = stripped_len(v.as_slice(), v.len(), windows);
    assert(v@.subrange(0, v@.len() as int) == v@);
    proof {
        lemma_strip_trailing_separators(v@, windows);
    }
    if n == 0 {
        return None;
    }
    let t = slice_to_vec(v.as_slice(), 0, n);
    assert(t@ == strip_trailing_separators(p@, windows));
    match last_separator_of(t.as_slice(), windows) {
        None => Some(String::new()),
        Some(i) => {
            proof {
                lemma_last_separator(t@, windows);
            }
            let h = stripped_len(t.as_slice(), i, windows);
            if h == 0 {
                let mut root: Vec<char> = Vec::new();
                root.push(t[i]);
                Some(string_of(root.as_slice()))
            } else {
                proof {
                    lemma_strip_trailing_separators(t@.subrange(0, i as int), windows);
                    assert(t@.subrange(0, i as int).subrange(0, h as int) == t@.subrange(
                        0,
                        h as int,
                    ));
                }
                let head = slice_to_vec(t.as_slice(), 0, h);
                Some(string_of(head.as_slice()))
            }
        },
    }
}

/// The directory in which a file is created: its parent, or `.` when it
/// has none.
pub open spec fn directory_of(p: Seq<char>, windows: bool) -> Seq<char> {
    match parent_path(p, windows) {
        Some(d) => d,
        None => seq!['.'],
    }
}

/// The directory in which `p` is created (see `directory_of`).
pub fn directory_for(p: &str, windows: bool) -> (r: String)
    ensures
        r@ == directory_of(p@, windows),
{
    match parent_of(p, windows) {
        Some(d) => d,
        None => {
            let r = ".".to_owned();
            proof {
                reveal_strlit(".");
            }
            r
        },
    }
}

/// The index just past the last separator of `p`, or 0.
pub open spec fn name_start(p: Seq<char>, windows: bool) -> int {
    match last_separator(p, windows) {
        Some(i) => i + 1,
        None => 0,
    }
}

/// `p` with the extension of its last component replaced by `ext` (added
/// when the name has none; a leading dot does not start an extension).
pub open spec fn path_with_extension(p: Seq<char>, ext: Seq<char>, windows: bool) -> Seq<char> {
    let start = name_start(p, windows);
    let name = p.subrange(start, p.len() as int);
    match crate::text::rfind(name, '.') {
        Some(i) if i > 0 => p.subrange(0, start + i) + seq!['.'] + ext,
        _ => p + seq!['.'] + ext,
    }
}

/// `p` with the extension `ext` (see `path_with_extension`).
pub fn with_extension(p: &str, ext: &str, windows: bool) -> (r: String)
    ensures
        r@ == path_with_extension(p@, ext@, windows),
{
    let v = chars_of(p);
    let vlen = v.len();
    proof {
        lemma_last_separator(v@, windows);
    }
    let start: usize = match last_separator_of(v.as_slice(), windows) {
        Some(i) => {
            assert(i < vlen);
            i + 1
        },
        None => 0,
    };
    let name = slice_to_vec(v.as_slice(), start, v.len());
    let mut out: Vec<char>;
    match crate::text::rfind_char(name.as_slice(), '.') {
        Some(i) => {
            if i > 0 {
                proof {
                    crate::text::lemma_rfind(name@, '.');
                }
                out = slice_to_vec(v.as_slice(), 0, start + i);
            } else {
                out = v;
            }
        },
        None => {
            out = v;
        },
    }
    out.push('.');
    push_str(&mut out, ext);
    string_of(out.as_slice())
}

} // verus!
