//! Path string helpers used to resolve the configuration and log file
//! locations relative to the executable's directory.
//!
//! The rules are purely lexical: a path is absolute when it starts with a
//! path separator or with a drive letter followed by `:` and a separator.

use vstd::prelude::*;
use vstd::string::*;

verus! {

/// A path separator character.
pub open spec fn is_sep(c: char) -> bool {
    c == '/' || c == '\\'
}

/// An ASCII letter, as used for drive prefixes.
pub open spec fn is_ascii_letter(c: char) -> bool {
    ('a' <= c && c <= 'z') || ('A' <= c && c <= 'Z')
}

/// A path counts as absolute when it starts with a separator or with a
/// drive letter, a colon and a separator.
pub open spec fn is_absolute_path_spec(s: Seq<char>) -> bool {
    ||| (s.len() >= 1 && is_sep(s[0]))
    ||| (s.len() >= 3 && is_ascii_letter(s[0]) && s[1] == ':' && is_sep(s[2]))
}

fn char_is_sep(c: char) -> (r: bool)
    ensures
        r == is_sep(c),
{
    c == '/' || c == '\\'
}

fn char_is_ascii_letter(c: char) -> (r: bool)
    ensures
        r == is_ascii_letter(c),
{
    ('a' <= c && c <= 'z') || ('A' <= c && c <= 'Z')
}

/// Whether `path` is absolute under the lexical rule above.
pub fn is_absolute_path(path: &str) -> (r: bool)
    ensures
        r == is_absolute_path_spec(path@),
{
    let n = path.unicode_len();
    if n >= 1 && char_is_sep(path.get_char(0)) {
        return true;
    }
    if n >= 3 && char_is_ascii_letter(path.get_char(0)) && path.get_char(1) == ':'
        && char_is_sep(path.get_char(2)) {
        return true;
    }
    false
}

/// The resolution rule: an absolute path stands as it is; a relative path
/// is joined to the base directory with `/`, without doubling a trailing
/// separator of the base.
pub open spec fn to_absolute_path_spec(path: Seq<char>, base_dir: Seq<char>) -> Seq<char> {
    if is_absolute_path_spec(path) {
        path
    } else if base_dir.len() > 0 && is_sep(base_dir.last()) {
        base_dir + path
    } else {
        base_dir + seq!['/'] + path
    }
}

/// Resolves `path` against `base_dir` (typically the executable's
/// directory): an absolute path is returned unchanged, a relative one is
/// joined to the base.
pub fn to_absolute_path(path: &str, base_dir: &str) -> (r: String)
    ensures
        r@ == to_absolute_path_spec(path@, base_dir@),
{
    if is_absolute_path(path) {
        return path.to_owned();
    }
    let mut out = base_dir.to_owned();
    let base_len = base_dir.unicode_len();
    if !(base_len > 0 && char_is_sep(base_dir.get_char(base_len - 1))) {
        out.append("/");
        proof {
            reveal_strlit("/");
            assert("/"@ =~= seq!['/']);
        }
    }
    out.append(path);
    out
}

/// The directory part of `path`: the prefix before the last separator, or
/// the root separator itself when the last separator opens the path.
/// `None` when the path holds no separator at all.
pub open spec fn parent_dir_spec(s: Seq<char>) -> Option<Seq<char>> {
    if exists|i: int| 0 <= i < s.len() && is_sep(s[i]) {
        let i = last_sep_at(s);
        if i == 0 {
            Some(s.take(1))
        } else {
            Some(s.take(i))
        }
    } else {
        None
    }
}

/// The largest index holding a separator.
pub open spec fn last_sep_at(s: Seq<char>) -> int {
    choose|i: int|
        0 <= i < s.len() && is_sep(s[i]) && (forall|j: int|
            i < j < s.len() ==> !is_sep(#[trigger] s[j]))
}

proof fn lemma_last_sep_exists(s: Seq<char>, w: int)
    requires
        0 <= w < s.len(),
        is_sep(s[w]),
    ensures
        ({
            let i = last_sep_at(s);
            &&& 0 <= i < s.len()
            &&& is_sep(s[i])
            &&& forall|j: int| i < j < s.len() ==> !is_sep(#[trigger] s[j])
        }),
    decreases s.len() - w,
{
    if exists|j: int| w < j < s.len() && is_sep(#[trigger] s[j]) {
        let j = choose|j: int| w < j < s.len() && is_sep(#[trigger] s[j]);
        lemma_last_sep_exists(s, j);
    } else {
        assert(0 <= w < s.len() && is_sep(s[w]) && (forall|j: int|
            w < j < s.len() ==> !is_sep(#[trigger] s[j])));
    }
}

/// The directory that contains the named file: the prefix of `path` before
/// its last separator (the root separator is kept).  `None` when `path`
/// holds no separator.
pub fn get_executable_dir(path: &str) -> (r: Option<String>)
    ensures
        match r {
            Some(dir) => parent_dir_spec(path@) == Some(dir@),
            None => parent_dir_spec(path@) is None,
        },
{
    let n = path.unicode_len();
    let mut i: usize = n;
    while i > 0
        invariant
            i <= n,
            n == path@.len(),
            forall|j: int| i <= j < n ==> !is_sep(#[trigger] path@[j]),
        decreases i,
    {
        i = i - 1;
        if char_is_sep(path.get_char(i)) {
            proof {
                lemma_last_sep_exists(path@, i as int);
                assert(last_sep_at(path@) == i as int);
            }
            if i == 0 {
                let r = path.substring_char(0, 1);
                return Some(r.to_owned());
            }
            let r = path.substring_char(0, i);
            proof {
                assert(r@ =~= path@.take(i as int));
            }
            return Some(r.to_owned());
        }
    }
    None
}

} // verus!
