//! Decomposition of a path string into directory, stem and extension, and the
//! names derived from them.
//!
//! A separator is `/` or `\`. The extension is what follows the last `.`,
//! provided that dot lies after the last separator; a path without such a dot
//! has no extension.
use vstd::prelude::*;
use crate::text::{last_of, lemma_last_of_bounds, strip_all, find_last, strip_all_exec};

verus! {

pub open spec fn last_sep(s: Seq<char>) -> int {
    last_of(s, '/', '\\')
}

pub open spec fn last_dot(s: Seq<char>) -> int {
    last_of(s, '.', '.')
}

/// The final path component of `s` holds a dot.
pub open spec fn has_ext(s: Seq<char>) -> bool {
    last_dot(s) > last_sep(s)
}

/// Everything up to and including the last separator (empty for a bare name).
pub open spec fn dir_of(s: Seq<char>) -> Seq<char> {
    s.subrange(0, last_sep(s) + 1)
}

/// The final component without its extension and the dot before it.
pub open spec fn stem_of(s: Seq<char>) -> Seq<char> {
    s.subrange(last_sep(s) + 1, last_dot(s))
}

/// What follows the last dot.
pub open spec fn ext_of(s: Seq<char>) -> Seq<char> {
    s.subrange(last_dot(s) + 1, s.len() as int)
}

/// The path's three parts, present when the path has an extension.
pub struct PathParts {
    pub dir: Vec<char>,
    pub stem: Vec<char>,
    pub ext: Vec<char>,
}

/// Appends the characters of `s` to `r`.
pub fn push_all(r: &mut Vec<char>, s: &Vec<char>)
    ensures
        final(r)@ == old(r)@ + s@,
{
    let ghost start = r@;
    let mut i: usize = 0;
    while i < s.len()
        invariant
            i <= s.len(),
            r@ == start + s@.subrange(0, i as int),
        decreases s.len() - i,
    {
        r.push(s[i]);
        i = i + 1;
        assert(r@ =~= start + s@.subrange(0, i as int));
    }
    assert(s@.subrange(0, s.len() as int) =~= s@);
}

/// The characters of `s` from `from` up to `to`.
fn slice_chars(s: &Vec<char>, from: usize, to: usize) -> (r: Vec<char>)
    requires
        from <= to <= s.len(),
    ensures
        r@ == s@.subrange(from as int, to as int),
{
    let mut r: Vec<char> = Vec::new();
    let mut i: usize = from;
    while i < to
        invariant
            from <= i <= to <= s.len(),
            r@ == s@.subrange(from as int, i as int),
        decreases to - i,
    {
        r.push(s[i]);
        i = i + 1;
        assert(r@ =~= s@.subrange(from as int, i as int));
    }
    r
}

/// Splits `p` into directory, stem and extension; `None` when it has no
/// extension.
pub fn split_path(p: &Vec<char>) -> (r: Option<PathParts>)
    ensures
        r is Some <==> has_ext(p@),
        r matches Some(parts) ==> parts.dir@ == dir_of(p@) && parts.stem@ == stem_of(p@)
            && parts.ext@ == ext_of(p@),
{
    proof {
        lemma_last_of_bounds(p@, '/', '\\');
        lemma_last_of_bounds(p@, '.', '.');
    }
    let dot = match find_last(p, '.', '.') {
        Some(d) => d,
        None => {
            return None;
        },
    };
    let name_start: usize = match find_last(p, '/', '\\') {
        Some(k) => {
            if k > dot {
                return None;
            }
            k + 1
        },
        None => 0,
    };
    if name_start > dot {
        return None;
    }
    let dir = slice_chars(p, 0, name_start);
    let stem = slice_chars(p, name_start, dot);
    let ext = slice_chars(p, dot + 1, p.len());
    Some(PathParts { dir, stem, ext })
}

/// `dir_of(s) + middle + "." + ext_of(s)`: the same place and extension,
/// another stem.
pub open spec fn with_stem(s: Seq<char>, middle: Seq<char>) -> Seq<char> {
    dir_of(s) + middle + seq!['.'] + ext_of(s)
}

/// The input that a file tagged with `tag` was presumably made from: its stem
/// with every `.{tag}` segment removed.
pub open spec fn original_of(s: Seq<char>, tag: Seq<char>) -> Seq<char> {
    with_stem(s, strip_all(stem_of(s), seq!['.'] + tag))
}

/// The path `original_of(p, tag)`; `None` when `p` has no extension.
pub fn original_path(p: &Vec<char>, tag: &Vec<char>) -> (r: Option<Vec<char>>)
    ensures
        r is Some <==> has_ext(p@),
        r matches Some(o) ==> o@ == original_of(p@, tag@),
{
    match split_path(p) {
        None => None,
        Some(parts) => {
            let mut pattern: Vec<char> = Vec::new();
            pattern.push('.');
            push_all(&mut pattern, tag);
            assert(pattern@ =~= seq!['.'] + tag@);
            let middle = strip_all_exec(&parts.stem, &pattern);
            let mut r = parts.dir;
            push_all(&mut r, &middle);
            r.push('.');
            push_all(&mut r, &parts.ext);
            assert(r@ =~= original_of(p@, tag@));
            Some(r)
        },
    }
}

} // verus!
