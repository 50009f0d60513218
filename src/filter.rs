//! Eligibility filtering: which discovered files are worth encoding.
//!
//! A file is dropped when its path holds the encoder tag (it is an output of
//! an earlier run), when its path holds `sample`, or when it is smaller than
//! `MIN_SIZE` bytes. For each tagged file the input it was made from (the same
//! path with every `.{tag}` segment removed from the stem) is dropped too.
use vstd::prelude::*;
use crate::text::{contains_seq, chars_of, contains_exec, same_chars};
use crate::paths::{has_ext, original_of, original_path};

verus! {

/// Files below this many bytes are not encoded.
pub const MIN_SIZE: u64 = 400000000;

/// A discovered file: its path and its size in bytes.
pub struct MediaFile {
    pub path: String,
    pub size: u64,
}

/// Dropped for a reason of its own: tagged, a sample, or too small.
pub open spec fn self_excluded(f: MediaFile, tag: Seq<char>) -> bool {
    contains_seq(f.path@, tag) || contains_seq(f.path@, "sample"@) || f.size < MIN_SIZE
}

/// The input that the tagged file `g` is taken to have been made from, if any.
pub open spec fn inferred_original(g: MediaFile, tag: Seq<char>) -> Option<Seq<char>> {
    if contains_seq(g.path@, tag) && has_ext(g.path@) {
        Some(original_of(g.path@, tag))
    } else {
        None
    }
}

/// `f` is dropped from `files`.
pub open spec fn excluded(f: MediaFile, files: Seq<MediaFile>, tag: Seq<char>) -> bool {
    self_excluded(f, tag) || exists|j: int|
        0 <= j < files.len() && #[trigger] inferred_original(files[j], tag) == Some(f.path@)
}

pub open spec fn keep_pred(files: Seq<MediaFile>, tag: Seq<char>) -> spec_fn(MediaFile) -> bool {
    |f: MediaFile| !excluded(f, files, tag)
}

/// The files of `files` that are kept, in their order.
pub open spec fn eligible(files: Seq<MediaFile>, tag: Seq<char>) -> Seq<MediaFile> {
    files.filter(keep_pred(files, tag))
}

/// The paths of `files`, in order.
pub open spec fn paths_of(files: Seq<MediaFile>) -> Seq<String> {
    files.map_values(|f: MediaFile| f.path)
}

pub open spec fn opt_chars(o: Option<Vec<char>>) -> Option<Seq<char>> {
    match o {
        Some(v) => Some(v@),
        None => None,
    }
}

/// Whether the file is dropped for a reason of its own.
pub fn is_self_excluded(f: &MediaFile, tag: &Vec<char>, sample: &Vec<char>) -> (r: bool)
    requires
        sample@ == "sample"@,
    ensures
        r == self_excluded(*f, tag@),
{
    let p = chars_of(f.path.as_str());
    contains_exec(&p, tag) || contains_exec(&p, sample) || f.size < MIN_SIZE
}

/// Removes from `files` those that should not be encoded.
pub fn filter_eligible(files: &Vec<MediaFile>, tag: &str) -> (r: Vec<MediaFile>)
    ensures
        r@ == eligible(files@, tag@),
{
    let tag_c = chars_of(tag);
    let sample = chars_of("sample");
    let mut origins: Vec<Option<Vec<char>>> = Vec::new();
    let mut i: usize = 0;
    while i < files.len()
        invariant
            tag_c@ == tag@,
            i <= files.len(),
            origins.len() == i,
            forall|j: int|
                0 <= j < i ==> opt_chars(#[trigger] origins@[j]) == inferred_original(
                    files@[j],
                    tag@,
                ),
        decreases files.len() - i,
    {
        let p = chars_of(files[i].path.as_str());
        if contains_exec(&p, &tag_c) {
            origins.push(original_path(&p, &tag_c));
        } else {
            origins.push(None);
        }
        i = i + 1;
    }
    let ghost pred = keep_pred(files@, tag@);
    let mut r: Vec<MediaFile> = Vec::new();
    let mut i: usize = 0;
    while i < files.len()
        invariant
            tag_c@ == tag@,
            sample@ == "sample"@,
            pred == keep_pred(files@, tag@),
            i <= files.len(),
            origins.len() == files.len(),
            forall|j: int|
                0 <= j < files.len() ==> opt_chars(#[trigger] origins@[j]) == inferred_original(
                    files@[j],
                    tag@,
                ),
            r@ == files@.subrange(0, i as int).filter(pred),
        decreases files.len() - i,
    {
        assert(files@.subrange(0, i + 1) =~= files@.subrange(0, i as int).push(files@[i as int]));
        proof {
            files@.subrange(0, i as int).lemma_filter_push(files@[i as int], pred);
        }
        let f = &files[i];
        let mut drop = is_self_excluded(f, &tag_c, &sample);
        if !drop {
            let p = chars_of(f.path.as_str());
            let mut j: usize = 0;
            while j < origins.len()
                invariant
                    origins.len() == files.len(),
                    j <= origins.len(),
                    p@ == f.path@,
                    forall|k: int|
                        0 <= k < files.len() ==> opt_chars(#[trigger] origins@[k])
                            == inferred_original(files@[k], tag@),
                    drop <==> exists|k: int|
                        0 <= k < j && #[trigger] inferred_original(files@[k], tag@) == Some(
                            f.path@,
                        ),
                decreases origins.len() - j,
            {
                if let Some(o) = &origins[j] {
                    if same_chars(o, &p) {
                        drop = true;
                    }
                }
                assert(opt_chars(origins@[j as int]) == inferred_original(files@[j as int], tag@));
                j = j + 1;
            }
        }
        if !drop {
            r.push(MediaFile { path: f.path.clone(), size: f.size });
        }
        i = i + 1;
    }
    assert(files@.subrange(0, files.len() as int) =~= files@);
    r
}

proof fn lemma_filter_all<A>(s: Seq<A>, p: spec_fn(A) -> bool)
    requires
        forall|i: int| 0 <= i < s.len() ==> p(#[trigger] s[i]),
    ensures
        s.filter(p) == s,
    decreases s.len(),
{
    if s.len() > 0 {
        let init = s.drop_last();
        assert forall|i: int| 0 <= i < init.len() implies p(#[trigger] init[i]) by {
            assert(init[i] == s[i]);
        }
        lemma_filter_all(init, p);
        assert(s =~= init.push(s.last()));
        init.lemma_filter_push(s.last(), p);
    }
}

/// A file is kept exactly when it is among `files` and no exclusion reason,
/// of its own or inferred from another file, applies to it.
pub proof fn lemma_eligible_members(files: Seq<MediaFile>, tag: Seq<char>, f: MediaFile)
    ensures
        eligible(files, tag).contains(f) <==> (files.contains(f) && !excluded(f, files, tag)),
{
    let pred = keep_pred(files, tag);
    if eligible(files, tag).contains(f) {
        files.lemma_filter_contains_rev(pred, f);
        let k = choose|k: int| 0 <= k < eligible(files, tag).len() && eligible(files, tag)[k] == f;
        files.lemma_filter_pred(pred, k);
    }
    if files.contains(f) && !excluded(f, files, tag) {
        let k = choose|k: int| 0 <= k < files.len() && files[k] == f;
        files.lemma_filter_contains(pred, k);
    }
}

/// The files kept do not depend on the order of the input: two lists with the
/// same files keep the same files.
pub proof fn lemma_filter_order_independent(a: Seq<MediaFile>, b: Seq<MediaFile>, tag: Seq<char>)
    requires
        forall|g: MediaFile| a.contains(g) <==> b.contains(g),
    ensures
        forall|f: MediaFile|
            #[trigger] eligible(a, tag).contains(f) <==> eligible(b, tag).contains(f),
{
    assert forall|f: MediaFile|
        #[trigger] eligible(a, tag).contains(f) <==> eligible(b, tag).contains(f) by {
        lemma_eligible_members(a, tag, f);
        lemma_eligible_members(b, tag, f);
        if exists|j: int| 0 <= j < a.len() && #[trigger] inferred_original(a[j], tag) == Some(f.path@) {
            let j = choose|j: int| 0 <= j < a.len() && #[trigger] inferred_original(a[j], tag) == Some(f.path@);
            assert(a.contains(a[j]));
            let k = choose|k: int| 0 <= k < b.len() && b[k] == a[j];
            assert(inferred_original(b[k], tag) == Some(f.path@));
        }
        if exists|j: int| 0 <= j < b.len() && #[trigger] inferred_original(b[j], tag) == Some(f.path@) {
            let j = choose|j: int| 0 <= j < b.len() && #[trigger] inferred_original(b[j], tag) == Some(f.path@);
            assert(b.contains(b[j]));
            let k = choose|k: int| 0 <= k < a.len() && a[k] == b[j];
            assert(inferred_original(a[k], tag) == Some(f.path@));
        }
    }
}

/// Filtering is idempotent: filtering an already filtered list with the same
/// tag gives that list back unchanged.
pub proof fn lemma_filter_idempotent(files: Seq<MediaFile>, tag: Seq<char>)
    ensures
        eligible(eligible(files, tag), tag) == eligible(files, tag),
{
    let kept = eligible(files, tag);
    let pred = keep_pred(files, tag);
    assert forall|i: int| 0 <= i < kept.len() implies !self_excluded(#[trigger] kept[i], tag) by {
        files.lemma_filter_pred(pred, i);
    }
    assert forall|i: int| 0 <= i < kept.len() implies #[trigger] keep_pred(kept, tag)(kept[i]) by {
        assert(!self_excluded(kept[i], tag));
        assert forall|j: int| 0 <= j < kept.len() implies #[trigger] inferred_original(
            kept[j],
            tag,
        ) != Some(kept[i].path@) by {
            assert(!self_excluded(kept[j], tag));
        }
    }
    lemma_filter_all(kept, keep_pred(kept, tag));
}

} // verus!
