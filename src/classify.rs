//! Classification of paths by extension, and selection of the video files
//! among the regular files that a directory walk found.
use vstd::prelude::*;
use crate::text::{chars_of, same_chars};
use crate::paths::{has_ext, ext_of, split_path};

verus! {

#[derive(Clone, Copy, Debug, PartialEq, Eq, Structural)]
pub enum MediaKind {
    Video,
    Other,
}

/// The container extensions treated as video; the match is case-sensitive.
pub open spec fn video_ext(e: Seq<char>) -> bool {
    e == "mkv"@ || e == "avi"@ || e == "mp4"@ || e == "divx"@ || e == "flv"@ || e == "m4v"@
        || e == "mov"@ || e == "ogv"@ || e == "ts"@ || e == "webm"@ || e == "wmv"@
}

/// A path is a video when its extension is one of the video extensions.
pub open spec fn is_video(s: Seq<char>) -> bool {
    has_ext(s) && video_ext(ext_of(s))
}

fn is_word(e: &Vec<char>, w: &str) -> (r: bool)
    ensures
        r == (e@ == w@),
{
    same_chars(e, &chars_of(w))
}

fn is_video_ext(e: &Vec<char>) -> (r: bool)
    ensures
        r == video_ext(e@),
{
    is_word(e, "mkv") || is_word(e, "avi") || is_word(e, "mp4") || is_word(e, "divx") || is_word(
        e,
        "flv",
    ) || is_word(e, "m4v") || is_word(e, "mov") || is_word(e, "ogv") || is_word(e, "ts")
        || is_word(e, "webm") || is_word(e, "wmv")
}

/// Whether `path` names a video file.
pub fn is_video_path(path: &str) -> (r: bool)
    ensures
        r == is_video(path@),
{
    let p = chars_of(path);
    match split_path(&p) {
        None => false,
        Some(parts) => is_video_ext(&parts.ext),
    }
}

/// The category of `path`, from its extension alone.
pub fn classify(path: &str) -> (r: MediaKind)
    ensures
        r == (if is_video(path@) {
            MediaKind::Video
        } else {
            MediaKind::Other
        }),
{
    if is_video_path(path) {
        MediaKind::Video
    } else {
        MediaKind::Other
    }
}

/// `"VIDEO"` for a video path, `"OTHER"` for anything else.
pub fn find_mimetype(filename: &String) -> (r: String)
    ensures
        r@ == (if is_video(filename@) {
            "VIDEO"@
        } else {
            "OTHER"@
        }),
{
    if is_video_path(filename.as_str()) {
        String::from_str("VIDEO")
    } else {
        String::from_str("OTHER")
    }
}

/// The video paths of `paths`, in their order.
pub open spec fn videos_of(paths: Seq<String>) -> Seq<String> {
    paths.filter(video_pred())
}

pub open spec fn video_pred() -> spec_fn(String) -> bool {
    |s: String| is_video(s@)
}

/// One step of `videos_of`: the last path is kept exactly when it is a video.
pub proof fn lemma_videos_push(paths: Seq<String>, s: String)
    ensures
        videos_of(paths.push(s)) == (if is_video(s@) {
            videos_of(paths).push(s)
        } else {
            videos_of(paths)
        }),
{
    paths.lemma_filter_push(s, video_pred());
}

/// Keeps the video paths among `paths`, in order.
pub fn select_videos(paths: &Vec<String>) -> (r: Vec<String>)
    ensures
        r@ == videos_of(paths@),
{
    let mut r: Vec<String> = Vec::new();
    let mut i: usize = 0;
    while i < paths.len()
        invariant
            i <= paths.len(),
            r@ == videos_of(paths@.subrange(0, i as int)),
        decreases paths.len() - i,
    {
        assert(paths@.subrange(0, i + 1) =~= paths@.subrange(0, i as int).push(paths@[i as int]));
        proof {
            lemma_videos_push(paths@.subrange(0, i as int), paths@[i as int]);
        }
        if is_video_path(paths[i].as_str()) {
            r.push(paths[i].clone());
        }
        i = i + 1;
    }
    assert(paths@.subrange(0, paths.len() as int) =~= paths@);
    r
}

/// The number of video paths among `paths`.
pub fn count_videos(paths: &Vec<String>) -> (n: usize)
    ensures
        n == videos_of(paths@).len(),
{
    let mut n: usize = 0;
    let mut i: usize = 0;
    while i < paths.len()
        invariant
            i <= paths.len(),
            n == videos_of(paths@.subrange(0, i as int)).len(),
            n <= i,
        decreases paths.len() - i,
    {
        assert(paths@.subrange(0, i + 1) =~= paths@.subrange(0, i as int).push(paths@[i as int]));
        proof {
            lemma_videos_push(paths@.subrange(0, i as int), paths@[i as int]);
        }
        if is_video_path(paths[i].as_str()) {
            n = n + 1;
        }
        i = i + 1;
    }
    assert(paths@.subrange(0, paths.len() as int) =~= paths@);
    n
}

/// Selecting the videos among distinct paths keeps exactly the video paths,
/// each once.
pub proof fn lemma_selection_exact(paths: Seq<String>)
    requires
        paths.no_duplicates(),
    ensures
        videos_of(paths).no_duplicates(),
        forall|s: String| #[trigger]
            videos_of(paths).contains(s) <==> (paths.contains(s) && is_video(s@)),
    decreases paths.len(),
{
    let pred = video_pred();
    if paths.len() > 0 {
        let init = paths.drop_last();
        lemma_videos_push(init, paths.last());
        assert(init.no_duplicates());
        lemma_selection_exact(init);
        assert(paths =~= init.push(paths.last()));
        assert(!init.contains(paths.last()));
        assert forall|s: String| #[trigger]
            videos_of(paths).contains(s) <==> (paths.contains(s) && is_video(s@)) by {
            if paths.contains(s) {
                let k = choose|k: int| 0 <= k < paths.len() && paths[k] == s;
                if k < paths.len() - 1 {
                    assert(init[k] == s);
                }
            }
            if init.contains(s) {
                let k = choose|k: int| 0 <= k < init.len() && init[k] == s;
                assert(paths[k] == s);
            }
            if videos_of(paths).contains(s) && !pred(paths.last()) {
                assert(videos_of(paths) == videos_of(init));
            }
            if pred(paths.last()) {
                let v = videos_of(init).push(paths.last());
                assert(videos_of(paths) == v);
                if v.contains(s) {
                    let k = choose|k: int| 0 <= k < v.len() && v[k] == s;
                    if k < v.len() - 1 {
                        assert(videos_of(init)[k] == s);
                    }
                }
                if videos_of(init).contains(s) {
                    let k = choose|k: int| 0 <= k < videos_of(init).len() && videos_of(init)[k] == s;
                    assert(v[k] == s);
                }
                if s == paths.last() {
                    assert(v[v.len() - 1] == s);
                }
            }
        }
        if pred(paths.last()) {
            let v = videos_of(init).push(paths.last());
            assert(videos_of(paths) == v);
            assert(!videos_of(init).contains(paths.last()));
            assert forall|a: int, b: int| 0 <= a < b < v.len() implies v[a] != v[b] by {
                if b == v.len() - 1 {
                    assert(videos_of(init).contains(v[a]));
                }
            }
        }
    }
}

} // verus!
