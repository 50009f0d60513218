//! The batch driver: walks the list of files to encode, one file at a time,
//! running the retry controller on each.
//!
//! The driver does no I/O. It is asked for the next action (encode a file at a
//! target, or stop), and is told the outcome of each encode attempt.
use vstd::prelude::*;
use crate::text::chars_of;
use crate::paths::has_ext;
use crate::classify::{is_video_path, videos_of, lemma_videos_push};
use crate::filter::{MediaFile, eligible, filter_eligible, paths_of};
use crate::encode::{
    JobConfig,
    EncodeOutcome,
    backend_name,
    backend_tag,
    output_of,
    output_path,
    encode_args,
    encode_args_of,
    views,
};
use crate::retry::{RetryState, next_state};

verus! {

/// The abstract state of a batch.
pub struct BatchView {
    pub files: Seq<Seq<char>>,
    /// Position of the file in progress (or the number of files when done).
    pub index: nat,
    /// Retry state of the file in progress.
    pub state: RetryState,
    pub succeeded: nat,
    pub exhausted: nat,
    /// Initial quality target of each file.
    pub quality: u8,
    pub cap: Option<u32>,
}

/// What the batch asks for next.
pub enum Step {
    Encode { index: nat, target: u8 },
    Finished { succeeded: nat, exhausted: nat },
    Halted { index: nat },
}

pub open spec fn step_of(v: BatchView) -> Step {
    match v.state {
        RetryState::Aborted => Step::Halted { index: v.index },
        RetryState::Attempting { target, .. } => if v.index < v.files.len() {
            Step::Encode { index: v.index, target }
        } else {
            Step::Finished { succeeded: v.succeeded, exhausted: v.exhausted }
        },
        _ => Step::Finished { succeeded: v.succeeded, exhausted: v.exhausted },
    }
}

/// The batch after the pending attempt came out as `o`: a file that reaches
/// `Succeeded` or `Exhausted` is counted and the next file starts at the
/// initial target; `Aborted` halts the batch; with nothing pending, nothing
/// changes.
pub open spec fn after(v: BatchView, o: EncodeOutcome) -> BatchView {
    if step_of(v) is Encode {
        let n = next_state(v.state, o, v.cap);
        let fresh = RetryState::Attempting { target: v.quality, transient_retries: 0 };
        match n {
            RetryState::Succeeded { .. } => BatchView {
                index: v.index + 1,
                state: fresh,
                succeeded: v.succeeded + 1,
                ..v
            },
            RetryState::Exhausted => BatchView {
                index: v.index + 1,
                state: fresh,
                exhausted: v.exhausted + 1,
                ..v
            },
            _ => BatchView { state: n, ..v },
        }
    } else {
        v
    }
}

pub open spec fn batch_wf(v: BatchView) -> bool {
    &&& 1 <= v.quality <= 100
    &&& v.index <= v.files.len()
    &&& v.succeeded + v.exhausted == v.index
    &&& (v.state is Attempting || (v.state is Aborted && v.index < v.files.len()))
    &&& (v.state matches RetryState::Attempting { target, .. } ==> 1 <= target <= v.quality)
}

/// The action handed to the caller.
pub enum Action {
    /// Run the encoder with `args`, writing `output`, for file `index` at
    /// quality `target`.
    Encode { index: usize, target: u8, output: String, args: Vec<String> },
    /// All files reached a terminal state.
    Finished { succeeded: usize, exhausted: usize },
    /// A fatal outcome on file `index` stopped the batch.
    Halted { index: usize },
}

pub open spec fn step_of_action(a: Action) -> Step {
    match a {
        Action::Encode { index, target, .. } => Step::Encode { index: index as nat, target },
        Action::Finished { succeeded, exhausted } => Step::Finished {
            succeeded: succeeded as nat,
            exhausted: exhausted as nat,
        },
        Action::Halted { index } => Step::Halted { index: index as nat },
    }
}

pub struct BatchDriver {
    files: Vec<String>,
    config: JobConfig,
    index: usize,
    state: RetryState,
    succeeded: usize,
    exhausted: usize,
}

impl View for BatchDriver {
    type V = BatchView;

    closed spec fn view(&self) -> BatchView {
        BatchView {
            files: views(self.files@),
            index: self.index as nat,
            state: self.state,
            succeeded: self.succeeded as nat,
            exhausted: self.exhausted as nat,
            quality: self.config.quality,
            cap: self.config.max_transient_retries,
        }
    }
}

impl BatchDriver {
    pub closed spec fn config(&self) -> JobConfig {
        self.config
    }

    pub closed spec fn wf(&self) -> bool {
        &&& batch_wf(self@)
        &&& self.config.wf()
        &&& forall|i: int| 0 <= i < self.files.len() ==> has_ext(#[trigger] self.files@[i]@)
    }

    /// A batch over `files`, in order; `None` when a path has no extension.
    pub fn new(files: Vec<String>, config: JobConfig) -> (r: Option<BatchDriver>)
        requires
            config.wf(),
        ensures
            r is Some <==> forall|i: int| 0 <= i < files.len() ==> has_ext(#[trigger] files@[i]@),
            r matches Some(d) ==> d.wf() && d.config() == config && d@ == (BatchView {
                files: views(files@),
                index: 0,
                state: RetryState::Attempting { target: config.quality, transient_retries: 0 },
                succeeded: 0,
                exhausted: 0,
                quality: config.quality,
                cap: config.max_transient_retries,
            }),
    {
        let mut i: usize = 0;
        while i < files.len()
            invariant
                i <= files.len(),
                forall|j: int| 0 <= j < i ==> has_ext(#[trigger] files@[j]@),
            decreases files.len() - i,
        {
            let p = chars_of(files[i].as_str());
            if crate::paths::split_path(&p).is_none() {
                return None;
            }
            i = i + 1;
        }
        let quality = config.quality;
        Some(
            BatchDriver {
                files,
                config,
                index: 0,
                state: RetryState::Attempting { target: quality, transient_retries: 0 },
                succeeded: 0,
                exhausted: 0,
            },
        )
    }

    /// The number of files in the batch.
    pub fn total(&self) -> (r: usize)
        ensures
            r == self@.files.len(),
    {
        self.files.len()
    }

    /// The number of files that reached a terminal state.
    pub fn position(&self) -> (r: usize)
        ensures
            r == self@.index,
    {
        self.index
    }

    /// The retry state of the file in progress.
    pub fn state(&self) -> (r: RetryState)
        ensures
            r == self@.state,
    {
        self.state
    }

    /// What to do next; for an encode, the output path and the encoder's
    /// arguments.
    pub fn next_action(&self) -> (r: Action)
        requires
            self.wf(),
        ensures
            step_of_action(r) == step_of(self@),
            r matches Action::Encode { index, target, output, args } ==> output@ == output_of(
                self@.files[index as int],
                backend_name(self.config().backend),
                target as nat,
            ) && views(args@) == encode_args_of(
                self@.files[index as int],
                output@,
                target as nat,
                self.config(),
            ),
    {
        match self.state {
            RetryState::Aborted => Action::Halted { index: self.index },
            RetryState::Attempting { target, .. } => {
                if self.index < self.files.len() {
                    let input = self.files[self.index].as_str();
                    assert(has_ext(self.files@[self.index as int]@));
                    let output = output_path(input, self.config.backend, target).unwrap();
                    let args = encode_args(input, output.as_str(), target, &self.config);
                    Action::Encode { index: self.index, target, output, args }
                } else {
                    Action::Finished { succeeded: self.succeeded, exhausted: self.exhausted }
                }
            },
            _ => Action::Finished { succeeded: self.succeeded, exhausted: self.exhausted },
        }
    }

    /// Takes in the outcome of the pending encode attempt.
    pub fn record(&mut self, o: EncodeOutcome)
        requires
            old(self).wf(),
            step_of(old(self)@) is Encode,
        ensures
            final(self).wf(),
            final(self).config() == old(self).config(),
            final(self)@ == after(old(self)@, o),
    {
        assert(views(self.files@).len() == self.files@.len());
        assert(self.index < self.files.len());
        let n = self.state.next(o, self.config.max_transient_retries);
        let fresh = RetryState::Attempting { target: self.config.quality, transient_retries: 0 };
        match n {
            RetryState::Succeeded { .. } => {
                self.index = self.index + 1;
                self.succeeded = self.succeeded + 1;
                self.state = fresh;
            },
            RetryState::Exhausted => {
                self.index = self.index + 1;
                self.exhausted = self.exhausted + 1;
                self.state = fresh;
            },
            _ => {
                self.state = n;
            },
        }
    }
}

/// A fatal outcome halts the batch at the file in progress: no later file is
/// attempted, and nothing that comes after changes the batch.
pub proof fn lemma_fatal_halts(v: BatchView)
    requires
        step_of(v) is Encode,
    ensures
        step_of(after(v, EncodeOutcome::Fatal)) == (Step::Halted { index: v.index }),
        forall|o: EncodeOutcome|
            #[trigger] after(after(v, EncodeOutcome::Fatal), o) == after(v, EncodeOutcome::Fatal),
{
}

/// The batch advances one file at a time: an attempt either keeps the file in
/// progress or moves to the very next one.
pub proof fn lemma_one_file_at_a_time(v: BatchView, o: EncodeOutcome)
    requires
        batch_wf(v),
        step_of(v) is Encode,
    ensures
        batch_wf(after(v, o)),
        after(v, o).index == v.index || after(v, o).index == v.index + 1,
        after(v, o).index == v.index + 1 <==> (next_state(v.state, o, v.cap) is Succeeded
            || next_state(v.state, o, v.cap) is Exhausted),
{
}

/// The files to encode: the eligible ones among `files` under the backend's
/// tag, those with a video extension, in order.
pub fn plan(files: &Vec<MediaFile>, config: &JobConfig) -> (r: Vec<String>)
    ensures
        r@ == videos_of(paths_of(eligible(files@, backend_tag(config.backend)))),
{
    let tag = config.backend.tag();
    let kept = filter_eligible(files, tag.as_str());
    let ghost paths = paths_of(kept@);
    let mut r: Vec<String> = Vec::new();
    let mut i: usize = 0;
    while i < kept.len()
        invariant
            i <= kept.len(),
            paths == paths_of(kept@),
            r@ == videos_of(paths.subrange(0, i as int)),
        decreases kept.len() - i,
    {
        assert(paths[i as int] == kept@[i as int].path);
        assert(paths.subrange(0, i + 1) =~= paths.subrange(0, i as int).push(paths[i as int]));
        proof {
            lemma_videos_push(paths.subrange(0, i as int), paths[i as int]);
        }
        if is_video_path(kept[i].path.as_str()) {
            r.push(kept[i].path.clone());
        }
        i = i + 1;
    }
    assert(paths.subrange(0, kept.len() as int) =~= paths);
    r
}

} // verus!
