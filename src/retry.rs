//! The per-file retry controller: a state machine fed with the outcome of
//! each encode attempt.
//!
//! A file starts at the configured quality target. Success ends it; a target
//! that cannot be met is lowered by one, down to 1, after which the file is
//! given up; a transient failure repeats the attempt at the same target (up to
//! an optional limit); a fatal outcome aborts the batch.
use vstd::prelude::*;
use crate::encode::EncodeOutcome;

verus! {

#[derive(Clone, Copy, Debug, PartialEq, Eq, Structural)]
pub enum RetryState {
    /// The next attempt is at `target`; `transient_retries` transient
    /// failures have been seen at this target.
    Attempting { target: u8, transient_retries: u32 },
    /// An attempt at `target` succeeded.
    Succeeded { target: u8 },
    /// No target down to 1 could be met, or transient failures ran out.
    Exhausted,
    /// A fatal outcome: the whole batch stops.
    Aborted,
}

/// The transition taken on outcome `o`; terminal states stay as they are.
pub open spec fn next_state(s: RetryState, o: EncodeOutcome, cap: Option<u32>) -> RetryState {
    match s {
        RetryState::Attempting { target, transient_retries } => match o {
            EncodeOutcome::Success => RetryState::Succeeded { target },
            EncodeOutcome::QualityUnreachable => if target > 1 {
                RetryState::Attempting { target: (target - 1) as u8, transient_retries: 0 }
            } else {
                RetryState::Exhausted
            },
            EncodeOutcome::Transient => match cap {
                None => s,
                Some(m) => if transient_retries < m {
                    RetryState::Attempting {
                        target,
                        transient_retries: (transient_retries + 1) as u32,
                    }
                } else {
                    RetryState::Exhausted
                },
            },
            EncodeOutcome::Fatal => RetryState::Aborted,
        },
        _ => s,
    }
}

/// The state reached from `s` through the outcomes `os`, in order.
pub open spec fn run(s: RetryState, os: Seq<EncodeOutcome>, cap: Option<u32>) -> RetryState
    decreases os.len(),
{
    if os.len() == 0 {
        s
    } else {
        run(next_state(s, os[0], cap), os.drop_first(), cap)
    }
}

/// The targets attempted from `s` when the attempts come out as `os`, one per
/// attempt, until a terminal state is reached.
pub open spec fn tried(s: RetryState, os: Seq<EncodeOutcome>, cap: Option<u32>) -> Seq<u8>
    decreases os.len(),
{
    if os.len() == 0 {
        Seq::empty()
    } else {
        match s {
            RetryState::Attempting { target, .. } => seq![target] + tried(
                next_state(s, os[0], cap),
                os.drop_first(),
                cap,
            ),
            _ => Seq::empty(),
        }
    }
}

impl RetryState {
    /// The state of a file before its first attempt.
    pub fn start(quality: u8) -> (r: RetryState)
        ensures
            r == (RetryState::Attempting { target: quality, transient_retries: 0 }),
    {
        RetryState::Attempting { target: quality, transient_retries: 0 }
    }

    pub fn is_terminal(&self) -> (r: bool)
        ensures
            r == !(self is Attempting),
    {
        !matches!(self, RetryState::Attempting { .. })
    }

    /// The state after an attempt that came out as `o`.
    pub fn next(&self, o: EncodeOutcome, cap: Option<u32>) -> (r: RetryState)
        ensures
            r == next_state(*self, o, cap),
    {
        match *self {
            RetryState::Attempting { target, transient_retries } => match o {
                EncodeOutcome::Success => RetryState::Succeeded { target },
                EncodeOutcome::QualityUnreachable => {
                    if target > 1 {
                        RetryState::Attempting { target: target - 1, transient_retries: 0 }
                    } else {
                        RetryState::Exhausted
                    }
                },
                EncodeOutcome::Transient => match cap {
                    None => *self,
                    Some(m) => {
                        if transient_retries < m {
                            RetryState::Attempting {
                                target,
                                transient_retries: transient_retries + 1,
                            }
                        } else {
                            RetryState::Exhausted
                        }
                    },
                },
                EncodeOutcome::Fatal => RetryState::Aborted,
            },
            _ => *self,
        }
    }
}

/// From target `t`, `t` attempts that each miss the target try `t, t-1, ...,
/// 1` in that order and end `Exhausted`: target 0 is never tried.
pub proof fn lemma_unreachable_descends(t: u8, k: u32, cap: Option<u32>)
    requires
        t >= 1,
    ensures
        ({
            let os = Seq::new(t as nat, |i: int| EncodeOutcome::QualityUnreachable);
            let s = RetryState::Attempting { target: t, transient_retries: k };
            &&& tried(s, os, cap) == Seq::new(t as nat, |i: int| (t - i) as u8)
            &&& run(s, os, cap) == RetryState::Exhausted
        }),
    decreases t,
{
    let os = Seq::new(t as nat, |i: int| EncodeOutcome::QualityUnreachable);
    let s = RetryState::Attempting { target: t, transient_retries: k };
    let rest = os.drop_first();
    assert(os[0] == EncodeOutcome::QualityUnreachable);
    if t == 1 {
        assert(rest.len() == 0);
        assert(next_state(s, os[0], cap) == RetryState::Exhausted);
        assert(tried(RetryState::Exhausted, rest, cap) == Seq::<u8>::empty());
        assert(run(RetryState::Exhausted, rest, cap) == RetryState::Exhausted);
        assert(tried(s, os, cap) =~= Seq::new(t as nat, |i: int| (t - i) as u8));
    } else {
        let t1 = (t - 1) as u8;
        lemma_unreachable_descends(t1, 0, cap);
        assert(rest =~= Seq::new(t1 as nat, |i: int| EncodeOutcome::QualityUnreachable));
        assert(tried(s, os, cap) =~= Seq::new(t as nat, |i: int| (t - i) as u8));
    }
}

/// A terminal state stays as it is and tries nothing more, whatever comes.
pub proof fn lemma_terminal_stays(s: RetryState, os: Seq<EncodeOutcome>, cap: Option<u32>)
    requires
        !(s is Attempting),
    ensures
        run(s, os, cap) == s,
        tried(s, os, cap) == Seq::<u8>::empty(),
    decreases os.len(),
{
    if os.len() > 0 {
        lemma_terminal_stays(s, os.drop_first(), cap);
    }
}

/// Whatever the outcomes, the targets tried from target `t` never rise and
/// stay between 1 and `t`.
pub proof fn lemma_targets_descend(t: u8, k: u32, os: Seq<EncodeOutcome>, cap: Option<u32>)
    requires
        t >= 1,
    ensures
        ({
            let ts = tried(RetryState::Attempting { target: t, transient_retries: k }, os, cap);
            &&& forall|i: int| 0 <= i < ts.len() ==> 1 <= #[trigger] ts[i] <= t
            &&& forall|i: int, j: int| 0 <= i < j < ts.len() ==> ts[j] <= ts[i]
        }),
    decreases os.len(),
{
    let s = RetryState::Attempting { target: t, transient_retries: k };
    if os.len() > 0 {
        let n = next_state(s, os[0], cap);
        let rest = os.drop_first();
        let ts = tried(s, os, cap);
        let tail = tried(n, rest, cap);
        assert(ts == seq![t] + tail);
        match n {
            RetryState::Attempting { target: t2, transient_retries: k2 } => {
                lemma_targets_descend(t2, k2, rest, cap);
                assert(t2 <= t);
            },
            _ => {
                lemma_terminal_stays(n, rest, cap);
            },
        }
        assert forall|i: int| 0 <= i < ts.len() implies 1 <= #[trigger] ts[i] <= t by {
            if i > 0 {
                assert(ts[i] == tail[i - 1]);
            }
        }
        assert forall|i: int, j: int| 0 <= i < j < ts.len() implies ts[j] <= ts[i] by {
            assert(ts[j] == tail[j - 1]);
            if i > 0 {
                assert(ts[i] == tail[i - 1]);
            }
        }
    }
}

} // verus!
