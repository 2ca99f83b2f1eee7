//! The retry controller: one whole-file download as a state machine that is
//! handed events (a probe answered, an attempt finished, a wait ended) and
//! answers with the next action to perform.

use vstd::prelude::*;
use vstd::arithmetic::power2::{pow2, lemma2_to64, lemma_pow2_unfold, lemma_pow2_strictly_increases};
use crate::error::DownloadError;
use crate::plan::{ChunkPlan, is_plan, plan_chunks};
use crate::probe::Capability;

verus! {

/// Where a download stands.
#[derive(Clone, Copy, Debug, PartialEq, Eq, Structural)]
pub enum Phase {
    /// Not started.
    Pending,
    /// Attempt `attempt` (from 0) waits for its probe.
    Probing { attempt: usize },
    /// Attempt `attempt` is fetching and merging.
    Fetching { attempt: usize },
    /// Attempt `attempt` failed; a probe checks whether the output is
    /// complete all the same.
    Rechecking { attempt: usize },
    /// Attempt `attempt` failed; waiting before the next one.
    Waiting { attempt: usize },
    /// The output is complete.
    Succeeded,
    /// Every allowed attempt failed.
    Exhausted,
}

/// What happened since the last action.
#[derive(Clone, Debug)]
pub enum Event {
    /// The download is submitted.
    Start,
    /// A probe answered; `existing_len` is the length of the output file, if
    /// there is one.
    Probed { capability: Capability, existing_len: Option<u64> },
    /// The attempt fetched and merged every chunk.
    Fetched,
    /// The probe or the attempt failed.
    Failed(DownloadError),
    /// The wait before the next attempt is over.
    WaitOver,
}

/// What to do next.
#[derive(Debug)]
pub enum Action {
    /// Send a metadata request and look up the output file's length.
    Probe,
    /// Fetch the chunks of the plan and merge them.
    Fetch(ChunkPlan),
    /// Wait this many seconds, then report `WaitOver`.
    Sleep { secs: u64 },
    /// The download is over, with this outcome.
    Finish(Result<(), DownloadError>),
}

/// Drives the attempts at one download.
#[derive(Clone, Debug)]
pub struct RetryController {
    /// Number of attempts allowed.
    pub retries: usize,
    /// Workers asked for per file.
    pub workers: usize,
    /// Size at or below which a file is fetched in one piece.
    pub min_parallel_size: u64,
    pub phase: Phase,
}

/// The server reported a size, and the output file already has it.
pub open spec fn already_complete(cap: Capability, existing: Option<u64>) -> bool {
    cap.size_known && existing == Some(cap.total_size)
}

/// Seconds to wait after failed attempt `attempt`: `2^attempt`, held at the
/// largest `u64` where that no longer fits.
pub open spec fn backoff_secs(attempt: nat) -> u64 {
    if attempt < 64 { pow2(attempt) as u64 } else { u64::MAX }
}

/// The outcome of attempt `k` failing with `e`: another attempt is allowed
/// after a recheck, or none is and the error is surfaced.
pub open spec fn after_failure(c: RetryController, k: usize, e: DownloadError, n: RetryController, a: Option<Action>) -> bool {
    if k + 1 < c.retries {
        n.phase == Phase::Rechecking { attempt: k } && a == Some(Action::Probe)
    } else {
        n.phase == Phase::Exhausted && a == Some(Action::Finish(Err(e)))
    }
}

/// The controller is done, successfully.
pub open spec fn succeeds(n: RetryController, a: Option<Action>) -> bool {
    n.phase == Phase::Succeeded && a == Some(Action::Finish(Ok(())))
}

/// `a` fetches by a plan for `cap` under the controller's settings.
pub open spec fn fetches_plan(c: RetryController, cap: Capability, a: Option<Action>) -> bool {
    match a {
        Some(Action::Fetch(p)) => is_plan(p, cap.total_size, cap.supports_ranges, c.workers, c.min_parallel_size),
        _ => false,
    }
}

/// Event `ev` takes controller `c` to `n`, which asks for action `a`
/// (`None`: the event does not apply to the phase and is ignored).
pub open spec fn steps_to(c: RetryController, ev: Event, n: RetryController, a: Option<Action>) -> bool {
    &&& n.retries == c.retries
    &&& n.workers == c.workers
    &&& n.min_parallel_size == c.min_parallel_size
    &&& match c.phase {
        Phase::Pending => match ev {
            Event::Start => if c.retries == 0 {
                n.phase == Phase::Exhausted && a == Some(Action::Finish(Err(DownloadError::NoAttempt)))
            } else {
                n.phase == Phase::Probing { attempt: 0 } && a == Some(Action::Probe)
            },
            _ => n.phase == c.phase && a is None,
        },
        Phase::Probing { attempt } => match ev {
            Event::Probed { capability, existing_len } => if already_complete(capability, existing_len) {
                succeeds(n, a)
            } else {
                n.phase == Phase::Fetching { attempt } && fetches_plan(c, capability, a)
            },
            Event::Failed(e) => after_failure(c, attempt, e, n, a),
            _ => n.phase == c.phase && a is None,
        },
        Phase::Fetching { attempt } => match ev {
            Event::Fetched => succeeds(n, a),
            Event::Failed(e) => after_failure(c, attempt, e, n, a),
            _ => n.phase == c.phase && a is None,
        },
        Phase::Rechecking { attempt } => match ev {
            Event::Probed { capability, existing_len } => if already_complete(capability, existing_len) {
                succeeds(n, a)
            } else {
                n.phase == Phase::Waiting { attempt } && a == Some(Action::Sleep { secs: backoff_secs(attempt as nat) })
            },
            Event::Failed(_) => n.phase == Phase::Waiting { attempt } && a == Some(
                Action::Sleep { secs: backoff_secs(attempt as nat) },
            ),
            _ => n.phase == c.phase && a is None,
        },
        Phase::Waiting { attempt } => match ev {
            Event::WaitOver => n.phase == Phase::Probing { attempt: (attempt + 1) as usize } && a == Some(Action::Probe),
            _ => n.phase == c.phase && a is None,
        },
        _ => n.phase == c.phase && a is None,
    }
}

/// Seconds to wait after failed attempt `attempt` (from 0).
pub fn backoff(attempt: usize) -> (r: u64)
    ensures
        r == backoff_secs(attempt as nat),
{
    if attempt >= 64 {
        return u64::MAX;
    }
    let mut s: u64 = 1;
    let mut j: usize = 0;
    proof {
        lemma2_to64();
    }
    while j < attempt
        invariant
            j <= attempt < 64,
            s == pow2(j as nat),
        decreases attempt - j,
    {
        proof {
            lemma_pow2_unfold((j + 1) as nat);
            lemma_pow2_strictly_increases((j + 1) as nat, 64);
            lemma2_to64();
        }
        s = s * 2;
        j = j + 1;
    }
    s
}

impl RetryController {
    /// Attempt numbers stay below the number allowed; one that waits has a
    /// next attempt to wait for.
    pub open spec fn wf(&self) -> bool {
        match self.phase {
            Phase::Probing { attempt } => attempt < self.retries,
            Phase::Fetching { attempt } => attempt < self.retries,
            Phase::Rechecking { attempt } => attempt + 1 < self.retries,
            Phase::Waiting { attempt } => attempt + 1 < self.retries,
            _ => true,
        }
    }

    /// A controller that allows `retries` attempts, each planned with
    /// `workers` and `min_parallel_size`.
    pub fn new(retries: usize, workers: usize, min_parallel_size: u64) -> (r: RetryController)
        ensures
            r.wf(),
            r.retries == retries,
            r.workers == workers,
            r.min_parallel_size == min_parallel_size,
            r.phase == Phase::Pending,
    {
        RetryController { retries, workers, min_parallel_size, phase: Phase::Pending }
    }

    fn fail(&mut self, attempt: usize, e: DownloadError) -> (r: Option<Action>)
        requires
            attempt < old(self).retries,
        ensures
            final(self).retries == old(self).retries,
            final(self).workers == old(self).workers,
            final(self).min_parallel_size == old(self).min_parallel_size,
            final(self).wf(),
            after_failure(*old(self), attempt, e, *final(self), r),
    {
        if attempt + 1 < self.retries {
            self.phase = Phase::Rechecking { attempt };
            Some(Action::Probe)
        } else {
            self.phase = Phase::Exhausted;
            Some(Action::Finish(Err(e)))
        }
    }

    /// Takes one event and returns the action it calls for.
    ///
    /// A probe that finds the output file already at the known size ends the
    /// download successfully, with no fetch. A failed attempt is followed,
    /// while attempts remain, by a recheck of that kind and then a wait of
    /// `2^attempt` seconds; after the last one the download ends with its
    /// error.
    pub fn step(&mut self, ev: Event) -> (r: Option<Action>)
        requires
            old(self).wf(),
        ensures
            final(self).wf(),
            steps_to(*old(self), ev, *final(self), r),
    {
        match self.phase {
            Phase::Pending => match ev {
                Event::Start => {
                    if self.retries == 0 {
                        self.phase = Phase::Exhausted;
                        Some(Action::Finish(Err(DownloadError::NoAttempt)))
                    } else {
                        self.phase = Phase::Probing { attempt: 0 };
                        Some(Action::Probe)
                    }
                },
                _ => None,
            },
            Phase::Probing { attempt } => match ev {
                Event::Probed { capability, existing_len } => {
                    if capability.size_known && existing_len == Some(capability.total_size) {
                        self.phase = Phase::Succeeded;
                        Some(Action::Finish(Ok(())))
                    } else {
                        self.phase = Phase::Fetching { attempt };
                        let p = plan_chunks(capability.total_size, capability.supports_ranges, self.workers, self.min_parallel_size);
                        Some(Action::Fetch(p))
                    }
                },
                Event::Failed(e) => self.fail(attempt, e),
                _ => None,
            },
            Phase::Fetching { attempt } => match ev {
                Event::Fetched => {
                    self.phase = Phase::Succeeded;
                    Some(Action::Finish(Ok(())))
                },
                Event::Failed(e) => self.fail(attempt, e),
                _ => None,
            },
            Phase::Rechecking { attempt } => match ev {
                Event::Probed { capability, existing_len } => {
                    if capability.size_known && existing_len == Some(capability.total_size) {
                        self.phase = Phase::Succeeded;
                        Some(Action::Finish(Ok(())))
                    } else {
                        self.phase = Phase::Waiting { attempt };
                        Some(Action::Sleep { secs: backoff(attempt) })
                    }
                },
                Event::Failed(_) => {
                    self.phase = Phase::Waiting { attempt };
                    Some(Action::Sleep { secs: backoff(attempt) })
                },
                _ => None,
            },
            Phase::Waiting { attempt } => match ev {
                Event::WaitOver => {
                    self.phase = Phase::Probing { attempt: attempt + 1 };
                    Some(Action::Probe)
                },
                _ => None,
            },
            _ => None,
        }
    }
}

/// When a probe finds the output file already at the size the server
/// reported (0 included), the controller reports success and asks for no
/// fetch.
pub proof fn lemma_complete_output_short_circuits(
    c: RetryController,
    cap: Capability,
    n: RetryController,
    a: Option<Action>,
)
    requires
        c.phase is Probing || c.phase is Rechecking,
        cap.size_known,
        steps_to(c, Event::Probed { capability: cap, existing_len: Some(cap.total_size) }, n, a),
    ensures
        n.phase == Phase::Succeeded,
        a == Some(Action::Finish(Ok(()))),
{
}

/// Running a download again once its output holds the whole resource, which
/// has not changed and whose length the server reports, asks for one probe
/// and then ends successfully before any fetch. No action writes the output,
/// so it stays byte for byte the resource.
pub proof fn lemma_rerun_after_completion(
    c: RetryController,
    resource: Seq<u8>,
    output: Seq<u8>,
    cap: Capability,
    n1: RetryController,
    a1: Option<Action>,
    n2: RetryController,
    a2: Option<Action>,
)
    requires
        c.phase == Phase::Pending,
        c.retries >= 1,
        output == resource,
        cap.size_known,
        cap.total_size == resource.len(),
        steps_to(c, Event::Start, n1, a1),
        steps_to(n1, Event::Probed { capability: cap, existing_len: Some(output.len() as u64) }, n2, a2),
    ensures
        a1 == Some(Action::Probe),
        n2.phase == Phase::Succeeded,
        a2 == Some(Action::Finish(Ok(()))),
        !(a1 matches Some(Action::Fetch(_))) && !(a2 matches Some(Action::Fetch(_))),
        output == resource,
{
}

} // verus!
