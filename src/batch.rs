//! The batch orchestrator's decisions: which file starts next under the
//! concurrency bound, and what the batch reports once every file is done.

use vstd::prelude::*;
use vstd::string::*;
use crate::text::{decimal, decimal_of};

verus! {

/// Where one file of a batch stands.
#[derive(Clone, Copy, Debug, PartialEq, Eq, Structural)]
pub enum JobState {
    Queued,
    Running,
    Done,
}

/// Number of running jobs.
pub open spec fn running_count(s: Seq<JobState>) -> nat
    decreases s.len(),
{
    if s.len() == 0 {
        0
    } else {
        running_count(s.drop_last()) + if s.last() == JobState::Running { 1nat } else { 0nat }
    }
}

proof fn lemma_running_count_update(s: Seq<JobState>, i: int, v: JobState)
    requires
        0 <= i < s.len(),
    ensures
        running_count(s.update(i, v)) + (if s[i] == JobState::Running { 1nat } else { 0nat })
            == running_count(s) + (if v == JobState::Running { 1nat } else { 0nat }),
    decreases s.len(),
{
    let t = s.update(i, v);
    if i < s.len() - 1 {
        assert(t.drop_last() =~= s.drop_last().update(i, v));
        lemma_running_count_update(s.drop_last(), i, v);
    } else {
        assert(t.drop_last() =~= s.drop_last());
    }
}

proof fn lemma_running_count_none(s: Seq<JobState>)
    requires
        forall|i: int| 0 <= i < s.len() ==> s[i] != JobState::Running,
    ensures
        running_count(s) == 0,
    decreases s.len(),
{
    if s.len() > 0 {
        lemma_running_count_none(s.drop_last());
    }
}

/// What a scheduler holds, as plain values.
pub struct BatchView {
    pub jobs: Seq<Seq<char>>,
    pub limit: nat,
    pub admitted: nat,
    pub states: Seq<JobState>,
    pub failures: Seq<Seq<char>>,
}

/// Admits the files of a batch one by one, never more at a time than its
/// limit, and collects the failures of those that finish.
pub struct BatchScheduler {
    urls: Vec<String>,
    limit: usize,
    next: usize,
    running: usize,
    states: Vec<JobState>,
    failures: Vec<String>,
}

/// The line that reports a failed file.
pub open spec fn failure_line(url: Seq<char>, message: Seq<char>) -> Seq<char> {
    url + ": "@ + message
}

/// `lines` joined with newlines.
pub open spec fn joined(lines: Seq<Seq<char>>) -> Seq<char>
    decreases lines.len(),
{
    if lines.len() == 0 {
        Seq::empty()
    } else if lines.len() == 1 {
        lines[0]
    } else {
        joined(lines.drop_last()) + "\n"@ + lines.last()
    }
}

/// The batch's report on `failures` out of `total` files.
pub open spec fn failure_report(failures: Seq<Seq<char>>, total: nat) -> Seq<char> {
    decimal_of(failures.len()) + "/"@ + decimal_of(total) + " downloads failed:\n"@ + joined(failures)
}

impl View for BatchScheduler {
    type V = BatchView;

    closed spec fn view(&self) -> BatchView {
        BatchView {
            jobs: self.urls@.map_values(|u: String| u@),
            limit: self.limit as nat,
            admitted: self.next as nat,
            states: self.states@,
            failures: self.failures@.map_values(|f: String| f@),
        }
    }
}

impl BatchScheduler {
    /// The files admitted so far are `0..admitted` and have started; the
    /// others are queued; no more than `limit` run at once.
    pub closed spec fn wf(&self) -> bool {
        &&& self.limit >= 1
        &&& self.states@.len() == self.urls@.len()
        &&& self.next <= self.urls@.len()
        &&& forall|i: int| 0 <= i < self.states@.len() ==> (#[trigger] self.states@[i] == JobState::Queued <==> i >= self.next)
        &&& self.running == running_count(self.states@)
        &&& self.running <= self.limit
    }

    /// Number of files running now.
    pub open spec fn running_now(&self) -> nat {
        running_count(self@.states)
    }

    /// A scheduler over the files at `urls`, running at most `limit` at a
    /// time (a limit of 0 is taken as 1, so that the batch can progress).
    pub fn new(urls: Vec<String>, limit: usize) -> (r: BatchScheduler)
        ensures
            r.wf(),
            r@.jobs == urls@.map_values(|u: String| u@),
            r@.limit == if limit == 0 { 1 } else { limit as nat },
            r@.admitted == 0,
            r@.states == Seq::new(urls@.len(), |i: int| JobState::Queued),
            r@.failures == Seq::<Seq<char>>::empty(),
    {
        let mut states: Vec<JobState> = Vec::new();
        let mut i: usize = 0;
        while i < urls.len()
            invariant
                i <= urls@.len(),
                states@.len() == i,
                forall|k: int| 0 <= k < i ==> states@[k] == JobState::Queued,
            decreases urls@.len() - i,
        {
            states.push(JobState::Queued);
            i = i + 1;
        }
        proof {
            lemma_running_count_none(states@);
        }
        let limit = if limit == 0 { 1 } else { limit };
        let r = BatchScheduler { urls, limit, next: 0, running: 0, states, failures: Vec::new() };
        assert(r@.states =~= Seq::new(r.urls@.len(), |i: int| JobState::Queued));
        assert(r@.failures =~= Seq::<Seq<char>>::empty());
        r
    }

    /// Number of files in the batch.
    pub fn len(&self) -> (r: usize)
        ensures
            r == self@.jobs.len(),
    {
        self.urls.len()
    }

    /// The URL of file `job`.
    pub fn url(&self, job: usize) -> (r: &String)
        requires
            job < self@.jobs.len(),
        ensures
            r@ == self@.jobs[job as int],
    {
        &self.urls[job]
    }

    /// Starts the next queued file if fewer than `limit` are running, and
    /// returns its position in the batch; files start in batch order.
    pub fn start_next(&mut self) -> (r: Option<usize>)
        requires
            old(self).wf(),
        ensures
            final(self).wf(),
            final(self)@.jobs == old(self)@.jobs,
            final(self)@.limit == old(self)@.limit,
            final(self)@.failures == old(self)@.failures,
            final(self).running_now() <= final(self)@.limit,
            (old(self).running_now() < old(self)@.limit && old(self)@.admitted < old(self)@.jobs.len()) ==> {
                &&& r == Some(old(self)@.admitted as usize)
                &&& final(self)@.admitted == old(self)@.admitted + 1
                &&& final(self)@.states == old(self)@.states.update(old(self)@.admitted as int, JobState::Running)
            },
            !(old(self).running_now() < old(self)@.limit && old(self)@.admitted < old(self)@.jobs.len()) ==> {
                &&& r is None
                &&& final(self)@ == old(self)@
            },
    {
        if self.running < self.limit && self.next < self.urls.len() {
            let job = self.next;
            proof {
                lemma_running_count_update(self.states@, job as int, JobState::Running);
            }
            self.states.set(job, JobState::Running);
            self.next = job + 1;
            self.running = self.running + 1;
            Some(job)
        } else {
            None
        }
    }

    /// Records that running file `job` finished with `outcome` (an error
    /// message on failure). Returns whether it was taken: a file that is not
    /// running is ignored.
    pub fn finish(&mut self, job: usize, outcome: Result<(), String>) -> (taken: bool)
        requires
            old(self).wf(),
        ensures
            final(self).wf(),
            final(self)@.jobs == old(self)@.jobs,
            final(self)@.limit == old(self)@.limit,
            final(self)@.admitted == old(self)@.admitted,
            taken == (job < old(self)@.jobs.len() && old(self)@.states[job as int] == JobState::Running),
            taken ==> final(self)@.states == old(self)@.states.update(job as int, JobState::Done),
            taken ==> final(self)@.failures == match outcome {
                Ok(_) => old(self)@.failures,
                Err(m) => old(self)@.failures.push(failure_line(old(self)@.jobs[job as int], m@)),
            },
            !taken ==> final(self)@ == old(self)@,
    {
        if job < self.urls.len() && self.states[job] == JobState::Running {
            proof {
                lemma_running_count_update(self.states@, job as int, JobState::Done);
            }
            self.states.set(job, JobState::Done);
            self.running = self.running - 1;
            match outcome {
                Ok(_) => {},
                Err(m) => {
                    let mut line = self.urls[job].clone();
                    line.append(": ");
                    line.append(m.as_str());
                    self.failures.push(line);
                    assert(self@.failures =~= old(self)@.failures.push(failure_line(old(self)@.jobs[job as int], m@)));
                },
            }
            true
        } else {
            false
        }
    }

    /// Whether every file of the batch has finished.
    pub fn is_done(&self) -> (r: bool)
        requires
            self.wf(),
        ensures
            r == forall|i: int| 0 <= i < self@.states.len() ==> #[trigger] self@.states[i] == JobState::Done,
    {
        let mut i: usize = 0;
        while i < self.states.len()
            invariant
                i <= self.states@.len(),
                forall|k: int| 0 <= k < i ==> #[trigger] self@.states[k] == JobState::Done,
            decreases self.states@.len() - i,
        {
            if self.states[i] != JobState::Done {
                return false;
            }
            i = i + 1;
        }
        true
    }

    /// The outcome of the batch: success when no file failed, else an error
    /// that counts the failures and lists each, in the order they finished.
    pub fn report(&self) -> (r: Result<(), String>)
        ensures
            self@.failures.len() == 0 ==> r is Ok,
            self@.failures.len() > 0 ==> r is Err && r->Err_0@ == failure_report(self@.failures, self@.jobs.len()),
    {
        if self.failures.len() == 0 {
            return Ok(());
        }
        let mut s = decimal(self.failures.len() as u64);
        s.append("/");
        let t = decimal(self.urls.len() as u64);
        s.append(t.as_str());
        s.append(" downloads failed:\n");
        let ghost head = s@;
        let ghost lines = self@.failures;
        let mut i: usize = 0;
        while i < self.failures.len()
            invariant
                i <= self.failures@.len(),
                lines == self@.failures,
                lines.len() == self.failures@.len(),
                s@ == head + joined(lines.take(i as int)),
            decreases self.failures@.len() - i,
        {
            if i > 0 {
                s.append("\n");
            }
            s.append(self.failures[i].as_str());
            proof {
                let pre = lines.take(i + 1);
                assert(pre.drop_last() =~= lines.take(i as int));
                assert(pre.last() == self.failures@[i as int]@);
                if i == 0 {
                    assert(lines.take(0) =~= Seq::<Seq<char>>::empty());
                }
            }
            i = i + 1;
        }
        assert(lines.take(lines.len() as int) =~= lines);
        Err(s)
    }
}

} // verus!
