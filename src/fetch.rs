//! The range fetcher's decisions: what to request for one chunk, given what
//! its file already holds, and the names and headers that go with it.

use vstd::prelude::*;
use vstd::string::*;
use crate::plan::{Chunk, ChunkPlan};
use crate::error::DownloadError;
use crate::text::{decimal, decimal_of};

verus! {

/// What to do for one chunk of a plan.
#[derive(Clone, Copy, Debug, PartialEq, Eq, Structural)]
pub enum FetchStep {
    /// The chunk's file already holds all of it: no request is made.
    Complete,
    /// Fetch bytes `from..=to`. `ranged`: the request carries a `Range`
    /// header. `append`: the bytes go after those the file already holds;
    /// otherwise the file is created afresh.
    Request { from: u64, to: u64, ranged: bool, append: bool },
}

/// The step for chunk `c` of plan `p`. Resuming applies only where the size
/// of the resource is known: a file that already holds the whole chunk is
/// complete, and one that holds part of it is continued after its last byte
/// when the server accepts ranges. Anything else starts the chunk afresh.
pub open spec fn step_for(p: ChunkPlan, c: Chunk, resume: bool, existing: Option<u64>) -> FetchStep {
    let n = c.end - c.start + 1;
    if resume && p.total_size > 0 && existing is Some && existing->0 >= n {
        FetchStep::Complete
    } else if resume && p.total_size > 0 && p.supports_ranges && existing is Some && 0 < existing->0 < n {
        FetchStep::Request { from: (c.start + existing->0) as u64, to: c.end, ranged: true, append: true }
    } else {
        FetchStep::Request { from: c.start, to: c.end, ranged: p.parallel, append: false }
    }
}

impl ChunkPlan {
    /// Decides what to fetch for chunk `i`, given the length of its file
    /// (`None` when there is none) and whether interrupted transfers are
    /// resumed.
    pub fn fetch_step(&self, i: usize, resume: bool, existing: Option<u64>) -> (r: FetchStep)
        requires
            i < self.chunks@.len(),
            self.chunks@[i as int].start <= self.chunks@[i as int].end,
        ensures
            r == step_for(*self, self.chunks@[i as int], resume, existing),
    {
        let c = self.chunks[i];
        let n: u64 = c.end - c.start;
        match existing {
            Some(k) if resume && self.total_size > 0 && k > n => FetchStep::Complete,
            Some(k) if resume && self.total_size > 0 && self.supports_ranges && 0 < k => {
                FetchStep::Request { from: c.start + k, to: c.end, ranged: true, append: true }
            },
            _ => FetchStep::Request { from: c.start, to: c.end, ranged: self.parallel, append: false },
        }
    }

    /// Where the progress count of the file starts for chunk `i` and its
    /// step: a sequential transfer starts at the bytes its file already
    /// holds (all of them when it is complete); a split one counts only the
    /// bytes its chunks write.
    pub fn progress_seed(&self, i: usize, step: FetchStep) -> (r: u64)
        requires
            i < self.chunks@.len(),
            self.chunks@[i as int].start <= self.chunks@[i as int].end < u64::MAX,
        ensures
            r == if self.parallel {
                0
            } else {
                let c = self.chunks@[i as int];
                match step {
                    FetchStep::Complete => c.end - c.start + 1,
                    FetchStep::Request { from, append, .. } => if append && from >= c.start { from - c.start } else { 0 },
                }
            },
    {
        if self.parallel {
            return 0;
        }
        let c = self.chunks[i];
        match step {
            FetchStep::Complete => c.end - c.start + 1,
            FetchStep::Request { from, append, .. } => if append && from >= c.start { from - c.start } else { 0 },
        }
    }

    /// Checks that a request for bytes `from..=to` received them all. Where
    /// the size of the resource is unknown, any length is accepted.
    pub fn check_received(&self, from: u64, to: u64, received: u64) -> (r: Result<(), DownloadError>)
        requires
            from <= to < u64::MAX,
        ensures
            r is Err <==> (self.total_size > 0 && received < to - from + 1),
            r is Err ==> r->Err_0 == DownloadError::Transport(r->Err_0->Transport_0)
                && r->Err_0->Transport_0@ == short_body_text(received as nat, (to - from + 1) as nat),
    {
        if self.total_size > 0 && received < to - from + 1 {
            let mut m = "body ended after ".to_owned();
            let a = decimal(received);
            m.append(a.as_str());
            m.append(" of ");
            let b = decimal(to - from + 1);
            m.append(b.as_str());
            m.append(" bytes");
            Err(DownloadError::Transport(m))
        } else {
            Ok(())
        }
    }

    /// The file that chunk `i` is written to: the output itself when the
    /// transfer is not split, else the chunk's own part file.
    pub fn target_path(&self, output: &str, i: usize) -> (r: String)
        ensures
            self.parallel ==> r@ == part_name(output@, i as nat),
            !self.parallel ==> r@ == output@,
    {
        if self.parallel {
            part_path(output, i)
        } else {
            output.to_owned()
        }
    }
}

/// Name of the part file of chunk `index` of `output`: `output.part<index>`.
pub open spec fn part_name(output: Seq<char>, index: nat) -> Seq<char> {
    output + ".part"@ + decimal_of(index)
}

/// Names the part file of chunk `index` of the download to `output`. The
/// same arguments always give the same name, so the fetcher that writes a
/// part and the merger that reads it agree without shared state.
pub fn part_path(output: &str, index: usize) -> (r: String)
    ensures
        r@ == part_name(output@, index as nat),
{
    let mut s = output.to_owned();
    s.append(".part");
    let d = decimal(index as u64);
    s.append(d.as_str());
    s
}

/// The value of the `Range` header for bytes `from..=to`.
pub open spec fn range_value(from: nat, to: nat) -> Seq<char> {
    "bytes="@ + decimal_of(from) + "-"@ + decimal_of(to)
}

/// Renders the `Range` header value `bytes=<from>-<to>`.
pub fn range_header(from: u64, to: u64) -> (r: String)
    ensures
        r@ == range_value(from as nat, to as nat),
{
    let mut s = "bytes=".to_owned();
    let a = decimal(from);
    s.append(a.as_str());
    s.append("-");
    let b = decimal(to);
    s.append(b.as_str());
    s
}

/// Resuming chunk `i` when its file already holds its first `k` of `n`
/// bytes (`0 < k < n`) requests exactly the `n - k` bytes that are missing,
/// appended to the file; and those bytes after the `k` held ones are the
/// whole chunk.
pub proof fn lemma_resume_requests_rest(
    p: ChunkPlan,
    i: int,
    k: u64,
    resource: Seq<u8>,
    held: Seq<u8>,
    fetched: Seq<u8>,
)
    requires
        0 <= i < p.chunks@.len(),
        p.chunks@[i].start <= p.chunks@[i].end < resource.len(),
        p.total_size > 0,
        p.supports_ranges,
        0 < k < p.chunks@[i].spec_len(),
        held == resource.subrange(p.chunks@[i].start as int, p.chunks@[i].start + k),
    ensures
        ({
            let c = p.chunks@[i];
            let s = step_for(p, c, true, Some(k));
            &&& s is Request
            &&& s->from == c.start + k
            &&& s->to == c.end
            &&& s->to - s->from + 1 == c.spec_len() - k
            &&& s->ranged && s->append
            &&& fetched == resource.subrange(s->from as int, s->to + 1)
                ==> held + fetched == resource.subrange(c.start as int, c.end + 1)
        }),
{
    let c = p.chunks@[i];
    let s = step_for(p, c, true, Some(k));
    if fetched == resource.subrange(s->from as int, s->to + 1) {
        assert(held + fetched =~= resource.subrange(c.start as int, c.end + 1));
    }
}

/// The message for a body that ended after `received` of `expected` bytes.
pub open spec fn short_body_text(received: nat, expected: nat) -> Seq<char> {
    "body ended after "@ + decimal_of(received) + " of "@ + decimal_of(expected) + " bytes"@
}

/// The error for a response status: none for a success (2xx), else the
/// status itself.
pub fn status_error(code: u16) -> (r: Option<DownloadError>)
    ensures
        200 <= code <= 299 ==> r is None,
        !(200 <= code <= 299) ==> r == Some(DownloadError::HttpStatus(code)),
{
    if 200 <= code && code <= 299 {
        None
    } else {
        Some(DownloadError::HttpStatus(code))
    }
}

} // verus!
