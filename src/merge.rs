//! The merger's bookkeeping: chunks finish in any order, the merge takes
//! their files strictly by index.

use vstd::prelude::*;
use crate::error::DownloadError;
use crate::plan::{Chunk, covers_once, lemma_tiles_cover_once, tiles};

verus! {

/// Collects the files of finished chunks, each in the slot of its index.
pub struct ChunkAssembly {
    slots: Vec<Option<String>>,
    failure: Option<DownloadError>,
}

/// Recording that chunk `index` finished into `file`: an empty slot in range
/// takes it; anything else leaves the slots as they were.
pub open spec fn record_slot(slots: Seq<Option<Seq<char>>>, index: int, file: Seq<char>) -> Seq<Option<Seq<char>>> {
    if 0 <= index < slots.len() && slots[index] is None {
        slots.update(index, Some(file))
    } else {
        slots
    }
}

/// The slots after chunks finish in the order `order`, chunk `j` into
/// `files[j]`.
pub open spec fn replay(slots: Seq<Option<Seq<char>>>, order: Seq<int>, files: Seq<Seq<char>>) -> Seq<Option<Seq<char>>>
    decreases order.len(),
{
    if order.len() == 0 {
        slots
    } else {
        let before = replay(slots, order.drop_last(), files);
        record_slot(before, order.last(), files[order.last()])
    }
}

/// A completion order of `n` chunks: each entry is a chunk index, and every
/// chunk finishes at least once.
pub open spec fn is_completion_order(order: Seq<int>, n: int) -> bool {
    &&& forall|j: int| 0 <= j < order.len() ==> 0 <= #[trigger] order[j] < n
    &&& forall|i: int| 0 <= i < n ==> #[trigger] order.contains(i)
}

/// The concatenation of `parts`, first to last.
pub open spec fn concat_all(parts: Seq<Seq<u8>>) -> Seq<u8>
    decreases parts.len(),
{
    if parts.len() == 0 {
        Seq::empty()
    } else {
        concat_all(parts.drop_last()) + parts.last()
    }
}

impl View for ChunkAssembly {
    type V = Seq<Option<Seq<char>>>;

    closed spec fn view(&self) -> Seq<Option<Seq<char>>> {
        self.slots@.map_values(|s: Option<String>| match s {
            Some(f) => Some(f@),
            None => None,
        })
    }
}

impl ChunkAssembly {
    /// The first failure recorded, if any.
    pub closed spec fn failure(&self) -> Option<DownloadError> {
        self.failure
    }

    /// An assembly for `n` chunks, none finished yet.
    pub fn new(n: usize) -> (r: ChunkAssembly)
        ensures
            r@ == Seq::new(n as nat, |i: int| None::<Seq<char>>),
            r.failure() is None,
    {
        let mut slots: Vec<Option<String>> = Vec::new();
        let mut i: usize = 0;
        while i < n
            invariant
                i <= n,
                slots@.len() == i,
                forall|k: int| 0 <= k < i ==> slots@[k] is None,
            decreases n - i,
        {
            slots.push(None);
            i = i + 1;
        }
        let r = ChunkAssembly { slots, failure: None };
        assert(r@ =~= Seq::new(n as nat, |i: int| None::<Seq<char>>));
        r
    }

    /// Number of chunks.
    pub fn len(&self) -> (r: usize)
        ensures
            r == self@.len(),
    {
        self.slots.len()
    }

    /// Records that chunk `index` finished into `file`. Returns whether it
    /// was taken: an index out of range, or one already recorded, is not.
    pub fn record(&mut self, index: usize, file: String) -> (taken: bool)
        ensures
            final(self)@ == record_slot(old(self)@, index as int, file@),
            final(self).failure() == old(self).failure(),
            taken == (index < old(self)@.len() && old(self)@[index as int] is None),
    {
        if index < self.slots.len() && self.slots[index].is_none() {
            let ghost before = self@;
            self.slots.set(index, Some(file));
            assert(self@ =~= before.update(index as int, Some(file@)));
            true
        } else {
            false
        }
    }

    /// Records that a chunk failed with `e`. Only the first failure is
    /// kept; the other chunks still finish and are recorded.
    pub fn record_failure(&mut self, e: DownloadError)
        ensures
            final(self)@ == old(self)@,
            final(self).failure() == if old(self).failure() is None { Some(e) } else { old(self).failure() },
    {
        if self.failure.is_none() {
            self.failure = Some(e);
        }
    }

    /// The outcome of an attempt once every chunk has been awaited: the
    /// first failure recorded; else, when a chunk is missing, a merge error;
    /// else the files to merge, in ascending chunk index.
    pub fn settle(self) -> (r: Result<Vec<String>, DownloadError>)
        ensures
            self.failure() is Some ==> r == Err::<Vec<String>, DownloadError>(self.failure()->0),
            self.failure() is None && !(forall|i: int| 0 <= i < self@.len() ==> #[trigger] self@[i] is Some)
                ==> r is Err && r->Err_0 is Merge,
            self.failure() is None && (forall|i: int| 0 <= i < self@.len() ==> #[trigger] self@[i] is Some)
                ==> r is Ok && r->Ok_0@.len() == self@.len()
                && forall|i: int| 0 <= i < self@.len() ==> self@[i] == Some(#[trigger] r->Ok_0@[i]@),
    {
        let order = self.merge_order();
        match self.failure {
            Some(e) => Err(e),
            None => match order {
                Some(files) => Ok(files),
                None => Err(DownloadError::Merge("a chunk is missing".to_owned())),
            },
        }
    }

    /// Whether every chunk has finished.
    pub fn is_complete(&self) -> (r: bool)
        ensures
            r == forall|i: int| 0 <= i < self@.len() ==> #[trigger] self@[i] is Some,
    {
        let mut i: usize = 0;
        while i < self.slots.len()
            invariant
                i <= self.slots@.len(),
                forall|k: int| 0 <= k < i ==> #[trigger] self@[k] is Some,
            decreases self.slots@.len() - i,
        {
            if self.slots[i].is_none() {
                assert(self@[i as int] is None);
                return false;
            }
            i = i + 1;
        }
        true
    }

    /// The files to concatenate, in ascending chunk index, once every chunk
    /// has finished; `None` while one is missing.
    pub fn merge_order(&self) -> (r: Option<Vec<String>>)
        ensures
            r is Some <==> forall|i: int| 0 <= i < self@.len() ==> #[trigger] self@[i] is Some,
            r is Some ==> r->0@.len() == self@.len()
                && forall|i: int| 0 <= i < self@.len() ==> self@[i] == Some(#[trigger] r->0@[i]@),
    {
        let mut files: Vec<String> = Vec::new();
        let mut i: usize = 0;
        while i < self.slots.len()
            invariant
                i <= self.slots@.len(),
                files@.len() == i,
                forall|k: int| 0 <= k < i ==> self@[k] == Some(#[trigger] files@[k]@),
            decreases self.slots@.len() - i,
        {
            match &self.slots[i] {
                Some(f) => {
                    files.push(f.clone());
                },
                None => {
                    assert(self@[i as int] is None);
                    return None;
                },
            }
            i = i + 1;
        }
        assert forall|k: int| 0 <= k < self@.len() implies #[trigger] self@[k] is Some by {
            assert(self@[k] == Some(files@[k]@));
        }
        Some(files)
    }
}

proof fn lemma_replay_slots(n: int, order: Seq<int>, files: Seq<Seq<char>>)
    requires
        n >= 0,
        files.len() == n,
        forall|j: int| 0 <= j < order.len() ==> 0 <= #[trigger] order[j] < n,
    ensures
        ({
            let s = replay(Seq::new(n as nat, |i: int| None::<Seq<char>>), order, files);
            &&& s.len() == n
            &&& forall|i: int| 0 <= i < n ==> #[trigger] s[i] == if order.contains(i) {
                Some(files[i])
            } else {
                None
            }
        }),
    decreases order.len(),
{
    let fresh = Seq::new(n as nat, |i: int| None::<Seq<char>>);
    if order.len() > 0 {
        let front = order.drop_last();
        assert forall|j: int| 0 <= j < front.len() implies 0 <= #[trigger] front[j] < n by {
            assert(front[j] == order[j]);
        }
        lemma_replay_slots(n, front, files);
        let before = replay(fresh, front, files);
        let s = replay(fresh, order, files);
        let x = order.last();
        assert forall|i: int| 0 <= i < n implies #[trigger] s[i] == if order.contains(i) {
            Some(files[i])
        } else {
            None
        } by {
            let was = front.contains(i);
            assert(before[i] == if was { Some(files[i]) } else { None });
            if was {
                let j = choose|j: int| 0 <= j < front.len() && front[j] == i;
                assert(order[j] == i);
            }
            if order.contains(i) {
                let j = choose|j: int| 0 <= j < order.len() && order[j] == i;
                if j < order.len() - 1 {
                    assert(front[j] == i);
                }
            } else {
                assert(order[order.len() - 1] != i);
                assert forall|j: int| 0 <= j < front.len() implies front[j] != i by {
                    assert(front[j] == order[j]);
                }
            }
        }
    }
}

proof fn lemma_concat_prefix(cs: Seq<Chunk>, total: int, resource: Seq<u8>, parts: Seq<Seq<u8>>, k: int)
    requires
        tiles(cs, total),
        covers_once(cs, total),
        resource.len() == total,
        parts.len() == cs.len(),
        forall|i: int| 0 <= i < cs.len() ==> #[trigger] parts[i] == resource.subrange(cs[i].start as int, cs[i].end + 1),
        1 <= k <= cs.len(),
    ensures
        concat_all(parts.take(k)) == resource.subrange(0, cs[k - 1].end + 1),
    decreases k,
{
    let pre = parts.take(k);
    let c = cs[k - 1];
    assert(0 <= c.start <= c.end < total);
    assert(parts[k - 1] == resource.subrange(c.start as int, c.end + 1));
    assert(pre.drop_last() =~= parts.take(k - 1));
    assert(pre.last() == parts[k - 1]);
    assert(concat_all(pre) == concat_all(parts.take(k - 1)) + parts[k - 1]);
    if k == 1 {
        assert(concat_all(parts.take(0)) =~= Seq::<u8>::empty());
        assert(concat_all(pre) =~= resource.subrange(0, c.end + 1));
    } else {
        lemma_concat_prefix(cs, total, resource, parts, k - 1);
        assert(cs[k - 2].end + 1 == c.start);
        assert(concat_all(pre) =~= resource.subrange(0, c.end + 1));
    }
}

/// Whatever order the chunks finish in, the merge takes their files in
/// ascending index order, and the chunks' bytes concatenated in that order
/// are the whole resource: the output is byte for byte what one sequential
/// fetch would give.
pub proof fn lemma_merge_any_order(
    cs: Seq<Chunk>,
    total: int,
    resource: Seq<u8>,
    files: Seq<Seq<char>>,
    parts: Seq<Seq<u8>>,
    order: Seq<int>,
)
    requires
        tiles(cs, total),
        resource.len() == total,
        files.len() == cs.len(),
        parts.len() == cs.len(),
        forall|i: int| 0 <= i < cs.len() ==> #[trigger] parts[i] == resource.subrange(cs[i].start as int, cs[i].end + 1),
        is_completion_order(order, cs.len() as int),
    ensures
        replay(Seq::new(cs.len(), |i: int| None::<Seq<char>>), order, files)
            == files.map_values(|f: Seq<char>| Some(f)),
        concat_all(parts) == resource,
{
    let n = cs.len() as int;
    lemma_replay_slots(n, order, files);
    let s = replay(Seq::new(cs.len(), |i: int| None::<Seq<char>>), order, files);
    assert forall|i: int| 0 <= i < n implies #[trigger] s[i] == Some(files[i]) by {
        assert(order.contains(i));
    }
    assert(s =~= files.map_values(|f: Seq<char>| Some(f)));
    lemma_tiles_cover_once(cs, total);
    lemma_concat_prefix(cs, total, resource, parts, n);
    assert(parts.take(n) =~= parts);
    assert(resource.subrange(0, total) =~= resource);
}

} // verus!
