//! The recency-queue policy: the candidate that was inserted longest ago goes first.

use crate::define::FrameId;
use crate::replacer::{
    first_at, lemma_push_members, lemma_remove_value_absent, lemma_remove_value_at,
    lemma_remove_value_members, Replacer,
};
use std::collections::HashSet;
use vstd::prelude::*;

verus! {

broadcast use vstd::std_specs::hash::group_hash_axioms;

/// The queue after `frame_id` is inserted into `queue`, kept to at most `max_size` entries.
///
/// A frame that is in the queue moves to its back. A new one joins at the back,
/// after the front entry has left if the queue is full. A queue whose maximum
/// size is zero holds nothing, before and after.
pub open spec fn lru_insert(queue: Seq<FrameId>, max_size: nat, frame_id: FrameId) -> Seq<
    FrameId,
> {
    if max_size == 0 {
        queue
    } else if queue.contains(frame_id) {
        queue.remove_value(frame_id).push(frame_id)
    } else if queue.len() == max_size {
        queue.drop_first().push(frame_id)
    } else {
        queue.push(frame_id)
    }
}

/// Frames inserted one after the other leave in that order, and one that is
/// inserted again before it has left goes to the back of that order.
pub proof fn lemma_lru_order(max_size: nat, f1: FrameId, f2: FrameId, f3: FrameId)
    requires
        max_size >= 3,
        f1 != f2,
        f1 != f3,
        f2 != f3,
    ensures
        lru_insert(lru_insert(lru_insert(Seq::empty(), max_size, f1), max_size, f2), max_size, f3)
            == seq![f1, f2, f3],
        lru_insert(seq![f1, f2, f3], max_size, f1) == seq![f2, f3, f1],
        lru_insert(seq![f2, f3], max_size, f2) == seq![f3, f2],
{
    let e = Seq::<FrameId>::empty();
    let a = lru_insert(e, max_size, f1);
    assert(a =~= seq![f1]);
    let b = lru_insert(a, max_size, f2);
    assert(!a.contains(f2));
    assert(b =~= seq![f1, f2]);
    assert(!b.contains(f3));
    let c = lru_insert(b, max_size, f3);
    assert(c =~= seq![f1, f2, f3]);
    let full = seq![f1, f2, f3];
    assert(first_at(full, f1, 0));
    lemma_remove_value_at(full, f1, 0);
    assert(full.remove(0).push(f1) =~= seq![f2, f3, f1]);
    let rest = seq![f2, f3];
    assert(first_at(rest, f2, 0));
    lemma_remove_value_at(rest, f2, 0);
    assert(rest.remove(0).push(f2) =~= seq![f3, f2]);
}

/// Candidates in the order of their last insertion, least recent at the front.
pub struct LRUReplacer {
    list: Vec<FrameId>,
    set: HashSet<FrameId>,
    max_size: usize,
}

impl View for LRUReplacer {
    type V = Seq<FrameId>;

    /// The queue, least recently inserted first.
    closed spec fn view(&self) -> Seq<FrameId> {
        self.list@
    }
}

impl LRUReplacer {
    /// The largest number of candidates the queue holds.
    pub closed spec fn max_size(&self) -> nat {
        self.max_size as nat
    }

    /// The queue has no duplicates and is within its maximum size.
    pub closed spec fn wf(&self) -> bool {
        &&& self.list@.no_duplicates()
        &&& self.list@.len() <= self.max_size
        &&& self.set@ == self.list@.to_set()
    }

    /// What well-formedness means for the queue.
    pub proof fn lemma_wf(&self)
        requires
            self.wf(),
        ensures
            self@.no_duplicates(),
            self@.len() <= self.max_size(),
    {
    }

    /// An empty queue that will hold at most `max_size` candidates.
    pub fn new(max_size: usize) -> (replacer: Self)
        ensures
            replacer.wf(),
            replacer@ == Seq::<FrameId>::empty(),
            replacer.max_size() == max_size,
    {
        let replacer = Self { list: Vec::new(), set: HashSet::new(), max_size };
        assert(replacer.set@ =~= replacer.list@.to_set());
        replacer
    }

    /// The place of `frame_id` in the queue.
    fn position(&self, frame_id: FrameId) -> (i: usize)
        requires
            self.list@.contains(frame_id),
        ensures
            first_at(self.list@, frame_id, i as int),
    {
        let n = self.list.len();
        let mut i: usize = 0;
        while i < n && self.list[i] != frame_id
            invariant
                i <= n,
                n == self.list@.len(),
                forall|j: int| 0 <= j < i ==> self.list@[j] != frame_id,
            decreases n - i,
        {
            i = i + 1;
        }
        i
    }

    /// The queue, least recently inserted first.
    pub fn frames(&self) -> (list: &Vec<FrameId>)
        ensures
            list@ == self@,
    {
        &self.list
    }
}

impl Replacer for LRUReplacer {
    open spec fn inv(&self) -> bool {
        self.wf()
    }

    open spec fn candidates(&self) -> Seq<FrameId> {
        self@
    }

    open spec fn bound(&self) -> Option<nat> {
        Some(self.max_size())
    }

    proof fn lemma_candidates(&self) {
    }

    /// Takes the least recently inserted candidate off the front.
    fn victim(&mut self) -> (chosen: Option<FrameId>)
        ensures
            final(self).max_size() == old(self).max_size(),
            old(self)@.len() == 0 ==> chosen is None && final(self)@ == old(self)@,
            old(self)@.len() > 0 ==> chosen == Some(old(self)@[0]) && final(self)@ == old(
                self,
            )@.drop_first(),
    {
        if self.list.is_empty() {
            None
        } else {
            let victim = self.list.remove(0);
            self.set.remove(&victim);
            proof {
                let s = old(self).list@;
                lemma_remove_value_at(s, victim, 0);
                lemma_remove_value_members(s, victim);
                assert(self.set@ =~= self.list@.to_set());
            }
            Some(victim)
        }
    }

    /// Puts `frame_id` at the back of the queue, as [`lru_insert`] says.
    fn insert(&mut self, frame_id: FrameId)
        ensures
            final(self).max_size() == old(self).max_size(),
            final(self)@ == lru_insert(old(self)@, old(self).max_size(), frame_id),
    {
        let ghost s = self.list@;
        proof {
            lemma_remove_value_members(s, frame_id);
        }
        if self.max_size == 0 {
            return;
        }
        if self.set.contains(&frame_id) {
            let i = self.position(frame_id);
            self.list.remove(i);
            self.list.push(frame_id);
            proof {
                lemma_remove_value_at(s, frame_id, i as int);
                let t = s.remove_value(frame_id);
                lemma_push_members(t, frame_id);
                assert(self.set@ =~= self.list@.to_set());
            }
        } else {
            if self.list.len() == self.max_size {
                let victim = self.list.remove(0);
                self.set.remove(&victim);
                proof {
                    lemma_remove_value_at(s, victim, 0);
                    lemma_remove_value_members(s, victim);
                }
            }
            let ghost t = self.list@;
            self.list.push(frame_id);
            self.set.insert(frame_id);
            proof {
                lemma_push_members(t, frame_id);
                assert(self.set@ =~= self.list@.to_set());
            }
        }
    }

    /// Takes `frame_id` out of the queue, wherever it stands.
    fn remove(&mut self, frame_id: FrameId)
        ensures
            final(self).max_size() == old(self).max_size(),
            final(self)@ == old(self)@.remove_value(frame_id),
    {
        let ghost s = self.list@;
        proof {
            lemma_remove_value_members(s, frame_id);
        }
        if self.set.remove(&frame_id) {
            let i = self.position(frame_id);
            self.list.remove(i);
            proof {
                lemma_remove_value_at(s, frame_id, i as int);
                assert(self.set@ =~= self.list@.to_set());
            }
        } else {
            proof {
                lemma_remove_value_absent(s, frame_id);
                assert(self.set@ =~= self.list@.to_set());
            }
        }
    }

    fn size(&self) -> (count: usize) {
        self.list.len()
    }
}

} // verus!
