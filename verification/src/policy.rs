//! The two replacement policies as one type, chosen when a pool is built.

use crate::clock_replacer::{
    clock_insert, clock_remove, clock_victim, lemma_clock_victim, lemma_remove_no_duplicates,
    lemma_ring_ids_remove, ring_ids, ClockReplacer, ClockView,
};
use crate::define::FrameId;
use crate::lru_replacer::{lru_insert, LRUReplacer};
use crate::replacer::{
    lemma_push_members, lemma_remove_value_absent, lemma_remove_value_at,
    lemma_remove_value_members, lemma_unique_is_first, Replacer,
};
use vstd::prelude::*;

verus! {

/// What a [`PolicyReplacer`] holds.
pub enum PolicyView {
    /// The recency queue, least recently inserted first, and its maximum size.
    Lru { queue: Seq<FrameId>, max_size: nat },
    /// The ring of the second-chance policy and its hand.
    Clock { ring: ClockView },
}

impl PolicyView {
    /// No frame is tracked twice, and the queue is within its maximum size.
    pub open spec fn wf(self) -> bool {
        match self {
            PolicyView::Lru { queue, max_size } => queue.no_duplicates() && queue.len() <= max_size,
            PolicyView::Clock { ring } => ring_ids(ring.frames).no_duplicates(),
        }
    }

    /// The frames that may be reclaimed, in the policy's own order.
    pub open spec fn candidates(self) -> Seq<FrameId> {
        match self {
            PolicyView::Lru { queue, max_size } => queue,
            PolicyView::Clock { ring } => ring_ids(ring.frames),
        }
    }

    /// The most candidates tracked at a time, if there is a limit.
    pub open spec fn bound(self) -> Option<nat> {
        match self {
            PolicyView::Lru { queue, max_size } => Some(max_size),
            PolicyView::Clock { ring } => None,
        }
    }

    /// Whether `frame_id` can be inserted without a candidate being dropped.
    pub open spec fn has_room_for(self, frame_id: FrameId) -> bool {
        ||| self.candidates().contains(frame_id)
        ||| self.bound() is None
        ||| self.candidates().len() < self.bound().unwrap()
    }

    /// The frame the policy reclaims next, if any, and the policy without it.
    pub open spec fn victim(self) -> (Option<FrameId>, PolicyView) {
        match self {
            PolicyView::Lru { queue, max_size } => if queue.len() == 0 {
                (None, self)
            } else {
                (Some(queue[0]), PolicyView::Lru { queue: queue.drop_first(), max_size })
            },
            PolicyView::Clock { ring } => (
                clock_victim(ring).0,
                PolicyView::Clock { ring: clock_victim(ring).1 },
            ),
        }
    }

    /// The policy after `frame_id` is inserted.
    pub open spec fn insert(self, frame_id: FrameId) -> PolicyView {
        match self {
            PolicyView::Lru { queue, max_size } => PolicyView::Lru {
                queue: lru_insert(queue, max_size, frame_id),
                max_size,
            },
            PolicyView::Clock { ring } => PolicyView::Clock { ring: clock_insert(ring, frame_id) },
        }
    }

    /// The policy after `frame_id` is removed.
    pub open spec fn remove(self, frame_id: FrameId) -> PolicyView {
        match self {
            PolicyView::Lru { queue, max_size } => PolicyView::Lru {
                queue: queue.remove_value(frame_id),
                max_size,
            },
            PolicyView::Clock { ring } => PolicyView::Clock { ring: clock_remove(ring, frame_id) },
        }
    }
}

/// Choosing a victim takes one candidate away and leaves the others; there is
/// a victim whenever there is a candidate.
pub proof fn lemma_policy_victim(p: PolicyView)
    requires
        p.wf(),
    ensures
        p.victim().1.wf(),
        p.victim().1.bound() == p.bound(),
        p.victim().0 is None <==> p.candidates().len() == 0,
        match p.victim().0 {
            Some(frame_id) => {
                &&& p.candidates().contains(frame_id)
                &&& p.victim().1.candidates() == p.candidates().remove_value(frame_id)
            },
            None => p.victim().1 == p,
        },
{
    match p {
        PolicyView::Lru { queue, max_size } => {
            if queue.len() > 0 {
                lemma_unique_is_first(queue, 0);
                lemma_remove_value_at(queue, queue[0], 0);
                lemma_remove_value_members(queue, queue[0]);
            }
        },
        PolicyView::Clock { ring } => {
            lemma_clock_victim(ring);
        },
    }
}

/// Inserting a frame makes it a candidate and adds no other; it drops a
/// candidate only to make room for a new frame at the bound. Where the bound
/// is zero, nothing changes.
pub proof fn lemma_policy_insert(p: PolicyView, frame_id: FrameId)
    requires
        p.wf(),
    ensures
        p.insert(frame_id).wf(),
        p.insert(frame_id).bound() == p.bound(),
        p.bound() != Some(0nat) ==> p.insert(frame_id).candidates().contains(frame_id),
        p.bound() == Some(0nat) ==> p.insert(frame_id) == p,
        forall|g: FrameId| #[trigger]
            p.insert(frame_id).candidates().contains(g) ==> g == frame_id
                || p.candidates().contains(g),
        p.has_room_for(frame_id) ==> forall|g: FrameId| #[trigger]
            p.candidates().contains(g) ==> p.insert(frame_id).candidates().contains(g),
{
    match p {
        PolicyView::Lru { queue, max_size } => {
            lemma_remove_value_members(queue, frame_id);
            if max_size > 0 {
                if queue.contains(frame_id) {
                    lemma_push_members(queue.remove_value(frame_id), frame_id);
                } else if queue.len() == max_size {
                    lemma_unique_is_first(queue, 0);
                    lemma_remove_value_at(queue, queue[0], 0);
                    lemma_remove_value_members(queue, queue[0]);
                    lemma_push_members(queue.drop_first(), frame_id);
                } else {
                    lemma_push_members(queue, frame_id);
                }
            }
        },
        PolicyView::Clock { ring } => {
            let ids = ring_ids(ring.frames);
            let now = ring_ids(clock_insert(ring, frame_id).frames);
            if ids.contains(frame_id) {
                assert(now =~= ids);
            } else {
                assert(now =~= ids.push(frame_id));
                lemma_push_members(ids, frame_id);
            }
        },
    }
}

/// Removing a frame takes it off the candidates and leaves the others.
pub proof fn lemma_policy_remove(p: PolicyView, frame_id: FrameId)
    requires
        p.wf(),
    ensures
        p.remove(frame_id).wf(),
        p.remove(frame_id).bound() == p.bound(),
        p.remove(frame_id).candidates() == p.candidates().remove_value(frame_id),
{
    match p {
        PolicyView::Lru { queue, max_size } => {
            lemma_remove_value_members(queue, frame_id);
            queue.index_of_first_ensures(frame_id);
        },
        PolicyView::Clock { ring } => {
            let ids = ring_ids(ring.frames);
            ids.index_of_first_ensures(frame_id);
            match ids.index_of_first(frame_id) {
                Some(i) => {
                    lemma_remove_value_at(ids, frame_id, i);
                    lemma_ring_ids_remove(ring.frames, i);
                    lemma_remove_no_duplicates(ids, i);
                },
                None => {
                    lemma_remove_value_absent(ids, frame_id);
                },
            }
        },
    }
}

/// The replacer of a pool: one of the two policies.
pub enum PolicyReplacer {
    LRU(LRUReplacer),
    Clock(ClockReplacer),
}

impl View for PolicyReplacer {
    type V = PolicyView;

    open spec fn view(&self) -> PolicyView {
        match self {
            PolicyReplacer::LRU(lru) => PolicyView::Lru { queue: lru@, max_size: lru.max_size() },
            PolicyReplacer::Clock(clock) => PolicyView::Clock { ring: clock@ },
        }
    }
}

impl PolicyReplacer {
    /// The policy in use is well-formed.
    pub open spec fn wf(&self) -> bool {
        match self {
            PolicyReplacer::LRU(lru) => lru.wf(),
            PolicyReplacer::Clock(clock) => clock.wf(),
        }
    }

    /// A well-formed replacer has a well-formed view.
    pub proof fn lemma_view_wf(&self)
        requires
            self.wf(),
        ensures
            self@.wf(),
    {
        match self {
            PolicyReplacer::LRU(lru) => {
                lru.lemma_wf();
            },
            PolicyReplacer::Clock(clock) => {},
        }
    }
}

impl Replacer for PolicyReplacer {
    open spec fn inv(&self) -> bool {
        self.wf()
    }

    open spec fn candidates(&self) -> Seq<FrameId> {
        self@.candidates()
    }

    open spec fn bound(&self) -> Option<nat> {
        self@.bound()
    }

    proof fn lemma_candidates(&self) {
        self.lemma_view_wf();
    }

    fn victim(&mut self) -> (chosen: Option<FrameId>)
        ensures
            chosen == old(self)@.victim().0,
            final(self)@ == old(self)@.victim().1,
    {
        proof {
            self.lemma_view_wf();
            lemma_policy_victim(self@);
        }
        match self {
            PolicyReplacer::LRU(lru) => lru.victim(),
            PolicyReplacer::Clock(clock) => clock.victim(),
        }
    }

    fn insert(&mut self, frame_id: FrameId)
        ensures
            final(self)@ == old(self)@.insert(frame_id),
    {
        proof {
            self.lemma_view_wf();
            lemma_policy_insert(self@, frame_id);
        }
        match self {
            PolicyReplacer::LRU(lru) => lru.insert(frame_id),
            PolicyReplacer::Clock(clock) => clock.insert(frame_id),
        }
    }

    fn remove(&mut self, frame_id: FrameId)
        ensures
            final(self)@ == old(self)@.remove(frame_id),
    {
        proof {
            self.lemma_view_wf();
            lemma_policy_remove(self@, frame_id);
        }
        match self {
            PolicyReplacer::LRU(lru) => lru.remove(frame_id),
            PolicyReplacer::Clock(clock) => clock.remove(frame_id),
        }
    }

    fn size(&self) -> (count: usize) {
        match self {
            PolicyReplacer::LRU(lru) => lru.size(),
            PolicyReplacer::Clock(clock) => clock.size(),
        }
    }
}

} // verus!
