//! The second-chance policy: a hand sweeps a ring of candidates and takes the
//! first one whose referenced mark it finds cleared.

use crate::define::FrameId;
use crate::replacer::{
    first_at, lemma_push_members, lemma_remove_value_absent, lemma_remove_value_at,
    lemma_unique_is_first, Replacer,
};
use vstd::prelude::*;

verus! {

/// What a [`ClockReplacer`] holds: the ring, each entry a frame with its
/// referenced mark, and the place of the hand.
pub struct ClockView {
    pub frames: Seq<(FrameId, bool)>,
    pub hand: nat,
}

/// The frames of a ring, without their marks.
pub open spec fn ring_ids(frames: Seq<(FrameId, bool)>) -> Seq<FrameId> {
    Seq::new(frames.len(), |i: int| frames[i].0)
}

/// The place `k` steps after `start` on a ring of `n` places, for `k <= n`.
pub open spec fn ring_at(start: int, k: int, n: int) -> int {
    if start + k < n {
        start + k
    } else {
        start + k - n
    }
}

/// The number of steps from `start` forward to place `i` on a ring of `n` places.
pub open spec fn ring_dist(start: int, i: int, n: int) -> int {
    if i >= start {
        i - start
    } else {
        i - start + n
    }
}

/// Where a sweep of `frames` begins: at the hand, or at the first place if the
/// hand stands past the last entry.
pub open spec fn sweep_start(frames: Seq<(FrameId, bool)>, hand: nat) -> int {
    if hand >= frames.len() {
        0
    } else {
        hand as int
    }
}

/// The number of entries that a sweep from `start` passes over, counted from
/// its `k`-th step: those it meets before the first one whose mark is cleared.
/// It is the length of the ring where every mark from there on is set.
pub open spec fn sweep_len(frames: Seq<(FrameId, bool)>, start: int, k: int) -> int
    decreases frames.len() - k,
{
    if k >= frames.len() {
        frames.len() as int
    } else if !frames[ring_at(start, k, frames.len() as int)].1 {
        k
    } else {
        sweep_len(frames, start, k + 1)
    }
}

/// The ring after a sweep from `start` has passed over `k` entries: their marks
/// are cleared, every other entry is as it was.
pub open spec fn swept(frames: Seq<(FrameId, bool)>, start: int, k: int) -> Seq<(FrameId, bool)> {
    Seq::new(
        frames.len(),
        |i: int| (frames[i].0, frames[i].1 && ring_dist(start, i, frames.len() as int) >= k),
    )
}

/// The frame a sweep takes, if there is any, and the replacer it leaves.
///
/// The hand clears the mark of each entry it passes and takes the first entry
/// it finds with a cleared mark. Where every mark is set, that is the entry it
/// started at, met again after one full turn. The hand stays at the place of
/// the entry taken.
pub open spec fn clock_victim(v: ClockView) -> (Option<FrameId>, ClockView) {
    if v.frames.len() == 0 {
        (None, v)
    } else {
        let n = v.frames.len() as int;
        let start = sweep_start(v.frames, v.hand);
        let k = sweep_len(v.frames, start, 0);
        let at = ring_at(start, k, n);
        (
            Some(v.frames[at].0),
            ClockView { frames: swept(v.frames, start, k).remove(at), hand: at as nat },
        )
    }
}

/// The replacer after `frame_id` is inserted: a candidate has its mark set and
/// keeps its place, a new frame joins at the end with its mark set.
pub open spec fn clock_insert(v: ClockView, frame_id: FrameId) -> ClockView {
    if ring_ids(v.frames).contains(frame_id) {
        ClockView {
            frames: Seq::new(
                v.frames.len(),
                |i: int| (v.frames[i].0, v.frames[i].1 || v.frames[i].0 == frame_id),
            ),
            hand: v.hand,
        }
    } else {
        ClockView { frames: v.frames.push((frame_id, true)), hand: v.hand }
    }
}

/// The replacer after `frame_id` is removed: its entry leaves the ring, the
/// hand stays where it is.
pub open spec fn clock_remove(v: ClockView, frame_id: FrameId) -> ClockView {
    match ring_ids(v.frames).index_of_first(frame_id) {
        Some(i) => ClockView { frames: v.frames.remove(i), hand: v.hand },
        None => v,
    }
}

/// A sweep passes over at most the whole ring.
pub proof fn lemma_sweep_len_bounds(frames: Seq<(FrameId, bool)>, start: int, k: int)
    requires
        0 <= k <= frames.len(),
    ensures
        k <= sweep_len(frames, start, k) <= frames.len(),
    decreases frames.len() - k,
{
    if k < frames.len() && frames[ring_at(start, k, frames.len() as int)].1 {
        lemma_sweep_len_bounds(frames, start, k + 1);
    }
}

/// A sweep of a ring that holds a frame takes one of its frames and leaves
/// the others on the ring, none of them twice; a sweep of an empty ring takes
/// nothing and changes nothing.
pub proof fn lemma_clock_victim(v: ClockView)
    requires
        ring_ids(v.frames).no_duplicates(),
    ensures
        ring_ids(clock_victim(v).1.frames).no_duplicates(),
        clock_victim(v).0 is None <==> v.frames.len() == 0,
        match clock_victim(v).0 {
            Some(frame_id) => {
                &&& ring_ids(v.frames).contains(frame_id)
                &&& ring_ids(clock_victim(v).1.frames) == ring_ids(v.frames).remove_value(
                    frame_id,
                )
            },
            None => clock_victim(v).1 == v,
        },
{
    let n = v.frames.len() as int;
    if n > 0 {
        let ids = ring_ids(v.frames);
        let start = sweep_start(v.frames, v.hand);
        lemma_sweep_len_bounds(v.frames, start, 0);
        let k = sweep_len(v.frames, start, 0);
        let at = ring_at(start, k, n);
        let after = swept(v.frames, start, k);
        assert(ring_ids(after) =~= ids);
        lemma_ring_ids_remove(after, at);
        lemma_unique_is_first(ids, at);
        lemma_remove_value_at(ids, ids[at], at);
        lemma_remove_no_duplicates(ids, at);
    }
}

/// Two frames inserted into an empty ring are both referenced. The first
/// sweep passes over both, clears their marks, and takes the first frame when
/// it meets it again; the next sweep takes the second frame at once.
pub proof fn lemma_clock_order(f1: FrameId, f2: FrameId)
    requires
        f1 != f2,
    ensures
        ({
            let empty = ClockView { frames: Seq::empty(), hand: 0 };
            let ring = clock_insert(clock_insert(empty, f1), f2);
            &&& ring == ClockView { frames: seq![(f1, true), (f2, true)], hand: 0 }
            &&& sweep_len(ring.frames, 0, 0) == 2
            &&& clock_victim(ring).0 == Some(f1)
            &&& clock_victim(ring).1 == ClockView { frames: seq![(f2, false)], hand: 0 }
            &&& sweep_len(clock_victim(ring).1.frames, 0, 0) == 0
            &&& clock_victim(clock_victim(ring).1).0 == Some(f2)
            &&& clock_victim(clock_victim(ring).1).1 == ClockView { frames: Seq::empty(), hand: 0 }
            &&& clock_victim(clock_victim(clock_victim(ring).1).1).0 is None
        }),
{
    let empty = ClockView { frames: Seq::empty(), hand: 0 };
    let one = clock_insert(empty, f1);
    let ring = clock_insert(one, f2);
    assert(ring.frames =~= seq![(f1, true), (f2, true)]);
    assert(sweep_len(ring.frames, 0, 2) == 2);
    assert(sweep_len(ring.frames, 0, 1) == 2);
    let after = clock_victim(ring).1;
    assert(after.frames =~= seq![(f2, false)]);
    let last = clock_victim(after).1;
    assert(last.frames =~= Seq::<(FrameId, bool)>::empty());
}

/// A ring of candidates, each with a referenced mark, and a hand that keeps
/// its place between sweeps.
pub struct ClockReplacer {
    frames: Vec<(FrameId, bool)>,
    pointer: usize,
}

impl View for ClockReplacer {
    type V = ClockView;

    closed spec fn view(&self) -> ClockView {
        ClockView { frames: self.frames@, hand: self.pointer as nat }
    }
}

impl ClockReplacer {
    /// No frame stands on the ring twice.
    pub open spec fn wf(&self) -> bool {
        ring_ids(self@.frames).no_duplicates()
    }

    /// An empty ring with its hand at the first place; `frame_num` is the
    /// number of entries to make room for, which is no more than there are
    /// frame identifiers.
    pub fn new(frame_num: usize) -> (replacer: Self)
        requires
            frame_num <= i32::MAX,
        ensures
            replacer.wf(),
            replacer@ == (ClockView { frames: Seq::empty(), hand: 0 }),
    {
        Self { frames: Vec::with_capacity(frame_num), pointer: 0 }
    }

    /// The place of `frame_id` on the ring, if it is there.
    fn position(&self, frame_id: FrameId) -> (found: Option<usize>)
        ensures
            match found {
                Some(i) => first_at(ring_ids(self@.frames), frame_id, i as int),
                None => !ring_ids(self@.frames).contains(frame_id),
            },
    {
        let n = self.frames.len();
        let mut i: usize = 0;
        while i < n && self.frames[i].0 != frame_id
            invariant
                i <= n,
                n == self.frames@.len(),
                forall|j: int| 0 <= j < i ==> ring_ids(self.frames@)[j] != frame_id,
            decreases n - i,
        {
            i = i + 1;
        }
        if i < n {
            Some(i)
        } else {
            None
        }
    }

    /// The ring, entry by entry: each frame with its referenced mark.
    pub fn entries(&self) -> (ring: &Vec<(FrameId, bool)>)
        ensures
            ring@ == self@.frames,
    {
        &self.frames
    }
}

/// Taking an entry off a ring takes its frame off the ring's frames.
pub proof fn lemma_ring_ids_remove(frames: Seq<(FrameId, bool)>, i: int)
    requires
        0 <= i < frames.len(),
    ensures
        ring_ids(frames.remove(i)) == ring_ids(frames).remove(i),
{
}

/// Taking a place out of a sequence without duplicates leaves none.
pub proof fn lemma_remove_no_duplicates(s: Seq<FrameId>, i: int)
    requires
        s.no_duplicates(),
        0 <= i < s.len(),
    ensures
        s.remove(i).no_duplicates(),
{
}

impl Replacer for ClockReplacer {
    open spec fn inv(&self) -> bool {
        self.wf()
    }

    open spec fn candidates(&self) -> Seq<FrameId> {
        ring_ids(self@.frames)
    }

    open spec fn bound(&self) -> Option<nat> {
        None
    }

    proof fn lemma_candidates(&self) {
    }

    /// Sweeps the ring from the hand, as [`clock_victim`] says.
    fn victim(&mut self) -> (chosen: Option<FrameId>)
        ensures
            chosen == clock_victim(old(self)@).0,
            final(self)@ == clock_victim(old(self)@).1,
    {
        let n = self.frames.len();
        if n == 0 {
            return None;
        }
        if self.pointer >= n {
            self.pointer = 0;
        }
        let ghost orig = old(self)@.frames;
        let ghost start = self.pointer as int;
        let mut steps: usize = 0;
        loop
            invariant
                n > 0,
                n == orig.len(),
                n == self.frames@.len(),
                orig == old(self)@.frames,
                ring_ids(orig).no_duplicates(),
                start == sweep_start(orig, old(self)@.hand),
                0 <= start < n,
                steps <= n,
                self.pointer == ring_at(start, steps as int, n as int),
                self.frames@ == swept(orig, start, steps as int),
                sweep_len(orig, start, 0) == sweep_len(orig, start, steps as int),
            decreases n - steps,
        {
            let (frame_id, referenced) = self.frames[self.pointer];
            if referenced {
                self.frames.set(self.pointer, (frame_id, false));
                self.pointer = if self.pointer + 1 == n {
                    0
                } else {
                    self.pointer + 1
                };
                steps = steps + 1;
            } else {
                let victim = self.frames.remove(self.pointer);
                proof {
                    lemma_clock_victim(old(self)@);
                }
                return Some(victim.0);
            }
        }
    }

    /// Marks `frame_id` as referenced, putting it on the ring if it is not
    /// there, as [`clock_insert`] says.
    fn insert(&mut self, frame_id: FrameId)
        ensures
            final(self)@ == clock_insert(old(self)@, frame_id),
    {
        let ghost orig = self.frames@;
        let ghost ids = ring_ids(orig);
        match self.position(frame_id) {
            Some(i) => {
                self.frames.set(i, (frame_id, true));
                proof {
                    assert(self.frames@ =~= clock_insert(old(self)@, frame_id).frames) by {
                        assert forall|j: int| 0 <= j < orig.len() && j != i implies orig[j].0
                            != frame_id by {
                            assert(ids[j] != ids[i as int]);
                        }
                    }
                    assert(ring_ids(self.frames@) =~= ids);
                }
            },
            None => {
                self.frames.push((frame_id, true));
                proof {
                    assert(ring_ids(self.frames@) =~= ids.push(frame_id));
                    lemma_push_members(ids, frame_id);
                }
            },
        }
    }

    /// Takes the entry of `frame_id` off the ring, as [`clock_remove`] says.
    fn remove(&mut self, frame_id: FrameId)
        ensures
            final(self)@ == clock_remove(old(self)@, frame_id),
    {
        let ghost orig = self.frames@;
        let ghost ids = ring_ids(orig);
        proof {
            ids.index_of_first_ensures(frame_id);
        }
        match self.position(frame_id) {
            Some(pos) => {
                self.frames.remove(pos);
                proof {
                    lemma_remove_value_at(ids, frame_id, pos as int);
                    lemma_ring_ids_remove(orig, pos as int);
                    lemma_remove_no_duplicates(ids, pos as int);
                }
            },
            None => {
                proof {
                    lemma_remove_value_absent(ids, frame_id);
                }
            },
        }
    }

    fn size(&self) -> (count: usize) {
        self.frames.len()
    }
}

} // verus!
