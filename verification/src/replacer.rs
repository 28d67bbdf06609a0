//! The replacement policy as a capability: which frames may be reclaimed, and
//! which of them goes first.

use crate::define::FrameId;
use vstd::prelude::*;
use vstd::set_lib::{lemma_int_range, lemma_len_subset, lemma_map_size, set_int_range};

verus! {

/// Whether `i` is the first place at which `frame_id` stands in `s`.
pub open spec fn first_at(s: Seq<FrameId>, frame_id: FrameId, i: int) -> bool {
    &&& 0 <= i < s.len()
    &&& s[i] == frame_id
    &&& forall|j: int| 0 <= j < i ==> s[j] != frame_id
}

/// Removing a value from a sequence removes the place where it first stands.
pub proof fn lemma_remove_value_at(s: Seq<FrameId>, frame_id: FrameId, i: int)
    requires
        first_at(s, frame_id, i),
    ensures
        s.remove_value(frame_id) == s.remove(i),
{
    s.index_of_first_ensures(frame_id);
}

/// Removing a value that a sequence does not hold leaves the sequence as it is.
pub proof fn lemma_remove_value_absent(s: Seq<FrameId>, frame_id: FrameId)
    requires
        !s.contains(frame_id),
    ensures
        s.remove_value(frame_id) == s,
{
    s.index_of_first_ensures(frame_id);
}

/// What is left after a value is removed from a sequence without duplicates:
/// every other member, still without duplicates, and not the value.
pub proof fn lemma_remove_value_members(s: Seq<FrameId>, frame_id: FrameId)
    requires
        s.no_duplicates(),
    ensures
        s.remove_value(frame_id).no_duplicates(),
        !s.remove_value(frame_id).contains(frame_id),
        forall|g: FrameId|
            #[trigger] s.remove_value(frame_id).contains(g) <==> (s.contains(g) && g != frame_id),
        s.contains(frame_id) ==> s.remove_value(frame_id).len() == s.len() - 1,
{
    s.index_of_first_ensures(frame_id);
    let t = s.remove_value(frame_id);
    match s.index_of_first(frame_id) {
        Some(i) => {
            assert(t == s.remove(i));
            assert forall|a: int, b: int| 0 <= a < t.len() && 0 <= b < t.len() && a != b implies t[a]
                != t[b] by {
                let a0 = if a < i { a } else { a + 1 };
                let b0 = if b < i { b } else { b + 1 };
                assert(t[a] == s[a0] && t[b] == s[b0]);
            }
            assert forall|g: FrameId| #[trigger] t.contains(g) <==> (s.contains(g) && g
                != frame_id) by {
                if t.contains(g) {
                    let a = choose|a: int| 0 <= a < t.len() && t[a] == g;
                    let a0 = if a < i { a } else { a + 1 };
                    assert(s[a0] == g);
                }
                if s.contains(g) && g != frame_id {
                    let a0 = choose|a0: int| 0 <= a0 < s.len() && s[a0] == g;
                    let a = if a0 < i { a0 } else { a0 - 1 };
                    assert(t[a] == g);
                }
            }
        },
        None => {},
    }
}

/// In a sequence without duplicates a value stands first where it stands at all.
pub proof fn lemma_unique_is_first(s: Seq<FrameId>, i: int)
    requires
        s.no_duplicates(),
        0 <= i < s.len(),
    ensures
        first_at(s, s[i], i),
{
}

/// Pushing a value that a duplicate-free sequence lacks keeps it duplicate-free
/// and adds that value alone to its members.
pub proof fn lemma_push_members(t: Seq<FrameId>, frame_id: FrameId)
    requires
        t.no_duplicates(),
        !t.contains(frame_id),
    ensures
        t.push(frame_id).no_duplicates(),
        forall|g: FrameId| #[trigger]
            t.push(frame_id).contains(g) <==> (t.contains(g) || g == frame_id),
{
    let u = t.push(frame_id);
    assert forall|g: FrameId| #[trigger] u.contains(g) <==> (t.contains(g) || g == frame_id) by {
        if u.contains(g) {
            let a = choose|a: int| 0 <= a < u.len() && u[a] == g;
            if a < t.len() {
                assert(t[a] == g);
            }
        }
        if t.contains(g) {
            let a = choose|a: int| 0 <= a < t.len() && t[a] == g;
            assert(u[a] == g);
        }
        if g == frame_id {
            assert(u[t.len() as int] == g);
        }
    }
    assert forall|a: int, b: int| 0 <= a < u.len() && 0 <= b < u.len() && a != b implies u[a]
        != u[b] by {
        if a == t.len() {
            assert(t[b] == u[b]);
        } else if b == t.len() {
            assert(t[a] == u[a]);
        }
    }
}

/// The frame identifiers below `n`.
pub open spec fn frames_below(n: int) -> Set<FrameId> {
    Set::new(|f: FrameId| 0 <= f < n)
}

/// There are `n` frame identifiers below `n`.
pub proof fn lemma_frames_below_len(n: int)
    requires
        0 <= n <= i32::MAX,
    ensures
        frames_below(n).finite(),
        frames_below(n).len() == n,
{
    let all = frames_below(n);
    let ints = set_int_range(0, n);
    lemma_int_range(0, n);
    let fwd = |i: int| i as FrameId;
    assert(ints.map(fwd) =~= all) by {
        assert forall|f: FrameId| all.contains(f) implies ints.map(fwd).contains(f) by {
            assert(ints.contains(f as int) && fwd(f as int) == f);
        }
    }
    ints.lemma_map_finite(fwd);
    lemma_map_size(ints, all, fwd);
}

/// A sequence of distinct frames, each below `n` and none of them `spare`,
/// which is below `n` too, has fewer than `n` entries.
pub proof fn lemma_distinct_frames_leave_room(s: Seq<FrameId>, n: int, spare: FrameId)
    requires
        s.no_duplicates(),
        forall|i: int| 0 <= i < s.len() ==> 0 <= #[trigger] s[i] < n && s[i] != spare,
        0 <= spare < n <= i32::MAX,
    ensures
        s.len() < n,
{
    s.unique_seq_to_set();
    lemma_frames_below_len(n);
    let rest = frames_below(n).remove(spare);
    lemma_len_subset(s.to_set(), rest);
}

/// A replacement policy over frame identifiers.
///
/// A replacer never sees page content. It tracks the frames that may be
/// reclaimed, the candidates, and picks the next one to go.
pub trait Replacer {
    /// The replacer's own consistency.
    spec fn inv(&self) -> bool;

    /// The candidates, in the order in which the replacer keeps them.
    spec fn candidates(&self) -> Seq<FrameId>;

    /// The most candidates it tracks at a time; `None` where it sets no limit.
    spec fn bound(&self) -> Option<nat>;

    /// No frame is a candidate twice, and a bounded replacer stays within its bound.
    proof fn lemma_candidates(&self)
        requires
            self.inv(),
        ensures
            self.candidates().no_duplicates(),
            self.bound() matches Some(b) ==> self.candidates().len() <= b,
    ;

    /// Selects one candidate, takes it off the candidates and returns it;
    /// `None` exactly when there is no candidate.
    fn victim(&mut self) -> (chosen: Option<FrameId>)
        requires
            old(self).inv(),
        ensures
            final(self).inv(),
            final(self).bound() == old(self).bound(),
            chosen is None <==> old(self).candidates().len() == 0,
            match chosen {
                Some(frame_id) => {
                    &&& old(self).candidates().contains(frame_id)
                    &&& final(self).candidates() == old(self).candidates().remove_value(frame_id)
                },
                None => final(self).candidates() == old(self).candidates(),
            },
    ;

    /// Makes `frame_id` a candidate. Every earlier candidate stays one, unless
    /// `frame_id` is new and the replacer is at its bound. A replacer whose
    /// bound is zero tracks nothing, so there the call changes nothing.
    fn insert(&mut self, frame_id: FrameId)
        requires
            old(self).inv(),
        ensures
            final(self).inv(),
            final(self).bound() == old(self).bound(),
            old(self).bound() != Some(0nat) ==> final(self).candidates().contains(frame_id),
            old(self).bound() == Some(0nat) ==> final(self).candidates() == old(
                self,
            ).candidates(),
            forall|g: FrameId| #[trigger]
                final(self).candidates().contains(g) ==> g == frame_id || old(
                    self,
                ).candidates().contains(g),
            old(self).candidates().contains(frame_id) || old(self).bound() is None || old(
                self,
            ).candidates().len() < old(self).bound().unwrap() ==> forall|g: FrameId| #[trigger]
                old(self).candidates().contains(g) ==> final(self).candidates().contains(g),
    ;

    /// Takes `frame_id` off the candidates; nothing changes if it is none.
    fn remove(&mut self, frame_id: FrameId)
        requires
            old(self).inv(),
        ensures
            final(self).inv(),
            final(self).bound() == old(self).bound(),
            final(self).candidates() == old(self).candidates().remove_value(frame_id),
    ;

    /// The number of candidates.
    fn size(&self) -> (count: usize)
        requires
            self.inv(),
        ensures
            count == self.candidates().len(),
    ;
}

} // verus!
