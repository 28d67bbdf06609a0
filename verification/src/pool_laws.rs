//! What holds of every consistent pool, and of every step a pool takes.

use crate::buffer_pool_manager::{initial_pool, BufferPoolManager, ReplacePolicyType};
use crate::data_storage_manager::{page_offset, pages_in};
use crate::define::{wrapping_succ, FrameId, PageId, PAGE_SIZE};
use crate::policy::lemma_policy_victim;
use crate::pool_state::{FixError, FixStep, IoOutcome, Pending, PoolView};
use crate::replacer::{frames_below, lemma_frames_below_len};
use vstd::prelude::*;
use vstd::relations::injective_on;
use vstd::set_lib::{lemma_len_subset, lemma_map_size, lemma_set_disjoint_lens};

verus! {

/// Capacity: the frames that hold a page, the frames on the free list and the
/// frame that a page is being read into, if there is one, are all the frames
/// there are. The page table has one entry for each frame that holds a page,
/// so it never has more entries than there are frames.
pub proof fn lemma_capacity(v: PoolView)
    requires
        v.wf(),
    ensures
        v.occupied().finite(),
        v.occupied().len() + v.free.len() + v.loading_count() == v.frames.len(),
        v.table.dom().len() == v.occupied().len(),
        v.table.dom().len() <= v.frames.len(),
{
    let n = v.frames.len() as int;
    let all = frames_below(n);
    let occ = v.occupied();
    let free = v.free.to_set();
    let load = Set::new(|f: FrameId| v.loading(f));
    lemma_frames_below_len(n);
    v.free.unique_seq_to_set();
    lemma_len_subset(occ, all);
    assert(load.finite() && load.len() == v.loading_count()) by {
        match v.pending {
            Pending::Loading { frame_id, .. } => {
                assert(load =~= set![frame_id]);
            },
            _ => {
                assert(load =~= Set::<FrameId>::empty());
            },
        }
    }
    assert(all =~= occ + free + load);
    lemma_set_disjoint_lens(occ, free);
    lemma_set_disjoint_lens(occ + free, load);
    let frame_of = |p: PageId| v.table[p];
    assert(v.table.dom().map(frame_of) =~= occ);
    lemma_map_size(v.table.dom(), occ, frame_of);
}

/// Identity: the page table maps a page to the frame that holds it, and a
/// frame that holds a page is the one its page is mapped to.
pub proof fn lemma_identity(v: PoolView)
    requires
        v.wf(),
    ensures
        forall|p: PageId| #[trigger]
            v.table.contains_key(p) ==> v.valid_frame(v.table[p]) && v.frames[v.table[p] as int].page_id
                == p,
        forall|f: FrameId| #[trigger]
            v.holds_page(f) ==> v.table.contains_key(v.frames[f as int].page_id)
                && v.table[v.frames[f as int].page_id] == f,
{
}

/// A new pool is consistent, waits for no transfer and holds no page.
pub proof fn lemma_initial_pool_wf(file_size: u64, policy: ReplacePolicyType, frame_num: usize)
    requires
        pages_in(file_size) <= i32::MAX,
        frame_num <= i32::MAX,
    ensures
        initial_pool(file_size, policy, frame_num).wf(),
        initial_pool(file_size, policy, frame_num).pending is Idle,
        initial_pool(file_size, policy, frame_num).table == Map::<PageId, FrameId>::empty(),
        initial_pool(file_size, policy, frame_num).frames.len() == frame_num,
        initial_pool(file_size, policy, frame_num).free.len() == frame_num,
{
    let v = initial_pool(file_size, policy, frame_num);
    assert(v.policy.candidates() =~= Seq::<FrameId>::empty());
    assert forall|f: FrameId| v.valid_frame(f) implies v.free.contains(f) by {
        assert(v.free[f as int] == f);
    }
}

/// A pool is consistent in whatever state it is held, so capacity and
/// identity hold of every pool a program can reach: each operation of
/// [`BufferPoolManager`] takes a consistent pool to a consistent pool.
pub proof fn lemma_pool_capacity_and_identity(pool: &BufferPoolManager)
    requires
        pool.wf(),
    ensures
        pool@.occupied().len() + pool@.free.len() + pool@.loading_count() == pool@.frames.len(),
        pool@.table.dom().len() <= pool@.frames.len(),
        forall|p: PageId| #[trigger]
            pool@.table.contains_key(p) ==> pool@.valid_frame(pool@.table[p])
                && pool@.frames[pool@.table[p] as int].page_id == p,
{
    pool.lemma_wf();
    lemma_capacity(pool@);
    lemma_identity(pool@);
}

/// A fetch ends, or asks for the very transfer that the pool then waits for.
pub open spec fn step_matches(v: PoolView, step: FixStep) -> bool {
    match v.request() {
        Some(request) => step == request,
        None => step is Fixed || step is Failed,
    }
}

/// Each step of a fetch leaves the pool waiting for what the step asks for,
/// and for nothing where the step ends the fetch. A page that is written back
/// is the page that its frame holds, at the place of that page in the file.
pub proof fn lemma_steps_match(v: PoolView, page_id: PageId, is_dirty: bool, outcome: IoOutcome)
    requires
        v.wf(),
    ensures
        v.pending is Idle ==> step_matches(
            v.fix_page(page_id, is_dirty).0,
            v.fix_page(page_id, is_dirty).1,
        ),
        v.pending is Idle ==> step_matches(v.fix_new_page().0, v.fix_new_page().1),
        v.expects(outcome) ==> step_matches(v.resume(outcome).0, v.resume(outcome).1),
{
}

/// A fetch is turned away exactly when its identifier is negative. A fetch
/// of a page fails for want of a frame exactly when the pool has no frames
/// at all, and a fetch of a page in the pool succeeds at once.
pub proof fn lemma_no_frame_only_without_frames(v: PoolView, page_id: PageId, is_dirty: bool)
    requires
        v.wf(),
        v.pending is Idle,
    ensures
        v.fix_page(page_id, is_dirty).1 == FixStep::Failed(FixError::InvalidPageId) <==> page_id
            < 0,
        v.fix_page(page_id, is_dirty).1 == FixStep::Failed(
            FixError::NoAvailableFrame,
        ) <==> page_id >= 0 && v.frames.len() == 0,
        v.table.contains_key(page_id) <==> v.fix_page(page_id, is_dirty).1 is Fixed,
        v.table.contains_key(page_id) ==> v.fix_page(page_id, is_dirty).1 == FixStep::Fixed(
            v.table[page_id],
        ),
{
    lemma_policy_victim(v.policy);
    let cands = v.policy.candidates();
    if v.frames.len() > 0 {
        // The first frame is free, or holds a page and is a candidate.
        assert(v.holds_page(0) || v.free.contains(0));
    } else {
        // Without frames nothing is mapped, free or a candidate.
        assert(v.table.contains_key(page_id) ==> v.valid_frame(v.table[page_id]));
        assert(v.free.len() > 0 ==> v.free.contains(v.free[0]));
        assert(cands.len() > 0 ==> cands.contains(cands[0]));
    }
}

/// The page count of the file grows by one when a new page has been added
/// to it, and changes with nothing else: not when the page is asked for, and
/// not when it could not be added. The identifier asked for is the page
/// count, so identifiers are handed out in rising order and none twice.
pub proof fn lemma_page_count(
    v: PoolView,
    page_id: PageId,
    is_dirty: bool,
    outcome: IoOutcome,
    frame_id: FrameId,
    data: Seq<u8>,
)
    requires
        v.wf(),
    ensures
        v.fix_page(page_id, is_dirty).0.disk.num_pages == v.disk.num_pages,
        v.write(frame_id, data).disk.num_pages == v.disk.num_pages,
        v.fix_new_page().0.disk.num_pages == v.disk.num_pages,
        v.disk.num_pages < i32::MAX ==> v.fix_new_page().1 == (FixStep::Append {
            page_id: v.disk.num_pages,
            offset: page_offset(v.disk.num_pages) as u64,
        }),
        v.resume(outcome).0.disk.num_pages == if v.pending is Appending && outcome is Completed {
            v.disk.num_pages + 1
        } else {
            v.disk.num_pages as int
        },
{
}

/// A hit reads nothing in and moves no page: the page table stays as it is.
pub proof fn lemma_hit_moves_no_page(v: PoolView, page_id: PageId, is_dirty: bool)
    requires
        v.wf(),
        v.pending is Idle,
        v.table.contains_key(page_id),
    ensures
        v.fix_page(page_id, is_dirty).1 == FixStep::Fixed(v.table[page_id]),
        v.fix_page(page_id, is_dirty).0.table == v.table,
        v.fix_page(page_id, is_dirty).0.free == v.free,
        v.fix_page(page_id, is_dirty).0.io_count == v.io_count,
        v.fix_page(page_id, is_dirty).0.hit_count == wrapping_succ(v.hit_count),
        v.fix_page(page_id, is_dirty).0.pending is Idle,
{
}

/// While fewer pages are in the pool than it has frames, a miss evicts
/// nothing: the page goes into a free frame, is read once, and every page
/// that was in the pool stays. So fetches over no more pages than there are
/// frames read each page once, on its first fetch, and hit ever after.
pub proof fn lemma_miss_with_room_evicts_nothing(
    v: PoolView,
    page_id: PageId,
    is_dirty: bool,
    data: Seq<u8>,
)
    requires
        v.wf(),
        v.pending is Idle,
        page_id >= 0,
        !v.table.contains_key(page_id),
        v.table.dom().len() < v.frames.len(),
        data.len() == PAGE_SIZE,
    ensures
        v.free.len() > 0,
        v.fix_page(page_id, is_dirty).1 == (FixStep::Load {
            page_id,
            offset: page_offset(page_id) as u64,
        }),
        v.fix_page(page_id, is_dirty).0.table == v.table,
        ({
            let loading = v.fix_page(page_id, is_dirty).0;
            let done = loading.resume(IoOutcome::Loaded(data));
            &&& loading.expects(IoOutcome::Loaded(data))
            &&& done.1 == FixStep::Fixed(v.free.last())
            &&& done.0.table == v.table.insert(page_id, v.free.last())
            &&& done.0.table.dom().len() == v.table.dom().len() + 1
            &&& done.0.io_count == wrapping_succ(v.io_count)
            &&& done.0.hit_count == v.hit_count
            &&& done.0.pending is Idle
        }),
{
    lemma_capacity(v);
    let f = v.free.last();
    assert(v.free.contains(f));
    assert(!v.holds_page(f));
}

} // verus!
