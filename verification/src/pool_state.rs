//! The buffer pool as a state machine over mathematical values: what a pool
//! holds, what each operation makes of it, and what stays true throughout.

use crate::data_storage_manager::{page_offset, DSMgrView};
use crate::define::{wrapping_succ, FrameId, PageId, INVALID_PAGE_ID, PAGE_SIZE};
use crate::page::PageView;
use crate::policy::{lemma_policy_insert, lemma_policy_victim, PolicyView};
use crate::replacer::{lemma_distinct_frames_leave_room, lemma_push_members, lemma_remove_value_members};
use vstd::prelude::*;

verus! {

/// Why a fetch has failed.
#[derive(Clone, Copy, Debug, PartialEq, Eq, Structural)]
pub enum FixError {
    /// The free list is empty and the replacer has no victim.
    NoAvailableFrame,
    /// A transfer to or from the backing file has failed.
    Io,
    /// The identifier asked for names no page: it is negative.
    InvalidPageId,
}

/// The transfer a pool is waiting for.
#[derive(Clone, Copy, Debug, PartialEq, Eq, Structural)]
pub enum Pending {
    /// None: the pool takes a new request.
    Idle,
    /// A page of zero bytes is being added to the file: once it is there, it
    /// is the new page `page_id`.
    Appending { page_id: PageId },
    /// The dirty page in `frame_id` is being written, to make room for `page_id`.
    WritingBack { frame_id: FrameId, page_id: PageId, is_dirty: bool },
    /// The bytes of `page_id` are being read, to go into `frame_id`.
    Loading { frame_id: FrameId, page_id: PageId, is_dirty: bool },
}

/// How a fetch goes on: it is over, or the pool asks for one transfer.
#[derive(Clone, Copy, Debug, PartialEq, Eq, Structural)]
pub enum FixStep {
    /// The page is in this frame.
    Fixed(FrameId),
    /// The fetch is over and has brought no page in.
    Failed(FixError),
    /// Write one page of zero bytes to the file from byte `offset` on, which
    /// is where the pages of the file end: it becomes page `page_id`.
    Append { page_id: PageId, offset: u64 },
    /// Write the bytes of frame `frame_id` to the file from byte `offset` on:
    /// they are page `page_id`.
    WriteBack { frame_id: FrameId, page_id: PageId, offset: u64 },
    /// Read the `PAGE_SIZE` bytes of the file from byte `offset` on: they are
    /// page `page_id`.
    Load { page_id: PageId, offset: u64 },
}

/// How the transfer that the pool asked for has ended.
pub enum IoEvent {
    /// The bytes were written.
    Completed,
    /// The bytes were read, and here they are.
    Loaded([u8; PAGE_SIZE]),
    /// The transfer has failed.
    Failed,
}

/// What an [`IoEvent`] says, as mathematical values.
pub enum IoOutcome {
    Completed,
    Loaded(Seq<u8>),
    Failed,
}

impl View for IoEvent {
    type V = IoOutcome;

    open spec fn view(&self) -> IoOutcome {
        match self {
            IoEvent::Completed => IoOutcome::Completed,
            IoEvent::Loaded(data) => IoOutcome::Loaded(data@),
            IoEvent::Failed => IoOutcome::Failed,
        }
    }
}

/// What a buffer pool holds.
pub struct PoolView {
    /// The frames, each with the page it holds.
    pub frames: Seq<PageView>,
    /// The frames that hold no page and wait to be used, next one last.
    pub free: Seq<FrameId>,
    /// For each page in the pool, the frame that holds it.
    pub table: Map<PageId, FrameId>,
    /// The replacer.
    pub policy: PolicyView,
    /// The transfer in flight.
    pub pending: Pending,
    /// The number of pages read in.
    pub io_count: i32,
    /// The number of fetches that found their page in the pool.
    pub hit_count: i32,
    /// The bookkeeping of the backing file.
    pub disk: DSMgrView,
}

impl PoolView {
    /// Whether `frame_id` names a frame of the pool.
    pub open spec fn valid_frame(self, frame_id: FrameId) -> bool {
        0 <= frame_id < self.frames.len()
    }

    /// Whether `frame_id` names a frame that holds a page.
    pub open spec fn holds_page(self, frame_id: FrameId) -> bool {
        self.valid_frame(frame_id) && self.frames[frame_id as int].page_id != INVALID_PAGE_ID
    }

    /// Whether a page is being read into `frame_id`.
    pub open spec fn loading(self, frame_id: FrameId) -> bool {
        self.pending matches Pending::Loading { frame_id: f, .. } && f == frame_id
    }

    /// Whether the page in `frame_id` is being written back.
    pub open spec fn writing(self, frame_id: FrameId) -> bool {
        self.pending matches Pending::WritingBack { frame_id: f, .. } && f == frame_id
    }

    /// The frames that hold a page.
    pub open spec fn occupied(self) -> Set<FrameId> {
        Set::new(|f: FrameId| self.holds_page(f))
    }

    /// The number of frames that a page is being read into: one or none.
    pub open spec fn loading_count(self) -> nat {
        if self.pending is Loading {
            1
        } else {
            0
        }
    }

    /// The transfer that the pool is waiting for, as it has asked for it.
    pub open spec fn request(self) -> Option<FixStep> {
        match self.pending {
            Pending::Idle => None,
            Pending::Appending { page_id } => Some(
                FixStep::Append { page_id, offset: page_offset(page_id) as u64 },
            ),
            Pending::WritingBack { frame_id, page_id, is_dirty } => Some(
                FixStep::WriteBack {
                    frame_id,
                    page_id: self.frames[frame_id as int].page_id,
                    offset: page_offset(self.frames[frame_id as int].page_id) as u64,
                },
            ),
            Pending::Loading { frame_id, page_id, is_dirty } => Some(
                FixStep::Load { page_id, offset: page_offset(page_id) as u64 },
            ),
        }
    }

    /// The consistency of a pool.
    ///
    /// The page table and the frames agree: a page is mapped to the frame that
    /// holds it, and a frame that holds a page is mapped from it. A frame
    /// without a page is on the free list, once, unless a page is being read
    /// into it. A frame with a page is a candidate of the replacer, unless
    /// its page is being written back.
    pub open spec fn wf(self) -> bool {
        &&& self.frames.len() <= i32::MAX
        &&& self.disk.num_pages >= 0
        &&& self.table.dom().finite()
        &&& forall|f: FrameId|
            self.valid_frame(f) ==> (#[trigger] self.frames[f as int]).data.len() == PAGE_SIZE
        &&& self.free.no_duplicates()
        &&& forall|f: FrameId| #[trigger]
            self.free.contains(f) ==> self.valid_frame(f) && !self.holds_page(f) && !self.loading(
                f,
            )
        &&& forall|p: PageId| #[trigger]
            self.table.contains_key(p) ==> p >= 0 && self.valid_frame(self.table[p])
                && self.frames[self.table[p] as int].page_id == p
        &&& forall|f: FrameId| #[trigger]
            self.holds_page(f) ==> {
                &&& self.table.contains_key(self.frames[f as int].page_id)
                &&& self.table[self.frames[f as int].page_id] == f
                &&& self.policy.candidates().contains(f) || self.writing(f)
            }
        &&& forall|f: FrameId|
            self.valid_frame(f) && !#[trigger] self.holds_page(f) ==> self.free.contains(f)
                || self.loading(f)
        &&& self.policy.wf()
        &&& self.policy.bound() matches Some(b) ==> b == self.frames.len()
        &&& forall|f: FrameId| #[trigger]
            self.policy.candidates().contains(f) ==> self.holds_page(f) && !self.writing(f)
        &&& match self.pending {
            Pending::Idle => true,
            Pending::Appending { page_id } => page_id == self.disk.num_pages && page_id
                < i32::MAX,
            Pending::WritingBack { frame_id, page_id, is_dirty } => {
                &&& self.holds_page(frame_id)
                &&& self.frames[frame_id as int].is_dirty
                &&& page_id >= 0
                &&& !self.table.contains_key(page_id)
            },
            Pending::Loading { frame_id, page_id, is_dirty } => {
                &&& self.valid_frame(frame_id)
                &&& !self.holds_page(frame_id)
                &&& page_id >= 0
                &&& !self.table.contains_key(page_id)
            },
        }
    }

    /// The pool after a fetch has found `page_id` in it: the hit is counted,
    /// the page is dirty if it was or if `is_dirty` says so, and its frame is
    /// inserted into the replacer again.
    pub open spec fn hit(self, page_id: PageId, is_dirty: bool) -> PoolView {
        let f = self.table[page_id];
        let page = self.frames[f as int];
        PoolView {
            frames: self.frames.update(
                f as int,
                PageView { is_dirty: page.is_dirty || is_dirty, ..page },
            ),
            policy: self.policy.insert(f),
            hit_count: wrapping_succ(self.hit_count),
            ..self
        }
    }

    /// The frame to bring a page into, if there is one, and the pool without
    /// it: the last frame of the free list, or else the replacer's victim.
    pub open spec fn reclaim(self) -> (Option<FrameId>, PoolView) {
        if self.free.len() > 0 {
            (Some(self.free.last()), PoolView { free: self.free.drop_last(), ..self })
        } else {
            (self.policy.victim().0, PoolView { policy: self.policy.victim().1, ..self })
        }
    }

    /// The pool after `frame_id` has given up its page: the page is no longer
    /// mapped, and the frame holds none and is clean.
    pub open spec fn vacate(self, frame_id: FrameId) -> PoolView {
        let page = self.frames[frame_id as int];
        PoolView {
            frames: self.frames.update(
                frame_id as int,
                PageView { page_id: INVALID_PAGE_ID, is_dirty: false, ..page },
            ),
            table: if page.page_id != INVALID_PAGE_ID {
                self.table.remove(page.page_id)
            } else {
                self.table
            },
            ..self
        }
    }

    /// What is asked for to bring `page_id` into `frame_id`, which was just
    /// reclaimed: first that a dirty page there is written back, else that
    /// the page is read.
    pub open spec fn make_room(self, frame_id: FrameId, page_id: PageId, is_dirty: bool) -> (
        PoolView,
        FixStep,
    ) {
        let page = self.frames[frame_id as int];
        if page.page_id != INVALID_PAGE_ID && page.is_dirty {
            (
                PoolView { pending: Pending::WritingBack { frame_id, page_id, is_dirty }, ..self },
                FixStep::WriteBack {
                    frame_id,
                    page_id: page.page_id,
                    offset: page_offset(page.page_id) as u64,
                },
            )
        } else {
            (
                PoolView {
                    pending: Pending::Loading { frame_id, page_id, is_dirty },
                    ..self.vacate(frame_id)
                },
                FixStep::Load { page_id, offset: page_offset(page_id) as u64 },
            )
        }
    }

    /// A fetch of `page_id`: what the pool becomes and how the fetch goes on.
    ///
    /// A negative identifier names no page: the fetch fails and nothing
    /// changes. A page that is in the pool is a hit. For any other a frame is
    /// reclaimed; with none to be had the fetch fails and nothing changes.
    pub open spec fn fix_page(self, page_id: PageId, is_dirty: bool) -> (PoolView, FixStep) {
        if page_id < 0 {
            (self, FixStep::Failed(FixError::InvalidPageId))
        } else if self.table.contains_key(page_id) {
            (self.hit(page_id, is_dirty), FixStep::Fixed(self.table[page_id]))
        } else {
            match self.reclaim().0 {
                Some(frame_id) => self.reclaim().1.make_room(frame_id, page_id, is_dirty),
                None => (self, FixStep::Failed(FixError::NoAvailableFrame)),
            }
        }
    }

    /// A fetch of a new page: a page of zero bytes is asked to be added to
    /// the file, where its pages end. The page count stays as it is until
    /// the page is there.
    pub open spec fn fix_new_page(self) -> (PoolView, FixStep) {
        let page_id = self.disk.num_pages;
        (
            PoolView { pending: Pending::Appending { page_id }, ..self },
            FixStep::Append { page_id, offset: page_offset(page_id) as u64 },
        )
    }

    /// Whether `outcome` can be the end of the transfer in flight: a write
    /// completes or fails, a read brings one page of bytes or fails.
    pub open spec fn expects(self, outcome: IoOutcome) -> bool {
        match self.pending {
            Pending::Idle => false,
            Pending::Appending { .. } | Pending::WritingBack { .. } => outcome is Completed
                || outcome is Failed,
            Pending::Loading { .. } => match outcome {
                IoOutcome::Loaded(data) => data.len() == PAGE_SIZE,
                IoOutcome::Completed => false,
                IoOutcome::Failed => true,
            },
        }
    }

    /// The pool after the page read for the fetch in flight has arrived: the
    /// frame holds it, it is mapped, counted and a candidate of the replacer.
    pub open spec fn install(
        self,
        frame_id: FrameId,
        page_id: PageId,
        is_dirty: bool,
        data: Seq<u8>,
    ) -> PoolView {
        PoolView {
            frames: self.frames.update(
                frame_id as int,
                PageView { page_id, is_dirty, data, ..self.frames[frame_id as int] },
            ),
            table: self.table.insert(page_id, frame_id),
            policy: self.policy.insert(frame_id),
            io_count: wrapping_succ(self.io_count),
            pending: Pending::Idle,
            ..self
        }
    }

    /// The end of the transfer in flight: what the pool becomes and how the
    /// fetch goes on.
    ///
    /// A page that was added to the file is counted, and has the identifier
    /// that was the page count; the fetch goes on as a fetch of that page
    /// which marks nothing dirty.
    ///
    /// A failed transfer ends the fetch. A page that could not be added is
    /// not counted, and its identifier is handed out to nobody. The frame of
    /// a page that could not be written keeps its page and is a candidate
    /// again; the frame of a page that could not be read goes back to the
    /// free list.
    pub open spec fn resume(self, outcome: IoOutcome) -> (PoolView, FixStep) {
        let idle = PoolView { pending: Pending::Idle, ..self };
        match self.pending {
            Pending::Idle => (self, FixStep::Failed(FixError::Io)),
            Pending::Appending { page_id } => if outcome is Completed {
                (PoolView {
                    disk: DSMgrView { num_pages: (page_id + 1) as PageId, ..self.disk },
                    ..idle
                }).fix_page(page_id, false)
            } else {
                (idle, FixStep::Failed(FixError::Io))
            },
            Pending::WritingBack { frame_id, page_id, is_dirty } => if outcome is Completed {
                (
                    PoolView {
                        disk: DSMgrView {
                            write_num: wrapping_succ(self.disk.write_num),
                            ..self.disk
                        },
                        pending: Pending::Loading { frame_id, page_id, is_dirty },
                        ..self.vacate(frame_id)
                    },
                    FixStep::Load { page_id, offset: page_offset(page_id) as u64 },
                )
            } else {
                (
                    PoolView { policy: self.policy.insert(frame_id), ..idle },
                    FixStep::Failed(FixError::Io),
                )
            },
            Pending::Loading { frame_id, page_id, is_dirty } => match outcome {
                IoOutcome::Loaded(data) => (
                    self.install(frame_id, page_id, is_dirty, data),
                    FixStep::Fixed(frame_id),
                ),
                _ => (
                    PoolView { free: self.free.push(frame_id), ..idle },
                    FixStep::Failed(FixError::Io),
                ),
            },
        }
    }

    /// The pool after the bytes of the page in `frame_id` are replaced by
    /// `data`: the page is dirty from then on.
    pub open spec fn write(self, frame_id: FrameId, data: Seq<u8>) -> PoolView {
        PoolView {
            frames: self.frames.update(
                frame_id as int,
                PageView { is_dirty: true, data, ..self.frames[frame_id as int] },
            ),
            ..self
        }
    }
}

/// A hit leaves the pool consistent.
pub proof fn lemma_hit_wf(v: PoolView, page_id: PageId, is_dirty: bool)
    requires
        v.wf(),
        v.pending is Idle,
        v.table.contains_key(page_id),
    ensures
        v.hit(page_id, is_dirty).wf(),
{
    let f = v.table[page_id];
    let w = v.hit(page_id, is_dirty);
    assert(v.holds_page(f));
    lemma_policy_insert(v.policy, f);
    assert forall|g: FrameId| v.holds_page(g) == w.holds_page(g) by {}
}

/// A frame that holds no page and is reclaimed for `page_id` leaves the pool
/// consistent once the read is in flight.
proof fn lemma_vacate_wf(s: PoolView, v: PoolView, frame_id: FrameId, page_id: PageId, is_dirty: bool)
    requires
        v.wf(),
        page_id >= 0,
        !v.table.contains_key(page_id),
        v.valid_frame(frame_id),
        !v.loading(frame_id),
        s.frames == v.frames,
        s.table == v.table,
        s.disk.num_pages == v.disk.num_pages,
        s.free.no_duplicates(),
        !s.free.contains(frame_id),
        forall|g: FrameId| #[trigger] s.free.contains(g) ==> v.free.contains(g),
        forall|g: FrameId| #[trigger] v.free.contains(g) ==> s.free.contains(g) || g == frame_id,
        s.policy.wf(),
        s.policy.bound() == v.policy.bound(),
        !s.policy.candidates().contains(frame_id),
        forall|g: FrameId| #[trigger]
            s.policy.candidates().contains(g) ==> v.policy.candidates().contains(g),
        forall|g: FrameId| #[trigger]
            v.policy.candidates().contains(g) ==> s.policy.candidates().contains(g) || g
                == frame_id,
        v.pending is Idle || v.writing(frame_id),
    ensures
        (PoolView {
            pending: Pending::Loading { frame_id, page_id, is_dirty },
            ..s.vacate(frame_id)
        }).wf(),
{
    let w = PoolView {
        pending: Pending::Loading { frame_id, page_id, is_dirty },
        ..s.vacate(frame_id)
    };
    let gone = v.frames[frame_id as int].page_id;
    assert forall|g: FrameId| g != frame_id implies v.holds_page(g) == w.holds_page(g) by {}
    // No other frame holds the page that leaves.
    assert(v.holds_page(frame_id) ==> v.table[gone] == frame_id);
}

/// A fetch leaves the pool consistent, whichever way it goes on.
pub proof fn lemma_fix_page_wf(v: PoolView, page_id: PageId, is_dirty: bool)
    requires
        v.wf(),
        v.pending is Idle,
    ensures
        v.fix_page(page_id, is_dirty).0.wf(),
{
    if page_id < 0 {
    } else if v.table.contains_key(page_id) {
        lemma_hit_wf(v, page_id, is_dirty);
    } else if v.free.len() > 0 {
        let f = v.free.last();
        let s = v.reclaim().1;
        assert(v.free.contains(f));
        assert forall|g: FrameId| #[trigger] v.free.contains(g) implies s.free.contains(g) || g
            == f by {
            let i = choose|i: int| 0 <= i < v.free.len() && v.free[i] == g;
            if i < s.free.len() {
                assert(s.free[i] == g);
            }
        }
        lemma_vacate_wf(s, v, f, page_id, is_dirty);
    } else {
        lemma_policy_victim(v.policy);
        match v.policy.victim().0 {
            Some(f) => {
                let s = v.reclaim().1;
                lemma_remove_value_members(v.policy.candidates(), f);
                if v.frames[f as int].is_dirty {
                    let w = v.fix_page(page_id, is_dirty).0;
                    assert forall|g: FrameId| v.holds_page(g) == w.holds_page(g) by {}
                } else {
                    lemma_vacate_wf(s, v, f, page_id, is_dirty);
                }
            },
            None => {},
        }
    }
}

/// A consistent pool whose transfer in flight adds a page to the file is
/// consistent once the transfer is over, whether the page is counted or not.
pub proof fn lemma_idle_wf(v: PoolView)
    requires
        v.wf(),
        v.pending is Appending,
    ensures
        (PoolView { pending: Pending::Idle, ..v }).wf(),
        (PoolView {
            disk: DSMgrView { num_pages: (v.disk.num_pages + 1) as PageId, ..v.disk },
            pending: Pending::Idle,
            ..v
        }).wf(),
{
    let idle = PoolView { pending: Pending::Idle, ..v };
    let counted = PoolView {
        disk: DSMgrView { num_pages: (v.disk.num_pages + 1) as PageId, ..v.disk },
        ..idle
    };
    assert forall|g: FrameId| v.holds_page(g) == idle.holds_page(g) by {}
    assert forall|g: FrameId| v.holds_page(g) == counted.holds_page(g) by {}
}

/// Asking for a new page leaves the pool consistent.
pub proof fn lemma_fix_new_page_wf(v: PoolView)
    requires
        v.wf(),
        v.pending is Idle,
        v.disk.num_pages < i32::MAX,
    ensures
        v.fix_new_page().0.wf(),
{
    let w = v.fix_new_page().0;
    assert forall|g: FrameId| v.holds_page(g) == w.holds_page(g) by {}
}

/// The candidates leave room for a frame that is none of them.
pub proof fn lemma_room_for(v: PoolView, frame_id: FrameId)
    requires
        v.wf(),
        v.valid_frame(frame_id),
        !v.policy.candidates().contains(frame_id),
    ensures
        v.policy.bound() != Some(0nat),
        v.policy.has_room_for(frame_id),
{
    let c = v.policy.candidates();
    assert forall|i: int| 0 <= i < c.len() implies 0 <= #[trigger] c[i] < v.frames.len() && c[i]
        != frame_id by {
        assert(c.contains(c[i]));
    }
    match v.policy {
        PolicyView::Lru { queue, max_size } => {
            lemma_distinct_frames_leave_room(c, v.frames.len() as int, frame_id);
        },
        PolicyView::Clock { ring } => {},
    }
}

/// The end of a transfer leaves the pool consistent, whichever way the fetch
/// goes on.
pub proof fn lemma_resume_wf(v: PoolView, outcome: IoOutcome)
    requires
        v.wf(),
        v.expects(outcome),
    ensures
        v.resume(outcome).0.wf(),
{
    let idle = PoolView { pending: Pending::Idle, ..v };
    let w = v.resume(outcome).0;
    match v.pending {
        Pending::Idle => {},
        Pending::Appending { page_id } => {
            lemma_idle_wf(v);
            if outcome is Completed {
                let counted = PoolView {
                    disk: DSMgrView { num_pages: (page_id + 1) as PageId, ..v.disk },
                    ..idle
                };
                lemma_fix_page_wf(counted, page_id, false);
            }
        },
        Pending::WritingBack { frame_id, page_id, is_dirty } => {
            if outcome is Completed {
                let s = PoolView {
                    disk: DSMgrView { write_num: wrapping_succ(v.disk.write_num), ..v.disk },
                    ..v
                };
                lemma_vacate_wf(s, v, frame_id, page_id, is_dirty);
            } else {
                lemma_room_for(v, frame_id);
                lemma_policy_insert(v.policy, frame_id);
                assert forall|g: FrameId| v.holds_page(g) == w.holds_page(g) by {}
            }
        },
        Pending::Loading { frame_id, page_id, is_dirty } => {
            match outcome {
                IoOutcome::Loaded(data) => {
                    lemma_room_for(v, frame_id);
                    lemma_policy_insert(v.policy, frame_id);
                    assert forall|g: FrameId| g != frame_id implies v.holds_page(g)
                        == w.holds_page(g) by {}
                },
                _ => {
                    lemma_push_members(v.free, frame_id);
                    assert forall|g: FrameId| v.holds_page(g) == w.holds_page(g) by {}
                },
            }
        },
    }
}

/// Replacing the bytes of a frame leaves the pool consistent.
pub proof fn lemma_write_wf(v: PoolView, frame_id: FrameId, data: Seq<u8>)
    requires
        v.wf(),
        v.valid_frame(frame_id),
        data.len() == PAGE_SIZE,
    ensures
        v.write(frame_id, data).wf(),
{
    let w = v.write(frame_id, data);
    assert forall|g: FrameId| v.holds_page(g) == w.holds_page(g) by {}
}

} // verus!
