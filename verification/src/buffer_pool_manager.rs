//! The buffer pool manager: a fixed set of frames, a free list, a page table
//! and a replacer, and the fetch protocol that ties them together.
//!
//! The pool decides and keeps the books; it moves no bytes to or from the
//! file. A fetch that needs a transfer returns a [`FixStep`] that asks for
//! it, and goes on when [`BufferPoolManager::resume`] is told how the
//! transfer ended.
//!
//! Pins are not consulted: every frame that holds a page is a candidate for
//! eviction, and each fetch of a page makes its frame the most recently used.

use crate::clock_replacer::{ClockReplacer, ClockView};
use crate::data_storage_manager::{pages_in, DSMgr, DSMgrView};
use crate::define::{FrameId, PageId, INVALID_PAGE_ID, PAGE_SIZE};
use crate::lru_replacer::LRUReplacer;
use crate::page::{zeroes, Page, PageView};
use crate::policy::{lemma_policy_victim, PolicyReplacer, PolicyView};
use crate::pool_state::{
    lemma_fix_new_page_wf, lemma_fix_page_wf, lemma_idle_wf, lemma_resume_wf, lemma_room_for,
    lemma_write_wf, FixError, FixStep, IoEvent, Pending, PoolView,
};
use crate::replacer::Replacer;
use std::collections::HashMap;
use vstd::prelude::*;

verus! {

broadcast use vstd::std_specs::hash::group_hash_axioms;

/// Selects the replacement policy of a pool.
#[derive(Clone, Copy, Debug, PartialEq, Eq, Structural)]
pub enum ReplacePolicyType {
    LRU,
    Clock,
}

/// The replacer of a new pool of `frame_num` frames.
pub open spec fn initial_policy(policy: ReplacePolicyType, frame_num: usize) -> PolicyView {
    match policy {
        ReplacePolicyType::LRU => PolicyView::Lru {
            queue: Seq::empty(),
            max_size: frame_num as nat,
        },
        ReplacePolicyType::Clock => PolicyView::Clock {
            ring: ClockView { frames: Seq::empty(), hand: 0 },
        },
    }
}

/// A new pool of `frame_num` frames over a file of `file_size` bytes: every
/// frame is empty and on the free list, in rising order, and nothing is
/// counted yet.
pub open spec fn initial_pool(file_size: u64, policy: ReplacePolicyType, frame_num: usize) -> PoolView {
    PoolView {
        frames: Seq::new(
            frame_num as nat,
            |i: int|
                PageView {
                    page_id: INVALID_PAGE_ID,
                    is_dirty: false,
                    data: zeroes(PAGE_SIZE as nat),
                    pin_count: 0,
                },
        ),
        free: Seq::new(frame_num as nat, |i: int| i as FrameId),
        table: Map::empty(),
        policy: initial_policy(policy, frame_num),
        pending: Pending::Idle,
        io_count: 0,
        hit_count: 0,
        disk: DSMgrView { num_pages: pages_in(file_size) as PageId, write_num: 0 },
    }
}

pub struct BufferPoolManager {
    disk_manager: DSMgr,
    frame_num: usize,
    pages: Vec<Page>,
    free_list: Vec<FrameId>,
    page_table: HashMap<PageId, FrameId>,
    num_io: i32,
    num_hits: i32,
    replacer: PolicyReplacer,
    pending: Pending,
}

impl View for BufferPoolManager {
    type V = PoolView;

    closed spec fn view(&self) -> PoolView {
        PoolView {
            frames: Seq::new(self.pages@.len(), |i: int| self.pages@[i]@),
            free: self.free_list@,
            table: self.page_table@,
            policy: self.replacer@,
            pending: self.pending,
            io_count: self.num_io,
            hit_count: self.num_hits,
            disk: self.disk_manager@,
        }
    }
}

impl BufferPoolManager {
    /// The pool is consistent, as [`PoolView::wf`] says of what it holds.
    pub closed spec fn wf(&self) -> bool {
        &&& self@.wf()
        &&& self.replacer.wf()
        &&& self.frame_num == self.pages@.len()
    }

    /// A consistent pool holds consistent values.
    pub proof fn lemma_wf(&self)
        requires
            self.wf(),
        ensures
            self@.wf(),
    {
    }

    /// A pool of `frame_num` empty frames with the replacer that `policy`
    /// selects, over a backing file that is `file_size` bytes long.
    pub fn new(file_size: u64, policy: ReplacePolicyType, frame_num: usize) -> (pool: Self)
        requires
            pages_in(file_size) <= i32::MAX,
            frame_num <= i32::MAX,
        ensures
            pool.wf(),
            pool@ == initial_pool(file_size, policy, frame_num),
    {
        let disk_manager = DSMgr::open_file(file_size);
        let mut pages: Vec<Page> = Vec::with_capacity(frame_num);
        let mut free_list: Vec<FrameId> = Vec::new();
        let mut i: usize = 0;
        while i < frame_num
            invariant
                i <= frame_num <= i32::MAX,
                pages@.len() == i,
                free_list@.len() == i,
                forall|j: int|
                    0 <= j < i ==> (#[trigger] pages@[j])@ == (PageView {
                        page_id: INVALID_PAGE_ID,
                        is_dirty: false,
                        data: zeroes(PAGE_SIZE as nat),
                        pin_count: 0,
                    }),
                forall|j: int| 0 <= j < i ==> #[trigger] free_list@[j] == j,
            decreases frame_num - i,
        {
            pages.push(Page::new());
            free_list.push(i as FrameId);
            i = i + 1;
        }
        let replacer = match policy {
            ReplacePolicyType::LRU => PolicyReplacer::LRU(LRUReplacer::new(frame_num)),
            ReplacePolicyType::Clock => PolicyReplacer::Clock(ClockReplacer::new(frame_num)),
        };
        let pool = Self {
            disk_manager,
            frame_num,
            pages,
            free_list,
            page_table: HashMap::new(),
            num_io: 0,
            num_hits: 0,
            replacer,
            pending: Pending::Idle,
        };
        proof {
            let v = pool@;
            let w = initial_pool(file_size, policy, frame_num);
            assert(v.frames =~= w.frames);
            assert(v.free =~= w.free);
            assert forall|f: FrameId| v.valid_frame(f) && !#[trigger] v.holds_page(f) implies v.free.contains(
                f,
            ) || v.loading(f) by {
                assert(v.free[f as int] == f);
            }
        }
        pool
    }

    /// Makes room in `frame_id`, which was just reclaimed, for `page_id`.
    fn make_room(&mut self, frame_id: FrameId, page_id: PageId, is_dirty: bool) -> (step: FixStep)
        requires
            old(self).frame_num == old(self).pages@.len(),
            old(self)@.valid_frame(frame_id),
            page_id >= 0,
            old(self)@.holds_page(frame_id) ==> old(self)@.frames[frame_id as int].page_id >= 0,
        ensures
            final(self).frame_num == final(self).pages@.len(),
            final(self).replacer == old(self).replacer,
            final(self)@ == old(self)@.make_room(frame_id, page_id, is_dirty).0,
            step == old(self)@.make_room(frame_id, page_id, is_dirty).1,
    {
        let index = frame_id as usize;
        let old_page_id = self.pages[index].get_page_id();
        if old_page_id != INVALID_PAGE_ID && self.pages[index].is_dirty() {
            self.pending = Pending::WritingBack { frame_id, page_id, is_dirty };
            let offset = self.disk_manager.write_page(old_page_id).unwrap();
            FixStep::WriteBack { frame_id, page_id: old_page_id, offset }
        } else {
            self.vacate(frame_id);
            self.pending = Pending::Loading { frame_id, page_id, is_dirty };
            let offset = self.disk_manager.read_page(page_id).unwrap();
            FixStep::Load { page_id, offset }
        }
    }

    /// Takes the page of `frame_id` out of the page table and leaves the frame
    /// without a page.
    fn vacate(&mut self, frame_id: FrameId)
        requires
            old(self).frame_num == old(self).pages@.len(),
            old(self)@.valid_frame(frame_id),
        ensures
            final(self).frame_num == final(self).pages@.len(),
            final(self).replacer == old(self).replacer,
            final(self)@ == old(self)@.vacate(frame_id),
    {
        let index = frame_id as usize;
        let old_page_id = self.pages[index].get_page_id();
        if old_page_id != INVALID_PAGE_ID {
            self.page_table.remove(&old_page_id);
        }
        self.pages[index].set_page_id(INVALID_PAGE_ID);
        self.pages[index].set_dirty(false);
        proof {
            assert(self@.frames =~= old(self)@.vacate(frame_id).frames);
        }
    }

    /// Fetches `page_id`, to be modified if `is_dirty`.
    ///
    /// The result says how the fetch goes on, as [`PoolView::fix_page`] has
    /// it: the identifier names no page, the page is in a frame, no frame
    /// can be had, or a transfer is asked for, whose outcome
    /// [`BufferPoolManager::resume`] takes.
    pub fn fix_page(&mut self, page_id: PageId, is_dirty: bool) -> (step: FixStep)
        requires
            old(self).wf(),
            old(self)@.pending is Idle,
        ensures
            final(self).wf(),
            final(self)@ == old(self)@.fix_page(page_id, is_dirty).0,
            step == old(self)@.fix_page(page_id, is_dirty).1,
    {
        proof {
            lemma_fix_page_wf(self@, page_id, is_dirty);
        }
        if page_id < 0 {
            return FixStep::Failed(FixError::InvalidPageId);
        }
        let hit: Option<FrameId> = match self.page_table.get(&page_id) {
            Some(frame_id) => Some(*frame_id),
            None => None,
        };
        if let Some(frame_id) = hit {
            self.num_hits = self.num_hits.wrapping_add(1);
            if is_dirty {
                self.pages[frame_id as usize].set_dirty(true);
            }
            proof {
                self.replacer.lemma_view_wf();
            }
            self.replacer.insert(frame_id);
            proof {
                assert(self@.frames =~= old(self)@.hit(page_id, is_dirty).frames);
            }
            return FixStep::Fixed(frame_id);
        }
        let reclaimed: Option<FrameId> = match self.free_list.pop() {
            Some(frame_id) => Some(frame_id),
            None => self.replacer.victim(),
        };
        proof {
            lemma_policy_victim(old(self)@.policy);
        }
        match reclaimed {
            Some(frame_id) => {
                proof {
                    if old(self)@.free.len() > 0 {
                        assert(old(self)@.free.contains(frame_id));
                    }
                    assert(self@.holds_page(frame_id) ==> old(self)@.holds_page(frame_id));
                }
                self.make_room(frame_id, page_id, is_dirty)
            },
            None => FixStep::Failed(FixError::NoAvailableFrame),
        }
    }

    /// Fetches a new page: asks for a page of zero bytes to be added to the
    /// file, where its pages end. The step names the identifier that the page
    /// will have. Once the page is there it is counted, and the fetch goes on
    /// as a [`BufferPoolManager::fix_page`] of the new page that marks nothing
    /// dirty; if it cannot be added, the page count stays and the identifier
    /// is the next new page's.
    pub fn fix_new_page(&mut self) -> (step: FixStep)
        requires
            old(self).wf(),
            old(self)@.pending is Idle,
            old(self)@.disk.num_pages < i32::MAX,
        ensures
            final(self).wf(),
            final(self)@ == old(self)@.fix_new_page().0,
            step == old(self)@.fix_new_page().1,
    {
        proof {
            lemma_fix_new_page_wf(self@);
        }
        let page_id = self.disk_manager.get_num_pages();
        let offset = self.disk_manager.write_page(page_id).unwrap();
        self.pending = Pending::Appending { page_id };
        FixStep::Append { page_id, offset }
    }

    /// Takes the outcome of the transfer that the pool has asked for and says
    /// how the fetch goes on, as [`PoolView::resume`] has it.
    pub fn resume(&mut self, event: IoEvent) -> (step: FixStep)
        requires
            old(self).wf(),
            old(self)@.expects(event@),
        ensures
            final(self).wf(),
            final(self)@ == old(self)@.resume(event@).0,
            step == old(self)@.resume(event@).1,
    {
        proof {
            lemma_resume_wf(self@, event@);
            self.replacer.lemma_view_wf();
        }
        match self.pending {
            Pending::Idle => FixStep::Failed(FixError::Io),
            Pending::Appending { page_id } => {
                self.pending = Pending::Idle;
                match event {
                    IoEvent::Completed => {
                        proof {
                            lemma_idle_wf(old(self)@);
                        }
                        self.disk_manager.new_page(true);
                        self.fix_page(page_id, false)
                    },
                    _ => {
                        self.disk_manager.new_page(false);
                        FixStep::Failed(FixError::Io)
                    },
                }
            },
            Pending::WritingBack { frame_id, page_id, is_dirty } => {
                match event {
                    IoEvent::Completed => {
                        self.disk_manager.page_written();
                        self.vacate(frame_id);
                        self.pending = Pending::Loading { frame_id, page_id, is_dirty };
                        let offset = self.disk_manager.read_page(page_id).unwrap();
                        FixStep::Load { page_id, offset }
                    },
                    _ => {
                        proof {
                            lemma_room_for(self@, frame_id);
                        }
                        self.replacer.insert(frame_id);
                        self.pending = Pending::Idle;
                        FixStep::Failed(FixError::Io)
                    },
                }
            },
            Pending::Loading { frame_id, page_id, is_dirty } => {
                match event {
                    IoEvent::Loaded(data) => {
                        proof {
                            lemma_room_for(self@, frame_id);
                        }
                        let index = frame_id as usize;
                        self.pages[index].set_page_id(page_id);
                        self.pages[index].set_dirty(is_dirty);
                        self.pages[index].set_data(&data);
                        self.num_io = self.num_io.wrapping_add(1);
                        self.page_table.insert(page_id, frame_id);
                        self.replacer.insert(frame_id);
                        self.pending = Pending::Idle;
                        proof {
                            let w = old(self)@.install(frame_id, page_id, is_dirty, data@);
                            assert(self@.frames =~= w.frames);
                        }
                        FixStep::Fixed(frame_id)
                    },
                    _ => {
                        self.free_list.push(frame_id);
                        self.pending = Pending::Idle;
                        FixStep::Failed(FixError::Io)
                    },
                }
            },
        }
    }

    /// Releases a page that was fetched. It changes nothing: pins play no
    /// part in eviction.
    pub fn unfix_page(&self, _page_id: PageId) {
    }

    /// The number of pages read in.
    pub fn get_io_num(&self) -> (count: i32)
        ensures
            count == self@.io_count,
    {
        self.num_io
    }

    /// The number of fetches that found their page in the pool.
    pub fn get_hit_num(&self) -> (count: i32)
        ensures
            count == self@.hit_count,
    {
        self.num_hits
    }

    /// The logical number of pages of the backing file.
    pub fn get_num_pages(&self) -> (count: PageId)
        ensures
            count == self@.disk.num_pages,
    {
        self.disk_manager.get_num_pages()
    }

    /// The number of frames.
    pub fn frame_count(&self) -> (count: usize)
        requires
            self.wf(),
        ensures
            count == self@.frames.len(),
    {
        self.frame_num
    }

    /// The number of frames on the free list.
    pub fn free_frame_count(&self) -> (count: usize)
        ensures
            count == self@.free.len(),
    {
        self.free_list.len()
    }

    /// The number of pages in the page table.
    pub fn page_table_len(&self) -> (count: usize)
        ensures
            count == self@.table.dom().len(),
    {
        self.page_table.len()
    }

    /// The frame that holds `page_id`, if the page is in the pool. Nothing is
    /// counted and nothing changes.
    pub fn lookup(&self, page_id: PageId) -> (found: Option<FrameId>)
        ensures
            found == (if self@.table.contains_key(page_id) {
                Some(self@.table[page_id])
            } else {
                None
            }),
    {
        match self.page_table.get(&page_id) {
            Some(frame_id) => Some(*frame_id),
            None => None,
        }
    }

    /// The transfer in flight.
    pub fn pending(&self) -> (pending: Pending)
        ensures
            pending == self@.pending,
    {
        self.pending
    }

    /// The frame `frame_id` with the page it holds.
    pub fn page(&self, frame_id: FrameId) -> (page: &Page)
        requires
            self.wf(),
            self@.valid_frame(frame_id),
        ensures
            page@ == self@.frames[frame_id as int],
    {
        &self.pages[frame_id as usize]
    }

    /// Replaces the bytes of the page in `frame_id` by `data` and marks the
    /// page dirty. A page that is being written back is left alone until the
    /// write is over: what reaches the file are the bytes it had when the
    /// write was asked for.
    pub fn set_page_data(&mut self, frame_id: FrameId, data: &[u8; PAGE_SIZE])
        requires
            old(self).wf(),
            old(self)@.valid_frame(frame_id),
            !old(self)@.writing(frame_id),
        ensures
            final(self).wf(),
            final(self)@ == old(self)@.write(frame_id, data@),
    {
        proof {
            lemma_write_wf(self@, frame_id, data@);
        }
        let index = frame_id as usize;
        self.pages[index].set_data(data);
        self.pages[index].set_dirty(true);
        proof {
            assert(self@.frames =~= old(self)@.write(frame_id, data@).frames);
        }
    }

    /// The replacer, with the candidates it tracks.
    pub fn replacer(&self) -> (replacer: &PolicyReplacer)
        requires
            self.wf(),
        ensures
            replacer.wf(),
            replacer@ == self@.policy,
    {
        &self.replacer
    }
}

} // verus!
