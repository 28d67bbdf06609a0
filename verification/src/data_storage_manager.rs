//! The bookkeeping of the backing file: how many pages it holds, where each
//! one stands, and how many were written.
//!
//! The file itself belongs to whoever drives the pool. Page `k` occupies the
//! bytes from `k * PAGE_SIZE` up to `(k + 1) * PAGE_SIZE`.

use crate::define::{wrapping_succ, PageId, PAGE_SIZE};
use vstd::prelude::*;

verus! {

/// What a [`DSMgr`] holds.
pub struct DSMgrView {
    /// The logical number of pages of the file.
    pub num_pages: PageId,
    /// The number of pages written so far.
    pub write_num: PageId,
}

/// The byte at which page `page_id` starts.
pub open spec fn page_offset(page_id: PageId) -> int {
    page_id * PAGE_SIZE
}

/// Where page `page_id` starts in the file, for an identifier that names a
/// page: these are the identifiers from zero up.
pub open spec fn page_place(page_id: PageId) -> Option<u64> {
    if page_id >= 0 {
        Some(page_offset(page_id) as u64)
    } else {
        None
    }
}

/// The number of whole pages in a file of `file_size` bytes.
pub open spec fn pages_in(file_size: u64) -> int {
    file_size as int / PAGE_SIZE as int
}

pub struct DSMgr {
    num_pages: PageId,
    write_num: PageId,
}

impl View for DSMgr {
    type V = DSMgrView;

    closed spec fn view(&self) -> DSMgrView {
        DSMgrView { num_pages: self.num_pages, write_num: self.write_num }
    }
}

impl DSMgr {
    /// The page count is never negative.
    pub open spec fn wf(&self) -> bool {
        self@.num_pages >= 0
    }

    /// The bookkeeping for a file that is `file_size` bytes long.
    pub fn new(file_size: u64) -> (mgr: Self)
        requires
            pages_in(file_size) <= i32::MAX,
        ensures
            mgr.wf(),
            mgr@ == (DSMgrView { num_pages: pages_in(file_size) as PageId, write_num: 0 }),
    {
        let num_pages = (file_size / PAGE_SIZE as u64) as PageId;
        Self { num_pages, write_num: 0 }
    }

    /// The bookkeeping for a file that is `file_size` bytes long.
    pub fn open_file(file_size: u64) -> (mgr: Self)
        requires
            pages_in(file_size) <= i32::MAX,
        ensures
            mgr.wf(),
            mgr@ == (DSMgrView { num_pages: pages_in(file_size) as PageId, write_num: 0 }),
    {
        Self::new(file_size)
    }

    /// Takes note of how the adding of one page of zero bytes to the end of
    /// the file has ended. Where it was `appended`, the new page has the
    /// identifier that was the page count, and the count grows by one. Where
    /// it was not, no identifier is handed out and the count stays, so that
    /// it goes on telling how many pages the file holds.
    pub fn new_page(&mut self, appended: bool) -> (page_id: Option<PageId>)
        requires
            old(self).wf(),
            appended ==> old(self)@.num_pages < i32::MAX,
        ensures
            final(self).wf(),
            appended ==> page_id == Some(old(self)@.num_pages) && final(self)@ == (DSMgrView {
                num_pages: (old(self)@.num_pages + 1) as PageId,
                ..old(self)@
            }),
            !appended ==> page_id is None && final(self)@ == old(self)@,
    {
        if appended {
            let page_id = self.num_pages;
            self.num_pages = self.num_pages + 1;
            Some(page_id)
        } else {
            None
        }
    }

    /// The byte of the file at which to start reading page `page_id`; none
    /// for an identifier that names no page.
    pub fn read_page(&self, page_id: PageId) -> (offset: Option<u64>)
        ensures
            offset == page_place(page_id),
    {
        Self::place_of(page_id)
    }

    /// The byte of the file at which to start writing page `page_id`; none
    /// for an identifier that names no page.
    pub fn write_page(&self, page_id: PageId) -> (offset: Option<u64>)
        ensures
            offset == page_place(page_id),
    {
        Self::place_of(page_id)
    }

    /// Where page `page_id` stands in the file.
    fn place_of(page_id: PageId) -> (offset: Option<u64>)
        ensures
            offset == page_place(page_id),
    {
        if page_id < 0 {
            None
        } else {
            assert(page_id as u64 * PAGE_SIZE as u64 == page_id * 4096) by (nonlinear_arith)
                requires
                    PAGE_SIZE == 4096,
                    page_id >= 0,
            ;
            Some(page_id as u64 * PAGE_SIZE as u64)
        }
    }

    /// Counts one page written. The counter wraps around at the top of `i32`.
    pub fn page_written(&mut self)
        ensures
            final(self)@ == (DSMgrView { write_num: wrapping_succ(old(self)@.write_num), ..old(self)@ }),
    {
        self.write_num = self.write_num.wrapping_add(1);
    }

    pub fn get_num_pages(&self) -> (count: PageId)
        ensures
            count == self@.num_pages,
    {
        self.num_pages
    }

    pub fn get_write_num(&self) -> (count: PageId)
        ensures
            count == self@.write_num,
    {
        self.write_num
    }
}

} // verus!
