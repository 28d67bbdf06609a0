//! One in-memory slot: a page's bytes plus its bookkeeping.

use crate::define::{wrapping_pred, wrapping_succ, PageId, INVALID_PAGE_ID, PAGE_SIZE};
use vstd::prelude::*;

verus! {

/// What a [`Page`] holds, as mathematical values.
pub struct PageView {
    pub page_id: PageId,
    pub is_dirty: bool,
    pub data: Seq<u8>,
    pub pin_count: i32,
}

/// A buffer of `len` zero bytes.
pub open spec fn zeroes(len: nat) -> Seq<u8> {
    Seq::new(len, |i: int| 0u8)
}

pub struct Page {
    page_id: PageId,
    is_dirty: bool,
    data: [u8; PAGE_SIZE],
    pin_count: i32,
}

impl View for Page {
    type V = PageView;

    closed spec fn view(&self) -> PageView {
        PageView {
            page_id: self.page_id,
            is_dirty: self.is_dirty,
            data: self.data@,
            pin_count: self.pin_count,
        }
    }
}

impl Page {
    /// The buffer's length is fixed, whatever the page holds.
    pub proof fn lemma_data_len(&self)
        ensures
            self@.data.len() == PAGE_SIZE,
    {
    }

    /// An unoccupied, clean, unpinned page of zero bytes.
    pub fn new() -> (page: Self)
        ensures
            page@ == (PageView {
                page_id: INVALID_PAGE_ID,
                is_dirty: false,
                data: zeroes(PAGE_SIZE as nat),
                pin_count: 0,
            }),
    {
        let page = Self { page_id: -1, is_dirty: false, data: [0u8; PAGE_SIZE], pin_count: 0 };
        assert(page.data@ =~= zeroes(PAGE_SIZE as nat));
        page
    }

    /// A clean, unpinned page of zero bytes that carries `page_id`.
    pub fn with_page_id(page_id: PageId) -> (page: Self)
        ensures
            page@ == (PageView {
                page_id,
                is_dirty: false,
                data: zeroes(PAGE_SIZE as nat),
                pin_count: 0,
            }),
    {
        let page = Self { page_id, is_dirty: false, data: [0u8; PAGE_SIZE], pin_count: 0 };
        assert(page.data@ =~= zeroes(PAGE_SIZE as nat));
        page
    }

    pub fn get_page_id(&self) -> (id: PageId)
        ensures
            id == self@.page_id,
    {
        self.page_id
    }

    pub fn set_page_id(&mut self, page_id: PageId)
        ensures
            final(self)@ == (PageView { page_id, ..old(self)@ }),
    {
        self.page_id = page_id;
    }

    pub fn get_data(&self) -> (data: &[u8; PAGE_SIZE])
        ensures
            data@ == self@.data,
    {
        &self.data
    }

    /// Overwrites the whole buffer with `data`.
    pub fn set_data(&mut self, data: &[u8; PAGE_SIZE])
        ensures
            final(self)@ == (PageView { data: data@, ..old(self)@ }),
    {
        self.data = *data;
    }

    pub fn is_dirty(&self) -> (dirty: bool)
        ensures
            dirty == self@.is_dirty,
    {
        self.is_dirty
    }

    pub fn set_dirty(&mut self, is_dirty: bool)
        ensures
            final(self)@ == (PageView { is_dirty, ..old(self)@ }),
    {
        self.is_dirty = is_dirty;
    }

    pub fn get_pin_count(&self) -> (count: i32)
        ensures
            count == self@.pin_count,
    {
        self.pin_count
    }

    /// Adds one pin. The count wraps around at the top of `i32`.
    pub fn inc_pin_count(&mut self)
        ensures
            final(self)@ == (PageView { pin_count: wrapping_succ(old(self)@.pin_count), ..old(self)@ }),
    {
        self.pin_count = self.pin_count.wrapping_add(1);
    }

    /// Takes one pin away. The count wraps around at the bottom of `i32`.
    pub fn dec_pin_count(&mut self)
        ensures
            final(self)@ == (PageView { pin_count: wrapping_pred(old(self)@.pin_count), ..old(self)@ }),
    {
        self.pin_count = self.pin_count.wrapping_sub(1);
    }
}

} // verus!
