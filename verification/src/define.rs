//! Identifier types and the page size shared by every module.

use vstd::prelude::*;

verus! {

/// Identifies a page of the backing file; page `k` starts at byte `k * PAGE_SIZE`.
pub type PageId = i32;

/// Indexes a frame of the pool, in `[0, frame_count)`.
pub type FrameId = i32;

/// Size in bytes of a page, on disk and in memory.
pub const PAGE_SIZE: usize = 4096;

/// The identifier carried by a frame that holds no page.
pub const INVALID_PAGE_ID: PageId = -1;

/// The counter after `n`; it wraps around at the top of `i32`.
pub open spec fn wrapping_succ(n: i32) -> i32 {
    if n == i32::MAX {
        i32::MIN
    } else {
        (n + 1) as i32
    }
}

/// The counter before `n`; it wraps around at the bottom of `i32`.
pub open spec fn wrapping_pred(n: i32) -> i32 {
    if n == i32::MIN {
        i32::MAX
    } else {
        (n - 1) as i32
    }
}

} // verus!
