//! The pool together with the backing file it caches: what the pages hold,
//! wherever their bytes are at the moment.
//!
//! The file is a map from page identifiers to pages of bytes. Whoever drives
//! the pool serves each transfer it asks for against that map, and reports
//! the outcome as it was; a transfer may fail at any time.

use crate::data_storage_manager::{page_offset, DSMgrView};
use crate::define::{FrameId, PageId, PAGE_SIZE};
use crate::page::zeroes;
use crate::policy::lemma_policy_victim;
use crate::pool_state::{
    lemma_fix_new_page_wf, lemma_fix_page_wf, lemma_idle_wf, lemma_resume_wf, lemma_write_wf,
    FixError, FixStep, IoOutcome, Pending, PoolView,
};
use vstd::prelude::*;

verus! {

/// A pool and the pages of its backing file.
pub struct System {
    pub pool: PoolView,
    pub store: Map<PageId, Seq<u8>>,
}

/// One move of the pool and its driver.
pub enum Move {
    /// A fetch of `page_id` begins.
    Fix { page_id: PageId, is_dirty: bool },
    /// A fetch of a new page begins.
    FixNew,
    /// The driver has served the transfer in flight, with this outcome.
    Transfer { outcome: IoOutcome },
    /// The bytes in `frame_id` are replaced by `data`.
    Write { frame_id: FrameId, data: Seq<u8> },
}

impl System {
    /// The pool is consistent, and it agrees with the file: every page of
    /// the file is of full size and within the page count, every page in the
    /// pool is a page of the file, and one that is not dirty has the bytes
    /// that the file has for it.
    pub open spec fn sound(self) -> bool {
        &&& self.pool.wf()
        &&& forall|p: PageId| #[trigger]
            self.store.contains_key(p) ==> 0 <= p < self.pool.disk.num_pages
                && self.store[p].len() == PAGE_SIZE
        &&& forall|p: PageId| #[trigger]
            self.pool.table.contains_key(p) ==> {
                &&& self.store.contains_key(p)
                &&& !self.pool.frames[self.pool.table[p] as int].is_dirty ==> self.store[p]
                    == self.pool.frames[self.pool.table[p] as int].data
            }
    }

    /// The bytes of page `page_id`: those in its frame while the page is in
    /// the pool, otherwise those in the file.
    pub open spec fn content(self, page_id: PageId) -> Option<Seq<u8>> {
        if self.pool.table.contains_key(page_id) {
            Some(self.pool.frames[self.pool.table[page_id] as int].data)
        } else if self.store.contains_key(page_id) {
            Some(self.store[page_id])
        } else {
            None
        }
    }

    /// Whether `m` can be the next move: the pool takes it, and a page that
    /// the driver says it has read is the page of the file that was asked for.
    pub open spec fn allows(self, m: Move) -> bool {
        match m {
            Move::Fix { page_id, is_dirty } => self.pool.pending is Idle && page_id >= 0,
            Move::FixNew => self.pool.pending is Idle && self.pool.disk.num_pages < i32::MAX,
            Move::Transfer { outcome } => {
                &&& self.pool.expects(outcome)
                &&& outcome matches IoOutcome::Loaded(data) ==> {
                    &&& self.pool.pending matches Pending::Loading { page_id, .. }
                    &&& self.store.contains_key(page_id)
                    &&& data == self.store[page_id]
                }
            },
            Move::Write { frame_id, data } => {
                &&& self.pool.valid_frame(frame_id)
                &&& !self.pool.writing(frame_id)
                &&& data.len() == PAGE_SIZE
            },
        }
    }

    /// The file after the driver has served the transfer in flight with
    /// `outcome`: a completed write has put its page there.
    pub open spec fn store_after(self, outcome: IoOutcome) -> Map<PageId, Seq<u8>> {
        match self.pool.pending {
            Pending::Appending { page_id } if outcome is Completed => self.store.insert(
                page_id,
                zeroes(PAGE_SIZE as nat),
            ),
            Pending::WritingBack { frame_id, .. } if outcome is Completed => self.store.insert(
                self.pool.frames[frame_id as int].page_id,
                self.pool.frames[frame_id as int].data,
            ),
            _ => self.store,
        }
    }

    /// The pool and the file after the move `m`.
    pub open spec fn next(self, m: Move) -> System {
        match m {
            Move::Fix { page_id, is_dirty } => System {
                pool: self.pool.fix_page(page_id, is_dirty).0,
                store: self.store,
            },
            Move::FixNew => System { pool: self.pool.fix_new_page().0, store: self.store },
            Move::Transfer { outcome } => System {
                pool: self.pool.resume(outcome).0,
                store: self.store_after(outcome),
            },
            Move::Write { frame_id, data } => System {
                pool: self.pool.write(frame_id, data),
                store: self.store,
            },
        }
    }

    /// Whether the move `m` gives page `page_id` new bytes: it writes to the
    /// frame that holds the page, or it completes the adding of the page to
    /// the file.
    pub open spec fn touches(self, m: Move, page_id: PageId) -> bool {
        match m {
            Move::Write { frame_id, data } => self.pool.holds_page(frame_id)
                && self.pool.frames[frame_id as int].page_id == page_id,
            Move::Transfer { outcome } => outcome is Completed && self.pool.pending
                == (Pending::Appending { page_id }),
            _ => false,
        }
    }

    /// Whether each of `moves` can be made in turn.
    pub open spec fn allows_all(self, moves: Seq<Move>) -> bool
        decreases moves.len(),
    {
        moves.len() > 0 ==> self.allows(moves[0]) && self.next(moves[0]).allows_all(
            moves.drop_first(),
        )
    }

    /// The pool and the file after each of `moves` has been made in turn.
    pub open spec fn run(self, moves: Seq<Move>) -> System
        decreases moves.len(),
    {
        if moves.len() == 0 {
            self
        } else {
            self.next(moves[0]).run(moves.drop_first())
        }
    }

    /// Whether none of `moves`, made in turn, gives page `page_id` new bytes.
    pub open spec fn leaves_alone(self, moves: Seq<Move>, page_id: PageId) -> bool
        decreases moves.len(),
    {
        moves.len() > 0 ==> !self.touches(moves[0], page_id) && self.next(moves[0]).leaves_alone(
            moves.drop_first(),
            page_id,
        )
    }
}

/// A fetch that begins keeps the pool and the file in agreement and changes
/// the bytes of no page.
proof fn lemma_fix_keeps(s: System, page_id: PageId, is_dirty: bool, p: PageId)
    requires
        s.sound(),
        s.pool.pending is Idle,
        page_id >= 0,
    ensures
        s.next(Move::Fix { page_id, is_dirty }).sound(),
        s.next(Move::Fix { page_id, is_dirty }).content(p) == s.content(p),
{
    let v = s.pool;
    lemma_fix_page_wf(v, page_id, is_dirty);
    if !v.table.contains_key(page_id) {
        // The frame that is reclaimed holds no page but the one that leaves.
        match v.reclaim().0 {
            Some(f) => {
                if v.free.len() > 0 {
                    assert(v.free.contains(f));
                } else {
                    lemma_policy_victim(v.policy);
                }
                assert(v.table.contains_key(p) && p != v.frames[f as int].page_id ==> v.table[p]
                    != f);
            },
            None => {},
        }
    }
}

/// The end of a transfer keeps the pool and the file in agreement. It changes
/// the bytes of no page but the one that is now added to the file, which
/// holds zero bytes.
proof fn lemma_transfer_keeps(s: System, outcome: IoOutcome, p: PageId)
    requires
        s.sound(),
        s.allows(Move::Transfer { outcome }),
    ensures
        s.next(Move::Transfer { outcome }).sound(),
        s.next(Move::Transfer { outcome }).content(p) == if s.touches(
            Move::Transfer { outcome },
            p,
        ) {
            Some(zeroes(PAGE_SIZE as nat))
        } else {
            s.content(p)
        },
{
    let v = s.pool;
    lemma_resume_wf(v, outcome);
    match v.pending {
        Pending::Idle => {},
        Pending::Appending { page_id } => {
            if outcome is Completed {
                // The page is in the file now and counted, and the fetch of it begins.
                let counted = PoolView {
                    disk: DSMgrView { num_pages: (page_id + 1) as PageId, ..v.disk },
                    pending: Pending::Idle,
                    ..v
                };
                let mid = System { pool: counted, store: s.store_after(outcome) };
                lemma_idle_wf(v);
                lemma_fix_keeps(mid, page_id, false, p);
            }
        },
        Pending::WritingBack { frame_id, .. } | Pending::Loading { frame_id, .. } => {
            // The frame in flight holds no page but the one that leaves.
            assert(v.table.contains_key(p) && p != v.frames[frame_id as int].page_id
                ==> v.table[p] != frame_id);
        },
    }
}

/// A new pool agrees with any file whose pages are of full size and within
/// the page count that the pool was made with.
pub proof fn lemma_new_pool_sound(pool: PoolView, store: Map<PageId, Seq<u8>>)
    requires
        pool.wf(),
        pool.pending is Idle,
        pool.table == Map::<PageId, FrameId>::empty(),
        forall|p: PageId| #[trigger]
            store.contains_key(p) ==> 0 <= p < pool.disk.num_pages && store[p].len() == PAGE_SIZE,
    ensures
        (System { pool, store }).sound(),
{
}

/// Every move keeps the pool and the file in agreement.
pub proof fn lemma_move_sound(s: System, m: Move)
    requires
        s.sound(),
        s.allows(m),
    ensures
        s.next(m).sound(),
{
    lemma_move_content(s, m, 0);
}

/// Every move keeps the pool and the file in agreement, and gives new bytes
/// to the page it touches alone: the bytes written, or zero bytes for a page
/// newly added to the file.
pub proof fn lemma_move_content(s: System, m: Move, p: PageId)
    requires
        s.sound(),
        s.allows(m),
    ensures
        s.next(m).sound(),
        !s.touches(m, p) ==> s.next(m).content(p) == s.content(p),
        s.touches(m, p) ==> s.next(m).content(p) == Some(
            match m {
                Move::Write { frame_id, data } => data,
                _ => zeroes(PAGE_SIZE as nat),
            },
        ),
{
    let v = s.pool;
    match m {
        Move::Fix { page_id, is_dirty } => {
            lemma_fix_keeps(s, page_id, is_dirty, p);
        },
        Move::FixNew => {
            lemma_fix_new_page_wf(v);
        },
        Move::Transfer { outcome } => {
            lemma_transfer_keeps(s, outcome, p);
        },
        Move::Write { frame_id, data } => {
            lemma_write_wf(v, frame_id, data);
            // The page written to is the one page that the frame holds.
            assert(v.table.contains_key(p) ==> v.holds_page(v.table[p]));
            assert(v.holds_page(frame_id) ==> v.table[v.frames[frame_id as int].page_id]
                == frame_id);
        },
    }
}

/// The pool and the file agree in every state that moves lead to.
pub proof fn lemma_run_sound(s: System, moves: Seq<Move>)
    requires
        s.sound(),
        s.allows_all(moves),
    ensures
        s.run(moves).sound(),
    decreases moves.len(),
{
    if moves.len() > 0 {
        lemma_move_sound(s, moves[0]);
        lemma_run_sound(s.next(moves[0]), moves.drop_first());
    }
}

/// Capacity and identity hold in every state that moves lead to: the frames
/// that hold a page, the free frames and the frame being read into are all
/// the frames there are, and every entry of the page table names the frame
/// that holds its page.
pub proof fn lemma_run_capacity_and_identity(s: System, moves: Seq<Move>)
    requires
        s.sound(),
        s.allows_all(moves),
    ensures
        ({
            let pool = s.run(moves).pool;
            &&& pool.occupied().len() + pool.free.len() + pool.loading_count() == pool.frames.len()
            &&& pool.table.dom().len() <= pool.frames.len()
            &&& forall|p: PageId| #[trigger]
                pool.table.contains_key(p) ==> pool.valid_frame(pool.table[p])
                    && pool.frames[pool.table[p] as int].page_id == p
        }),
{
    lemma_run_sound(s, moves);
    crate::pool_laws::lemma_capacity(s.run(moves).pool);
}

/// The page count of the file never falls.
pub proof fn lemma_run_page_count(s: System, moves: Seq<Move>)
    requires
        s.sound(),
        s.allows_all(moves),
    ensures
        s.run(moves).pool.disk.num_pages >= s.pool.disk.num_pages,
    decreases moves.len(),
{
    if moves.len() > 0 {
        lemma_move_sound(s, moves[0]);
        lemma_run_page_count(s.next(moves[0]), moves.drop_first());
    }
}

/// Allocation: a new page is given the identifier that is the page count
/// when it is asked for, and once it has been added to the file every later
/// new page is given a greater one, whatever moves are made in between.
pub proof fn lemma_new_page_ids_rise(s: System, moves: Seq<Move>)
    requires
        s.sound(),
        s.allows(Move::FixNew),
        s.next(Move::FixNew).next(Move::Transfer { outcome: IoOutcome::Completed }).allows_all(
            moves,
        ),
        s.next(Move::FixNew).next(Move::Transfer { outcome: IoOutcome::Completed }).run(
            moves,
        ).allows(Move::FixNew),
    ensures
        s.pool.fix_new_page().1 == (FixStep::Append {
            page_id: s.pool.disk.num_pages,
            offset: page_offset(s.pool.disk.num_pages) as u64,
        }),
        s.next(Move::FixNew).allows(Move::Transfer { outcome: IoOutcome::Completed }),
        ({
            let later = s.next(Move::FixNew).next(
                Move::Transfer { outcome: IoOutcome::Completed },
            ).run(moves).pool;
            &&& later.fix_new_page().1 == (FixStep::Append {
                page_id: later.disk.num_pages,
                offset: page_offset(later.disk.num_pages) as u64,
            })
            &&& later.disk.num_pages > s.pool.disk.num_pages
        }),
{
    let asked = s.next(Move::FixNew);
    let given = asked.next(Move::Transfer { outcome: IoOutcome::Completed });
    lemma_move_sound(s, Move::FixNew);
    lemma_move_sound(asked, Move::Transfer { outcome: IoOutcome::Completed });
    assert(given.pool.disk.num_pages == s.pool.disk.num_pages + 1);
    lemma_run_page_count(given, moves);
}

/// A new page that could not be added to the file leaves everything as it
/// was: the page count still tells how many pages the file holds, and the
/// identifier is that of the next new page.
pub proof fn lemma_failed_append_changes_nothing(s: System)
    requires
        s.sound(),
        s.allows(Move::FixNew),
    ensures
        s.next(Move::FixNew).allows(Move::Transfer { outcome: IoOutcome::Failed }),
        s.next(Move::FixNew).next(Move::Transfer { outcome: IoOutcome::Failed }) == s,
        s.next(Move::FixNew).pool.resume(IoOutcome::Failed).1 == FixStep::Failed(FixError::Io),
{
}

/// Write-back: a page keeps its bytes through any moves that give it no new
/// ones, whether it stays in the pool, is evicted or is fetched again. When
/// it is in the pool at the end, its frame holds the bytes it had.
pub proof fn lemma_run_keeps_content(s: System, moves: Seq<Move>, page_id: PageId)
    requires
        s.sound(),
        s.allows_all(moves),
        s.leaves_alone(moves, page_id),
    ensures
        s.run(moves).content(page_id) == s.content(page_id),
        s.run(moves).pool.table.contains_key(page_id) ==> Some(
            s.run(moves).pool.frames[s.run(moves).pool.table[page_id] as int].data,
        ) == s.content(page_id),
    decreases moves.len(),
{
    if moves.len() > 0 {
        lemma_move_content(s, moves[0], page_id);
        lemma_run_keeps_content(s.next(moves[0]), moves.drop_first(), page_id);
    }
}

/// A dirty page that is evicted is written to the file before its frame is
/// used again: once the eviction is through, the file has the bytes that the
/// frame had.
pub proof fn lemma_evicted_page_is_in_file(s: System, frame_id: FrameId)
    requires
        s.sound(),
        s.pool.writing(frame_id),
    ensures
        s.next(Move::Transfer { outcome: IoOutcome::Completed }).store.contains_key(
            s.pool.frames[frame_id as int].page_id,
        ),
        s.next(Move::Transfer { outcome: IoOutcome::Completed }).store[s.pool.frames[frame_id as int].page_id]
            == s.pool.frames[frame_id as int].data,
        !s.next(Move::Transfer { outcome: IoOutcome::Completed }).pool.table.contains_key(
            s.pool.frames[frame_id as int].page_id,
        ),
{
}

/// A new page holds zero bytes: once it is added to the file, they are its
/// bytes, in the file and in the frame it is fetched into.
pub proof fn lemma_new_page_is_zero(s: System)
    requires
        s.sound(),
        s.pool.pending is Idle,
        s.pool.disk.num_pages < i32::MAX,
    ensures
        s.next(Move::FixNew).allows(Move::Transfer { outcome: IoOutcome::Completed }),
        s.next(Move::FixNew).next(Move::Transfer { outcome: IoOutcome::Completed }).content(
            s.pool.disk.num_pages,
        ) == Some(zeroes(PAGE_SIZE as nat)),
{
    let t = s.next(Move::FixNew);
    lemma_move_content(s, Move::FixNew, s.pool.disk.num_pages);
    lemma_move_content(t, Move::Transfer { outcome: IoOutcome::Completed }, s.pool.disk.num_pages);
}

} // verus!
