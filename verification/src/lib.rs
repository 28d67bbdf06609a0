//! A page-oriented buffer pool: fixed-size disk pages cached in a bounded set
//! of in-memory frames, with a pluggable replacement policy.
//!
//! The library holds the bookkeeping and every decision; it performs no I/O.
//! Whoever drives it owns the backing file and carries out the transfers the
//! pool asks for.

pub mod define;
pub mod page;
pub mod replacer;
pub mod lru_replacer;
pub mod clock_replacer;
pub mod data_storage_manager;
pub mod policy;
pub mod pool_state;
pub mod buffer_pool_manager;
pub mod pool_laws;
pub mod store;
pub mod trace;
