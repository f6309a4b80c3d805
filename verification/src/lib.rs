//! Interned strings and once-only memoization, with the state in the open.
//!
//! An [`InternPool`] keeps one process-lifetime copy of every distinct text
//! that is interned in it and hands out `&'static str` references to those
//! copies. A [`MemoCell`] sees to it that the computation of one call site
//! runs once, and caches the interned result for every later call.
//!
//! Pools and cells are plain values that their users own. Nothing here is
//! global and nothing locks: a program that wants one pool for the whole
//! process keeps it behind a lock of its own, and the exclusive borrow that
//! the functions below ask for is what that lock hands out.
//!
//! - [`pool`]: the pool, [`staticize`], [`is_staticized`], [`destaticize`].
//! - [`concat`]: [`static_concat`], concatenation with an interned result.
//! - [`memo`]: the barrier of a call site and its cell.
//! - [`pool_laws`], [`memo_laws`]: what follows from the contracts, proved.

pub mod concat;
pub mod memo;
pub mod memo_laws;
pub mod pool;
pub mod pool_laws;

pub use concat::static_concat;
pub use memo::{Barrier, Entry, MemoCell};
pub use pool::{destaticize, is_staticized, staticize, InternPool};
