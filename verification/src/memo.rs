//! Once-only memoization for a call site.
//!
//! Each call site owns one [`MemoCell`]. A caller that arrives at the cell is
//! told what to do: run the computation, keep out because a computation was
//! started and has not committed, or take the cached reference. The one caller
//! that was told to run hands its result to [`MemoCell::commit`], which interns
//! it and caches the reference for everyone after.
//! [`MemoCell::get_or_intern`] does all of this in one call for a computation
//! that is given as a closure.
//!
//! A cell only moves forward: uninitialized, then running, then complete. A
//! computation that is abandoned, by a panic or because its caller never
//! commits, leaves its cell running for good. The cell is then spent: later
//! callers are told to keep out and nobody is told to run the computation a
//! second time.
//!
//! A cell does not block and does not lock. Callers on several threads share
//! a cell behind a lock that they hold from arriving to committing, so that
//! whoever arrives while the computation runs waits for it at the lock.

use crate::pool::{consistent, interns, staticize, InternPool};
use vstd::prelude::*;

verus! {

/// Where a call site's barrier stands.
#[derive(Debug, Clone, Copy, PartialEq, Eq)]
pub enum Barrier {
    /// No caller has arrived yet.
    Uninitialized,
    /// One caller was told to run the computation and has not committed.
    Running,
    /// The computation has committed; this is the cached reference.
    Complete(&'static str),
}

/// What a caller is told on arriving at a cell.
#[derive(Debug, Clone, Copy, PartialEq, Eq)]
pub enum Entry {
    /// Run the computation, then commit its result.
    Run,
    /// A computation was started and has not committed: do not run it.
    Busy,
    /// The computation has committed: here is the cached reference.
    Ready(&'static str),
}

impl Barrier {
    /// How far along the barrier is.
    pub open spec fn rank(self) -> nat {
        match self {
            Barrier::Uninitialized => 0,
            Barrier::Running => 1,
            Barrier::Complete(_) => 2,
        }
    }

    /// What a caller that arrives at this barrier is told.
    pub open spec fn on_enter(self) -> Entry {
        match self {
            Barrier::Uninitialized => Entry::Run,
            Barrier::Running => Entry::Busy,
            Barrier::Complete(kept) => Entry::Ready(kept),
        }
    }

    /// The barrier after a caller has arrived at it.
    pub open spec fn after_enter(self) -> Barrier {
        match self {
            Barrier::Uninitialized => Barrier::Running,
            Barrier::Running => Barrier::Running,
            Barrier::Complete(kept) => Barrier::Complete(kept),
        }
    }

    /// The barrier after the interned reference `kept` was offered to it:
    /// taken if a computation was running, ignored otherwise.
    pub open spec fn after_commit(self, kept: &'static str) -> Barrier {
        match self {
            Barrier::Running => Barrier::Complete(kept),
            _ => self,
        }
    }

    /// The reference that the barrier has cached, if it is complete.
    pub open spec fn cached(self) -> Option<&'static str> {
        match self {
            Barrier::Complete(kept) => Some(kept),
            _ => None,
        }
    }

    /// Whether a call that arrives at this barrier runs the computation.
    pub open spec fn runs_on_call(self) -> bool {
        self.on_enter() is Run
    }

    /// The barrier after one whole call: the caller arrives and, if told to
    /// run, commits a result that is interned as `value`.
    pub open spec fn after_call(self, value: &'static str) -> Barrier {
        if self.runs_on_call() {
            self.after_enter().after_commit(value)
        } else {
            self.after_enter()
        }
    }

    /// What one whole call hands to its caller: the reference of its own
    /// result if it ran, the cached reference if the barrier was complete,
    /// nothing if it had to keep out.
    pub open spec fn call_result(self, value: &'static str) -> Option<&'static str> {
        match self.on_enter() {
            Entry::Run => Some(value),
            Entry::Busy => None,
            Entry::Ready(kept) => Some(kept),
        }
    }
}

/// The memoization cell of one call site.
pub struct MemoCell {
    state: Barrier,
}

impl View for MemoCell {
    type V = Barrier;

    closed spec fn view(&self) -> Barrier {
        self.state
    }
}

impl MemoCell {
    /// Creates the cell of a call site that nobody has arrived at.
    pub fn new() -> (cell: MemoCell)
        ensures
            cell@ == Barrier::Uninitialized,
    {
        MemoCell { state: Barrier::Uninitialized }
    }

    /// The cached reference, if the computation has committed. Changes nothing.
    pub fn cached(&self) -> (r: Option<&'static str>)
        ensures
            r == self@.cached(),
    {
        match self.state {
            Barrier::Complete(kept) => Some(kept),
            _ => None,
        }
    }

    /// Arrives at the cell and says what the caller is to do.
    ///
    /// The first caller ever is told to run the computation, and the cell
    /// starts running. A caller that finds the cell running is told to keep
    /// out. Once the cell is complete every caller is given the cached
    /// reference.
    pub fn enter(&mut self) -> (e: Entry)
        ensures
            e == old(self)@.on_enter(),
            final(self)@ == old(self)@.after_enter(),
    {
        match self.state {
            Barrier::Uninitialized => {
                self.state = Barrier::Running;
                Entry::Run
            },
            Barrier::Running => Entry::Busy,
            Barrier::Complete(kept) => Entry::Ready(kept),
        }
    }

    /// Hands in the result of the computation.
    ///
    /// If the cell is running, `value` is interned in `pool`, the reference is
    /// cached and returned, and the cell is complete. In any other state
    /// nothing happens to the cell or the pool and `None` is returned.
    pub fn commit(&mut self, pool: &mut InternPool, value: &str) -> (r: Option<&'static str>)
        ensures
            r is Some <==> old(self)@ is Running,
            match r {
                Some(kept) => {
                    &&& interns(old(pool)@, value@, kept, final(pool)@)
                    &&& final(self)@ == old(self)@.after_commit(kept)
                },
                None => {
                    &&& final(pool)@ == old(pool)@
                    &&& final(self)@ == old(self)@
                },
            },
            consistent(final(pool)@),
    {
        proof {
            use_type_invariant(&*pool);
        }
        match self.state {
            Barrier::Running => {
                let kept = staticize(pool, value);
                self.state = Barrier::Complete(kept);
                Some(kept)
            },
            _ => None,
        }
    }

    /// One whole call at this call site: returns the cached reference, or
    /// runs `compute` if nobody has arrived at the cell before, interns the
    /// result in `pool`, caches the reference and returns it.
    ///
    /// `compute` is called only by the first caller to arrive. The cell is
    /// running while `compute` runs, so a computation that never returns
    /// leaves it running: later callers get `None` and `compute` is not tried
    /// again.
    pub fn get_or_intern<F: FnOnce() -> String>(
        &mut self,
        pool: &mut InternPool,
        compute: F,
    ) -> (r: Option<&'static str>)
        requires
            old(self)@.runs_on_call() ==> compute.requires(()),
        ensures
            if old(self)@.runs_on_call() {
                &&& r matches Some(kept)
                &&& (exists|value: String| #[trigger]
                    compute.ensures((), value) && interns(
                        old(pool)@,
                        value@,
                        kept,
                        final(pool)@,
                    ))
                &&& final(self)@ == old(self)@.after_call(kept)
            } else {
                &&& r == old(self)@.cached()
                &&& final(self)@ == old(self)@
                &&& final(pool)@ == old(pool)@
            },
            consistent(final(pool)@),
    {
        proof {
            use_type_invariant(&*pool);
        }
        match self.enter() {
            Entry::Run => {
                let value = compute();
                self.commit(pool, value.as_str())
            },
            Entry::Busy => None,
            Entry::Ready(kept) => Some(kept),
        }
    }
}

} // verus!
