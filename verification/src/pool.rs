//! The intern pool: a content-addressed set of process-lifetime strings.
//!
//! A pool keeps at most one entry per distinct content. Interning content that
//! is already kept hands back the stored reference; interning new content
//! promotes a copy of it to the lifetime of the process and stores the
//! reference. Evicting forgets the entry and frees nothing, so every reference
//! the pool ever handed out stays valid.

use vstd::hash_map::StringHashMap;
use vstd::prelude::*;

verus! {

/// What a pool keeps: for each content that it holds, the reference stored
/// for that content.
pub type PoolModel = Map<Seq<char>, &'static str>;

/// A pool is consistent when it holds finitely many contents and the
/// reference stored for a content reads as exactly that content.
pub open spec fn consistent(m: PoolModel) -> bool {
    &&& m.dom().finite()
    &&& forall|c: Seq<char>| #[trigger] m.contains_key(c) ==> m[c]@ == c
}

/// One interning step: from the pool `pre`, interning `content` gave the
/// reference `r` and left the pool as `post`.
///
/// The reference always reads as `content`. Content that `pre` already held is
/// served from the stored reference and the pool does not change; new content
/// is filed under `r`.
pub open spec fn interns(
    pre: PoolModel,
    content: Seq<char>,
    r: &'static str,
    post: PoolModel,
) -> bool {
    &&& r@ == content
    &&& if pre.contains_key(content) {
        r == pre[content] && post == pre
    } else {
        post == pre.insert(content, r)
    }
}

/// One eviction step: from the pool `pre`, evicting `content` answered
/// `was_present` and left the pool as `post`.
pub open spec fn evicts(
    pre: PoolModel,
    content: Seq<char>,
    was_present: bool,
    post: PoolModel,
) -> bool {
    &&& was_present == pre.contains_key(content)
    &&& post == pre.remove(content)
}

/// A set of interned strings, keyed and compared by content.
///
/// The pool is an ordinary value: whoever shares one between threads puts it
/// behind a lock, and the exclusive borrow that interning and evicting take is
/// that lock's guard.
pub struct InternPool {
    entries: StringHashMap<&'static str>,
}

impl View for InternPool {
    type V = PoolModel;

    closed spec fn view(&self) -> PoolModel {
        self.entries@
    }
}

impl InternPool {
    /// Every pool is consistent, at all times.
    #[verifier::type_invariant]
    pub open spec fn well_formed(self) -> bool {
        consistent(self@)
    }

    /// Creates a pool that holds nothing.
    pub fn new() -> (pool: InternPool)
        ensures
            pool@ == PoolModel::empty(),
            consistent(pool@),
    {
        InternPool { entries: StringHashMap::new() }
    }

    /// The number of distinct contents that the pool holds.
    pub fn len(&self) -> (n: usize)
        ensures
            n == self@.dom().len(),
            consistent(self@),
    {
        proof {
            use_type_invariant(self);
        }
        self.entries.len()
    }
}

/// `Box::leak` on a boxed `String`: the allocation is never freed, so the text
/// can be borrowed for the rest of the process. The reference that comes back
/// reads as the text that went in.
#[verifier::external_body]
fn promote(text: Box<String>) -> (r: &'static str)
    ensures
        r@ == text@,
{
    Box::leak(text)
}

/// Interns `s`: returns a reference with the content of `s` that lives as long
/// as the process.
///
/// If the pool already holds this content, the stored reference is returned
/// and the pool is left as it was. Otherwise a copy of `s` is promoted to the
/// lifetime of the process and filed in the pool.
pub fn staticize(pool: &mut InternPool, s: &str) -> (r: &'static str)
    ensures
        interns(old(pool)@, s@, r, final(pool)@),
        consistent(final(pool)@),
{
    proof {
        use_type_invariant(&*pool);
    }
    match pool.entries.get(s) {
        Some(kept) => *kept,
        None => {
            let r = promote(Box::new(s.to_owned()));
            // The map is taken out while it changes, so that the pool holds a
            // consistent map at every moment.
            let mut entries = StringHashMap::new();
            core::mem::swap(&mut pool.entries, &mut entries);
            entries.insert(s.to_owned(), r);
            pool.entries = entries;
            r
        },
    }
}

/// Reports whether `pool` currently holds the content of `s`.
pub fn is_staticized(pool: &InternPool, s: &str) -> (present: bool)
    ensures
        present == pool@.contains_key(s@),
        consistent(pool@),
{
    proof {
        use_type_invariant(pool);
    }
    pool.entries.contains_key(s)
}

/// Evicts the content of `s` from `pool` and reports whether it was there.
///
/// Only the entry is forgotten: references handed out earlier stay valid, and
/// interning the same content again promotes a new copy.
pub fn destaticize(pool: &mut InternPool, s: &str) -> (present: bool)
    ensures
        evicts(old(pool)@, s@, present, final(pool)@),
        consistent(final(pool)@),
{
    proof {
        use_type_invariant(&*pool);
    }
    let present = pool.entries.contains_key(s);
    if present {
        let mut entries = StringHashMap::new();
        core::mem::swap(&mut pool.entries, &mut entries);
        entries.remove(s);
        pool.entries = entries;
    } else {
        assert(pool@.remove(s@) == pool@);
    }
    present
}

} // verus!
