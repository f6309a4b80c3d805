//! What holds of every pool, proved from the step relations that the pool's
//! functions promise.
//!
//! The first part speaks of a few steps in a row. The second part speaks of
//! whole histories: any finite sequence of interning and evicting, in any
//! order, which is what a pool behind a lock goes through however its callers
//! interleave.

use crate::pool::{consistent, evicts, interns, PoolModel};
use vstd::prelude::*;

verus! {

/// A pool that holds nothing is consistent and holds no content.
pub proof fn lemma_empty_pool(content: Seq<char>)
    ensures
        consistent(PoolModel::empty()),
        !PoolModel::empty().contains_key(content),
{
}

/// Interning keeps a consistent pool consistent.
pub proof fn lemma_interning_keeps_consistency(
    pre: PoolModel,
    content: Seq<char>,
    r: &'static str,
    post: PoolModel,
)
    requires
        consistent(pre),
        interns(pre, content, r, post),
    ensures
        consistent(post),
{
}

/// Evicting keeps a consistent pool consistent.
pub proof fn lemma_evicting_keeps_consistency(
    pre: PoolModel,
    content: Seq<char>,
    was_present: bool,
    post: PoolModel,
)
    requires
        consistent(pre),
        evicts(pre, content, was_present, post),
    ensures
        consistent(post),
{
}

/// Right after interning, the pool holds the content, filed under the
/// reference that was returned.
pub proof fn lemma_interned_content_is_held(
    pre: PoolModel,
    content: Seq<char>,
    r: &'static str,
    post: PoolModel,
)
    requires
        interns(pre, content, r, post),
    ensures
        post.contains_key(content),
        post[content] == r,
        r@ == content,
{
}

/// Right after evicting, the pool does not hold the content, whatever the
/// answer was.
pub proof fn lemma_evicted_content_is_not_held(
    pre: PoolModel,
    content: Seq<char>,
    was_present: bool,
    post: PoolModel,
)
    requires
        evicts(pre, content, was_present, post),
    ensures
        !post.contains_key(content),
        was_present == pre.contains_key(content),
{
}

/// Interning or evicting one content leaves the entry of every other content
/// as it was.
pub proof fn lemma_other_content_is_undisturbed(
    pre: PoolModel,
    content: Seq<char>,
    r: &'static str,
    was_present: bool,
    post: PoolModel,
    other: Seq<char>,
)
    requires
        other != content,
        interns(pre, content, r, post) || evicts(pre, content, was_present, post),
    ensures
        post.contains_key(other) == pre.contains_key(other),
        pre.contains_key(other) ==> post[other] == pre[other],
{
}

/// Equal content interned twice with no eviction in between is served from
/// one stored reference: the second call returns the very reference of the
/// first and leaves the pool as it was.
pub proof fn lemma_equal_content_shares_one_reference(
    pre: PoolModel,
    s: Seq<char>,
    first: &'static str,
    mid: PoolModel,
    t: Seq<char>,
    second: &'static str,
    post: PoolModel,
)
    requires
        s == t,
        interns(pre, s, first, mid),
        interns(mid, t, second, post),
    ensures
        first@ == s,
        second@ == t,
        second == first,
        post == mid,
{
}

/// The same holds with other work in between: as long as the entry filed by
/// the first call is still in place, interning equal content returns the
/// reference of the first call.
pub proof fn lemma_equal_content_shares_one_reference_later(
    pre: PoolModel,
    s: Seq<char>,
    first: &'static str,
    mid: PoolModel,
    later: PoolModel,
    t: Seq<char>,
    second: &'static str,
    post: PoolModel,
)
    requires
        s == t,
        interns(pre, s, first, mid),
        later.contains_key(s) && later[s] == mid[s],
        interns(later, t, second, post),
    ensures
        second == first,
        post == later,
{
}

/// Evicting answers `true` exactly when the content was held, and a second
/// eviction with nothing interned in between answers `false` and changes
/// nothing.
pub proof fn lemma_eviction_answers_true_once(
    pre: PoolModel,
    content: Seq<char>,
    first: bool,
    mid: PoolModel,
    second: bool,
    post: PoolModel,
)
    requires
        evicts(pre, content, first, mid),
        evicts(mid, content, second, post),
    ensures
        first == pre.contains_key(content),
        !second,
        post == mid,
{
}

/// Evicting content that was just interned answers `true`.
pub proof fn lemma_eviction_after_interning(
    pre: PoolModel,
    content: Seq<char>,
    r: &'static str,
    mid: PoolModel,
    was_present: bool,
    post: PoolModel,
)
    requires
        interns(pre, content, r, mid),
        evicts(mid, content, was_present, post),
    ensures
        was_present,
        !post.contains_key(content),
{
}

/// Interning content again after it was evicted works like interning new
/// content: the result reads as the content, as the first result did, and the
/// pool files it under the reference of the second call, whatever the evicted
/// entry was.
pub proof fn lemma_reinterning_after_eviction(
    pre: PoolModel,
    content: Seq<char>,
    first: &'static str,
    held: PoolModel,
    was_present: bool,
    evicted: PoolModel,
    second: &'static str,
    post: PoolModel,
)
    requires
        interns(pre, content, first, held),
        evicts(held, content, was_present, evicted),
        interns(evicted, content, second, post),
    ensures
        was_present,
        second@ == content,
        second@ == first@,
        post == evicted.insert(content, second),
        post[content] == second,
{
}

/// One operation on a pool, as a history records it.
pub enum PoolOp {
    /// Interning `content`; `promoted` is the reference that is filed if the
    /// pool does not hold the content yet.
    Intern { content: Seq<char>, promoted: &'static str },
    /// Evicting `content`.
    Evict { content: Seq<char> },
}

impl PoolOp {
    /// A recorded interning is well formed when its reference reads as its
    /// content. Every eviction is.
    pub open spec fn well_formed(self) -> bool {
        match self {
            PoolOp::Intern { content, promoted } => promoted@ == content,
            PoolOp::Evict { .. } => true,
        }
    }

    /// Whether this operation interns `s`.
    pub open spec fn interns_content(self, s: Seq<char>) -> bool {
        self matches PoolOp::Intern { content, .. } && content == s
    }

    /// Whether this operation evicts `s`.
    pub open spec fn evicts_content(self, s: Seq<char>) -> bool {
        self matches PoolOp::Evict { content } && content == s
    }

    /// The pool after this operation.
    pub open spec fn apply(self, m: PoolModel) -> PoolModel {
        match self {
            PoolOp::Intern { content, promoted } => if m.contains_key(content) {
                m
            } else {
                m.insert(content, promoted)
            },
            PoolOp::Evict { content } => m.remove(content),
        }
    }
}

/// The pool after the operations of `ops`, in order, starting from `m`.
pub open spec fn replay(m: PoolModel, ops: Seq<PoolOp>) -> PoolModel
    decreases ops.len(),
{
    if ops.len() == 0 {
        m
    } else {
        ops.last().apply(replay(m, ops.drop_last()))
    }
}

/// Every interning step is the recorded operation with the returned reference.
pub proof fn lemma_interning_is_an_operation(
    pre: PoolModel,
    content: Seq<char>,
    r: &'static str,
    post: PoolModel,
)
    requires
        interns(pre, content, r, post),
    ensures
        (PoolOp::Intern { content, promoted: r }).well_formed(),
        post == (PoolOp::Intern { content, promoted: r }).apply(pre),
{
}

/// Every eviction step is the recorded operation.
pub proof fn lemma_evicting_is_an_operation(
    pre: PoolModel,
    content: Seq<char>,
    was_present: bool,
    post: PoolModel,
)
    requires
        evicts(pre, content, was_present, post),
    ensures
        post == (PoolOp::Evict { content }).apply(pre),
{
}

/// Whether no operation of `ops` at position `from` or later evicts `s`.
pub open spec fn never_evicted_from(ops: Seq<PoolOp>, from: int, s: Seq<char>) -> bool {
    forall|j: int| 0 <= j < ops.len() && from <= j ==> !(#[trigger] ops[j]).evicts_content(s)
}

/// Whether some operation of `ops` interns `s` and no later one evicts it.
pub open spec fn interned_and_kept(ops: Seq<PoolOp>, s: Seq<char>) -> bool {
    exists|i: int|
        0 <= i < ops.len() && (#[trigger] ops[i]).interns_content(s) && never_evicted_from(
            ops,
            i + 1,
            s,
        )
}

/// However interning and evicting are ordered, a pool that starts consistent
/// stays consistent: it never holds two entries for one content, and no entry
/// reads as anything but the content it is filed under.
pub proof fn lemma_every_history_keeps_consistency(m: PoolModel, ops: Seq<PoolOp>)
    requires
        consistent(m),
        forall|i: int| 0 <= i < ops.len() ==> (#[trigger] ops[i]).well_formed(),
    ensures
        consistent(replay(m, ops)),
    decreases ops.len(),
{
    if ops.len() > 0 {
        lemma_every_history_keeps_consistency(m, ops.drop_last());
    }
}

/// Leaving out a last operation that does not evict `s` does not change
/// whether `s` is evicted at position `from` or later.
proof fn lemma_last_operation_on_other_content(ops: Seq<PoolOp>, from: int, s: Seq<char>)
    requires
        ops.len() > 0,
        !ops.last().evicts_content(s),
    ensures
        never_evicted_from(ops, from, s) == never_evicted_from(ops.drop_last(), from, s),
{
    let init = ops.drop_last();
    if never_evicted_from(init, from, s) {
        assert forall|j: int| 0 <= j < ops.len() && from <= j implies !(#[trigger] ops[j])
            .evicts_content(s) by {
            if j < init.len() {
                assert(!init[j].evicts_content(s));
            }
        }
    }
    if never_evicted_from(ops, from, s) {
        assert forall|j: int| 0 <= j < init.len() && from <= j implies !(#[trigger] init[j])
            .evicts_content(s) by {
            assert(init[j] == ops[j]);
        }
    }
}

/// After any history, the pool holds `s` exactly when the last operation on
/// `s` interned it, or, if no operation evicted `s`, when the pool held it
/// at the start.
///
/// So a pool that starts empty does not hold `s` before `s` is interned, holds
/// it from each interning of `s` until the next eviction of `s`, and does not
/// hold it from that eviction until `s` is interned again.
pub proof fn lemma_membership_follows_last_operation(
    m: PoolModel,
    ops: Seq<PoolOp>,
    s: Seq<char>,
)
    ensures
        replay(m, ops).contains_key(s) <==> interned_and_kept(ops, s) || (m.contains_key(s)
            && never_evicted_from(ops, 0, s)),
    decreases ops.len(),
{
    if ops.len() > 0 {
        let init = ops.drop_last();
        let last = ops.len() - 1;
        lemma_membership_follows_last_operation(m, init, s);
        if !ops[last].interns_content(s) && !ops[last].evicts_content(s) {
            // The last operation is on other content: what held of `s` before
            // it holds after it, on both sides of the equivalence.
            lemma_last_operation_on_other_content(ops, 0, s);
            if interned_and_kept(init, s) {
                let i = choose|i: int|
                    0 <= i < init.len() && (#[trigger] init[i]).interns_content(s)
                        && never_evicted_from(init, i + 1, s);
                lemma_last_operation_on_other_content(ops, i + 1, s);
                assert(ops[i].interns_content(s));
            }
            if interned_and_kept(ops, s) {
                let i = choose|i: int|
                    0 <= i < ops.len() && (#[trigger] ops[i]).interns_content(s)
                        && never_evicted_from(ops, i + 1, s);
                lemma_last_operation_on_other_content(ops, i + 1, s);
                assert(init[i].interns_content(s));
            }
        } else if ops[last].interns_content(s) {
            assert(never_evicted_from(ops, last + 1, s));
        }
    }
}

/// An entry stays as it is until its content is evicted: if the pool holds
/// `s` after the first `from` operations and none of the later ones evicts
/// `s`, then at the end the pool still holds `s`, under the same reference.
pub proof fn lemma_entry_stays_until_evicted(
    m: PoolModel,
    ops: Seq<PoolOp>,
    from: int,
    s: Seq<char>,
)
    requires
        0 <= from <= ops.len(),
        replay(m, ops.take(from)).contains_key(s),
        never_evicted_from(ops, from, s),
    ensures
        replay(m, ops).contains_key(s),
        replay(m, ops)[s] == replay(m, ops.take(from))[s],
    decreases ops.len(),
{
    if from == ops.len() {
        assert(ops.take(from) == ops);
    } else {
        let init = ops.drop_last();
        lemma_last_operation_on_other_content(ops, from, s);
        assert(init.take(from) == ops.take(from));
        lemma_entry_stays_until_evicted(m, init, from, s);
    }
}

/// In any history, two internings of equal content with no eviction of that
/// content between them leave and find the same stored reference: what the
/// pool holds for the content right after the later one is what it held right
/// after the earlier one.
pub proof fn lemma_equal_content_shares_one_reference_in_history(
    m: PoolModel,
    ops: Seq<PoolOp>,
    earlier: int,
    later: int,
    s: Seq<char>,
)
    requires
        0 <= earlier < later < ops.len(),
        ops[earlier].interns_content(s),
        ops[later].interns_content(s),
        forall|j: int| earlier < j < later ==> !(#[trigger] ops[j]).evicts_content(s),
    ensures
        replay(m, ops.take(earlier + 1)).contains_key(s),
        replay(m, ops.take(later + 1)).contains_key(s),
        replay(m, ops.take(later + 1))[s] == replay(m, ops.take(earlier + 1))[s],
{
    let upto = ops.take(later + 1);
    assert(upto.take(earlier + 1) == ops.take(earlier + 1));
    assert(never_evicted_from(upto, earlier + 1, s)) by {
        assert forall|j: int| earlier < j < upto.len() implies !(#[trigger] upto[j])
            .evicts_content(s) by {
            assert(upto[j] == ops[j]);
        }
    }
    lemma_entry_stays_until_evicted(m, upto, earlier + 1, s);
}

} // verus!
