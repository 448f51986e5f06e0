//! Laws of the entity link store, stated over its mathematical content.

use vstd::prelude::*;
use crate::sync::link_store::{Id, LinkMap, canonical, merge_applies, merged, observed, well_linked};

verus! {

/// Observing an id keeps a store well linked and changes no resolution.
pub proof fn lemma_observed(m: LinkMap, x: Id)
    requires
        well_linked(m),
    ensures
        well_linked(observed(m, x)),
        observed(m, x).dom().contains(x),
        forall|y: Id| canonical(observed(m, x), y) == canonical(m, y),
{
    let o = observed(m, x);
    assert forall|y: Id| #[trigger] o.dom().contains(y) implies o.dom().contains(o[y]) && o[o[y]]
        == o[y] by {
        if y != x {
            assert(m.dom().contains(y));
        }
    }
}

/// A merge keeps a store well linked.
pub proof fn lemma_merged_well_linked(m: LinkMap, keep: Id, delete: Id)
    requires
        well_linked(m),
    ensures
        well_linked(merged(m, keep, delete)),
{
    if keep != delete {
        lemma_observed(m, keep);
        lemma_observed(observed(m, keep), delete);
        let seen = observed(observed(m, keep), delete);
        if merge_applies(m, keep, delete) {
            assert(seen.dom().contains(keep));
            crate::sync::link_store::lemma_repointed_well_linked(seen, delete, seen[keep]);
        }
    }
}

/// What a merge does to each resolution.
///
/// When the merge applies, whatever resolved to `delete` resolves to what
/// `keep` resolved to, and nothing else changes. When it does not apply,
/// no resolution changes.
pub proof fn lemma_merged_canonical(m: LinkMap, keep: Id, delete: Id, x: Id)
    requires
        well_linked(m),
    ensures
        canonical(merged(m, keep, delete), x) == if merge_applies(m, keep, delete) && canonical(
            m,
            x,
        ) == delete {
            canonical(m, keep)
        } else {
            canonical(m, x)
        },
{
    if keep != delete {
        lemma_observed(m, keep);
        lemma_observed(observed(m, keep), delete);
    }
}

/// Fixed point: the canonical id of a canonical id is that id itself.
pub proof fn law_resolve_fixed_point(m: LinkMap, x: Id)
    requires
        well_linked(m),
    ensures
        canonical(m, canonical(m, x)) == canonical(m, x),
        canonical(observed(m, x), canonical(m, x)) == canonical(m, x),
{
    lemma_observed(m, x);
}

/// Merge idempotence: the same merge twice in a row leaves the store as one
/// merge left it.
pub proof fn law_merge_idempotent(m: LinkMap, keep: Id, delete: Id)
    requires
        well_linked(m),
    ensures
        merged(merged(m, keep, delete), keep, delete) == merged(m, keep, delete),
{
    if keep != delete {
        lemma_observed(m, keep);
        lemma_observed(observed(m, keep), delete);
        let once = merged(m, keep, delete);
        lemma_merged_canonical(m, keep, delete, delete);
        lemma_merged_canonical(m, keep, delete, keep);
        assert(once.dom().contains(keep) && once.dom().contains(delete));
        assert(!merge_applies(once, keep, delete));
        assert(merged(once, keep, delete) =~= once);
    }
}

/// The ids of a merge chain `a` into `b`, `b` into `c` are in a state from
/// which the chain can still be completed: `c` is canonical, `b` is
/// canonical or already merged into `c`, and `a` is canonical or already
/// merged along the chain.
pub open spec fn chain_ready(m: LinkMap, a: Id, b: Id, c: Id) -> bool {
    &&& a != b && b != c && a != c
    &&& canonical(m, c) == c
    &&& canonical(m, b) == b || canonical(m, b) == c
    &&& canonical(m, a) == a || canonical(m, a) == b || canonical(m, a) == c
}

/// Merge commutativity under reordering: the merges of `a` into `b` and of
/// `b` into `c` give the same store in either order, and in it all three
/// ids resolve to `c`.
pub proof fn law_merge_chain_commutes(m: LinkMap, a: Id, b: Id, c: Id)
    requires
        well_linked(m),
        chain_ready(m, a, b, c),
    ensures
        merged(merged(m, b, a), c, b) == merged(merged(m, c, b), b, a),
        canonical(merged(merged(m, b, a), c, b), a) == c,
        canonical(merged(merged(m, b, a), c, b), b) == c,
        canonical(merged(merged(m, b, a), c, b), c) == c,
        canonical(merged(merged(m, c, b), b, a), a) == c,
        canonical(merged(merged(m, c, b), b, a), b) == c,
        canonical(merged(merged(m, c, b), b, a), c) == c,
{
    let first = merged(m, b, a);
    let second = merged(m, c, b);
    let in_order = merged(first, c, b);
    let reversed = merged(second, b, a);
    lemma_merged_well_linked(m, b, a);
    lemma_merged_well_linked(m, c, b);
    lemma_merged_well_linked(first, c, b);
    lemma_merged_well_linked(second, b, a);
    lemma_merged_dom(m, b, a);
    lemma_merged_dom(m, c, b);
    lemma_merged_dom(first, c, b);
    lemma_merged_dom(second, b, a);
    lemma_merged_canonical(m, b, a, a);
    lemma_merged_canonical(m, b, a, b);
    lemma_merged_canonical(m, b, a, c);
    lemma_merged_canonical(m, c, b, a);
    lemma_merged_canonical(m, c, b, b);
    lemma_merged_canonical(m, c, b, c);
    assert forall|x: Id| canonical(in_order, x) == canonical(reversed, x) by {
        lemma_merged_canonical(m, b, a, x);
        lemma_merged_canonical(first, c, b, x);
        lemma_merged_canonical(m, c, b, x);
        lemma_merged_canonical(second, b, a, x);
    }
    assert forall|x: Id| in_order.dom().contains(x) implies in_order[x] == reversed[x] by {
        assert(canonical(in_order, x) == canonical(reversed, x));
    }
    assert(in_order =~= reversed);
    lemma_merged_canonical(first, c, b, a);
    lemma_merged_canonical(first, c, b, b);
    lemma_merged_canonical(first, c, b, c);
}

/// The chain can only be completed from a ready state: where both orders
/// of the two merges end with all three ids resolving to `c`, the state
/// before them was ready for the chain.
pub proof fn law_merge_chain_needs_ready(m: LinkMap, a: Id, b: Id, c: Id)
    requires
        well_linked(m),
        a != b && b != c && a != c,
        canonical(merged(merged(m, b, a), c, b), a) == c,
        canonical(merged(merged(m, b, a), c, b), b) == c,
        canonical(merged(merged(m, b, a), c, b), c) == c,
        canonical(merged(merged(m, c, b), b, a), a) == c,
        canonical(merged(merged(m, c, b), b, a), b) == c,
        canonical(merged(merged(m, c, b), b, a), c) == c,
    ensures
        chain_ready(m, a, b, c),
{
    let first = merged(m, b, a);
    let second = merged(m, c, b);
    lemma_merged_well_linked(m, b, a);
    lemma_merged_well_linked(m, c, b);
    lemma_merged_canonical(m, b, a, a);
    lemma_merged_canonical(m, b, a, b);
    lemma_merged_canonical(m, b, a, c);
    lemma_merged_canonical(m, c, b, a);
    lemma_merged_canonical(m, c, b, b);
    lemma_merged_canonical(m, c, b, c);
    lemma_merged_canonical(first, c, b, a);
    lemma_merged_canonical(first, c, b, b);
    lemma_merged_canonical(first, c, b, c);
    lemma_merged_canonical(second, b, a, a);
    lemma_merged_canonical(second, b, a, b);
    lemma_merged_canonical(second, b, a, c);
}

/// A merge of two different ids observes both and forgets none.
pub proof fn lemma_merged_dom(m: LinkMap, keep: Id, delete: Id)
    ensures
        forall|x: Id|
            merged(m, keep, delete).dom().contains(x) <==> m.dom().contains(x) || (keep != delete
                && (x == keep || x == delete)),
{
}

} // verus!
