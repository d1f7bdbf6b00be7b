//! Names stay: what was computed once is computed again, whatever local
//! identifiers were handed out in between.

use vstd::prelude::*;
use crate::canonical::{canonical_name_spec, canonical_path_spec, in_path, path_names};
use crate::context::Context;
use crate::graph::{
    ancestors, graph_ok, has_item, item_at, item_ok, lemma_ancestors_resolve, name_target,
};
use crate::item::Item;
use crate::naming::{
    base_name_spec, claim_local_id, given_name, real_canonical_name_spec, scope_names,
    uses_local_id, LocalIds,
};
use crate::ty::ItemId;

verus! {

/// Whether `later` can be what `earlier` became by queries: the graph, its
/// root and the configuration are the same, and every canonical name that
/// was cached is still cached, unchanged.
pub open spec fn after_queries(earlier: &Context, later: &Context) -> bool {
    &&& later.graph() == earlier.graph()
    &&& later.codegen == earlier.codegen
    &&& later.canonical_names@.len() == earlier.canonical_names@.len()
    &&& forall|i: int|
        0 <= i < earlier.canonical_names@.len() && (#[trigger] earlier.canonical_names@[i])
            is Some ==> later.canonical_names@[i] == earlier.canonical_names@[i]
}

/// Queries after queries are queries: what holds from one query to the next
/// holds over any number of them.
pub proof fn law_queries_in_sequence(first: &Context, second: &Context, third: &Context)
    requires
        after_queries(first, second),
        after_queries(second, third),
    ensures
        after_queries(first, third),
        after_queries(first, first),
{
    assert forall|i: int|
        0 <= i < first.canonical_names@.len() && (#[trigger] first.canonical_names@[i])
            is Some implies third.canonical_names@[i] == first.canonical_names@[i] by {
        assert(second.canonical_names@[i] == first.canonical_names@[i]);
    }
}

/// A canonical name that is cached survives every sequence of queries:
/// whatever was asked in between, of this item or of others, the canonical
/// name of the item is the cached one, and asking for it hands out no local
/// identifier.
pub proof fn law_cached_name_survives(ctx: &Context, later: &Context, id: ItemId)
    requires
        ctx.wf_but_guards(),
        ctx.codegen,
        ctx.has(id),
        ctx.canonical_names@[id.0 as int] is Some,
        after_queries(ctx, later),
    ensures
        later.has(id),
        canonical_name_spec(later, id) == (
            later.local_id_state(),
            ctx.canonical_names@[id.0 as int]->0@,
        ),
{
}

/// Whether the local identifiers `st` are cells for the items of the table.
pub open spec fn fits(items: Seq<Option<Item>>, st: LocalIds) -> bool {
    st.assigned.len() == items.len() && st.next_child.len() == items.len()
}

/// Whether `later` keeps every local identifier that `earlier` handed out.
pub open spec fn keeps(earlier: LocalIds, later: LocalIds) -> bool {
    &&& earlier.assigned.len() == later.assigned.len()
    &&& earlier.next_child.len() == later.next_child.len()
    &&& forall|i: int|
        0 <= i < earlier.assigned.len() && (#[trigger] earlier.assigned[i]) is Some
            ==> later.assigned[i] == earlier.assigned[i]
}

/// Whether every item goes by an item that exists, and has a parent that
/// exists.
pub open spec fn targets_exist(items: Seq<Option<Item>>) -> bool {
    &&& forall|id: ItemId| has_item(items, id)
        ==> has_item(items, #[trigger] name_target(items, id))
    &&& forall|id: ItemId|
        has_item(items, id) ==> has_item(items, (#[trigger] item_at(items, id)).parent_id)
}

/// In a finished graph every item goes by an item that exists, and has a
/// parent that exists.
pub proof fn lemma_targets_exist(items: Seq<Option<Item>>, root: ItemId)
    requires
        graph_ok(items, root),
        forall|i: int| 0 <= i < items.len() && (#[trigger] items[i]) is Some
            ==> items[i]->0.id.0 == i,
    ensures
        targets_exist(items),
{
    reveal(graph_ok);
    assert forall|id: ItemId| has_item(items, id) implies has_item(
        items,
        #[trigger] name_target(items, id),
    ) by {
        assert(items[id.0 as int] is Some);
        assert(item_ok(items, root, ItemId(id.0 as int as usize)));
    }
    assert forall|id: ItemId| has_item(items, id) implies has_item(
        items,
        (#[trigger] item_at(items, id)).parent_id,
    ) by {
        assert(items[id.0 as int] is Some);
        assert(item_ok(items, root, ItemId(id.0 as int as usize)));
    }
}

/// A local identifier that was handed out is handed out again.
pub proof fn lemma_claim_stays(items: Seq<Option<Item>>, st: LocalIds, later: LocalIds, id: ItemId)
    requires
        fits(items, st),
        has_item(items, id),
        has_item(items, item_at(items, id).parent_id),
        keeps(claim_local_id(items, st, id).0, later),
    ensures
        keeps(st, claim_local_id(items, st, id).0),
        fits(items, claim_local_id(items, st, id).0),
        claim_local_id(items, later, id) == (later, claim_local_id(items, st, id).1),
{
    let (st1, k) = claim_local_id(items, st, id);
    assert(st1.assigned[id.0 as int] == Some(k));
}

/// The base name of an item stays.
pub proof fn lemma_base_name_stays(
    items: Seq<Option<Item>>,
    st: LocalIds,
    later: LocalIds,
    id: ItemId,
)
    requires
        fits(items, st),
        has_item(items, id),
        has_item(items, item_at(items, id).parent_id),
        keeps(base_name_spec(items, st, id).0, later),
    ensures
        keeps(st, base_name_spec(items, st, id).0),
        fits(items, base_name_spec(items, st, id).0),
        base_name_spec(items, later, id) == (later, base_name_spec(items, st, id).1),
{
    if given_name(items, id) is None && uses_local_id(item_at(items, id)) {
        lemma_claim_stays(items, st, later, id);
    }
}

/// Whether every item of `chain` exists.
pub open spec fn all_exist(items: Seq<Option<Item>>, chain: Seq<ItemId>) -> bool {
    forall|k: int| 0 <= k < chain.len() ==> has_item(items, #[trigger] chain[k])
}

/// Keeping is transitive.
pub proof fn lemma_keeps_trans(a: LocalIds, b: LocalIds, c: LocalIds)
    requires
        keeps(a, b),
        keeps(b, c),
    ensures
        keeps(a, c),
{
    assert forall|i: int| 0 <= i < a.assigned.len() && (#[trigger] a.assigned[i]) is Some
        implies c.assigned[i]
        == a.assigned[i] by {
        assert(b.assigned[i] == a.assigned[i]);
    }
}

/// The names of the scopes of an item stay.
pub proof fn lemma_scope_names_stay(
    items: Seq<Option<Item>>,
    root: ItemId,
    st: LocalIds,
    later: LocalIds,
    chain: Seq<ItemId>,
    within_namespaces: bool,
)
    requires
        fits(items, st),
        targets_exist(items),
        all_exist(items, chain),
        keeps(scope_names(items, root, st, chain, within_namespaces).0, later),
    ensures
        keeps(st, scope_names(items, root, st, chain, within_namespaces).0),
        fits(items, scope_names(items, root, st, chain, within_namespaces).0),
        scope_names(items, root, later, chain, within_namespaces) == (
            later,
            scope_names(items, root, st, chain, within_namespaces).1,
        ),
    decreases chain.len(),
{
    if chain.len() == 0 {
    } else {
        let tail = chain.skip(1);
        assert forall|k: int| 0 <= k < tail.len() implies has_item(items, #[trigger] tail[k]) by {
            assert(tail[k] == chain[k + 1]);
        }
        if chain[0] == root {
            lemma_scope_names_stay(items, root, st, later, tail, within_namespaces);
        } else if within_namespaces && item_at(items, chain[0]).kind is Module {
        } else {
            let t = name_target(items, chain[0]);
            let (st1, name) = base_name_spec(items, st, t);
            let (st2, rest) = scope_names(items, root, st1, tail, within_namespaces);
            lemma_base_name_stays(items, st, st1, t);
            lemma_scope_names_stay(items, root, st1, later, tail, within_namespaces);
            lemma_keeps_trans(st1, st2, later);
            lemma_keeps_trans(st, st1, st2);
            lemma_base_name_stays(items, st, later, t);
        }
    }
}

/// The canonical name of an item stays: computed again, after any number of
/// other names were computed, it is what it was, and hands out nothing.
pub proof fn lemma_name_stays(
    items: Seq<Option<Item>>,
    root: ItemId,
    namespaces: bool,
    st: LocalIds,
    later: LocalIds,
    id: ItemId,
    within_namespaces: bool,
)
    requires
        fits(items, st),
        targets_exist(items),
        has_item(items, id),
        keeps(real_canonical_name_spec(items, root, namespaces, st, id, within_namespaces).0, later),
    ensures
        keeps(st, real_canonical_name_spec(items, root, namespaces, st, id, within_namespaces).0),
        fits(items, real_canonical_name_spec(items, root, namespaces, st, id, within_namespaces).0),
        real_canonical_name_spec(items, root, namespaces, later, id, within_namespaces) == (
            later,
            real_canonical_name_spec(items, root, namespaces, st, id, within_namespaces).1,
        ),
{
    let t = name_target(items, id);
    let target = item_at(items, t);
    if target.annotations.use_instead_of is Some {
    } else {
        let (st1, base) = base_name_spec(items, st, t);
        lemma_base_name_stays(items, st, st1, t);
        if crate::graph::as_named(items, t) is Some {
            lemma_base_name_stays(items, st, later, t);
        } else {
            let chain = ancestors(items, target.parent_id);
            lemma_ancestors_resolve(items, target.parent_id, items.len());
            let (st2, names) = scope_names(items, root, st1, chain, within_namespaces);
            lemma_scope_names_stay(items, root, st1, later, chain, within_namespaces);
            lemma_keeps_trans(st1, st2, later);
            lemma_keeps_trans(st, st1, st2);
            lemma_base_name_stays(items, st, later, t);
        }
    }
}

/// The names along a path stay.
pub proof fn lemma_path_names_stay(
    items: Seq<Option<Item>>,
    root: ItemId,
    namespaces: bool,
    conservative: bool,
    st: LocalIds,
    later: LocalIds,
    chain: Seq<ItemId>,
    target: ItemId,
)
    requires
        fits(items, st),
        targets_exist(items),
        all_exist(items, chain),
        keeps(path_names(items, root, namespaces, conservative, st, chain, target).0, later),
    ensures
        keeps(st, path_names(items, root, namespaces, conservative, st, chain, target).0),
        fits(items, path_names(items, root, namespaces, conservative, st, chain, target).0),
        path_names(items, root, namespaces, conservative, later, chain, target) == (
            later,
            path_names(items, root, namespaces, conservative, st, chain, target).1,
        ),
    decreases chain.len(),
{
    if chain.len() == 0 {
    } else {
        let tail = chain.skip(1);
        assert forall|k: int| 0 <= k < tail.len() implies has_item(items, #[trigger] tail[k]) by {
            assert(tail[k] == chain[k + 1]);
        }
        if in_path(items, target, conservative, chain[0]) {
            let t = name_target(items, chain[0]);
            let (st1, name) = real_canonical_name_spec(items, root, namespaces, st, t, true);
            let (st2, rest) = path_names(items, root, namespaces, conservative, st1, tail, target);
            lemma_name_stays(items, root, namespaces, st, st1, t, true);
            lemma_path_names_stay(items, root, namespaces, conservative, st1, later, tail, target);
            lemma_keeps_trans(st1, st2, later);
            lemma_keeps_trans(st, st1, st2);
            lemma_name_stays(items, root, namespaces, st, later, t, true);
        } else {
            lemma_path_names_stay(items, root, namespaces, conservative, st, later, tail, target);
        }
    }
}

/// Asked twice, a name is given twice: whatever local identifiers were
/// handed out before, the canonical name of an item computed a second time
/// is the name that was computed first, and the second computation hands out
/// no local identifier.
pub proof fn law_names_are_stable(ctx: &Context, st: LocalIds, id: ItemId, within_namespaces: bool)
    requires
        ctx.wf(),
        ctx.codegen,
        ctx.has(id),
        fits(ctx.items@, st),
    ensures
        ({
            let (st1, name) = real_canonical_name_spec(
                ctx.items@,
                ctx.root_module,
                ctx.options.enable_cxx_namespaces,
                st,
                id,
                within_namespaces,
            );
            real_canonical_name_spec(
                ctx.items@,
                ctx.root_module,
                ctx.options.enable_cxx_namespaces,
                st1,
                id,
                within_namespaces,
            ) == (st1, name)
        }),
{
    lemma_targets_exist(ctx.items@, ctx.root_module);
    let st1 = real_canonical_name_spec(
        ctx.items@,
        ctx.root_module,
        ctx.options.enable_cxx_namespaces,
        st,
        id,
        within_namespaces,
    ).0;
    lemma_name_stays(
        ctx.items@,
        ctx.root_module,
        ctx.options.enable_cxx_namespaces,
        st,
        st1,
        id,
        within_namespaces,
    );
}

/// Asked twice, a path is given twice: the canonical path of an item
/// computed a second time is the path that was computed first, also where
/// the names and paths of other items were computed in between.
pub proof fn law_paths_are_stable(ctx: &Context, st: LocalIds, later: LocalIds, id: ItemId)
    requires
        ctx.wf(),
        ctx.codegen,
        ctx.has(id),
        fits(ctx.items@, st),
        keeps(canonical_path_spec(ctx.graph(), st, id).0, later),
    ensures
        canonical_path_spec(ctx.graph(), later, id) == (
            later,
            canonical_path_spec(ctx.graph(), st, id).1,
        ),
        keeps(st, canonical_path_spec(ctx.graph(), st, id).0),
{
    let items = ctx.items@;
    let root = ctx.root_module;
    let ns = ctx.options.enable_cxx_namespaces;
    lemma_targets_exist(items, root);
    if item_at(items, id).annotations.use_instead_of is Some {
        lemma_name_stays(items, root, ns, st, later, root, false);
    } else {
        let t = name_target(items, id);
        lemma_ancestors_resolve(items, t, items.len());
        let chain = ancestors(items, t).push(root);
        assert forall|k: int| 0 <= k < chain.len() implies has_item(items, #[trigger] chain[k]) by {
            if k < chain.len() - 1 {
                assert(chain[k] == ancestors(items, t)[k]);
            }
        }
        lemma_path_names_stay(
            items,
            root,
            ns,
            ctx.options.conservative_inline_namespaces,
            st,
            later,
            chain,
            t,
        );
    }
}

} // verus!
