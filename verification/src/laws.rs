//! What holds of every context in the code-generation phase.

use vstd::prelude::*;
use crate::canonical::canonical_name_spec;
use crate::context::Context;
use crate::derive::{lemma_guard_up, unguarded};
use crate::graph::{
    ancestors, is_function_named, is_scope, lemma_ancestors_distinct, lemma_ancestors_end_at_root,
    lemma_ancestors_resolve, lemma_distinct_are_few, methods_named, name_target, overload_index,
    position,
};
use crate::item::Item;
use crate::naming::{
    base_name_spec, cached_names_ok, claim_local_id, function_name, given_name,
    lemma_claim_local_id, lemma_item_ok, local_ids_ok, names_within_namespaces,
    real_canonical_name_spec, uses_local_id, LocalIds,
};
use crate::parse::{extends, is_new, is_placeholder};
use crate::text::{decimal, lemma_decimal_injective, lemma_decimal_nonempty};
use crate::ty::{ItemId, Method};

verus! {

/// Every item but the root has a parent other than itself, which exists and
/// is a module or a record; the root is a module and its own parent, and the
/// only item that is.
pub proof fn law_parent_is_scope(ctx: &Context, id: ItemId)
    requires
        ctx.wf(),
        ctx.codegen,
        ctx.has(id),
    ensures
        (id == ctx.root_module) == (ctx.item(id).parent_id == id),
        id == ctx.root_module ==> ctx.item(id).kind is Module,
        id != ctx.root_module ==> ctx.has(ctx.item(id).parent_id) && is_scope(
            ctx.item(ctx.item(id).parent_id),
        ),
{
    lemma_item_ok(ctx, id);
}

/// The walk over the ancestors of an item is finite and ends at the root: it
/// passes no item twice and never the root, so it is shorter than the table;
/// every item of it exists, each is the parent of the one before, and the
/// parent of the last is the root. The walk is empty for the root alone.
pub proof fn law_ancestors_end_at_root(ctx: &Context, id: ItemId)
    requires
        ctx.wf(),
        ctx.codegen,
        ctx.has(id),
    ensures
        ancestors(ctx.items@, id).len() < ctx.items@.len(),
        ancestors(ctx.items@, id).no_duplicates(),
        forall|k: int|
            0 <= k < ancestors(ctx.items@, id).len() ==> ctx.has(
                #[trigger] ancestors(ctx.items@, id)[k],
            ) && ancestors(ctx.items@, id)[k] != ctx.root_module,
        forall|k: int|
            0 < k < ancestors(ctx.items@, id).len() ==> #[trigger] ancestors(ctx.items@, id)[k]
                == ctx.item(ancestors(ctx.items@, id)[k - 1]).parent_id,
        ancestors(ctx.items@, id).len() == 0 <==> id == ctx.root_module,
        ancestors(ctx.items@, id).len() > 0 ==> ancestors(ctx.items@, id)[0] == id && ctx.item(
            ancestors(ctx.items@, id).last(),
        ).parent_id == ctx.root_module,
{
    lemma_item_ok(ctx, id);
    lemma_ancestors_resolve(ctx.items@, id, ctx.items@.len() as nat);
    lemma_ancestors_end_at_root(ctx.items@, ctx.root_module, id, ctx.items@.len() as nat);
    lemma_ancestors_distinct(ctx.items@, ctx.root_module, id, ctx.items@.len() as nat);
    lemma_distinct_are_few(ancestors(ctx.items@, id), ctx.root_module, ctx.items@.len());
}

/// Once the canonical name of an item is cached, every query for it gives
/// the cached name and hands out no local identifier.
pub proof fn law_canonical_name_is_cached(ctx: &Context, id: ItemId)
    requires
        ctx.wf(),
        ctx.codegen,
        ctx.has(id),
        ctx.canonical_names@[id.0 as int] is Some,
    ensures
        canonical_name_spec(ctx, id) == (
            ctx.local_id_state(),
            ctx.canonical_names@[id.0 as int]->0@,
        ),
{
}

/// With namespaces enabled, the canonical name of an item that replaces a
/// declaration is the last segment of the replaced path, cached or not.
pub proof fn law_replacement_name(ctx: &Context, id: ItemId)
    requires
        ctx.wf(),
        ctx.codegen,
        ctx.has(id),
        ctx.item(id).annotations.use_instead_of is Some,
        ctx.options.enable_cxx_namespaces,
    ensures
        canonical_name_spec(ctx, id).1 == ctx.item(id).annotations.use_instead_of->0@.last()@,
{
    reveal(cached_names_ok);
    assert(name_target(ctx.items@, id) == id);
    if ctx.canonical_names@[id.0 as int] is Some {
        let name = ctx.canonical_names@[id.0 as int]->0@;
        let st = choose|st: LocalIds| #[trigger]
            real_canonical_name_spec(
                ctx.items@,
                ctx.root_module,
                ctx.options.enable_cxx_namespaces,
                st,
                id,
                names_within_namespaces(ctx),
            ).1 == name;
    }
}

/// Once the forward references are collected, no step of the parse leaves a
/// forward reference behind: whatever item a step adds is no placeholder.
pub proof fn law_no_placeholder_after_collection(
    before: &Context,
    after: &Context,
    own: Option<ItemId>,
    i: int,
)
    requires
        extends(before, after, own),
        before.collected_typerefs,
        is_new(before, after, i),
    ensures
        after.collected_typerefs,
        !is_placeholder(after.items@[i]->0),
{
}

/// A derive query ends on every graph: each item that it enters puts up a
/// guard that was down, which leaves one guard less down, and there are no
/// more guards down than there are items. So the queries nest no deeper than
/// the table is long.
pub proof fn law_derive_queries_end(flags: Seq<bool>, entered: int)
    requires
        0 <= entered < flags.len(),
        !flags[entered],
    ensures
        unguarded(flags.update(entered, true)) < unguarded(flags),
        unguarded(flags) <= flags.len(),
{
    lemma_guard_up(flags, entered);
    lemma_unguarded_bound(flags);
}

/// No more guards are down than there are guards.
pub proof fn lemma_unguarded_bound(flags: Seq<bool>)
    ensures
        unguarded(flags) <= flags.len(),
    decreases flags.len(),
{
    if flags.len() > 0 {
        lemma_unguarded_bound(flags.drop_last());
    }
}

/// What stands behind an equal prefix is equal where the whole is.
pub proof fn lemma_same_prefix(a: Seq<char>, x: Seq<char>, y: Seq<char>)
    requires
        a + x == a + y,
    ensures
        x == y,
{
    assert((a + x).skip(a.len() as int) =~= x);
    assert((a + y).skip(a.len() as int) =~= y);
}

/// Two anonymous records or enumerations in one scope get different names:
/// whatever local identifiers were handed out before, naming the one and then
/// the other gives them different local identifiers and so different base
/// names. Both identifiers are at least one, and the counter of their scope
/// is above both.
pub proof fn law_anonymous_siblings_differ(ctx: &Context, st: LocalIds, i: ItemId, j: ItemId)
    requires
        ctx.wf(),
        ctx.codegen,
        local_ids_ok(ctx.items@, st),
        ctx.has(i),
        ctx.has(j),
        i != j,
        ctx.item(i).parent_id == ctx.item(j).parent_id,
        uses_local_id(ctx.item(i)),
        uses_local_id(ctx.item(j)),
        given_name(ctx.items@, i) is None,
        given_name(ctx.items@, j) is None,
    ensures
        ({
            let (st1, first) = base_name_spec(ctx.items@, st, i);
            let (st2, second) = base_name_spec(ctx.items@, st1, j);
            &&& first != second
            &&& st2.assigned[i.0 as int] is Some
            &&& st2.assigned[j.0 as int] is Some
            &&& st2.assigned[i.0 as int] != st2.assigned[j.0 as int]
            &&& 1 <= st2.assigned[i.0 as int]->0 < st2.next_child[ctx.item(i).parent_id.0 as int]
            &&& 1 <= st2.assigned[j.0 as int]->0 < st2.next_child[ctx.item(i).parent_id.0 as int]
        }),
{
    let items = ctx.items@;
    lemma_item_ok(ctx, i);
    lemma_item_ok(ctx, j);
    let (st1, k1) = claim_local_id(items, st, i);
    lemma_claim_local_id(items, st, i);
    let (st2, k2) = claim_local_id(items, st1, j);
    lemma_claim_local_id(items, st1, j);
    reveal(local_ids_ok);
    assert(st.assigned.len() == items.len());
    assert(st1.assigned[i.0 as int] == Some(k1));
    assert(st2.assigned[j.0 as int] == Some(k2));
    assert(st2.assigned[i.0 as int] == Some(k1));
    assert(items[i.0 as int] is Some && items[j.0 as int] is Some);
    assert(k1 != k2);
    let (once, first) = base_name_spec(items, st, i);
    let (twice, second) = base_name_spec(items, once, j);
    assert(once == st1);
    assert(twice == st2);
    assert(first == "_bindgen_ty_"@ + decimal(k1 as nat));
    assert(second == "_bindgen_ty_"@ + decimal(k2 as nat));
    if first == second {
        lemma_same_prefix("_bindgen_ty_"@, decimal(k1 as nat), decimal(k2 as nat));
        lemma_decimal_injective(k1 as nat, k2 as nat);
    }
}

/// Where `x` is found in `s`, it stands at the position found.
pub proof fn lemma_position_finds(s: Seq<ItemId>, x: ItemId)
    ensures
        position(s, x) is Some ==> position(s, x)->0 < s.len() && s[position(s, x)->0 as int] == x,
        position(s, x) is None ==> !s.contains(x),
    decreases s.len(),
{
    if s.len() > 0 {
        lemma_position_finds(s.drop_last(), x);
        if position(s.drop_last(), x) is None && s.last() != x {
            assert forall|k: int| 0 <= k < s.len() implies s[k] != x by {
                if k < s.len() - 1 {
                    assert(s.drop_last()[k] == s[k]);
                }
            }
        }
    }
}

/// A method that a record lists under the name `name` is among its methods
/// of that name.
pub proof fn lemma_method_is_listed(
    items: Seq<Option<Item>>,
    methods: Seq<Method>,
    name: Seq<char>,
    k: int,
)
    requires
        0 <= k < methods.len(),
        is_function_named(items, methods[k].signature, name),
    ensures
        methods_named(items, methods, name).contains(methods[k].signature),
    decreases methods.len(),
{
    let all = methods_named(items, methods, name);
    if k == methods.len() - 1 {
        assert(all.last() == methods[k].signature);
    } else {
        lemma_method_is_listed(items, methods.drop_last(), name, k);
        let before = methods_named(items, methods.drop_last(), name);
        let w = choose|w: int| 0 <= w < before.len() && before[w] == methods[k].signature;
        assert(all[w] == methods[k].signature);
    }
}

/// Two functions of one name differ in their base names if they are two
/// methods of one record, or two of its constructors: their overload indices
/// differ.
pub proof fn law_overloads_differ(ctx: &Context, i: ItemId, j: ItemId, a: int, b: int)
    requires
        ctx.wf(),
        ctx.codegen,
        ctx.has(i),
        ctx.has(j),
        i != j,
        ctx.item(i).parent_id == ctx.item(j).parent_id,
        ctx.item(i).kind is Function,
        ctx.item(j).kind is Function,
        ctx.item(i).kind->Function_0.name@ == ctx.item(j).kind->Function_0.name@,
        ctx.item(i).annotations.use_instead_of is None,
        ctx.item(j).annotations.use_instead_of is None,
        ctx.item(ctx.item(i).parent_id).kind is Type,
        ctx.item(ctx.item(i).parent_id).kind->Type_0.kind is Comp,
        ({
            let ci = ctx.item(ctx.item(i).parent_id).kind->Type_0.kind->Comp_0;
            ||| {
                &&& 0 <= a < ci.constructors@.len() && ci.constructors@[a] == i
                &&& 0 <= b < ci.constructors@.len() && ci.constructors@[b] == j
            }
            ||| {
                &&& !ci.constructors@.contains(i) && !ci.constructors@.contains(j)
                &&& 0 <= a < ci.methods@.len() && ci.methods@[a].signature == i
                &&& 0 <= b < ci.methods@.len() && ci.methods@[b].signature == j
            }
        }),
    ensures
        overload_index(ctx.items@, i) is Some,
        overload_index(ctx.items@, j) is Some,
        overload_index(ctx.items@, i) != overload_index(ctx.items@, j),
        given_name(ctx.items@, i) != given_name(ctx.items@, j),
{
    let items = ctx.items@;
    let ci = ctx.item(ctx.item(i).parent_id).kind->Type_0.kind->Comp_0;
    let name = ctx.item(i).kind->Function_0.name@;
    lemma_position_finds(ci.constructors@, i);
    lemma_position_finds(ci.constructors@, j);
    let named = methods_named(items, ci.methods@, name);
    lemma_position_finds(named, i);
    lemma_position_finds(named, j);
    if !ci.constructors@.contains(i) {
        lemma_method_is_listed(items, ci.methods@, name, a);
        lemma_method_is_listed(items, ci.methods@, name, b);
    }
    let p = overload_index(items, i)->0;
    let q = overload_index(items, j)->0;
    assert(p != q);
    let n1 = function_name(name, Some(p));
    let n2 = function_name(name, Some(q));
    lemma_decimal_nonempty(p);
    lemma_decimal_nonempty(q);
    if n1 == n2 {
        if p == 0 {
            assert(n2.len() == name.len() + decimal(q).len());
        } else if q == 0 {
            assert(n1.len() == name.len() + decimal(p).len());
        } else {
            lemma_same_prefix(name, decimal(p), decimal(q));
            lemma_decimal_injective(p, q);
        }
    }
}

} // verus!
