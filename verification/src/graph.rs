//! The mathematical model of the item graph: the table of items as a sequence
//! indexed by identifier, and what can be read off it.

use vstd::prelude::*;
use vstd::set_lib::{lemma_int_range, lemma_len_subset, set_int_range};
use crate::item::Item;
use crate::item_kind::ItemKind;
use crate::traversal::item_edges;
use crate::ty::{ItemId, Method, TypeKind};

verus! {

/// Whether `id` names an item of the table.
pub open spec fn has_item(items: Seq<Option<Item>>, id: ItemId) -> bool {
    id.0 < items.len() && items[id.0 as int] is Some
}

/// The item that `id` names.
pub open spec fn item_at(items: Seq<Option<Item>>, id: ItemId) -> Item
    recommends
        has_item(items, id),
{
    items[id.0 as int]->0
}

/// `id`, then its parent, and so on, up to and without the item that is its
/// own parent; the walk also ends at an identifier that names no item, and
/// after `fuel` steps.
pub open spec fn ancestors_from(items: Seq<Option<Item>>, id: ItemId, fuel: nat) -> Seq<ItemId>
    decreases fuel,
{
    if fuel == 0 || !has_item(items, id) || item_at(items, id).parent_id == id {
        Seq::empty()
    } else {
        seq![id] + ancestors_from(items, item_at(items, id).parent_id, (fuel - 1) as nat)
    }
}

/// The ancestors of `id`, itself first, the root left out. No walk over
/// distinct items is longer than the table, so that is the bound.
pub open spec fn ancestors(items: Seq<Option<Item>>, id: ItemId) -> Seq<ItemId> {
    ancestors_from(items, id, items.len())
}

/// Whether the parent links lead from `id` to `root` in at most `fuel` steps,
/// through items that exist and are not their own parent.
pub open spec fn reaches_root(items: Seq<Option<Item>>, root: ItemId, id: ItemId, fuel: nat) -> bool
    decreases fuel,
{
    has_item(items, id) && (id == root || (fuel > 0 && item_at(items, id).parent_id != id
        && reaches_root(items, root, item_at(items, id).parent_id, (fuel - 1) as nat)))
}

/// The item that names `item`, where `item` only passes a name on: the target
/// of a resolved type reference, the template of an instantiation.
pub open spec fn alias_target(item: Item) -> Option<ItemId> {
    match item.kind {
        ItemKind::Type(ty) => match ty.kind {
            TypeKind::ResolvedTypeRef(inner) => Some(inner),
            TypeKind::TemplateInstantiation(inst) => Some(inst.definition),
            _ => None,
        },
        _ => None,
    }
}

/// Follows resolved type references and template instantiations from `id` to
/// the first item that replaces another declaration or passes no name on. The
/// walk also ends at an identifier that names no item, and after `fuel` steps.
pub open spec fn name_target_from(items: Seq<Option<Item>>, id: ItemId, fuel: nat) -> ItemId
    decreases fuel,
{
    if !has_item(items, id) || item_at(items, id).annotations.use_instead_of is Some
        || alias_target(item_at(items, id)) is None || fuel == 0 {
        id
    } else {
        name_target_from(items, alias_target(item_at(items, id))->0, (fuel - 1) as nat)
    }
}

/// The item whose name `id` goes by.
pub open spec fn name_target(items: Seq<Option<Item>>, id: ItemId) -> ItemId {
    name_target_from(items, id, items.len())
}

/// Whether `id` is an item that has a name of its own: it exists, and it
/// replaces another declaration or passes no name on.
pub open spec fn names_itself(items: Seq<Option<Item>>, id: ItemId) -> bool {
    has_item(items, id) && (item_at(items, id).annotations.use_instead_of is Some || alias_target(
        item_at(items, id),
    ) is None)
}

/// The template type parameter that the type `id` stands for: itself where it
/// is one, the one that an alias or a resolved reference leads to otherwise.
pub open spec fn as_named_from(items: Seq<Option<Item>>, id: ItemId, fuel: nat) -> Option<ItemId>
    decreases fuel,
{
    if !has_item(items, id) {
        None
    } else {
        match item_at(items, id).kind {
            ItemKind::Type(ty) => match ty.kind {
                TypeKind::Named => Some(id),
                TypeKind::ResolvedTypeRef(inner) => if fuel == 0 {
                    None
                } else {
                    as_named_from(items, inner, (fuel - 1) as nat)
                },
                TypeKind::Alias(inner) => if fuel == 0 {
                    None
                } else {
                    as_named_from(items, inner, (fuel - 1) as nat)
                },
                _ => None,
            },
            _ => None,
        }
    }
}

/// The template type parameter that `id` stands for, if any.
pub open spec fn as_named(items: Seq<Option<Item>>, id: ItemId) -> Option<ItemId> {
    as_named_from(items, id, items.len())
}

/// The first position of `x` in `s`.
pub open spec fn position(s: Seq<ItemId>, x: ItemId) -> Option<nat>
    decreases s.len(),
{
    if s.len() == 0 {
        None
    } else {
        match position(s.drop_last(), x) {
            Some(p) => Some(p),
            None => if s.last() == x {
                Some((s.len() - 1) as nat)
            } else {
                None
            },
        }
    }
}

/// Whether `id` names a function called `name`.
pub open spec fn is_function_named(items: Seq<Option<Item>>, id: ItemId, name: Seq<char>) -> bool {
    has_item(items, id) && item_at(items, id).kind is Function && item_at(
        items,
        id,
    ).kind->Function_0.name@ == name
}

/// The function items of those of `methods` that are called `name`, in order.
pub open spec fn methods_named(
    items: Seq<Option<Item>>,
    methods: Seq<Method>,
    name: Seq<char>,
) -> Seq<ItemId>
    decreases methods.len(),
{
    if methods.len() == 0 {
        Seq::empty()
    } else if is_function_named(items, methods.last().signature, name) {
        methods_named(items, methods.drop_last(), name).push(methods.last().signature)
    } else {
        methods_named(items, methods.drop_last(), name)
    }
}

/// The place of the function `id` among the overloads of its record: its
/// position among the constructors if it is one, else its position among the
/// methods of its name. `None` where `id` is no function, its parent no
/// record, or the record does not list it.
pub open spec fn overload_index(items: Seq<Option<Item>>, id: ItemId) -> Option<nat>
    recommends
        has_item(items, id),
        has_item(items, item_at(items, id).parent_id),
{
    let item = item_at(items, id);
    let parent = item_at(items, item.parent_id);
    match item.kind {
        ItemKind::Function(fun) => match parent.kind {
            ItemKind::Type(ty) => match ty.kind {
                TypeKind::Comp(ci) => match position(ci.constructors@, id) {
                    Some(p) => Some(p),
                    None => position(methods_named(items, ci.methods@, fun.name@), id),
                },
                _ => None,
            },
            _ => None,
        },
        _ => None,
    }
}

/// Whether an item of this kind may enclose others: a module, or a record.
pub open spec fn is_scope(item: Item) -> bool {
    match item.kind {
        ItemKind::Module(_) => true,
        ItemKind::Type(ty) => ty.kind is Comp,
        _ => false,
    }
}

/// Whether every method that the record `item` lists is a function item.
pub open spec fn methods_are_functions(items: Seq<Option<Item>>, item: Item) -> bool {
    match item.kind {
        ItemKind::Type(ty) => match ty.kind {
            TypeKind::Comp(ci) => forall|k: int|
                0 <= k < ci.methods@.len()
                    ==> has_item(items, (#[trigger] ci.methods@[k]).signature)
                    && item_at(items, ci.methods@[k].signature).kind is Function,
            _ => true,
        },
        _ => true,
    }
}

/// Whether every edge out of `item` leads to an item of the table.
pub open spec fn edges_resolve(items: Seq<Option<Item>>, item: Item) -> bool {
    forall|k: int|
        0 <= k < item_edges(item).len() ==> has_item(items, (#[trigger] item_edges(item)[k]).to)
}

/// What holds of every item of a finished graph.
///
/// - Its parent links lead to the root; unless it is the root, its parent is
///   a module or a record.
/// - The item whose name it goes by exists and has a name of its own.
/// - A replacement names a path of at least one segment.
/// - It is no unresolved forward reference.
/// - Every identifier that it refers to names an item, and the methods that a
///   record lists are functions.
pub open spec fn item_ok(items: Seq<Option<Item>>, root: ItemId, id: ItemId) -> bool {
    let item = item_at(items, id);
    &&& item.id == id
    &&& reaches_root(items, root, id, items.len())
    &&& id != root ==> item.parent_id != id && has_item(items, item.parent_id) && is_scope(
        item_at(items, item.parent_id),
    )
    &&& id == root ==> item.parent_id == id && item.kind is Module
    &&& names_itself(items, name_target(items, id))
    &&& item.annotations.use_instead_of is Some ==> item.annotations.use_instead_of->0@.len() > 0
    &&& !(item.kind is Type && item.kind->Type_0.kind is UnresolvedTypeRef)
    &&& edges_resolve(items, item)
    &&& methods_are_functions(items, item)
}

/// Whether the table is a finished graph with the given root: it is not
/// full, and every item of it is as [`item_ok`] says.
#[verifier::opaque]
pub open spec fn graph_ok(items: Seq<Option<Item>>, root: ItemId) -> bool {
    &&& items.len() < usize::MAX
    &&& has_item(items, root)
    &&& forall|i: int|
        0 <= i < items.len() && (#[trigger] items[i]) is Some
            ==> item_ok(items, root, ItemId(i as usize))
}

/// Every identifier of a walk up the parents names an item that is not its
/// own parent, each is the parent of the one before, and the walk is no longer
/// than its bound.
pub proof fn lemma_ancestors_resolve(items: Seq<Option<Item>>, id: ItemId, fuel: nat)
    ensures
        ancestors_from(items, id, fuel).len() <= fuel,
        forall|k: int|
            0 <= k < ancestors_from(items, id, fuel).len() ==> has_item(
                items,
                #[trigger] ancestors_from(items, id, fuel)[k],
            ) && item_at(items, ancestors_from(items, id, fuel)[k]).parent_id != ancestors_from(
                items,
                id,
                fuel,
            )[k],
        ancestors_from(items, id, fuel).len() > 0 ==> ancestors_from(items, id, fuel)[0] == id,
        forall|k: int|
            0 < k < ancestors_from(items, id, fuel).len() ==> #[trigger] ancestors_from(
                items,
                id,
                fuel,
            )[k] == item_at(items, ancestors_from(items, id, fuel)[k - 1]).parent_id,
    decreases fuel,
{
    if fuel == 0 || !has_item(items, id) || item_at(items, id).parent_id == id {
    } else {
        let p = item_at(items, id).parent_id;
        lemma_ancestors_resolve(items, p, (fuel - 1) as nat);
        let rest = ancestors_from(items, p, (fuel - 1) as nat);
        let all = ancestors_from(items, id, fuel);
        assert(all == seq![id] + rest);
        assert forall|k: int| 0 < k < all.len() implies #[trigger] all[k] == item_at(
            items,
            all[k - 1],
        ).parent_id by {
            if k == 1 {
                assert(all[1] == rest[0]);
            } else {
                assert(all[k] == rest[k - 1]);
                assert(all[k - 1] == rest[k - 2]);
            }
        }
    }
}

/// Where the parent links lead from `id` to the root within the bound, the
/// walk up from `id` ends just below the root: its last item is a child of the
/// root, and an empty walk means that `id` is the root.
pub proof fn lemma_ancestors_end_at_root(
    items: Seq<Option<Item>>,
    root: ItemId,
    id: ItemId,
    fuel: nat,
)
    requires
        has_item(items, root),
        item_at(items, root).parent_id == root,
        reaches_root(items, root, id, fuel),
    ensures
        ancestors_from(items, id, fuel).len() == 0 ==> id == root,
        ancestors_from(items, id, fuel).len() > 0 ==> item_at(
            items,
            ancestors_from(items, id, fuel).last(),
        ).parent_id == root,
        forall|k: int|
            0 <= k < ancestors_from(items, id, fuel).len() ==> #[trigger] ancestors_from(
                items,
                id,
                fuel,
            )[k] != root,
    decreases fuel,
{
    if id == root {
    } else {
        let p = item_at(items, id).parent_id;
        lemma_ancestors_end_at_root(items, root, p, (fuel - 1) as nat);
        let rest = ancestors_from(items, p, (fuel - 1) as nat);
        let all = ancestors_from(items, id, fuel);
        assert(all == seq![id] + rest);
        if rest.len() > 0 {
            assert(all.last() == rest.last());
        } else {
            assert(all.last() == id);
        }
        assert forall|k: int| 0 <= k < all.len() implies #[trigger] all[k] != root by {
            if k > 0 {
                assert(all[k] == rest[k - 1]);
            }
        }
    }
}

/// A walk up to the root does not depend on how many steps it is given, as
/// long as they are enough to reach the root.
pub proof fn lemma_ancestors_any_bound(
    items: Seq<Option<Item>>,
    root: ItemId,
    id: ItemId,
    one: nat,
    other: nat,
)
    requires
        has_item(items, root),
        item_at(items, root).parent_id == root,
        reaches_root(items, root, id, one),
        reaches_root(items, root, id, other),
    ensures
        ancestors_from(items, id, one) == ancestors_from(items, id, other),
    decreases one,
{
    if id != root {
        let p = item_at(items, id).parent_id;
        lemma_ancestors_any_bound(items, root, p, (one - 1) as nat, (other - 1) as nat);
    }
}

/// What is left of a walk up to the root after `k` steps is the walk from
/// where it stands then.
pub proof fn lemma_ancestors_rest(
    items: Seq<Option<Item>>,
    root: ItemId,
    id: ItemId,
    fuel: nat,
    k: int,
)
    requires
        has_item(items, root),
        item_at(items, root).parent_id == root,
        reaches_root(items, root, id, fuel),
        0 <= k < ancestors_from(items, id, fuel).len(),
    ensures
        k <= fuel,
        reaches_root(items, root, ancestors_from(items, id, fuel)[k], (fuel - k) as nat),
        ancestors_from(items, ancestors_from(items, id, fuel)[k], (fuel - k) as nat)
            == ancestors_from(items, id, fuel).skip(k),
    decreases fuel,
{
    let all = ancestors_from(items, id, fuel);
    if k == 0 {
        assert(all.skip(0) =~= all);
    } else {
        let p = item_at(items, id).parent_id;
        let rest = ancestors_from(items, p, (fuel - 1) as nat);
        assert(all == seq![id] + rest);
        lemma_ancestors_rest(items, root, p, (fuel - 1) as nat, k - 1);
        assert(all[k] == rest[k - 1]);
        assert(all.skip(k) =~= rest.skip(k - 1));
    }
}

/// A walk up to the root passes no item twice.
pub proof fn lemma_ancestors_distinct(
    items: Seq<Option<Item>>,
    root: ItemId,
    id: ItemId,
    fuel: nat,
)
    requires
        has_item(items, root),
        item_at(items, root).parent_id == root,
        reaches_root(items, root, id, fuel),
    ensures
        ancestors_from(items, id, fuel).no_duplicates(),
    decreases fuel,
{
    if id != root {
        let p = item_at(items, id).parent_id;
        let rest = ancestors_from(items, p, (fuel - 1) as nat);
        let all = ancestors_from(items, id, fuel);
        assert(all == seq![id] + rest);
        lemma_ancestors_distinct(items, root, p, (fuel - 1) as nat);
        assert forall|k: int| 0 <= k < rest.len() implies #[trigger] rest[k] != id by {
            if rest[k] == id {
                lemma_ancestors_rest(items, root, p, (fuel - 1) as nat, k);
                lemma_ancestors_any_bound(items, root, id, fuel, (fuel - 1 - k) as nat);
                assert(all.len() == rest.len() + 1);
                assert(rest.skip(k).len() == rest.len() - k);
            }
        }
        assert forall|i: int, j: int|
            0 <= i < all.len() && 0 <= j < all.len() && i != j implies all[i] != all[j] by {
            if i > 0 {
                assert(all[i] == rest[i - 1]);
            }
            if j > 0 {
                assert(all[j] == rest[j - 1]);
            }
        }
    }
}

/// Items that differ from each other and from `root`, all of a table of `n`
/// identifiers that `root` is one of, are fewer than `n`.
pub proof fn lemma_distinct_are_few(walk: Seq<ItemId>, root: ItemId, n: nat)
    requires
        walk.no_duplicates(),
        root.0 < n,
        forall|k: int| 0 <= k < walk.len() ==> (#[trigger] walk[k]).0 < n && walk[k] != root,
    ensures
        walk.len() < n,
{
    let numbers = Seq::new(walk.len(), |k: int| walk[k].0 as int);
    assert forall|i: int, j: int|
        0 <= i < numbers.len() && 0 <= j < numbers.len() && i != j implies numbers[i]
        != numbers[j] by {
        assert(walk[i] != walk[j]);
    }
    numbers.unique_seq_to_set();
    let all = set_int_range(0, n as int);
    let others = all.remove(root.0 as int);
    lemma_int_range(0, n as int);
    assert forall|x: int| numbers.to_set().contains(x) implies others.contains(x) by {
        let k = choose|k: int| 0 <= k < numbers.len() && numbers[k] == x;
        assert(walk[k].0 < n && walk[k] != root);
    }
    lemma_len_subset(numbers.to_set(), others);
}

} // verus!
