//! Names and paths: what an item is called in the generated bindings.

use vstd::prelude::*;
use vstd::set_lib::{lemma_int_range, lemma_len_subset, set_int_range};
use crate::context::Context;
use crate::graph::{
    alias_target, ancestors, as_named, graph_ok, has_item, item_at, item_ok,
    lemma_ancestors_resolve, methods_named, name_target, name_target_from, overload_index,
    position,
};
use crate::item::Item;
use crate::item_kind::ItemKind;
use crate::mangle::{mangle_spec, rust_mangle};
use crate::stable::after_queries;
use crate::text::{decimal, join, join_spec, to_decimal, views};
use crate::ty::{ItemId, TypeKind};

verus! {

/// The local identifiers handed out so far: for each item the one it has, if
/// it has one, and for each item the one that its next child will get.
pub struct LocalIds {
    pub assigned: Seq<Option<usize>>,
    pub next_child: Seq<usize>,
}

/// The items that have a local identifier.
pub open spec fn assigned_set(st: LocalIds) -> Set<int> {
    Set::new(|i: int| 0 <= i < st.assigned.len() && st.assigned[i] is Some)
}

/// Whether the local identifiers are consistent with the graph: an item's
/// local identifier is at least one and below the next one of its parent,
/// two children of one parent never share one, and no counter has run ahead
/// of the number of identifiers handed out.
#[verifier::opaque]
pub open spec fn local_ids_ok(items: Seq<Option<Item>>, st: LocalIds) -> bool {
    &&& st.assigned.len() == items.len()
    &&& st.next_child.len() == items.len()
    &&& forall|i: int|
        0 <= i < items.len() && items[i] is Some && (#[trigger] st.assigned[i]) is Some ==> {
            &&& items[i]->0.parent_id.0 < items.len()
            &&& 1 <= st.assigned[i]->0 < st.next_child[items[i]->0.parent_id.0 as int]
        }
    &&& forall|i: int, j: int|
        0 <= i < items.len() && 0 <= j < items.len() && i != j && items[i] is Some
            && items[j] is Some
            && items[i]->0.parent_id == items[j]->0.parent_id && (#[trigger] st.assigned[i]) is Some
            && (#[trigger] st.assigned[j]) is Some ==> st.assigned[i]->0 != st.assigned[j]->0
    &&& forall|p: int|
        0 <= p < items.len() ==> 1 <= (#[trigger] st.next_child[p]) <= 1 + assigned_set(st).len()
}

/// The local identifier of `id`: the one it has, or else the next one of its
/// parent, which is then handed out.
pub open spec fn claim_local_id(items: Seq<Option<Item>>, st: LocalIds, id: ItemId) -> (
    LocalIds,
    usize,
) {
    match st.assigned[id.0 as int] {
        Some(k) => (st, k),
        None => {
            let p = item_at(items, id).parent_id;
            let k = st.next_child[p.0 as int];
            (
                LocalIds {
                    assigned: st.assigned.update(id.0 as int, Some(k)),
                    next_child: st.next_child.update(p.0 as int, (k + 1) as usize),
                },
                k,
            )
        },
    }
}

/// Whether an item is named by its local identifier when it is anonymous:
/// records and enumerations are.
pub open spec fn uses_local_id(item: Item) -> bool {
    match item.kind {
        ItemKind::Type(ty) => ty.kind is Comp || ty.kind is Enum,
        _ => false,
    }
}

/// The identifier that shows in the name of an anonymous item: the local one,
/// in decimal, for a record or an enumeration; `id_` and the global one
/// otherwise.
pub open spec fn exposed_id_spec(items: Seq<Option<Item>>, st: LocalIds, id: ItemId) -> (
    LocalIds,
    Seq<char>,
) {
    if uses_local_id(item_at(items, id)) {
        let (st1, k) = claim_local_id(items, st, id);
        (st1, decimal(k as nat))
    } else {
        (st, "id_"@ + decimal(id.0 as nat))
    }
}

/// The name of a function with its overload index appended where that is
/// above zero.
pub open spec fn function_name(name: Seq<char>, index: Option<nat>) -> Seq<char> {
    match index {
        Some(i) => if i > 0 {
            name + decimal(i)
        } else {
            name
        },
        None => name,
    }
}

/// The name that `id` has whatever local identifiers were handed out: that of
/// a replacement, a variable or a function, and that of a module or a type
/// which has one. `None` for an anonymous module or type.
pub open spec fn given_name(items: Seq<Option<Item>>, id: ItemId) -> Option<Seq<char>> {
    let item = item_at(items, id);
    if item.annotations.use_instead_of is Some {
        Some(item.annotations.use_instead_of->0@.last()@)
    } else {
        match item.kind {
            ItemKind::Var(var) => Some(var.name@),
            ItemKind::Module(module) => match module.name {
                Some(name) => Some(name@),
                None => None,
            },
            ItemKind::Type(ty) => match ty.name {
                Some(name) => Some(name@),
                None => None,
            },
            ItemKind::Function(fun) => Some(function_name(fun.name@, overload_index(items, id))),
        }
    }
}

/// What the name of an anonymous item begins with.
pub open spec fn anonymous_prefix(item: Item) -> Seq<char> {
    if item.kind is Module {
        "_bindgen_mod_"@
    } else {
        "_bindgen_ty_"@
    }
}

/// The name of `id` without its scopes.
///
/// - A replacement: the last segment of the path that it replaces.
/// - A variable: its name. A function: its name, with its overload index.
/// - A module or a type: its name, or `_bindgen_mod_` or `_bindgen_ty_` and
///   the exposed identifier where it has none.
pub open spec fn base_name_spec(items: Seq<Option<Item>>, st: LocalIds, id: ItemId) -> (
    LocalIds,
    Seq<char>,
) {
    match given_name(items, id) {
        Some(name) => (st, name),
        None => {
            let (st1, e) = exposed_id_spec(items, st, id);
            (st1, anonymous_prefix(item_at(items, id)) + e)
        },
    }
}

/// The names of the scopes in `chain`, the nearest first: the root is passed
/// over, the walk stops at the first module where `within_namespaces` is set,
/// each scope gives the base name of the item it goes by, and empty names are
/// dropped.
pub open spec fn scope_names(
    items: Seq<Option<Item>>,
    root: ItemId,
    st: LocalIds,
    chain: Seq<ItemId>,
    within_namespaces: bool,
) -> (LocalIds, Seq<Seq<char>>)
    decreases chain.len(),
{
    if chain.len() == 0 {
        (st, Seq::empty())
    } else if chain[0] == root {
        scope_names(items, root, st, chain.skip(1), within_namespaces)
    } else if within_namespaces && item_at(items, chain[0]).kind is Module {
        (st, Seq::empty())
    } else {
        let (st1, name) = base_name_spec(items, st, name_target(items, chain[0]));
        let (st2, rest) = scope_names(items, root, st1, chain.skip(1), within_namespaces);
        (
            st2,
            if name.len() == 0 {
                rest
            } else {
                seq![name] + rest
            },
        )
    }
}

/// The canonical name of `id`.
///
/// - Where the item that `id` goes by replaces a declaration: the last
///   segment of the replaced path with namespaces enabled, the segments
///   joined by `_` otherwise.
/// - Where it is a template type parameter: its base name as it is.
/// - In every other case: the names of its scopes from the outermost in, then
///   its base name, joined by `_` and mangled.
pub open spec fn real_canonical_name_spec(
    items: Seq<Option<Item>>,
    root: ItemId,
    namespaces: bool,
    st: LocalIds,
    id: ItemId,
    within_namespaces: bool,
) -> (LocalIds, Seq<char>) {
    let t = name_target(items, id);
    let target = item_at(items, t);
    if target.annotations.use_instead_of is Some {
        let path = target.annotations.use_instead_of->0@;
        (
            st,
            if namespaces {
                path.last()@
            } else {
                join_spec(views(path), "_"@)
            },
        )
    } else {
        let (st1, base) = base_name_spec(items, st, t);
        if as_named(items, t) is Some {
            (st1, base)
        } else {
            let (st2, names) = scope_names(
                items,
                root,
                st1,
                ancestors(items, target.parent_id),
                within_namespaces,
            );
            let all = if base.len() == 0 {
                names.reverse()
            } else {
                names.reverse().push(base)
            };
            (st2, mangle_spec(join_spec(all, "_"@)))
        }
    }
}

/// Whether a cached canonical name is one that the naming rules give: the
/// canonical name of its item for some state of the local identifiers.
pub open spec fn is_name_of(
    items: Seq<Option<Item>>,
    root: ItemId,
    namespaces: bool,
    within_namespaces: bool,
    id: ItemId,
    name: Seq<char>,
) -> bool {
    exists|st: LocalIds| #[trigger]
        real_canonical_name_spec(items, root, namespaces, st, id, within_namespaces).1 == name
}

/// Whether canonical names leave the enclosing namespaces out: they do where
/// namespaces are emitted as modules, and where the configuration says so.
pub open spec fn names_within_namespaces(ctx: &Context) -> bool {
    ctx.options.enable_cxx_namespaces || ctx.options.disable_name_namespacing
}

/// Whether every cached canonical name is one that the naming rules give.
#[verifier::opaque]
pub open spec fn cached_names_ok(
    items: Seq<Option<Item>>,
    root: ItemId,
    namespaces: bool,
    within_namespaces: bool,
    names: Seq<Option<String>>,
) -> bool {
    forall|i: int|
        0 <= i < names.len() && (#[trigger] names[i]) is Some ==> is_name_of(
            items,
            root,
            namespaces,
            within_namespaces,
            ItemId(i as usize),
            names[i]->0@,
        )
}

/// The item that `item` passes its name on to, if it does.
pub fn alias_target_of(item: &Item) -> (r: Option<ItemId>)
    ensures
        r == alias_target(*item),
{
    match &item.kind {
        ItemKind::Type(ty) => match &ty.kind {
            TypeKind::ResolvedTypeRef(inner) => Some(*inner),
            TypeKind::TemplateInstantiation(inst) => Some(inst.definition),
            _ => None,
        },
        _ => None,
    }
}

impl Item {
    /// The item whose name `id` goes by: follows resolved type references and
    /// template instantiations to the first item that replaces a declaration
    /// or passes no name on.
    pub fn name_target(ctx: &Context, id: ItemId) -> (r: ItemId)
        ensures
            r == name_target(ctx.items@, id),
    {
        let mut cur = id;
        let mut fuel: usize = ctx.items.len();
        loop
            invariant
                name_target(ctx.items@, id) == name_target_from(ctx.items@, cur, fuel as nat),
            decreases fuel,
        {
            let item = match ctx.resolve_item_fallible(cur) {
                Some(item) => item,
                None => {
                    return cur;
                },
            };
            if item.annotations.use_instead_of.is_some() {
                return cur;
            }
            let next = match alias_target_of(item) {
                Some(next) => next,
                None => {
                    return cur;
                },
            };
            if fuel == 0 {
                return cur;
            }
            cur = next;
            fuel = fuel - 1;
        }
    }

    /// The place of the function `id` among the overloads of its record, or
    /// `None` if `id` is no function or no record lists it.
    pub fn overload_index(ctx: &Context, id: ItemId) -> (r: Option<usize>)
        requires
            ctx.has(id),
            ctx.has(ctx.item(id).parent_id),
        ensures
            r is Some == overload_index(ctx.items@, id) is Some,
            r is Some ==> r->0 == overload_index(ctx.items@, id)->0,
    {
        let item = ctx.resolve_item(id);
        let func_name = match item.func_name() {
            Some(name) => name,
            None => {
                return None;
            },
        };
        let parent = ctx.resolve_item(item.parent_id);
        let ci = match &parent.kind {
            ItemKind::Type(ty) => match &ty.kind {
                TypeKind::Comp(ci) => ci,
                _ => {
                    return None;
                },
            },
            _ => {
                return None;
            },
        };
        let mut found: Option<usize> = None;
        let mut i: usize = 0;
        while i < ci.constructors.len()
            invariant
                i <= ci.constructors@.len(),
                found is Some == position(ci.constructors@.take(i as int), id) is Some,
                found is Some ==> found->0 == position(ci.constructors@.take(i as int), id)->0,
            decreases ci.constructors@.len() - i,
        {
            assert(ci.constructors@.take(i + 1).drop_last() =~= ci.constructors@.take(i as int));
            if found.is_none() && ci.constructors[i] == id {
                found = Some(i);
            }
            i += 1;
        }
        assert(ci.constructors@.take(i as int) =~= ci.constructors@);
        if found.is_some() {
            return found;
        }
        let mut seen: usize = 0;
        let mut j: usize = 0;
        while j < ci.methods.len()
            invariant
                j <= ci.methods@.len(),
                seen <= j,
                seen == methods_named(ctx.items@, ci.methods@.take(j as int), func_name@).len(),
                found is Some == position(
                    methods_named(ctx.items@, ci.methods@.take(j as int), func_name@),
                    id,
                ) is Some,
                found is Some ==> found->0 == position(
                    methods_named(ctx.items@, ci.methods@.take(j as int), func_name@),
                    id,
                )->0,
            decreases ci.methods@.len() - j,
        {
            assert(ci.methods@.take(j + 1).drop_last() =~= ci.methods@.take(j as int));
            let signature = ci.methods[j].signature;
            let same_name = match ctx.resolve_item_fallible(signature) {
                Some(method) => match method.func_name() {
                    Some(name) => *name == *func_name,
                    None => false,
                },
                None => false,
            };
            if same_name {
                let ghost before = methods_named(
                    ctx.items@,
                    ci.methods@.take(j as int),
                    func_name@,
                );
                assert(before.push(signature).drop_last() =~= before);
                if found.is_none() && signature == id {
                    found = Some(seen);
                }
                seen += 1;
            }
            j += 1;
        }
        assert(ci.methods@.take(j as int) =~= ci.methods@);
        found
    }
}

/// In the code-generation phase every item is as `item_ok` says.
pub proof fn lemma_item_ok(ctx: &Context, id: ItemId)
    requires
        ctx.wf_but_guards(),
        ctx.codegen,
        ctx.has(id),
    ensures
        item_ok(ctx.items@, ctx.root_module, id),
        ctx.items@.len() < usize::MAX,
{
    reveal(graph_ok);
    assert(ctx.items@[id.0 as int] is Some);
}

/// Handing out a local identifier keeps the local identifiers consistent,
/// and the counter that it advances has room. The identifier is at least
/// one, and the counter of the parent is above it afterwards.
pub proof fn lemma_claim_local_id(items: Seq<Option<Item>>, st: LocalIds, id: ItemId)
    requires
        items.len() < usize::MAX,
        local_ids_ok(items, st),
        has_item(items, id),
        has_item(items, item_at(items, id).parent_id),
    ensures
        local_ids_ok(items, claim_local_id(items, st, id).0),
        st.assigned[id.0 as int] is None
            ==> st.next_child[item_at(items, id).parent_id.0 as int] + 1
            <= usize::MAX,
        1 <= claim_local_id(items, st, id).1 < claim_local_id(
            items,
            st,
            id,
        ).0.next_child[item_at(items, id).parent_id.0 as int],
{
    reveal(local_ids_ok);
    if st.assigned[id.0 as int] is None {
        let p = item_at(items, id).parent_id;
        let k = st.next_child[p.0 as int];
        let st1 = claim_local_id(items, st, id).0;
        let a = assigned_set(st);
        let a1 = assigned_set(st1);
        lemma_int_range(0, items.len() as int);
        assert(a1 =~= a.insert(id.0 as int));
        assert(a1.subset_of(set_int_range(0, items.len() as int)));
        lemma_len_subset(a1, set_int_range(0, items.len() as int));
        assert(a.subset_of(a1));
        lemma_len_subset(a, a1);
        assert(!a.contains(id.0 as int));
        assert(a1.len() == a.len() + 1);
        assert(k + 1 <= usize::MAX);
        assert forall|i: int|
            0 <= i < items.len() && items[i] is Some
                && (#[trigger] st1.assigned[i]) is Some implies {
            &&& items[i]->0.parent_id.0 < items.len()
            &&& st1.assigned[i]->0 < st1.next_child[items[i]->0.parent_id.0 as int]
        } by {
            if i != id.0 {
                assert(st.assigned[i] is Some);
            }
        }
        assert forall|i: int, j: int|
            0 <= i < items.len() && 0 <= j < items.len() && i != j && items[i] is Some
                && items[j] is Some && items[i]->0.parent_id == items[j]->0.parent_id && (
            #[trigger] st1.assigned[i]) is Some && (#[trigger] st1.assigned[j]) is Some
                implies st1.assigned[i]->0
            != st1.assigned[j]->0 by {
            if i == id.0 {
                assert(st.assigned[j] is Some);
            } else if j == id.0 {
                assert(st.assigned[i] is Some);
            } else {
                assert(st.assigned[i] is Some);
                assert(st.assigned[j] is Some);
            }
        }
        assert forall|q: int| 0 <= q < items.len() implies 1 <= (#[trigger] st1.next_child[q]) <= 1
            + assigned_set(st1).len() by {
            assert(1 <= st.next_child[q] <= 1 + a.len());
        }
    }
}

impl Item {
    /// The identifier that tells `id` from its siblings: the one it has, or
    /// else the next one of its parent, which `id` then keeps. It is at
    /// least one, and below the counter of the parent.
    pub fn local_id(ctx: &mut Context, id: ItemId) -> (r: usize)
        requires
            old(ctx).wf_but_guards(),
            old(ctx).codegen,
            old(ctx).has(id),
        ensures
            final(ctx).wf_but_guards(),
            after_queries(old(ctx), final(ctx)),
            (final(ctx).local_id_state(), r) == claim_local_id(
                old(ctx).items@,
                old(ctx).local_id_state(),
                id,
            ),
            1 <= r < final(ctx).next_child_local_ids@[old(ctx).item(id).parent_id.0 as int],
            *final(ctx) == (Context {
                local_ids: final(ctx).local_ids,
                next_child_local_ids: final(ctx).next_child_local_ids,
                ..*old(ctx)
            }),
    {
        proof {
            lemma_item_ok(ctx, id);
            lemma_claim_local_id(ctx.items@, ctx.local_id_state(), id);
            reveal(local_ids_ok);
        }
        match ctx.local_ids[id.0] {
            Some(k) => k,
            None => {
                let parent = ctx.resolve_item(id).parent_id;
                let k = ctx.next_child_local_ids[parent.0];
                ctx.next_child_local_ids[parent.0] = k + 1;
                ctx.local_ids[id.0] = Some(k);
                assert(ctx.local_id_state() == claim_local_id(
                    old(ctx).items@,
                    old(ctx).local_id_state(),
                    id,
                ).0);
                k
            },
        }
    }

    /// The identifier that shows in the name of `id` where `id` is anonymous.
    pub fn exposed_id(ctx: &mut Context, id: ItemId) -> (r: String)
        requires
            old(ctx).wf_but_guards(),
            old(ctx).codegen,
            old(ctx).has(id),
        ensures
            final(ctx).wf_but_guards(),
            after_queries(old(ctx), final(ctx)),
            (final(ctx).local_id_state(), r@) == exposed_id_spec(
                old(ctx).items@,
                old(ctx).local_id_state(),
                id,
            ),
            *final(ctx) == (Context {
                local_ids: final(ctx).local_ids,
                next_child_local_ids: final(ctx).next_child_local_ids,
                ..*old(ctx)
            }),
    {
        let local = match &ctx.resolve_item(id).kind {
            ItemKind::Type(ty) => match &ty.kind {
                TypeKind::Comp(_) => true,
                TypeKind::Enum(_) => true,
                _ => false,
            },
            _ => false,
        };
        if local {
            let k = Item::local_id(ctx, id);
            to_decimal(k)
        } else {
            let mut s = String::from_str("id_");
            let digits = to_decimal(id.0);
            s.append(digits.as_str());
            s
        }
    }

    /// The name that `id` has whatever local identifiers were handed out, or
    /// `None` for an anonymous module or type.
    pub fn given_name(ctx: &Context, id: ItemId) -> (r: Option<String>)
        requires
            ctx.has(id),
            ctx.has(ctx.item(id).parent_id),
            ctx.item(id).annotations.use_instead_of is Some ==> ctx.item(
                id,
            ).annotations.use_instead_of->0@.len() > 0,
        ensures
            r is Some == given_name(ctx.items@, id) is Some,
            r is Some ==> r->0@ == given_name(ctx.items@, id)->0,
    {
        let item = ctx.resolve_item(id);
        match &item.annotations.use_instead_of {
            Some(path) => {
                return Some(path[path.len() - 1].clone());
            },
            None => {},
        }
        match &item.kind {
            ItemKind::Var(var) => Some(var.name.clone()),
            ItemKind::Module(module) => match &module.name {
                Some(name) => Some(name.clone()),
                None => None,
            },
            ItemKind::Type(ty) => match &ty.name {
                Some(name) => Some(name.clone()),
                None => None,
            },
            ItemKind::Function(fun) => {
                let mut name = fun.name.clone();
                match Item::overload_index(ctx, id) {
                    Some(index) => {
                        if index > 0 {
                            let digits = to_decimal(index);
                            name.append(digits.as_str());
                        }
                    },
                    None => {},
                }
                Some(name)
            },
        }
    }

    /// The name of `id` without its scopes.
    ///
    /// `id` is no resolved type reference, unless it replaces a declaration:
    /// such a reference has no name of its own.
    pub fn base_name(ctx: &mut Context, id: ItemId) -> (r: String)
        requires
            old(ctx).wf_but_guards(),
            old(ctx).codegen,
            old(ctx).has(id),
            old(ctx).item(id).annotations.use_instead_of is Some || !(old(ctx).item(id).kind is Type
                && old(ctx).item(id).kind->Type_0.kind is ResolvedTypeRef),
        ensures
            final(ctx).wf_but_guards(),
            after_queries(old(ctx), final(ctx)),
            (final(ctx).local_id_state(), r@) == base_name_spec(
                old(ctx).items@,
                old(ctx).local_id_state(),
                id,
            ),
            *final(ctx) == (Context {
                local_ids: final(ctx).local_ids,
                next_child_local_ids: final(ctx).next_child_local_ids,
                ..*old(ctx)
            }),
    {
        proof {
            lemma_item_ok(ctx, id);
        }
        match Item::given_name(ctx, id) {
            Some(name) => name,
            None => {
                let mut name = if ctx.resolve_item(id).kind.is_module() {
                    String::from_str("_bindgen_mod_")
                } else {
                    String::from_str("_bindgen_ty_")
                };
                let exposed = Item::exposed_id(ctx, id);
                name.append(exposed.as_str());
                name
            },
        }
    }
}

/// How a name is to be made: for which item, and with or without the names
/// of the namespaces around it.
#[derive(Debug, Clone, Copy)]
pub struct NameOptions {
    pub item: ItemId,
    pub within_namespaces: bool,
}

impl NameOptions {
    /// The options for the full name of `item`, namespaces included.
    pub fn new(item: ItemId) -> (r: Self)
        ensures
            r.item == item,
            !r.within_namespaces,
    {
        NameOptions { item, within_namespaces: false }
    }

    /// Asks for the name within the item's namespace: the names of the
    /// namespaces around the item are then left out.
    pub fn within_namespaces(&mut self) -> (r: &mut Self)
        ensures
            r.item == old(self).item,
            r.within_namespaces,
            *final(self) == *final(r),
    {
        self.within_namespaces = true;
        self
    }

    /// The name that these options ask for.
    pub fn get(&self, ctx: &mut Context) -> (r: String)
        requires
            old(ctx).wf_but_guards(),
            old(ctx).codegen,
            old(ctx).has(self.item),
        ensures
            final(ctx).wf_but_guards(),
            after_queries(old(ctx), final(ctx)),
            (final(ctx).local_id_state(), r@) == real_canonical_name_spec(
                old(ctx).items@,
                old(ctx).root_module,
                old(ctx).options.enable_cxx_namespaces,
                old(ctx).local_id_state(),
                self.item,
                self.within_namespaces,
            ),
            *final(ctx) == (Context {
                local_ids: final(ctx).local_ids,
                next_child_local_ids: final(ctx).next_child_local_ids,
                ..*old(ctx)
            }),
    {
        Item::real_canonical_name(ctx, self.item, self)
    }
}

/// The strings of `v`, the last first.
pub(crate) fn reversed(v: Vec<String>) -> (r: Vec<String>)
    ensures
        views(r@) == views(v@).reverse(),
{
    let mut rest = v;
    let mut out: Vec<String> = Vec::new();
    while rest.len() > 0
        invariant
            out@.len() + rest@.len() == v@.len(),
            forall|k: int| 0 <= k < rest@.len() ==> rest@[k] == v@[k],
            forall|k: int| 0 <= k < out@.len() ==> out@[k] == v@[v@.len() - 1 - k],
        decreases rest@.len(),
    {
        match rest.pop() {
            Some(x) => {
                out.push(x);
            },
            None => {},
        }
    }
    assert(views(out@) =~= views(v@).reverse());
    out
}

/// The names of the scopes in `chain`, the nearest first.
fn scope_names_of(
    ctx: &mut Context,
    chain: &Vec<ItemId>,
    within_namespaces: bool,
) -> (r: Vec<String>)
    requires
        old(ctx).wf_but_guards(),
        old(ctx).codegen,
        forall|k: int| 0 <= k < chain@.len() ==> old(ctx).has(#[trigger] chain@[k]),
    ensures
        final(ctx).wf_but_guards(),
        (final(ctx).local_id_state(), views(r@)) == scope_names(
            old(ctx).items@,
            old(ctx).root_module,
            old(ctx).local_id_state(),
            chain@,
            within_namespaces,
        ),
        *final(ctx) == (Context {
            local_ids: final(ctx).local_ids,
            next_child_local_ids: final(ctx).next_child_local_ids,
            ..*old(ctx)
        }),
{
    let mut out: Vec<String> = Vec::new();
    let mut i: usize = 0;
    let ghost items = ctx.items@;
    let ghost root = ctx.root_module;
    let ghost st0 = ctx.local_id_state();
    assert(chain@.skip(0) =~= chain@);
    assert(views(out@) + scope_names(items, root, st0, chain@, within_namespaces).1 =~= scope_names(
        items,
        root,
        st0,
        chain@,
        within_namespaces,
    ).1);
    while i < chain.len()
        invariant
            i <= chain@.len(),
            ctx.wf_but_guards(),
            ctx.codegen,
            items == ctx.items@,
            root == ctx.root_module,
            st0 == old(ctx).local_id_state(),
            forall|k: int| 0 <= k < chain@.len() ==> has_item(items, #[trigger] chain@[k]),
            *ctx == (Context {
                local_ids: ctx.local_ids,
                next_child_local_ids: ctx.next_child_local_ids,
                ..*old(ctx)
            }),
            scope_names(items, root, st0, chain@, within_namespaces).0 == scope_names(
                items,
                root,
                ctx.local_id_state(),
                chain@.skip(i as int),
                within_namespaces,
            ).0,
            scope_names(items, root, st0, chain@, within_namespaces).1 == views(out@) + scope_names(
                items,
                root,
                ctx.local_id_state(),
                chain@.skip(i as int),
                within_namespaces,
            ).1,
        decreases chain@.len() - i,
    {
        let id = chain[i];
        let ghost st = ctx.local_id_state();
        let ghost rest = chain@.skip(i as int);
        assert(rest[0] == id);
        assert(rest.skip(1) =~= chain@.skip(i + 1));
        if id == ctx.root_module {
            i += 1;
        } else if within_namespaces && ctx.resolve_item(id).kind.is_module() {
            assert(scope_names(items, root, st, rest, within_namespaces) == (
                st,
                Seq::<Seq<char>>::empty(),
            ));
            assert(views(out@) + Seq::<Seq<char>>::empty() =~= views(out@));
            return out;
        } else {
            proof {
                lemma_item_ok(ctx, id);
            }
            let target = Item::name_target(ctx, id);
            let name = Item::base_name(ctx, target);
            let ghost before = views(out@);
            if !name.as_str().is_empty() {
                out.push(name);
                assert(views(out@) =~= before + seq![name@]);
            }
            i += 1;
            proof {
                let tail = scope_names(
                    items,
                    root,
                    ctx.local_id_state(),
                    chain@.skip(i as int),
                    within_namespaces,
                ).1;
                if name@.len() == 0 {
                    assert(views(out@) + tail =~= before + tail);
                } else {
                    assert(views(out@) + tail =~= before + (seq![name@] + tail));
                }
            }
        }
    }
    assert(chain@.skip(i as int).len() == 0);
    assert(views(out@) + Seq::<Seq<char>>::empty() =~= views(out@));
    out
}

impl Item {
    /// The options for the full name of this item.
    pub fn name(&self) -> (r: NameOptions)
        ensures
            r.item == self.id,
            !r.within_namespaces,
    {
        NameOptions::new(self.id)
    }

    /// The canonical name of `id`, made as `opt` asks: with or without the
    /// names of the namespaces around it.
    ///
    /// Items at one level get names that tell them apart; the name is made
    /// of what the item and its ancestors hold, and of the local identifiers
    /// that naming hands out.
    pub fn real_canonical_name(ctx: &mut Context, id: ItemId, opt: &NameOptions) -> (r: String)
        requires
            old(ctx).wf_but_guards(),
            old(ctx).codegen,
            old(ctx).has(id),
        ensures
            final(ctx).wf_but_guards(),
            after_queries(old(ctx), final(ctx)),
            (final(ctx).local_id_state(), r@) == real_canonical_name_spec(
                old(ctx).items@,
                old(ctx).root_module,
                old(ctx).options.enable_cxx_namespaces,
                old(ctx).local_id_state(),
                id,
                opt.within_namespaces,
            ),
            *final(ctx) == (Context {
                local_ids: final(ctx).local_ids,
                next_child_local_ids: final(ctx).next_child_local_ids,
                ..*old(ctx)
            }),
    {
        proof {
            lemma_item_ok(ctx, id);
        }
        let t = Item::name_target(ctx, id);
        proof {
            lemma_item_ok(ctx, t);
        }
        match &ctx.resolve_item(t).annotations.use_instead_of {
            Some(path) => {
                if ctx.options.enable_cxx_namespaces {
                    return path[path.len() - 1].clone();
                }
                return join(path, "_");
            },
            None => {},
        }
        let base = Item::base_name(ctx, t);
        if t.as_named(ctx).is_some() {
            return base;
        }
        let parent = ctx.resolve_item(t).parent_id;
        let chain = ctx.ancestors_of(parent);
        proof {
            lemma_ancestors_resolve(ctx.items@, parent, ctx.items@.len() as nat);
        }
        let names = scope_names_of(ctx, &chain, opt.within_namespaces);
        let mut all = reversed(names);
        if !base.as_str().is_empty() {
            let ghost before = views(all@);
            all.push(base);
            assert(views(all@) =~= before.push(base@));
        }
        let name = join(&all, "_");
        rust_mangle(name.as_str())
    }
}

} // verus!
