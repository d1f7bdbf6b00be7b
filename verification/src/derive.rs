//! Which traits the target language can derive for an item.
//!
//! The type graph may be cyclic. Each query puts up a guard at the item that
//! it enters and takes it down when it leaves; a query that comes back to a
//! guarded item answers at once. So every query ends, on every graph.

use vstd::prelude::*;
use crate::context::{Context, Graph};
use crate::graph::{has_item, item_at};
use crate::item::Item;
use crate::item_kind::ItemKind;
use crate::layout::{blob_derives, DERIVE_IN_ARRAY_LIMIT, Layout};
use crate::naming::LocalIds;
use crate::options::Options;
use crate::policy::is_opaque_spec;
use crate::stable::after_queries;
use crate::ty::{CompKind, Field, ItemId, Type, TypeKind};

verus! {

/// A trait that the target language can derive.
#[derive(Debug, Clone, Copy, PartialEq, Eq, Structural)]
pub enum DeriveTrait {
    Debug,
    Default,
    Copy,
}

/// How the kind of a type decides a derive query.
#[derive(Debug, Clone, Copy, PartialEq, Eq, Structural)]
pub enum Rule {
    /// The answer is known.
    Const(bool),
    /// The answer is that of another item.
    Follow(ItemId),
    /// Every member has to allow it.
    Every,
    /// The answer is that of the element type, asked as an array element.
    InArray(ItemId),
}

/// How a walk from an array to what its elements are ends.
#[derive(Debug, Clone, Copy, PartialEq, Eq, Structural)]
pub enum WalkEnd {
    /// The answer is known.
    Answer(bool),
    /// The kind of this item decides.
    Plain(ItemId),
}

/// The answer of a query that comes back to an item it is inside of: yes for
/// `Debug` and `Copy`, no for `Default`. A cycle is then derivable exactly if
/// everything else in it is.
pub open spec fn optimistic(tr: DeriveTrait) -> bool {
    tr != DeriveTrait::Default
}

/// Whether the configuration allows the trait at all.
pub open spec fn enabled(options: Options, tr: DeriveTrait) -> bool {
    match tr {
        DeriveTrait::Debug => options.derive_debug,
        DeriveTrait::Default => options.derive_default,
        DeriveTrait::Copy => true,
    }
}

/// The answer for an opaque item: that of the blob of its layout; without
/// a layout the optimistic answer.
pub open spec fn blob_answer(tr: DeriveTrait, layout: Option<Layout>) -> bool {
    match layout {
        Some(l) => blob_derives(l),
        None => optimistic(tr),
    }
}

/// Whether a type of this kind has a default value although it refers to
/// nothing: numbers and functions have one; `void`, pointers, references,
/// enumerations, template parameters and instantiations have none.
pub open spec fn leaf_has_default(kind: TypeKind) -> bool {
    kind is Bool || kind is Int || kind is Float || kind is Function
}

/// How the kind of the type `ty` decides the query for `tr`.
///
/// - An array: for `Copy`, its element type decides, asked as an array
///   element; otherwise its element type decides if the array is within the
///   limit, and the answer is no if it is longer.
/// - An alias or a resolved reference: what it leads to decides.
/// - A union, but for `Copy`: the blob of its layout decides.
/// - A record otherwise, and an instantiation but for `Default`: every member
///   has to allow the trait.
/// - A blob: its layout decides.
/// - Anything else allows `Debug` and `Copy`; for `Default` see
///   [`leaf_has_default`].
pub open spec fn rule_spec(tr: DeriveTrait, ty: Type) -> Rule {
    match ty.kind {
        TypeKind::Array(t, len) => if tr == DeriveTrait::Copy {
            Rule::InArray(t)
        } else if len <= DERIVE_IN_ARRAY_LIMIT {
            Rule::Follow(t)
        } else {
            Rule::Const(false)
        },
        TypeKind::ResolvedTypeRef(t) => Rule::Follow(t),
        TypeKind::Alias(t) => Rule::Follow(t),
        TypeKind::TemplateAlias(t, _) => Rule::Follow(t),
        TypeKind::Comp(ci) => if ci.kind == CompKind::Union && tr != DeriveTrait::Copy {
            Rule::Const(blob_answer(tr, ty.layout))
        } else {
            Rule::Every
        },
        TypeKind::TemplateInstantiation(_) => if tr == DeriveTrait::Default {
            Rule::Const(false)
        } else {
            Rule::Every
        },
        TypeKind::Opaque => Rule::Const(blob_answer(tr, ty.layout)),
        _ => if tr == DeriveTrait::Default {
            Rule::Const(leaf_has_default(ty.kind))
        } else {
            Rule::Const(true)
        },
    }
}

/// The types of the fields, in order.
pub open spec fn field_types(fields: Seq<Field>) -> Seq<ItemId> {
    Seq::new(fields.len(), |i: int| fields[i].ty)
}

/// The members that all have to allow a trait: of a record its bases and the
/// types of its fields, of an instantiation the template and the arguments.
pub open spec fn members_spec(ty: Type) -> Seq<ItemId> {
    match ty.kind {
        TypeKind::Comp(ci) => ci.base_members@ + field_types(ci.fields@),
        TypeKind::TemplateInstantiation(inst) => seq![inst.definition] + inst.args@,
        _ => Seq::empty(),
    }
}

/// The number of guards that are down.
pub open spec fn unguarded(flags: Seq<bool>) -> nat
    decreases flags.len(),
{
    if flags.len() == 0 {
        0
    } else {
        unguarded(flags.drop_last()) + if flags.last() {
            0nat
        } else {
            1nat
        }
    }
}

/// Putting up a guard that was down leaves one guard less down.
pub proof fn lemma_guard_up(flags: Seq<bool>, i: int)
    requires
        0 <= i < flags.len(),
        !flags[i],
    ensures
        unguarded(flags.update(i, true)) + 1 == unguarded(flags),
    decreases flags.len(),
{
    let up = flags.update(i, true);
    if i == flags.len() - 1 {
        assert(up.drop_last() =~= flags.drop_last());
    } else {
        assert(up.drop_last() =~= flags.drop_last().update(i, true));
        lemma_guard_up(flags.drop_last(), i);
    }
}

/// From the element type of an array to the item whose kind decides whether
/// the array can be copied: through aliases, resolved references and inner
/// arrays. An opaque item on the way answers by its blob, a template
/// parameter with no, what is no type with no; a walk longer than the table
/// goes round a cycle and answers yes.
pub open spec fn in_array_walk(g: Graph, st: LocalIds, id: ItemId, fuel: nat) -> (LocalIds, WalkEnd)
    decreases fuel,
{
    if !has_item(g.items, id) {
        (st, WalkEnd::Answer(false))
    } else {
        match item_at(g.items, id).kind {
            ItemKind::Type(ty) => {
                let (st1, opaque) = is_opaque_spec(g, st, id);
                if opaque {
                    (st1, WalkEnd::Answer(blob_answer(DeriveTrait::Copy, ty.layout)))
                } else {
                    match array_step(ty.kind) {
                        Some(t) => if fuel == 0 {
                            (st1, WalkEnd::Answer(true))
                        } else {
                            in_array_walk(g, st1, t, (fuel - 1) as nat)
                        },
                        None => if ty.kind is Named {
                            (st1, WalkEnd::Answer(false))
                        } else {
                            (st1, WalkEnd::Plain(id))
                        },
                    }
                }
            },
            _ => (st, WalkEnd::Answer(false)),
        }
    }
}

/// Where the walk goes on from a type of this kind, if it does.
pub open spec fn array_step(kind: TypeKind) -> Option<ItemId> {
    match kind {
        TypeKind::ResolvedTypeRef(t) => Some(t),
        TypeKind::Alias(t) => Some(t),
        TypeKind::TemplateAlias(t, _) => Some(t),
        TypeKind::Array(t, _) => Some(t),
        _ => None,
    }
}

/// Whether `tr` can be derived for the item `id`, with the guards `flags` up.
///
/// - An item that is guarded gives the optimistic answer; one that does not
///   exist, or for which the configuration rules the trait out, or that is no
///   type, gives no.
/// - An opaque type gives the answer of its blob.
/// - Any other type puts up its guard and lets its kind decide.
pub open spec fn derive_item_spec(
    g: Graph,
    tr: DeriveTrait,
    st: LocalIds,
    flags: Seq<bool>,
    id: ItemId,
) -> (LocalIds, bool)
    decreases unguarded(flags), 0nat, 0nat,
{
    if !has_item(g.items, id) || id.0 >= flags.len() {
        (st, false)
    } else if flags[id.0 as int] {
        (st, optimistic(tr))
    } else if !enabled(g.options, tr) {
        (st, false)
    } else {
        match item_at(g.items, id).kind {
            ItemKind::Type(ty) => {
                let (st1, opaque) = is_opaque_spec(g, st, id);
                if opaque {
                    (st1, blob_answer(tr, ty.layout))
                } else {
                    proof {
                        lemma_guard_up(flags, id.0 as int);
                    }
                    derive_type_spec(g, tr, st1, flags.update(id.0 as int, true), ty)
                }
            },
            _ => (st, false),
        }
    }
}

/// Whether the kind of `ty` allows `tr`, with the guards `flags` up.
pub open spec fn derive_type_spec(
    g: Graph,
    tr: DeriveTrait,
    st: LocalIds,
    flags: Seq<bool>,
    ty: Type,
) -> (LocalIds, bool)
    decreases unguarded(flags), 3nat, 0nat,
{
    match rule_spec(tr, ty) {
        Rule::Const(b) => (st, b),
        Rule::Follow(t) => derive_item_spec(g, tr, st, flags, t),
        Rule::Every => derive_all_spec(g, tr, st, flags, members_spec(ty)),
        Rule::InArray(t) => match in_array_walk(g, st, t, g.items.len()) {
            (st1, WalkEnd::Answer(b)) => (st1, b),
            (st1, WalkEnd::Plain(p)) => derive_plain_spec(
                g,
                tr,
                st1,
                flags,
                item_at(g.items, p).kind->Type_0,
            ),
        },
    }
}

/// Whether the kind of `ty`, the end of a walk from an array, allows `tr`.
pub open spec fn derive_plain_spec(
    g: Graph,
    tr: DeriveTrait,
    st: LocalIds,
    flags: Seq<bool>,
    ty: Type,
) -> (LocalIds, bool)
    decreases unguarded(flags), 2nat, 0nat,
{
    match rule_spec(tr, ty) {
        Rule::Const(b) => (st, b),
        Rule::Every => derive_all_spec(g, tr, st, flags, members_spec(ty)),
        _ => (st, true),
    }
}

/// Whether each of `ids` allows `tr`, asked in order up to the first that
/// does not.
pub open spec fn derive_all_spec(
    g: Graph,
    tr: DeriveTrait,
    st: LocalIds,
    flags: Seq<bool>,
    ids: Seq<ItemId>,
) -> (LocalIds, bool)
    decreases unguarded(flags), 1nat, ids.len(),
{
    if ids.len() == 0 {
        (st, true)
    } else {
        let (st1, first) = derive_item_spec(g, tr, st, flags, ids[0]);
        if first {
            derive_all_spec(g, tr, st1, flags, ids.skip(1))
        } else {
            (st1, false)
        }
    }
}

/// Whether the item `id` can be copied as an array element.
pub open spec fn copy_in_array_spec(g: Graph, st: LocalIds, flags: Seq<bool>, id: ItemId) -> (
    LocalIds,
    bool,
) {
    match in_array_walk(g, st, id, g.items.len()) {
        (st1, WalkEnd::Answer(b)) => (st1, b),
        (st1, WalkEnd::Plain(p)) => derive_plain_spec(
            g,
            DeriveTrait::Copy,
            st1,
            flags,
            item_at(g.items, p).kind->Type_0,
        ),
    }
}

impl Context {
    /// The guards of the queries for `tr`.
    pub open spec fn guards_of(&self, tr: DeriveTrait) -> Seq<bool> {
        match tr {
            DeriveTrait::Debug => self.derive_debug_guard@,
            DeriveTrait::Default => self.derive_default_guard@,
            DeriveTrait::Copy => self.derive_copy_guard@,
        }
    }

    /// Whether there is a guard for every item and each trait.
    pub open spec fn guards_fit(&self) -> bool {
        &&& self.derive_debug_guard@.len() == self.items@.len()
        &&& self.derive_copy_guard@.len() == self.items@.len()
        &&& self.derive_default_guard@.len() == self.items@.len()
    }

    /// Whether `other` has the guards that this context has.
    pub open spec fn same_guards(&self, other: &Context) -> bool {
        &&& self.derive_debug_guard@ == other.derive_debug_guard@
        &&& self.derive_copy_guard@ == other.derive_copy_guard@
        &&& self.derive_default_guard@ == other.derive_default_guard@
    }

    /// Whether `old` became this context by a query: nothing changed but the
    /// cells of the local identifiers and, in passing, the guards.
    pub open spec fn queried_from(&self, old: &Context) -> bool {
        *self == (Context {
            local_ids: self.local_ids,
            next_child_local_ids: self.next_child_local_ids,
            derive_debug_guard: self.derive_debug_guard,
            derive_copy_guard: self.derive_copy_guard,
            derive_default_guard: self.derive_default_guard,
            ..*old
        })
    }

    fn guard_is_up(&self, tr: DeriveTrait, id: ItemId) -> (r: bool)
        requires
            self.guards_fit(),
            id.0 < self.items@.len(),
        ensures
            r == self.guards_of(tr)[id.0 as int],
    {
        match tr {
            DeriveTrait::Debug => self.derive_debug_guard[id.0],
            DeriveTrait::Default => self.derive_default_guard[id.0],
            DeriveTrait::Copy => self.derive_copy_guard[id.0],
        }
    }

    fn set_guard(&mut self, tr: DeriveTrait, id: ItemId, up: bool)
        requires
            old(self).guards_fit(),
            id.0 < old(self).items@.len(),
        ensures
            final(self).guards_fit(),
            final(self).guards_of(tr) == old(self).guards_of(tr).update(id.0 as int, up),
            tr != DeriveTrait::Debug ==> final(self).derive_debug_guard == old(
                self,
            ).derive_debug_guard,
            tr != DeriveTrait::Default ==> final(self).derive_default_guard == old(
                self,
            ).derive_default_guard,
            tr != DeriveTrait::Copy
                ==> final(self).derive_copy_guard == old(self).derive_copy_guard,
            *final(self) == (Context {
                derive_debug_guard: final(self).derive_debug_guard,
                derive_copy_guard: final(self).derive_copy_guard,
                derive_default_guard: final(self).derive_default_guard,
                ..*old(self)
            }),
    {
        match tr {
            DeriveTrait::Debug => {
                self.derive_debug_guard[id.0] = up;
            },
            DeriveTrait::Default => {
                self.derive_default_guard[id.0] = up;
            },
            DeriveTrait::Copy => {
                self.derive_copy_guard[id.0] = up;
            },
        }
    }
}

fn blob_allows(tr: DeriveTrait, layout: Option<Layout>) -> (r: bool)
    ensures
        r == blob_answer(tr, layout),
{
    match layout {
        Some(l) => l.opaque_can_derive(),
        None => tr != DeriveTrait::Default,
    }
}

fn is_enabled(options: &Options, tr: DeriveTrait) -> (r: bool)
    ensures
        r == enabled(*options, tr),
{
    match tr {
        DeriveTrait::Debug => options.derive_debug,
        DeriveTrait::Default => options.derive_default,
        DeriveTrait::Copy => true,
    }
}

/// How the kind of the type `ty` decides the query for `tr`.
pub fn rule_of(tr: DeriveTrait, ty: &Type) -> (r: Rule)
    ensures
        r == rule_spec(tr, *ty),
{
    match &ty.kind {
        TypeKind::Array(t, len) => {
            if tr == DeriveTrait::Copy {
                Rule::InArray(*t)
            } else if *len <= DERIVE_IN_ARRAY_LIMIT {
                Rule::Follow(*t)
            } else {
                Rule::Const(false)
            }
        },
        TypeKind::ResolvedTypeRef(t) => Rule::Follow(*t),
        TypeKind::Alias(t) => Rule::Follow(*t),
        TypeKind::TemplateAlias(t, _) => Rule::Follow(*t),
        TypeKind::Comp(ci) => {
            if ci.kind == CompKind::Union && tr != DeriveTrait::Copy {
                Rule::Const(blob_allows(tr, ty.layout))
            } else {
                Rule::Every
            }
        },
        TypeKind::TemplateInstantiation(_) => {
            if tr == DeriveTrait::Default {
                Rule::Const(false)
            } else {
                Rule::Every
            }
        },
        TypeKind::Opaque => Rule::Const(blob_allows(tr, ty.layout)),
        TypeKind::Bool => Rule::Const(true),
        TypeKind::Int { .. } => Rule::Const(true),
        TypeKind::Float { .. } => Rule::Const(true),
        TypeKind::Function(_) => Rule::Const(true),
        _ => Rule::Const(tr != DeriveTrait::Default),
    }
}

/// The members of `ty` that all have to allow a trait.
pub fn members_of(ty: &Type) -> (r: Vec<ItemId>)
    ensures
        r@ == members_spec(*ty),
{
    let mut out: Vec<ItemId> = Vec::new();
    match &ty.kind {
        TypeKind::Comp(ci) => {
            let mut i: usize = 0;
            while i < ci.base_members.len()
                invariant
                    i <= ci.base_members@.len(),
                    out@ == ci.base_members@.take(i as int),
                decreases ci.base_members@.len() - i,
            {
                out.push(ci.base_members[i]);
                i += 1;
                assert(out@ =~= ci.base_members@.take(i as int));
            }
            assert(ci.base_members@.take(i as int) =~= ci.base_members@);
            let mut j: usize = 0;
            while j < ci.fields.len()
                invariant
                    j <= ci.fields@.len(),
                    out@ == ci.base_members@ + field_types(ci.fields@.take(j as int)),
                decreases ci.fields@.len() - j,
            {
                out.push(ci.fields[j].ty);
                j += 1;
                assert(out@ =~= ci.base_members@ + field_types(ci.fields@.take(j as int)));
            }
            assert(ci.fields@.take(j as int) =~= ci.fields@);
        },
        TypeKind::TemplateInstantiation(inst) => {
            out.push(inst.definition);
            let mut i: usize = 0;
            while i < inst.args.len()
                invariant
                    i <= inst.args@.len(),
                    out@ == seq![inst.definition] + inst.args@.take(i as int),
                decreases inst.args@.len() - i,
            {
                out.push(inst.args[i]);
                i += 1;
                assert(out@ =~= seq![inst.definition] + inst.args@.take(i as int));
            }
            assert(inst.args@.take(i as int) =~= inst.args@);
        },
        _ => {},
    }
    assert(out@ =~= members_spec(*ty));
    out
}

fn array_step_of(kind: &TypeKind) -> (r: Option<ItemId>)
    ensures
        r == array_step(*kind),
{
    match kind {
        TypeKind::ResolvedTypeRef(t) => Some(*t),
        TypeKind::Alias(t) => Some(*t),
        TypeKind::TemplateAlias(t, _) => Some(*t),
        TypeKind::Array(t, _) => Some(*t),
        _ => None,
    }
}

fn walk_in_array(ctx: &mut Context, id: ItemId) -> (r: WalkEnd)
    requires
        old(ctx).wf_but_guards(),
        old(ctx).codegen,
    ensures
        final(ctx).wf_but_guards(),
        (final(ctx).local_id_state(), r) == in_array_walk(
            old(ctx).graph(),
            old(ctx).local_id_state(),
            id,
            old(ctx).items@.len(),
        ),
        r matches WalkEnd::Plain(p) ==> final(ctx).has(p) && final(ctx).item(p).kind is Type,
        *final(ctx) == (Context {
            local_ids: final(ctx).local_ids,
            next_child_local_ids: final(ctx).next_child_local_ids,
            ..*old(ctx)
        }),
{
    let mut cur = id;
    let mut fuel: usize = ctx.items.len();
    let ghost g = ctx.graph();
    let ghost st0 = ctx.local_id_state();
    loop
        invariant
            ctx.wf_but_guards(),
            ctx.codegen,
            g == ctx.graph(),
            g == old(ctx).graph(),
            st0 == old(ctx).local_id_state(),
            *ctx == (Context {
                local_ids: ctx.local_ids,
                next_child_local_ids: ctx.next_child_local_ids,
                ..*old(ctx)
            }),
            in_array_walk(g, st0, id, g.items.len()) == in_array_walk(
                g,
                ctx.local_id_state(),
                cur,
                fuel as nat,
            ),
        decreases fuel,
    {
        let layout = match ctx.resolve_item_fallible(cur) {
            None => {
                return WalkEnd::Answer(false);
            },
            Some(item) => match &item.kind {
                ItemKind::Type(ty) => ty.layout,
                _ => {
                    return WalkEnd::Answer(false);
                },
            },
        };
        if Item::is_opaque(ctx, cur) {
            return WalkEnd::Answer(blob_allows(DeriveTrait::Copy, layout));
        }
        let ty = ctx.resolve_item(cur).kind.expect_type();
        match array_step_of(&ty.kind) {
            Some(t) => {
                if fuel == 0 {
                    return WalkEnd::Answer(true);
                }
                cur = t;
                fuel = fuel - 1;
            },
            None => {
                match &ty.kind {
                    TypeKind::Named => {
                        return WalkEnd::Answer(false);
                    },
                    _ => {
                        return WalkEnd::Plain(cur);
                    },
                }
            },
        }
    }
}

fn derive_item(ctx: &mut Context, tr: DeriveTrait, id: ItemId) -> (r: bool)
    requires
        old(ctx).wf_but_guards(),
        old(ctx).codegen,
        old(ctx).guards_fit(),
    ensures
        final(ctx).wf_but_guards(),
        final(ctx).guards_fit(),
        final(ctx).same_guards(old(ctx)),
        final(ctx).queried_from(old(ctx)),
        (final(ctx).local_id_state(), r) == derive_item_spec(
            old(ctx).graph(),
            tr,
            old(ctx).local_id_state(),
            old(ctx).guards_of(tr),
            id,
        ),
    decreases unguarded(old(ctx).guards_of(tr)), 0nat, 0nat,
{
    let layout = match ctx.resolve_item_fallible(id) {
        None => {
            return false;
        },
        Some(item) => {
            if ctx.guard_is_up(tr, id) {
                return tr != DeriveTrait::Default;
            }
            if !is_enabled(&ctx.options, tr) {
                return false;
            }
            match &item.kind {
                ItemKind::Type(ty) => ty.layout,
                _ => {
                    return false;
                },
            }
        },
    };
    if Item::is_opaque(ctx, id) {
        return blob_allows(tr, layout);
    }
    let ghost flags = ctx.guards_of(tr);
    proof {
        lemma_guard_up(flags, id.0 as int);
    }
    ctx.set_guard(tr, id, true);
    let r = derive_type(ctx, tr, id);
    ctx.set_guard(tr, id, false);
    assert(ctx.guards_of(tr) =~= flags);
    r
}

fn derive_type(ctx: &mut Context, tr: DeriveTrait, id: ItemId) -> (r: bool)
    requires
        old(ctx).wf_but_guards(),
        old(ctx).codegen,
        old(ctx).guards_fit(),
        old(ctx).has(id),
        old(ctx).item(id).kind is Type,
    ensures
        final(ctx).wf_but_guards(),
        final(ctx).guards_fit(),
        final(ctx).same_guards(old(ctx)),
        final(ctx).queried_from(old(ctx)),
        (final(ctx).local_id_state(), r) == derive_type_spec(
            old(ctx).graph(),
            tr,
            old(ctx).local_id_state(),
            old(ctx).guards_of(tr),
            old(ctx).item(id).kind->Type_0,
        ),
    decreases unguarded(old(ctx).guards_of(tr)), 3nat, 0nat,
{
    let rule = rule_of(tr, ctx.resolve_item(id).kind.expect_type());
    match rule {
        Rule::Const(b) => b,
        Rule::Follow(t) => derive_item(ctx, tr, t),
        Rule::Every => {
            let members = members_of(ctx.resolve_item(id).kind.expect_type());
            derive_all(ctx, tr, &members)
        },
        Rule::InArray(t) => match walk_in_array(ctx, t) {
            WalkEnd::Answer(b) => b,
            WalkEnd::Plain(p) => derive_plain(ctx, tr, p),
        },
    }
}

fn derive_plain(ctx: &mut Context, tr: DeriveTrait, id: ItemId) -> (r: bool)
    requires
        old(ctx).wf_but_guards(),
        old(ctx).codegen,
        old(ctx).guards_fit(),
        old(ctx).has(id),
        old(ctx).item(id).kind is Type,
    ensures
        final(ctx).wf_but_guards(),
        final(ctx).guards_fit(),
        final(ctx).same_guards(old(ctx)),
        final(ctx).queried_from(old(ctx)),
        (final(ctx).local_id_state(), r) == derive_plain_spec(
            old(ctx).graph(),
            tr,
            old(ctx).local_id_state(),
            old(ctx).guards_of(tr),
            old(ctx).item(id).kind->Type_0,
        ),
    decreases unguarded(old(ctx).guards_of(tr)), 2nat, 0nat,
{
    let rule = rule_of(tr, ctx.resolve_item(id).kind.expect_type());
    match rule {
        Rule::Const(b) => b,
        Rule::Every => {
            let members = members_of(ctx.resolve_item(id).kind.expect_type());
            derive_all(ctx, tr, &members)
        },
        _ => true,
    }
}

fn derive_all(ctx: &mut Context, tr: DeriveTrait, ids: &Vec<ItemId>) -> (r: bool)
    requires
        old(ctx).wf_but_guards(),
        old(ctx).codegen,
        old(ctx).guards_fit(),
    ensures
        final(ctx).wf_but_guards(),
        final(ctx).guards_fit(),
        final(ctx).same_guards(old(ctx)),
        final(ctx).queried_from(old(ctx)),
        (final(ctx).local_id_state(), r) == derive_all_spec(
            old(ctx).graph(),
            tr,
            old(ctx).local_id_state(),
            old(ctx).guards_of(tr),
            ids@,
        ),
    decreases unguarded(old(ctx).guards_of(tr)), 1nat, 0nat,
{
    let ghost g = ctx.graph();
    let ghost st0 = ctx.local_id_state();
    let ghost flags = ctx.guards_of(tr);
    let mut i: usize = 0;
    assert(ids@.skip(0) =~= ids@);
    while i < ids.len()
        invariant
            i <= ids@.len(),
            ctx.wf_but_guards(),
            ctx.codegen,
            ctx.guards_fit(),
            ctx.same_guards(old(ctx)),
            ctx.queried_from(old(ctx)),
            g == ctx.graph(),
            g == old(ctx).graph(),
            st0 == old(ctx).local_id_state(),
            flags == old(ctx).guards_of(tr),
            flags == ctx.guards_of(tr),
            derive_all_spec(g, tr, st0, flags, ids@) == derive_all_spec(
                g,
                tr,
                ctx.local_id_state(),
                flags,
                ids@.skip(i as int),
            ),
        decreases ids@.len() - i,
    {
        assert(ids@.skip(i as int)[0] == ids@[i as int]);
        assert(ids@.skip(i as int).skip(1) =~= ids@.skip(i + 1));
        if !derive_item(ctx, tr, ids[i]) {
            return false;
        }
        i += 1;
    }
    assert(ids@.skip(i as int).len() == 0);
    true
}

impl Item {
    /// Whether `Debug` can be derived for `id`.
    pub fn can_derive_debug(ctx: &mut Context, id: ItemId) -> (r: bool)
        requires
            old(ctx).wf(),
            old(ctx).codegen,
            old(ctx).has(id),
        ensures
            final(ctx).wf(),
            after_queries(old(ctx), final(ctx)),
            final(ctx).queried_from(old(ctx)),
            (final(ctx).local_id_state(), r) == derive_item_spec(
                old(ctx).graph(),
                DeriveTrait::Debug,
                old(ctx).local_id_state(),
                old(ctx).derive_debug_guard@,
                id,
            ),
    {
        derive_item(ctx, DeriveTrait::Debug, id)
    }

    /// Whether `Default` can be derived for `id`.
    pub fn can_derive_default(ctx: &mut Context, id: ItemId) -> (r: bool)
        requires
            old(ctx).wf(),
            old(ctx).codegen,
            old(ctx).has(id),
        ensures
            final(ctx).wf(),
            after_queries(old(ctx), final(ctx)),
            final(ctx).queried_from(old(ctx)),
            (final(ctx).local_id_state(), r) == derive_item_spec(
                old(ctx).graph(),
                DeriveTrait::Default,
                old(ctx).local_id_state(),
                old(ctx).derive_default_guard@,
                id,
            ),
    {
        derive_item(ctx, DeriveTrait::Default, id)
    }

    /// Whether `Copy` can be derived for `id`.
    pub fn can_derive_copy(ctx: &mut Context, id: ItemId) -> (r: bool)
        requires
            old(ctx).wf(),
            old(ctx).codegen,
            old(ctx).has(id),
        ensures
            final(ctx).wf(),
            after_queries(old(ctx), final(ctx)),
            final(ctx).queried_from(old(ctx)),
            (final(ctx).local_id_state(), r) == derive_item_spec(
                old(ctx).graph(),
                DeriveTrait::Copy,
                old(ctx).local_id_state(),
                old(ctx).derive_copy_guard@,
                id,
            ),
    {
        derive_item(ctx, DeriveTrait::Copy, id)
    }

    /// Whether `id` can be copied as the element of an array.
    pub fn can_derive_copy_in_array(ctx: &mut Context, id: ItemId) -> (r: bool)
        requires
            old(ctx).wf(),
            old(ctx).codegen,
            old(ctx).has(id),
        ensures
            final(ctx).wf(),
            after_queries(old(ctx), final(ctx)),
            final(ctx).queried_from(old(ctx)),
            (final(ctx).local_id_state(), r) == copy_in_array_spec(
                old(ctx).graph(),
                old(ctx).local_id_state(),
                old(ctx).derive_copy_guard@,
                id,
            ),
    {
        match walk_in_array(ctx, id) {
            WalkEnd::Answer(b) => b,
            WalkEnd::Plain(p) => derive_plain(ctx, DeriveTrait::Copy, p),
        }
    }
}

} // verus!
