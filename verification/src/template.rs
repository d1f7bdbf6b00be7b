//! Templates: the parameter that a type stands for, and the parameters that
//! a declaration has.

use vstd::prelude::*;
use crate::context::Context;
use crate::graph::{as_named, as_named_from, has_item, item_at};
use crate::item::Item;
use crate::item_kind::ItemKind;
use crate::ty::{ItemId, TypeKind};

verus! {

/// The template type parameter that `item` stands for: itself where it is
/// one, the one that an alias or a resolved reference leads to otherwise.
pub open spec fn as_named_of(items: Seq<Option<Item>>, item: Item) -> Option<ItemId> {
    match item.kind {
        ItemKind::Type(ty) => match ty.kind {
            TypeKind::Named => Some(item.id),
            TypeKind::ResolvedTypeRef(inner) => as_named(items, inner),
            TypeKind::Alias(inner) => as_named(items, inner),
            _ => None,
        },
        _ => None,
    }
}

/// The template parameters that the declaration `id` has of its own: those
/// of a record that has any, those of a templated alias, and those of what a
/// resolved reference leads to. The walk ends at an identifier that names no
/// item, and after `fuel` steps.
pub open spec fn template_params_from(items: Seq<Option<Item>>, id: ItemId, fuel: nat) -> Option<
    Seq<ItemId>,
>
    decreases fuel,
{
    if !has_item(items, id) {
        None
    } else {
        template_params_of(items, item_at(items, id).kind, fuel)
    }
}

/// The template parameters that a declaration of the kind `kind` has of its
/// own: only a type has any.
pub open spec fn template_params_of(items: Seq<Option<Item>>, kind: ItemKind, fuel: nat) -> Option<
    Seq<ItemId>,
>
    decreases fuel, 0nat,
{
    match kind {
        ItemKind::Type(ty) => match ty.kind {
            TypeKind::Comp(ci) => if ci.template_params@.len() == 0 {
                None
            } else {
                Some(ci.template_params@)
            },
            TypeKind::TemplateAlias(_, params) => Some(params@),
            TypeKind::ResolvedTypeRef(inner) => if fuel == 0 || !has_item(items, inner) {
                None
            } else {
                template_params_of(items, item_at(items, inner).kind, (fuel - 1) as nat)
            },
            _ => None,
        },
        _ => None,
    }
}

fn copy_ids(ids: &Vec<ItemId>) -> (r: Vec<ItemId>)
    ensures
        r@ == ids@,
{
    let mut out: Vec<ItemId> = Vec::new();
    let mut i: usize = 0;
    while i < ids.len()
        invariant
            i <= ids@.len(),
            out@ == ids@.take(i as int),
        decreases ids@.len() - i,
    {
        out.push(ids[i]);
        i += 1;
        assert(out@ =~= ids@.take(i as int));
    }
    assert(ids@.take(i as int) =~= ids@);
    out
}

impl ItemId {
    /// The template type parameter that this type stands for: itself where
    /// it is one, the one that an alias or a resolved reference leads to
    /// otherwise.
    pub fn as_named(&self, ctx: &Context) -> (r: Option<ItemId>)
        ensures
            r == as_named(ctx.items@, *self),
    {
        let mut cur = *self;
        let mut fuel: usize = ctx.items.len();
        loop
            invariant
                as_named(ctx.items@, *self) == as_named_from(ctx.items@, cur, fuel as nat),
            decreases fuel,
        {
            let item = match ctx.resolve_item_fallible(cur) {
                Some(item) => item,
                None => {
                    return None;
                },
            };
            let next = match &item.kind {
                ItemKind::Type(ty) => match &ty.kind {
                    TypeKind::Named => {
                        return Some(cur);
                    },
                    TypeKind::ResolvedTypeRef(inner) => *inner,
                    TypeKind::Alias(inner) => *inner,
                    _ => {
                        return None;
                    },
                },
                _ => {
                    return None;
                },
            };
            if fuel == 0 {
                return None;
            }
            cur = next;
            fuel = fuel - 1;
        }
    }
}

impl Item {
    /// The template type parameter that this item stands for, if any.
    pub fn as_named(&self, ctx: &Context) -> (r: Option<ItemId>)
        ensures
            r == as_named_of(ctx.items@, *self),
    {
        self.kind.as_named(ctx, self)
    }

    /// The template parameters that this declaration has of its own.
    pub fn self_template_params(&self, ctx: &Context) -> (r: Option<Vec<ItemId>>)
        ensures
            r is Some == template_params_of(ctx.items@, self.kind, ctx.items@.len()) is Some,
            r is Some ==> r->0@ == template_params_of(ctx.items@, self.kind, ctx.items@.len())->0,
    {
        self.kind.self_template_params(ctx)
    }
}

impl ItemKind {
    /// The template parameters that this declaration has of its own.
    pub fn self_template_params(&self, ctx: &Context) -> (r: Option<Vec<ItemId>>)
        ensures
            r is Some == template_params_of(ctx.items@, *self, ctx.items@.len()) is Some,
            r is Some ==> r->0@ == template_params_of(ctx.items@, *self, ctx.items@.len())->0,
    {
        let mut kind = self;
        let mut fuel: usize = ctx.items.len();
        loop
            invariant
                template_params_of(ctx.items@, *self, ctx.items@.len()) == template_params_of(
                    ctx.items@,
                    *kind,
                    fuel as nat,
                ),
            decreases fuel,
        {
            let next = match kind {
                ItemKind::Type(ty) => match &ty.kind {
                    TypeKind::Comp(ci) => {
                        if ci.template_params.len() == 0 {
                            return None;
                        }
                        return Some(copy_ids(&ci.template_params));
                    },
                    TypeKind::TemplateAlias(_, params) => {
                        return Some(copy_ids(params));
                    },
                    TypeKind::ResolvedTypeRef(inner) => *inner,
                    _ => {
                        return None;
                    },
                },
                _ => {
                    return None;
                },
            };
            if fuel == 0 {
                return None;
            }
            kind = match ctx.resolve_item_fallible(next) {
                Some(inner) => &inner.kind,
                None => {
                    return None;
                },
            };
            fuel = fuel - 1;
        }
    }

    /// The template type parameter that the item `item` of this kind stands
    /// for, if any: only a type stands for one.
    pub fn as_named(&self, ctx: &Context, item: &Item) -> (r: Option<ItemId>)
        requires
            *self == item.kind,
        ensures
            r == as_named_of(ctx.items@, *item),
    {
        match self {
            ItemKind::Type(ty) => match &ty.kind {
                TypeKind::Named => Some(item.id),
                TypeKind::ResolvedTypeRef(inner) => inner.as_named(ctx),
                TypeKind::Alias(inner) => inner.as_named(ctx),
                _ => None,
            },
            ItemKind::Module(_) => None,
            ItemKind::Function(_) => None,
            ItemKind::Var(_) => None,
        }
    }
}

impl ItemId {
    /// The template parameters that the declaration with this identifier
    /// has of its own; none where the identifier names no item.
    pub fn self_template_params(&self, ctx: &Context) -> (r: Option<Vec<ItemId>>)
        ensures
            r is Some == template_params_from(ctx.items@, *self, ctx.items@.len()) is Some,
            r is Some ==> r->0@ == template_params_from(ctx.items@, *self, ctx.items@.len())->0,
    {
        match ctx.resolve_item_fallible(*self) {
            Some(item) => item.self_template_params(ctx),
            None => None,
        }
    }
}

} // verus!
