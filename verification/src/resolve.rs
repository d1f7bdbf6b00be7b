//! The resolution of forward references, once everything is parsed.

use vstd::prelude::*;
use crate::clang::{CursorId, TranslationUnit, TypeId};
use crate::context::Context;
use crate::decode::{cannot_decode, shape_of};
use crate::from_ty::{
    gathered_annotations, needs_decoding, parsed_as_owed, parsed_refers, registered,
    settled_afresh,
};
use crate::item::Item;
use crate::item_kind::ItemKind;
use crate::known::{appended, blob_layout, is_plain_type};
use crate::layout::Layout;
use crate::parse::{extends, is_new, is_placeholder, lemma_grows_trans, minted, ready};
use crate::ty::{ItemId, Type, TypeKind};

verus! {

/// Whether `new` is the item `old` with its forward reference resolved to
/// `target`: nothing else about it has changed.
pub open spec fn is_resolved_from(old: Item, new: Item, target: ItemId) -> bool {
    &&& new.id == old.id
    &&& new.parent_id == old.parent_id
    &&& new.comment == old.comment
    &&& new.annotations == old.annotations
    &&& new.kind is Type
    &&& new.kind->Type_0.kind == TypeKind::ResolvedTypeRef(target)
    &&& new.kind->Type_0.name == old.kind->Type_0.name
    &&& new.kind->Type_0.layout == old.kind->Type_0.layout
    &&& new.kind->Type_0.is_const == old.kind->Type_0.is_const
}

/// Whether the payload of a placeholder can be parsed: its type and its
/// location are of the unit, and the parent that it asks for was minted.
pub open spec fn can_be_parsed(
    ctx: &Context,
    tu: &TranslationUnit,
    ty: TypeId,
    location: CursorId,
    parent: Option<ItemId>,
) -> bool {
    tu.has_type(ty) && tu.has_cursor(location) && minted(ctx, parent)
}

/// Whether `item` is the blob `id` under `parent` that stands for the type
/// `ty`: laid out and qualified as the type is, or as nothing is where the
/// type is not of the unit.
pub open spec fn is_fallback(
    item: Item,
    id: ItemId,
    parent: ItemId,
    tu: &TranslationUnit,
    ty: TypeId,
) -> bool {
    &&& is_plain_type(
        item,
        id,
        parent,
        TypeKind::Opaque,
        if tu.has_type(ty) {
            blob_layout(tu.type_at(ty).layout)
        } else {
            blob_layout(None)
        },
        tu.has_type(ty) && tu.type_at(ty).is_const,
    )
    &&& item.kind->Type_0.name is None
}

/// What a placeholder of the given payload is resolved to.
///
/// - A payload that cannot be parsed, and one that is given no depth, is
///   resolved to a blob under the root, at a fresh identifier; with a
///   payload that can be parsed, an identifier was minted for the type
///   before.
/// - A type that needs no decoding is resolved to what
///   [`settled_afresh`] says.
/// - A type whose decoding is bound to fail is resolved to a blob under the
///   root, after the identifier that was minted for the type; a replacement
///   that the annotations of the type name is registered for the latter.
/// - A type that has to be decoded and has a shape is resolved to the item
///   that it is parsed into, at the next identifier, as [`parsed_as_owed`]
///   says, and that item refers to what [`parsed_refers`] says.
pub open spec fn resolved_to(
    old: &Context,
    new: &Context,
    tu: &TranslationUnit,
    ty: TypeId,
    location: CursorId,
    parent: Option<ItemId>,
    depth: usize,
    r: ItemId,
) -> bool {
    let next = ItemId(old.items@.len() as usize);
    if !can_be_parsed(old, tu, ty, location, parent) {
        &&& r == next
        &&& appended(old, new, r)
        &&& is_fallback(new.item(r), r, old.root_module, tu, ty)
    } else if depth == 0 {
        &&& r == ItemId((old.items@.len() + 1) as usize)
        &&& new.items@.len() == old.items@.len() + 2
        &&& new.items@ == old.items@.push(None).push(new.items@[r.0 as int])
        &&& new.has(r)
        &&& is_fallback(new.item(r), r, old.root_module, tu, ty)
    } else if !needs_decoding(old, tu, ty, location) {
        settled_afresh(old, new, tu, ty, location, parent, r)
    } else if shape_of(tu, ty, location) is Some {
        &&& r == next
        &&& parsed_as_owed(old, new, tu, next, ty, location, parent)
        &&& parsed_refers(
            old,
            new,
            tu,
            next,
            ty,
            location,
            (depth - 1) as usize,
            ItemId((old.items@.len() + 1) as usize),
        )
    } else if cannot_decode(tu, ty, location) {
        &&& r == ItemId((old.items@.len() + 1) as usize)
        &&& new.items@.len() == old.items@.len() + 2
        &&& new.items@ == old.items@.push(None).push(new.items@[r.0 as int])
        &&& new.has(r)
        &&& is_fallback(new.item(r), r, old.root_module, tu, ty)
        &&& registered(old, new, next, gathered_annotations(tu, ty, location))
    } else {
        true
    }
}

/// The type, the location and the parent that a placeholder was made with.
pub open spec fn payload(item: Item) -> (TypeId, CursorId, Option<ItemId>) {
    match item.kind->Type_0.kind {
        TypeKind::UnresolvedTypeRef(ty, location, parent) => (ty, location, parent),
        _ => (TypeId(0), CursorId(0), None),
    }
}

/// Whether the step from `before[i]` to `before[i + 1]` is what the
/// resolution does at the identifier `i`.
///
/// - Where `old` has a placeholder at `i`: its payload is resolved from
///   `before[i]`, which gives `parsed[i]` and the target `targets[i]` as
///   [`resolved_to`] says; then the placeholder becomes a reference to the
///   target, which gives `before[i + 1]`.
/// - Anywhere else nothing happens.
pub open spec fn resolve_step(
    old: &Context,
    tu: &TranslationUnit,
    depth: usize,
    before: Seq<Context>,
    parsed: Seq<Context>,
    targets: Seq<ItemId>,
    i: int,
) -> bool {
    if old.items@[i] is Some && is_placeholder(old.items@[i]->0) {
        let (ty, location, parent) = payload(old.items@[i]->0);
        &&& resolved_to(&before[i], &parsed[i], tu, ty, location, parent, depth, targets[i])
        &&& extends(&before[i], &parsed[i], None)
        &&& parsed[i].items@[i] == old.items@[i]
        &&& before[i + 1].items@ == parsed[i].items@.update(i, before[i + 1].items@[i])
        &&& before[i + 1].items@[i] is Some
        &&& is_resolved_from(old.items@[i]->0, before[i + 1].items@[i]->0, targets[i])
        &&& before[i + 1] == (Context { items: before[i + 1].items, ..parsed[i] })
    } else {
        before[i + 1] == before[i]
    }
}

/// Whether `new` came from `old` by the resolution of the forward
/// references: the contexts `before` lead from `old`, with the forward
/// references declared collected, to `new`, one identifier after the other
/// as [`resolve_step`] says, and in `new` every placeholder of `old` is a
/// reference to its target, which is an identifier that was minted.
pub open spec fn resolved_in_turn(
    old: &Context,
    new: &Context,
    tu: &TranslationUnit,
    depth: usize,
    before: Seq<Context>,
    parsed: Seq<Context>,
    targets: Seq<ItemId>,
) -> bool {
    let n = old.items@.len();
    &&& before.len() == n + 1
    &&& parsed.len() == n
    &&& targets.len() == n
    &&& before[0] == (Context { collected_typerefs: true, ..*old })
    &&& before.last() == *new
    &&& forall|i: int|
        0 <= i < n ==> #[trigger] resolve_step(old, tu, depth, before, parsed, targets, i)
    &&& forall|i: int|
        0 <= i < n && (#[trigger] old.items@[i]) is Some && is_placeholder(old.items@[i]->0)
            ==> new.items@[i] is Some && targets[i].0 < new.items@.len() && is_resolved_from(
            old.items@[i]->0,
            new.items@[i]->0,
            targets[i],
        )
}

impl Context {
    /// Resolves one placeholder: its type is parsed into an item, and where
    /// that cannot be, a blob stands for it, as [`resolved_to`] says.
    fn resolve_one(&mut self, tu: &TranslationUnit, ty: TypeId, location: CursorId, parent: Option<
        ItemId,
    >, depth: usize) -> (r: ItemId)
        requires
            ready(old(self), tu),
            old(self).collected_typerefs,
        ensures
            final(self).wf(),
            extends(old(self), final(self), None),
            r.0 < final(self).items@.len(),
            resolved_to(old(self), final(self), tu, ty, location, parent, depth, r),
    {
        let valid = ty.0 < tu.types.len() && location.0 < tu.cursors.len() && match parent {
            Some(p) => p.0 < self.items.len(),
            None => true,
        };
        if valid {
            match Item::from_ty(tu, ty, location, parent, self, depth) {
                Ok(id) => {
                    return id;
                },
                Err(_) => {},
            }
        }
        let ghost tried = *self;
        let id = self.next_item_id();
        let ghost minted_one = *self;
        let blob = if ty.0 < tu.types.len() {
            let layout = match tu.ty(ty).layout {
                Some(l) => l,
                None => Layout::zero(),
            };
            Type::opaque(Some(layout), tu.ty(ty).is_const)
        } else {
            Type::opaque(Some(Layout::zero()), false)
        };
        let root = self.root_module;
        self.add_item(Item::new(id, None, None, root, ItemKind::Type(blob)), None);
        proof {
            lemma_grows_trans(&tried, &minted_one, self, None, Some(id), None);
            lemma_grows_trans(old(self), &tried, self, None, None, None);
            assert(self.items@ =~= tried.items@.push(self.items@[id.0 as int]));
            if can_be_parsed(old(self), tu, ty, location, parent) && depth == 0 {
                assert(tried.items@ == old(self).items@.push(None));
            }
        }
        id
    }

    /// Resolves the forward references: from now on none is made, and each
    /// placeholder that there is, in the order of the identifiers, becomes a
    /// reference to what [`resolved_to`] says: the item that its type parses
    /// into, or a blob if the type cannot be parsed. A placeholder keeps its
    /// identifier; nothing else changes but that items are added.
    pub fn resolve_typerefs(&mut self, tu: &TranslationUnit, depth: usize)
        requires
            ready(old(self), tu),
            !old(self).collected_typerefs,
        ensures
            final(self).wf(),
            !final(self).codegen,
            final(self).collected_typerefs,
            final(self).items@.len() >= old(self).items@.len(),
            forall|i: int|
                0 <= i < final(self).items@.len() && (#[trigger] final(self).items@[i]) is Some
                    ==> !is_placeholder(final(self).items@[i]->0),
            forall|i: int|
                0 <= i < old(self).items@.len() && (#[trigger] old(self).items@[i]) is Some
                    && !is_placeholder(old(self).items@[i]->0) ==> final(self).items@[i] == old(
                    self,
                ).items@[i],
            exists|before: Seq<Context>, parsed: Seq<Context>, targets: Seq<ItemId>| #[trigger]
                resolved_in_turn(old(self), final(self), tu, depth, before, parsed, targets),
            forall|i: int|
                0 <= i < old(self).items@.len() && (#[trigger] old(self).items@[i]) is None
                    ==> final(self).items@[i] is None,
            final(self).root_module == old(self).root_module,
            final(self).current_module == old(self).current_module,
            final(self).currently_parsed_types@ == old(self).currently_parsed_types@,
            final(self).options == old(self).options,
    {
        self.collected_typerefs = true;
        let n: usize = self.items.len();
        let ghost mut before: Seq<Context> = seq![*self];
        let ghost mut parsed: Seq<Context> = Seq::empty();
        let ghost mut targets: Seq<ItemId> = Seq::empty();
        let mut i: usize = 0;
        while i < n
            invariant
                i <= n,
                n == old(self).items@.len(),
                n <= self.items@.len(),
                ready(self, tu),
                self.collected_typerefs,
                self.root_module == old(self).root_module,
                self.current_module == old(self).current_module,
                self.currently_parsed_types@ == old(self).currently_parsed_types@,
                self.options == old(self).options,
                before.len() == i + 1,
                parsed.len() == i,
                targets.len() == i,
                before[0] == (Context { collected_typerefs: true, ..*old(self) }),
                before.last() == *self,
                forall|j: int|
                    0 <= j < i ==> #[trigger] resolve_step(
                        old(self),
                        tu,
                        depth,
                        before,
                        parsed,
                        targets,
                        j,
                    ),
                forall|j: int|
                    i <= j < n ==> (#[trigger] self.items@[j]) == old(self).items@[j],
                forall|j: int|
                    0 <= j < i && (#[trigger] self.items@[j]) is Some ==> !is_placeholder(
                        self.items@[j]->0,
                    ),
                forall|j: int|
                    n <= j < self.items@.len() && (#[trigger] self.items@[j]) is Some
                        ==> !is_placeholder(self.items@[j]->0),
                forall|j: int|
                    0 <= j < i && (#[trigger] old(self).items@[j]) is Some && !is_placeholder(
                        old(self).items@[j]->0,
                    ) ==> self.items@[j] == old(self).items@[j],
                forall|j: int|
                    0 <= j < i && (#[trigger] old(self).items@[j]) is Some && is_placeholder(
                        old(self).items@[j]->0,
                    ) ==> self.items@[j] is Some && targets[j].0 < self.items@.len()
                        && is_resolved_from(old(self).items@[j]->0, self.items@[j]->0, targets[j]),
                forall|j: int|
                    0 <= j < n && (#[trigger] old(self).items@[j]) is None
                        ==> self.items@[j] is None,
            decreases n - i,
        {
            let placeholder = match &self.items[i] {
                Some(item) => match &item.kind {
                    ItemKind::Type(t) => match &t.kind {
                        TypeKind::UnresolvedTypeRef(ty, location, parent) => Some(
                            (*ty, *location, *parent),
                        ),
                        _ => None,
                    },
                    _ => None,
                },
                None => None,
            };
            let ghost start = *self;
            let ghost earlier = before;
            let ghost earlier_parsed = parsed;
            let ghost earlier_targets = targets;
            match placeholder {
                Some((ty, location, parent)) => {
                    let target = self.resolve_one(tu, ty, location, parent, depth);
                    let ghost after = *self;
                    assert(after.items@[i as int] == start.items@[i as int]);
                    assert forall|j: int|
                        n <= j < after.items@.len()
                            && (#[trigger] after.items@[j]) is Some implies !is_placeholder(
                        after.items@[j]->0,
                    ) by {
                        if j < start.items@.len() && start.items@[j] is Some {
                            assert(after.items@[j] == start.items@[j]);
                        } else {
                            assert(is_new(&start, &after, j));
                        }
                    }
                    self.set_resolved(ItemId(i), target);
                    proof {
                        parsed = earlier_parsed.push(after);
                        targets = earlier_targets.push(target);
                        before = earlier.push(*self);
                        assert forall|j: int|
                            0 <= j < i && (#[trigger] old(self).items@[j]) is Some
                                && is_placeholder(old(self).items@[j]->0) implies self.items@[j]
                            is Some && targets[j].0 < self.items@.len() && is_resolved_from(
                            old(self).items@[j]->0,
                            self.items@[j]->0,
                            targets[j],
                        ) by {
                            assert(start.items@[j] is Some);
                            assert(after.items@[j] == start.items@[j]);
                            assert(targets[j] == earlier_targets[j]);
                        }
                    }
                },
                None => {
                    proof {
                        parsed = earlier_parsed.push(start);
                        targets = earlier_targets.push(ItemId(0));
                        before = earlier.push(*self);
                    }
                },
            }
            proof {
                assert forall|j: int| 0 <= j < i + 1 implies #[trigger] resolve_step(
                    old(self),
                    tu,
                    depth,
                    before,
                    parsed,
                    targets,
                    j,
                ) by {
                    if j < i {
                        assert(resolve_step(
                            old(self),
                            tu,
                            depth,
                            earlier,
                            earlier_parsed,
                            earlier_targets,
                            j,
                        ));
                        assert(before[j] == earlier[j]);
                        assert(before[j + 1] == earlier[j + 1]);
                        assert(parsed[j] == earlier_parsed[j]);
                        assert(targets[j] == earlier_targets[j]);
                    } else {
                        assert(before[j] == start);
                        assert(before[j + 1] == *self);
                    }
                }
            }
            i += 1;
        }
        proof {
            assert(resolved_in_turn(old(self), self, tu, depth, before, parsed, targets));
        }
    }

    /// Makes the type item `id` a reference to `target`.
    fn set_resolved(&mut self, id: ItemId, target: ItemId)
        requires
            old(self).wf(),
            !old(self).codegen,
            old(self).has(id),
            old(self).item(id).kind is Type,
        ensures
            final(self).wf(),
            final(self).has(id),
            is_resolved_from(old(self).item(id), final(self).item(id), target),
            final(self).items@
                == old(self).items@.update(id.0 as int, final(self).items@[id.0 as int]),
            *final(self) == (Context { items: final(self).items, ..*old(self) }),
    {
        match &mut self.items[id.0] {
            Some(item) => match &mut item.kind {
                ItemKind::Type(t) => {
                    t.kind = TypeKind::ResolvedTypeRef(target);
                },
                _ => {},
            },
            None => {},
        }
    }
}

} // verus!
