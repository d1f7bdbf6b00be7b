//! The parse of a type into an item: what is settled before the type is
//! decoded, the record of the declarations that are being parsed, forward
//! references, and the retry below a location.

use vstd::prelude::*;
use crate::annotations::Annotations;
use crate::clang::{ClangType, ClangTypeKind, CursorId, CursorKind, TranslationUnit, TypeId};
use crate::context::{lookup, Context, PartialType};
use crate::decode::{cannot_decode, decoded_declaration, is_decoded, refers, shape_of, Shape};
use crate::item::Item;
use crate::item_kind::ItemKind;
use crate::known::{
    added, appended, blob_layout, builtin_kind, is_modelled, is_plain_type, is_template_like,
    is_wrapper, lookup_declaration,
};
use crate::named::{named_definition, named_type_post};
use crate::parse::{
    extends, filled_with_type, grows, is_new, is_placeholder, lemma_grows_trans, minted, ready,
    relevant_parent, same_parse_state, ChildVisit, ParseError, ParseResult,
};
use crate::text::{clone_optional, clone_strings, views};
use crate::ty::{ItemId, Type, TypeKind};

verus! {

/// The declaration under which a type is registered: the canonical cursor of
/// `declaration`; where there is none, that of the template at `location`.
pub open spec fn declaration_key(
    tu: &TranslationUnit,
    declaration: Option<CursorId>,
    location: CursorId,
) -> Option<CursorId> {
    match declaration {
        Some(d) => Some(tu.cursor_at(d).canonical),
        None => if is_template_like(tu.cursor_at(location).kind) {
            Some(tu.cursor_at(location).canonical)
        } else {
            None
        },
    }
}

fn key_of(tu: &TranslationUnit, declaration: Option<CursorId>, location: CursorId) -> (r: Option<
    CursorId,
>)
    requires
        tu.wf(),
        tu.has_cursor(location),
        declaration is Some ==> tu.has_cursor(declaration->0),
    ensures
        r == declaration_key(tu, declaration, location),
{
    match declaration {
        Some(d) => Some(tu.cursor(d).canonical),
        None => if tu.cursor(location).kind == CursorKind::ClassTemplate {
            Some(tu.cursor(location).canonical)
        } else {
            None
        },
    }
}

/// The partial type that is being parsed for the declaration `decl`, the
/// outermost first.
pub open spec fn in_flight(stack: Seq<PartialType>, decl: CursorId) -> Option<ItemId>
    decreases stack.len(),
{
    if stack.len() == 0 {
        None
    } else if stack[0].decl == decl {
        Some(stack[0].id)
    } else {
        in_flight(stack.skip(1), decl)
    }
}

fn find_in_flight(ctx: &Context, decl: CursorId) -> (r: Option<ItemId>)
    requires
        ctx.wf(),
    ensures
        r == in_flight(ctx.currently_parsed_types@, decl),
        r is Some ==> r.unwrap().0 < ctx.items@.len(),
        r is Some ==> on_stack(ctx, r.unwrap()),
{
    let stack = ctx.currently_parsed_types();
    let mut i: usize = 0;
    assert(stack@.skip(0) =~= stack@);
    while i < stack.len()
        invariant
            i <= stack@.len(),
            ctx.wf(),
            *stack == ctx.currently_parsed_types,
            in_flight(stack@, decl) == in_flight(stack@.skip(i as int), decl),
        decreases stack@.len() - i,
    {
        assert(stack@.skip(i as int)[0] == stack@[i as int]);
        assert(stack@.skip(i as int).skip(1) =~= stack@.skip(i + 1));
        if stack[i].decl == decl {
            assert(ctx.currently_parsed_types@[i as int].id.0 < ctx.items@.len());
            return Some(stack[i].id);
        }
        i += 1;
    }
    assert(stack@.skip(i as int).len() == 0);
    None
}

/// Whether one of the types of `stack` has the identifier `r`.
pub open spec fn among_partial(stack: Seq<PartialType>, r: ItemId) -> bool {
    exists|k: int| 0 <= k < stack.len() && (#[trigger] stack[k]).id == r
}

/// Whether a type that is being parsed has the identifier `r`.
pub open spec fn on_stack(ctx: &Context, r: ItemId) -> bool {
    among_partial(ctx.currently_parsed_types@, r)
}

/// Whether every type that is being parsed and has its item already is a
/// type that is no placeholder.
pub open spec fn in_flight_are_types(ctx: &Context) -> bool {
    forall|k: int|
        0 <= k < ctx.currently_parsed_types@.len() && ctx.has(
            (#[trigger] ctx.currently_parsed_types@[k]).id,
        ) ==> ctx.item(ctx.currently_parsed_types@[k].id).kind is Type && !is_placeholder(
            ctx.item(ctx.currently_parsed_types@[k].id),
        )
}

/// Whether `r` is a type item that `old` had not, or else the identifier of
/// one of the types of `stack`.
pub open spec fn new_type_or_among(
    stack: Seq<PartialType>,
    old: &Context,
    new: &Context,
    r: ItemId,
) -> bool {
    among_partial(stack, r) || (is_new(old, new, r.0 as int) && new.item(r).kind is Type)
}

/// Whether `r` is what the parse of a type gives: a type item that `old` had
/// not, or else the identifier of a type that is being parsed further out.
pub open spec fn new_type_or_in_flight(old: &Context, new: &Context, r: ItemId) -> bool {
    new_type_or_among(old.currently_parsed_types@, old, new, r)
}

/// What was new after a step of the parse was new before the step.
pub proof fn lemma_new_type_later(
    stack: Seq<PartialType>,
    a: &Context,
    b: &Context,
    c: &Context,
    own: Option<ItemId>,
    r: ItemId,
)
    requires
        grows(a, b, own),
        new_type_or_among(stack, b, c, r),
    ensures
        new_type_or_among(stack, a, c, r),
{
    if is_new(b, c, r.0 as int) && r.0 < a.items@.len() {
        if a.items@[r.0 as int] is Some {
            assert(b.items@[r.0 as int] == a.items@[r.0 as int]);
        }
    }
}

/// What was gathered for a type that is about to be decoded.
#[derive(Debug)]
pub struct PendingType {
    /// The declaration to record as being parsed, if the type has one.
    pub look_for: Option<CursorId>,
    pub comment: Option<String>,
    pub annotations: Option<Annotations>,
}

/// How the parse of a type begins.
#[derive(Debug)]
pub enum TypeStart {
    /// The type has its item: nothing is left to decode.
    Done(ItemId),
    /// The type has to be decoded.
    Decode(PendingType),
}

/// Whether the type or the type of the location is unexposed.
pub open spec fn is_unexposed(tu: &TranslationUnit, ty: TypeId, location: CursorId) -> bool {
    tu.type_at(ty).kind == ClangTypeKind::Unexposed || tu.type_at(tu.cursor_at(location).ty).kind
        == ClangTypeKind::Unexposed
}

/// Whether the type or the type of the location depends on a template
/// parameter.
pub open spec fn is_associated(tu: &TranslationUnit, ty: TypeId, location: CursorId) -> bool {
    tu.type_at(ty).is_associated_type || tu.type_at(tu.cursor_at(location).ty).is_associated_type
}

/// The declaration that is recorded while the type `ty` is parsed: the
/// canonical cursor of its definition, or of its declaration where that has
/// none; for a type without a declaration, `location` if that is a class
/// template.
pub open spec fn declaration_to_look_for(
    tu: &TranslationUnit,
    ty: TypeId,
    location: CursorId,
) -> Option<CursorId> {
    match tu.type_at(ty).declaration {
        Some(d) => match tu.cursor_at(d).definition {
            Some(def) => Some(tu.cursor_at(def).canonical),
            None => Some(tu.cursor_at(d).canonical),
        },
        None => if tu.cursor_at(location).kind == CursorKind::ClassTemplate {
            Some(location)
        } else {
            None
        },
    }
}

/// The cursor that defines the type `ty`: the definition of its declaration,
/// or the declaration itself where that has none.
pub open spec fn definition_of(tu: &TranslationUnit, ty: TypeId) -> Option<CursorId> {
    match tu.type_at(ty).declaration {
        Some(d) => match tu.cursor_at(d).definition {
            Some(definition) => Some(definition),
            None => Some(d),
        },
        None => None,
    }
}

/// The comment of a type: that of its definition, or else that of the
/// location.
pub open spec fn gathered_comment(tu: &TranslationUnit, ty: TypeId, location: CursorId) -> Option<
    String,
> {
    match definition_of(tu, ty) {
        Some(d) => match tu.cursor_at(d).raw_comment {
            Some(c) => Some(c),
            None => tu.cursor_at(location).raw_comment,
        },
        None => tu.cursor_at(location).raw_comment,
    }
}

/// The annotations of a type: those of its definition, or else those of the
/// location.
pub open spec fn gathered_annotations(
    tu: &TranslationUnit,
    ty: TypeId,
    location: CursorId,
) -> Option<Annotations> {
    match definition_of(tu, ty) {
        Some(d) => match tu.cursor_at(d).annotations {
            Some(a) => Some(a),
            None => tu.cursor_at(location).annotations,
        },
        None => tu.cursor_at(location).annotations,
    }
}

/// Whether two comments read the same.
pub open spec fn same_comment(a: Option<String>, b: Option<String>) -> bool {
    a is Some == b is Some && (a is Some ==> a->0@ == b->0@)
}

/// Whether two bags of annotations hold the same.
pub open spec fn same_annotations(
    a: Option<Annotations>,
    b: Option<Annotations>,
) -> bool {
    a is Some == b is Some && (a is Some ==> a->0.same_as(&b->0))
}

/// Whether `new` has the replacements of `old` and, where `annotations` name
/// a path to replace, one more: `id` for that path.
pub open spec fn registered(
    old: &Context,
    new: &Context,
    id: ItemId,
    annotations: Option<Annotations>,
) -> bool {
    if annotations is Some && annotations->0.use_instead_of is Some {
        &&& new.replacements@.len() == old.replacements@.len() + 1
        &&& new.replacements@.drop_last() == old.replacements@
        &&& new.replacements@.last().1 == id
        &&& views(new.replacements@.last().0@) == views(
            annotations->0.use_instead_of->0@,
        )
    } else {
        new.replacements == old.replacements
    }
}

/// Whether the type `ty` at `location` has to be decoded, given the
/// declarations that were parsed and those that are being parsed: it is
/// neither a blob nor a template parameter, its declaration is not parsed and
/// not being parsed, and it is no builtin.
pub open spec fn needs_decoding_with(
    parsed: Seq<(CursorId, ItemId)>,
    stack: Seq<PartialType>,
    tu: &TranslationUnit,
    ty: TypeId,
    location: CursorId,
) -> bool {
    &&& !(is_unexposed(tu, ty, location) && (is_associated(tu, ty, location) || named_definition(
        tu,
        location,
    ) is Some))
    &&& match lookup_declaration(tu, ty, Some(location)) {
        Some(d) => lookup(parsed, d) is None,
        None => true,
    }
    &&& builtin_kind(tu.type_at(ty).kind) is None
    &&& match declaration_to_look_for(tu, ty, location) {
        Some(d) => in_flight(stack, d) is None,
        None => true,
    }
}

/// Whether the type `ty` at `location` has to be decoded in the context
/// `ctx`.
pub open spec fn needs_decoding(
    ctx: &Context,
    tu: &TranslationUnit,
    ty: TypeId,
    location: CursorId,
) -> bool {
    needs_decoding_with(ctx.parsed_types@, ctx.currently_parsed_types@, tu, ty, location)
}

/// The types that are being parsed while the retry below a location goes
/// on: those of `ctx` without the last, which is the type that is retried,
/// where that type was recorded at all.
pub open spec fn stack_below(ctx: &Context, look_for: Option<CursorId>) -> Seq<PartialType> {
    if look_for is Some {
        ctx.currently_parsed_types@.drop_last()
    } else {
        ctx.currently_parsed_types@
    }
}

/// Whether `item` carries the comment and the annotations given: it reads
/// as the comment does, and holds what the annotations hold, or nothing
/// where there are none.
pub open spec fn carries(
    item: Item,
    comment: Option<String>,
    annotations: Option<Annotations>,
) -> bool {
    &&& same_comment(item.comment, comment)
    &&& match annotations {
        Some(a) => item.annotations.same_as(&a),
        None => !item.annotations.hidden && !item.annotations.opaque
            && item.annotations.use_instead_of is None && item.annotations.other@.len() == 0,
    }
}

/// Whether `item` is the item `id` under `parent` that the type `ty` seen at
/// `location` is parsed into: a type of the shape `shape`, named, laid out
/// and qualified as the type is, with the comment and the annotations of
/// its declaration.
pub open spec fn is_parsed_type(
    item: Item,
    id: ItemId,
    parent: ItemId,
    tu: &TranslationUnit,
    ty: TypeId,
    location: CursorId,
    shape: Shape,
) -> bool {
    &&& item.id == id
    &&& item.parent_id == parent
    &&& item.kind is Type
    &&& is_decoded(tu, ty, location, item.kind->Type_0, shape)
    &&& carries(item, gathered_comment(tu, ty, location), gathered_annotations(tu, ty, location))
}

/// What the parse of a type that has to be decoded, and whose decoding is
/// owed, gives: the item `id` exists, is what [`is_parsed_type`] says, and
/// is found again under the declaration of the type.
pub open spec fn parsed_as_owed(
    old: &Context,
    new: &Context,
    tu: &TranslationUnit,
    id: ItemId,
    ty: TypeId,
    location: CursorId,
    parent_id: Option<ItemId>,
) -> bool {
    &&& new.has(id)
    &&& is_parsed_type(
        new.item(id),
        id,
        relevant_parent(old, parent_id),
        tu,
        ty,
        location,
        shape_of(tu, ty, location)->0,
    )
    &&& match declaration_key(tu, decoded_declaration(tu, ty), location) {
        Some(key) => lookup(new.parsed_types@, key) == Some(id),
        None => true,
    }
}

/// Whether `r` is what a reference to the type `ty` seen at `location`
/// gives, where `next` is the identifier that is minted for it: what the
/// table of `new` holds at `r`, by what `old` knows of the type.
///
/// - A type whose declaration was parsed: an item at `next` that refers to
///   the item of the declaration.
/// - A builtin type: its item, at the identifier after `next`.
/// - While forward references are collected, any other type: a placeholder
///   at `next` for the type, the location and the parent.
/// - Afterwards, a type that has to be decoded and has a shape: the item at
///   `next` that the type is parsed into.
///
/// After the collection, without depth the result is the blob for the type,
/// at `next`; and with depth this is stated for types that are exposed.
pub open spec fn is_reference(
    stack: Seq<PartialType>,
    old: &Context,
    next: ItemId,
    new: &Context,
    tu: &TranslationUnit,
    ty: TypeId,
    location: CursorId,
    parent_id: Option<ItemId>,
    depth: usize,
    r: ItemId,
) -> bool {
    let t = tu.type_at(ty);
    let known = match lookup_declaration(tu, ty, Some(location)) {
        Some(d) => lookup(old.parsed_types@, d),
        None => None,
    };
    if old.collected_typerefs && depth == 0 {
        &&& r == next
        &&& new.has(r)
        &&& is_blob_for(new.item(r), r, old.root_module, t)
    } else if old.collected_typerefs && is_unexposed(tu, ty, location) {
        true
    } else if known is Some {
        &&& r == next
        &&& new.has(r)
        &&& is_wrapper(new.item(r), r, relevant_parent(old, parent_id), known->0, t)
    } else if builtin_kind(t.kind) is Some {
        &&& r.0 == next.0 + 1
        &&& new.has(r)
        &&& is_plain_type(
            new.item(r),
            r,
            old.root_module,
            builtin_kind(t.kind)->0,
            t.layout,
            t.is_const,
        )
    } else if !old.collected_typerefs {
        &&& r == next
        &&& new.has(r)
        &&& is_plain_type(
            new.item(r),
            r,
            relevant_parent(old, parent_id),
            TypeKind::UnresolvedTypeRef(ty, location, parent_id),
            None,
            t.is_const,
        )
        &&& new.item(r).kind->Type_0.name is None
    } else if needs_decoding_with(old.parsed_types@, stack, tu, ty, location) && shape_of(
        tu,
        ty,
        location,
    ) is Some {
        &&& r == next
        &&& new.has(r)
        &&& is_parsed_type(
            new.item(r),
            r,
            relevant_parent(old, parent_id),
            tu,
            ty,
            location,
            shape_of(tu, ty, location)->0,
        )
    } else {
        true
    }
}

/// What a reference gives stays while the parse goes on.
pub proof fn lemma_reference_kept(
    stack: Seq<PartialType>,
    old: &Context,
    next: ItemId,
    mid: &Context,
    new: &Context,
    own: Option<ItemId>,
    tu: &TranslationUnit,
    ty: TypeId,
    location: CursorId,
    parent_id: Option<ItemId>,
    depth: usize,
    r: ItemId,
)
    requires
        is_reference(stack, old, next, mid, tu, ty, location, parent_id, depth, r),
        grows(mid, new, own),
    ensures
        is_reference(stack, old, next, new, tu, ty, location, parent_id, depth, r),
{
    if mid.has(r) {
        assert(new.items@[r.0 as int] == mid.items@[r.0 as int]);
    }
}

/// What a decoded type refers to stays while the parse goes on.
pub proof fn lemma_refers_kept(
    stack: Seq<PartialType>,
    old: &Context,
    first: ItemId,
    mid: &Context,
    new: &Context,
    own: Option<ItemId>,
    tu: &TranslationUnit,
    id: ItemId,
    ty: TypeId,
    location: CursorId,
    depth: usize,
    kind: TypeKind,
)
    requires
        refers(stack, old, first, mid, tu, id, ty, location, depth, kind),
        grows(mid, new, own),
    ensures
        refers(stack, old, first, new, tu, id, ty, location, depth, kind),
{
    let t = tu.type_at(ty);
    match kind {
        TypeKind::Pointer(q) => {
            if t.kind == ClangTypeKind::Pointer && t.inner is Some {
                lemma_reference_kept(
                    stack,
                    old,
                    first,
                    mid,
                    new,
                    own,
                    tu,
                    t.inner->0,
                    location,
                    None,
                    depth,
                    q,
                );
            }
        },
        TypeKind::Reference(q) => {
            if t.kind == ClangTypeKind::Reference && t.inner is Some {
                lemma_reference_kept(
                    stack,
                    old,
                    first,
                    mid,
                    new,
                    own,
                    tu,
                    t.inner->0,
                    location,
                    None,
                    depth,
                    q,
                );
            }
        },
        TypeKind::Alias(q) => {
            if shape_of(tu, ty, location) == Some(Shape::Alias) {
                lemma_reference_kept(
                    stack,
                    old,
                    first,
                    mid,
                    new,
                    own,
                    tu,
                    tu.cursor_at(t.declaration->0).underlying->0,
                    location,
                    None,
                    depth,
                    q,
                );
            }
        },
        TypeKind::Comp(ci) => {
            if !old.collected_typerefs && shape_of(tu, ty, location) is Some {
                assert forall|k: int| 0 <= k < ci.fields@.len() implies new.items@[(
                #[trigger] ci.fields@[k]).ty.0 as int] == mid.items@[ci.fields@[k].ty.0 as int] by {
                    assert(mid.has(ci.fields@[k].ty));
                }
            }
        },
        TypeKind::Function(sig) => {
            if !old.collected_typerefs && shape_of(tu, ty, location) is Some {
                assert(mid.has(sig.return_type));
                assert(new.items@[sig.return_type.0 as int]
                    == mid.items@[sig.return_type.0 as int]);
                assert forall|k: int| 0 <= k < sig.argument_types@.len() implies new.items@[(
                #[trigger] sig.argument_types@[k]).0 as int]
                    == mid.items@[sig.argument_types@[k].0 as int] by {
                    assert(mid.has(sig.argument_types@[k]));
                }
            }
        },
        _ => {},
    }
}

/// The types that are being parsed while the members of the type `ty` are:
/// those of `old`, and the type itself where it has a declaration to record.
pub open spec fn stack_within(
    old: &Context,
    look_for: Option<CursorId>,
    id: ItemId,
) -> Seq<PartialType> {
    match look_for {
        Some(d) => old.currently_parsed_types@.push(PartialType { decl: d, id }),
        None => old.currently_parsed_types@,
    }
}

/// Whether the item `id` of `new`, if it is a type, refers to what its kind
/// has to refer to, as [`refers`] says, where `first` is the first
/// identifier that was minted for what it refers to, and `depth` the depth
/// that was left for that.
pub open spec fn parsed_refers(
    old: &Context,
    new: &Context,
    tu: &TranslationUnit,
    id: ItemId,
    ty: TypeId,
    location: CursorId,
    depth: usize,
    first: ItemId,
) -> bool {
    new.has(id) && new.item(id).kind is Type ==> refers(
        stack_within(old, declaration_to_look_for(tu, ty, location), id),
        old,
        first,
        new,
        tu,
        id,
        ty,
        location,
        depth,
        new.item(id).kind->Type_0.kind,
    )
}

/// How the parse of the type `ty` at `location` into the item `id` begins.
///
/// - An unexposed type that depends on a template parameter becomes a blob
///   at `id`.
/// - An unexposed type that is a template parameter becomes what
///   [`named_type_post`] says, at `id`.
/// - For any other type, a replacement that its annotations name is
///   registered. Then, in this order: a type whose declaration was parsed
///   gets an item at `id` that refers to the item of the declaration; a
///   builtin type gets an item at a fresh identifier; a type whose
///   declaration is being parsed further out is the item that is in flight;
///   and every other type is left to be decoded, with its comment and its
///   annotations.
pub open spec fn begin_type_post(
    old: &Context,
    new: &Context,
    tu: &TranslationUnit,
    id: ItemId,
    ty: TypeId,
    location: CursorId,
    parent_id: Option<ItemId>,
    r: TypeStart,
) -> bool {
    if is_unexposed(tu, ty, location) && is_associated(tu, ty, location) {
        &&& r == TypeStart::Done(id)
        &&& added(old, new, id)
        &&& *new == (Context { items: new.items, ..*old })
        &&& is_plain_type(
            new.item(id),
            id,
            old.root_module,
            TypeKind::Opaque,
            blob_layout(tu.type_at(ty).layout),
            tu.type_at(ty).is_const,
        )
        &&& new.item(id).kind->Type_0.name is None
    } else if is_unexposed(tu, ty, location) && named_definition(tu, location) is Some {
        &&& r == TypeStart::Done(id)
        &&& named_type_post(old, new, tu, Some(id), location, Some(id))
    } else {
        let known = match lookup_declaration(tu, ty, Some(location)) {
            Some(d) => lookup(old.parsed_types@, d),
            None => None,
        };
        let look_for = declaration_to_look_for(tu, ty, location);
        let in_flight = match look_for {
            Some(d) => in_flight(old.currently_parsed_types@, d),
            None => None,
        };
        &&& registered(old, new, id, gathered_annotations(tu, ty, location))
        &&& new.named_types == old.named_types
        &&& new.parsed_types == old.parsed_types
        &&& new.modules == old.modules
        &&& same_parse_state(old, new)
        &&& if known is Some {
            &&& r == TypeStart::Done(id)
            &&& added(old, new, id)
            &&& is_wrapper(
                new.item(id),
                id,
                relevant_parent(old, parent_id),
                known->0,
                tu.type_at(ty),
            )
        } else if builtin_kind(tu.type_at(ty).kind) is Some {
            &&& r == TypeStart::Done(ItemId(old.items@.len() as usize))
            &&& appended(old, new, ItemId(old.items@.len() as usize))
            &&& is_plain_type(
                new.item(ItemId(old.items@.len() as usize)),
                ItemId(old.items@.len() as usize),
                old.root_module,
                builtin_kind(tu.type_at(ty).kind)->0,
                tu.type_at(ty).layout,
                tu.type_at(ty).is_const,
            )
        } else if in_flight is Some {
            &&& r == TypeStart::Done(in_flight->0)
            &&& new.items == old.items
        } else {
            &&& r is Decode
            &&& r->Decode_0.look_for == look_for
            &&& same_comment(r->Decode_0.comment, gathered_comment(tu, ty, location))
            &&& same_annotations(r->Decode_0.annotations, gathered_annotations(tu, ty, location))
            &&& new.items == old.items
        }
    }
}

/// Whether `mid` is `old` with one more identifier, which has no item yet.
pub open spec fn minted_from(old: &Context, mid: &Context) -> bool {
    &&& mid.items@ == old.items@.push(None)
    &&& *mid == (Context { items: mid.items, ..*old })
}

/// What the parse of a type into an item of its own gives where the type
/// needs no decoding: a fresh identifier is minted, and the type is settled
/// as [`begin_type_post`] says for that identifier.
pub open spec fn settled_afresh(
    old: &Context,
    new: &Context,
    tu: &TranslationUnit,
    ty: TypeId,
    location: CursorId,
    parent_id: Option<ItemId>,
    known: ItemId,
) -> bool {
    exists|mid: Context| #[trigger]
        minted_from(old, &mid) && begin_type_post(
            &mid,
            new,
            tu,
            ItemId(old.items@.len() as usize),
            ty,
            location,
            parent_id,
            TypeStart::Done(known),
        )
}

/// What the parse of a type into an item of its own leaves where the
/// decoding of the type is bound to fail: a fresh identifier was minted and
/// has no item, a replacement that the annotations of the type name is
/// registered for it, and nothing else has changed.
pub open spec fn failed_afresh(
    old: &Context,
    new: &Context,
    tu: &TranslationUnit,
    ty: TypeId,
    location: CursorId,
) -> bool {
    &&& new.items@ == old.items@.push(None)
    &&& registered(
        old,
        new,
        ItemId(old.items@.len() as usize),
        gathered_annotations(tu, ty, location),
    )
    &&& new.named_types == old.named_types
    &&& new.parsed_types == old.parsed_types
    &&& new.modules == old.modules
    &&& same_parse_state(old, new)
}

/// Whether `item` is the blob `id` under `root` that stands for the type
/// `t`: laid out and qualified as the type is, without a name, a comment or
/// annotations.
pub open spec fn is_blob_for(item: Item, id: ItemId, root: ItemId, t: ClangType) -> bool {
    &&& is_plain_type(item, id, root, TypeKind::Opaque, blob_layout(t.layout), t.is_const)
    &&& item.kind->Type_0.name is None
}

/// Whether `new` and `r` are what a full parse of the type `ty` into `id`
/// ends in, where the parse itself led from `old` to `parsed`: either the
/// parse gave `r`, and `new` is `parsed`; or it failed, which left `id`
/// vacant, and `new` is `parsed` with the blob for the type at `id`, which
/// is `r`.
pub open spec fn parsed_or_fell_back(
    old: &Context,
    parsed: &Context,
    new: &Context,
    tu: &TranslationUnit,
    id: ItemId,
    ty: TypeId,
    r: ItemId,
) -> bool {
    &&& extends(old, parsed, Some(id))
    &&& {
        ||| *new == *parsed
        ||| {
            &&& parsed.vacant(id)
            &&& r == id
            &&& added(parsed, new, id)
            &&& is_blob_for(new.item(id), id, old.root_module, tu.type_at(ty))
            &&& *new == (Context { items: new.items, ..*parsed })
        }
    }
}

/// What a parse that fails leaves of the type `ty` at `location`: a
/// replacement that the annotations of the type name is registered for `id`,
/// and nothing else has changed.
pub open spec fn only_registered(
    old: &Context,
    new: &Context,
    tu: &TranslationUnit,
    id: ItemId,
    ty: TypeId,
    location: CursorId,
) -> bool {
    &&& registered(old, new, id, gathered_annotations(tu, ty, location))
    &&& new.items@ == old.items@
    &&& new.named_types == old.named_types
    &&& new.parsed_types == old.parsed_types
    &&& new.modules == old.modules
    &&& same_parse_state(old, new)
}

/// What trying the type `ty` at `location` gives where the first try
/// settles it: a type that needs no decoding is settled as
/// [`begin_type_post`] says, and one that has to be decoded and has a shape
/// becomes the item `id`, as [`parsed_as_owed`] says.
pub open spec fn settled_at(
    old: &Context,
    new: &Context,
    tu: &TranslationUnit,
    id: ItemId,
    ty: TypeId,
    location: CursorId,
    parent_id: Option<ItemId>,
    r: Result<ItemId, ParseError>,
) -> bool {
    &&& !needs_decoding(old, tu, ty, location) ==> r is Ok && begin_type_post(
        old,
        new,
        tu,
        id,
        ty,
        location,
        parent_id,
        TypeStart::Done(r.unwrap()),
    )
    &&& needs_decoding(old, tu, ty, location) && shape_of(tu, ty, location) is Some ==> r
        == Ok::<ItemId, ParseError>(id) && parsed_as_owed(old, new, tu, id, ty, location, parent_id)
}

/// Whether `new` is `old` but for the record of the types being parsed,
/// which holds the same entries in both.
pub open spec fn same_but_stack(old: &Context, new: &Context) -> bool {
    &&& *new == (Context { currently_parsed_types: new.currently_parsed_types, ..*old })
    &&& new.currently_parsed_types@ == old.currently_parsed_types@
}

/// What the retry below `location` gives for the type `ty` and the item
/// `id`, where the first step decides.
///
/// - A location without children: the type is tried as a template type
///   parameter at the location itself, with the effect that
///   [`named_type_post`] states; where it is none, the retry gives up and
///   nothing has changed.
/// - Without depth below the location, a location with children gives
///   nothing, and nothing has changed.
/// - A first child at which the type is unexposed and depends on a template
///   parameter: the blob that stands for the type becomes the item `id`.
/// - A first child at which the type is unexposed and is a template type
///   parameter: the named type of the parameter, as [`named_type_post`]
///   states for that child.
/// - A first child at which the type has to be decoded and has a shape: the
///   item `id`, as [`parsed_as_owed`] states for that child.
pub open spec fn retried(
    old: &Context,
    new: &Context,
    tu: &TranslationUnit,
    id: ItemId,
    ty: TypeId,
    location: CursorId,
    parent_id: Option<ItemId>,
    look_for: Option<CursorId>,
    depth: usize,
    r: Result<ItemId, ParseError>,
) -> bool {
    let children = tu.cursor_at(location).children@;
    if children.len() == 0 {
        match named_definition(tu, location) {
            Some(_) => r == Ok::<ItemId, ParseError>(id) && named_type_post(
                old,
                new,
                tu,
                Some(id),
                location,
                Some(id),
            ),
            None => r == Err::<ItemId, ParseError>(ParseError::Recurse) && same_but_stack(old, new),
        }
    } else if depth <= 1 {
        r == Err::<ItemId, ParseError>(ParseError::Continue) && same_but_stack(old, new)
    } else if is_unexposed(tu, ty, children[0]) && is_associated(tu, ty, children[0]) {
        &&& r == Ok::<ItemId, ParseError>(id)
        &&& added(old, new, id)
        &&& is_plain_type(
            new.item(id),
            id,
            old.root_module,
            TypeKind::Opaque,
            blob_layout(tu.type_at(ty).layout),
            tu.type_at(ty).is_const,
        )
        &&& new.item(id).kind->Type_0.name is None
    } else if is_unexposed(tu, ty, children[0]) && named_definition(tu, children[0]) is Some {
        r == Ok::<ItemId, ParseError>(id) && named_type_post(
            old,
            new,
            tu,
            Some(id),
            children[0],
            Some(id),
        )
    } else {
        needs_decoding_with(
            old.parsed_types@,
            stack_below(old, look_for),
            tu,
            ty,
            children[0],
        ) && shape_of(tu, ty, children[0]) is Some ==> r == Ok::<ItemId, ParseError>(id)
            && parsed_as_owed(old, new, tu, id, ty, children[0], parent_id)
    }
}

impl Item {
    /// Parses the type `ty` seen at `location` into the item `id`.
    ///
    /// - An unexposed type that depends on a template parameter becomes a
    ///   blob; one that is a template parameter becomes a named type.
    /// - A replacement that the declaration is annotated with is registered.
    /// - A type that is modelled already, or whose declaration is being
    ///   parsed further out, is not parsed again.
    /// - Otherwise the declaration is recorded as being parsed, the type is
    ///   decoded, and the record is removed. Where the decoder asks for it,
    ///   the children of `location` are tried in turn, and at last a named
    ///   type.
    ///
    /// `depth` bounds the nesting of parse steps; at zero nothing is parsed.
    /// A type that needs no decoding is settled as [`begin_type_post`] says;
    /// one that has to be decoded and has a shape becomes the item `id`, as
    /// [`parsed_as_owed`] says, and refers to what [`parsed_refers`] says;
    /// one whose decoding is bound to fail leaves nothing but a replacement
    /// that it registered. Whatever is put at `id` is a type.
    pub fn from_ty_with_id(
        tu: &TranslationUnit,
        id: ItemId,
        ty: TypeId,
        location: CursorId,
        parent_id: Option<ItemId>,
        ctx: &mut Context,
        depth: usize,
    ) -> (r: Result<ItemId, ParseError>)
        requires
            ready(old(ctx), tu),
            tu.has_type(ty),
            tu.has_cursor(location),
            old(ctx).vacant(id),
            minted(old(ctx), parent_id),
            parent_id != Some(id),
        ensures
            final(ctx).wf(),
            extends(old(ctx), final(ctx), Some(id)),
            final(ctx).modules == old(ctx).modules,
            filled_with_type(old(ctx), final(ctx), id),
            r is Err ==> final(ctx).vacant(id),
            r is Ok ==> r.unwrap().0 < final(ctx).items@.len(),
            r is Ok ==> new_type_or_in_flight(old(ctx), final(ctx), r.unwrap()),
            r is Ok && final(ctx).has(r.unwrap()) && !old(ctx).has(r.unwrap()) ==> final(ctx).item(
                r.unwrap(),
            ).kind is Type,
            depth == 0
                ==> r == Err::<ItemId, ParseError>(ParseError::Continue) && *final(ctx) == *old(
                ctx,
            ),
            depth > 0 && !needs_decoding(old(ctx), tu, ty, location) ==> r is Ok && begin_type_post(
                old(ctx),
                final(ctx),
                tu,
                id,
                ty,
                location,
                parent_id,
                TypeStart::Done(r.unwrap()),
            ),
            depth > 0 && needs_decoding(old(ctx), tu, ty, location) && shape_of(tu, ty, location)
                is Some ==> r == Ok::<ItemId, ParseError>(id) && parsed_as_owed(
                old(ctx),
                final(ctx),
                tu,
                id,
                ty,
                location,
                parent_id,
            ) && parsed_refers(
                old(ctx),
                final(ctx),
                tu,
                id,
                ty,
                location,
                (depth - 1) as usize,
                ItemId(old(ctx).items@.len() as usize),
            ),
            depth > 0 && needs_decoding(old(ctx), tu, ty, location) && cannot_decode(
                tu,
                ty,
                location,
            ) ==> r == Err::<ItemId, ParseError>(ParseError::Continue) && only_registered(
                old(ctx),
                final(ctx),
                tu,
                id,
                ty,
                location,
            ),
        decreases depth, 0nat,
    {
        if depth == 0 {
            return Err(ParseError::Continue);
        }
        match Item::begin_type(tu, id, ty, location, parent_id, ctx) {
            TypeStart::Done(known) => Ok(known),
            TypeStart::Decode(pending) => {
                let ghost begun = *ctx;
                let r = Item::decode_type(tu, id, ty, location, parent_id, ctx, pending, depth);
                proof {
                    lemma_grows_trans(old(ctx), &begun, ctx, Some(id), Some(id), Some(id));
                }
                r
            },
        }
    }

    /// What is done for a type before it is decoded: a type that needs no
    /// decoding gets its item here; for any other, the comment and the
    /// annotations of its declaration are gathered, a replacement that it is
    /// annotated with is registered, and the declaration to record as being
    /// parsed is found.
    pub fn begin_type(
        tu: &TranslationUnit,
        id: ItemId,
        ty: TypeId,
        location: CursorId,
        parent_id: Option<ItemId>,
        ctx: &mut Context,
    ) -> (r: TypeStart)
        requires
            ready(old(ctx), tu),
            tu.has_type(ty),
            tu.has_cursor(location),
            old(ctx).vacant(id),
            minted(old(ctx), parent_id),
            parent_id != Some(id),
        ensures
            final(ctx).wf(),
            extends(old(ctx), final(ctx), Some(id)),
            final(ctx).modules == old(ctx).modules,
            filled_with_type(old(ctx), final(ctx), id),
            r matches TypeStart::Done(known) ==> known.0 < final(ctx).items@.len(),
            r matches TypeStart::Done(known) ==> new_type_or_in_flight(old(ctx), final(ctx), known),
            r matches TypeStart::Decode(pending) ==> final(ctx).vacant(id) && (pending.look_for
                is Some ==> tu.has_cursor(pending.look_for->0)),
            begin_type_post(old(ctx), final(ctx), tu, id, ty, location, parent_id, r),
    {
        let t = tu.ty(ty);
        let loc = tu.cursor(location);
        let loc_ty = tu.ty(loc.ty);
        if t.kind == ClangTypeKind::Unexposed || loc_ty.kind == ClangTypeKind::Unexposed {
            if t.is_associated_type || loc_ty.is_associated_type {
                return TypeStart::Done(Item::new_opaque_type(id, t, ctx));
            }
            match Item::named_type(tu, Some(id), location, ctx) {
                Some(named) => {
                    return TypeStart::Done(named);
                },
                None => {},
            }
        }
        let decl: Option<CursorId> = match t.declaration {
            Some(d) => match tu.cursor(d).definition {
                Some(def) => Some(def),
                None => Some(d),
            },
            None => None,
        };
        let comment = match decl {
            Some(d) => match &tu.cursor(d).raw_comment {
                Some(c) => Some(c.clone()),
                None => clone_optional(&loc.raw_comment),
            },
            None => clone_optional(&loc.raw_comment),
        };
        let annotations = match decl {
            Some(d) => match &tu.cursor(d).annotations {
                Some(a) => Some(a.duplicate()),
                None => match &loc.annotations {
                    Some(a) => Some(a.duplicate()),
                    None => None,
                },
            },
            None => match &loc.annotations {
                Some(a) => Some(a.duplicate()),
                None => None,
            },
        };
        assert(same_annotations(annotations, gathered_annotations(tu, ty, location)));
        assert(same_comment(comment, gathered_comment(tu, ty, location)));
        match &annotations {
            Some(a) => match &a.use_instead_of {
                Some(replaced) => {
                    let path = clone_strings(replaced);
                    ctx.replace(path, id);
                    assert(ctx.replacements@.drop_last() =~= old(ctx).replacements@);
                    assert(ctx.replacements@.last() == (path, id));
                },
                None => {},
            },
            None => {},
        }
        assert(registered(old(ctx), ctx, id, gathered_annotations(tu, ty, location)));
        let ghost mid = *ctx;
        match ctx.builtin_or_resolved_ty(tu, id, parent_id, ty, Some(location)) {
            Some(known) => {
                assert(registered(old(ctx), ctx, id, gathered_annotations(tu, ty, location)));
                return TypeStart::Done(known);
            },
            None => {},
        }
        let look_for: Option<CursorId> = match decl {
            Some(d) => Some(tu.cursor(d).canonical),
            None => if loc.kind == CursorKind::ClassTemplate {
                Some(location)
            } else {
                None
            },
        };
        match look_for {
            Some(d) => match find_in_flight(ctx, d) {
                Some(partial) => {
                    return TypeStart::Done(partial);
                },
                None => {},
            },
            None => {},
        }
        TypeStart::Decode(PendingType { look_for, comment, annotations })
    }

    /// Decodes the type `ty` into the item `id`, with its declaration
    /// recorded as being parsed for as long as that takes.
    pub(crate) fn decode_type(
        tu: &TranslationUnit,
        id: ItemId,
        ty: TypeId,
        location: CursorId,
        parent_id: Option<ItemId>,
        ctx: &mut Context,
        pending: PendingType,
        depth: usize,
    ) -> (r: Result<ItemId, ParseError>)
        requires
            ready(old(ctx), tu),
            tu.has_type(ty),
            tu.has_cursor(location),
            old(ctx).vacant(id),
            minted(old(ctx), parent_id),
            parent_id != Some(id),
            depth > 0,
            pending.look_for is Some ==> tu.has_cursor(pending.look_for->0),
        ensures
            final(ctx).wf(),
            extends(old(ctx), final(ctx), Some(id)),
            final(ctx).modules == old(ctx).modules,
            filled_with_type(old(ctx), final(ctx), id),
            r is Err ==> final(ctx).vacant(id),
            r is Ok ==> r.unwrap().0 < final(ctx).items@.len(),
            r is Ok ==> new_type_or_in_flight(old(ctx), final(ctx), r.unwrap()),
            !is_modelled(old(ctx), tu, ty, location) && cannot_decode(tu, ty, location) ==> r
                == Err::<ItemId, ParseError>(ParseError::Continue) && same_but_stack(
                old(ctx),
                final(ctx),
            ),
            !is_modelled(old(ctx), tu, ty, location) && shape_of(tu, ty, location) is Some ==> {
                &&& r == Ok::<ItemId, ParseError>(id)
                &&& final(ctx).has(id)
                &&& final(ctx).item(id).id == id
                &&& final(ctx).item(id).parent_id == relevant_parent(old(ctx), parent_id)
                &&& final(ctx).item(id).kind is Type
                &&& is_decoded(
                    tu,
                    ty,
                    location,
                    final(ctx).item(id).kind->Type_0,
                    shape_of(tu, ty, location)->0,
                )
                &&& final(ctx).item(id).comment == pending.comment
                &&& pending.annotations is Some ==> final(ctx).item(id).annotations
                    == pending.annotations->0
                &&& pending.annotations is None
                    ==> carries(final(ctx).item(id), pending.comment, None)
                &&& match declaration_key(tu, decoded_declaration(tu, ty), location) {
                    Some(key) => lookup(final(ctx).parsed_types@, key) == Some(id),
                    None => true,
                }
                &&& refers(
                    stack_within(old(ctx), pending.look_for, id),
                    old(ctx),
                    ItemId(old(ctx).items@.len() as usize),
                    final(ctx),
                    tu,
                    id,
                    ty,
                    location,
                    (depth - 1) as usize,
                    final(ctx).item(id).kind->Type_0.kind,
                )
            },
        decreases depth - 1, 6nat,
    {
        let relevant_parent = match parent_id {
            Some(p) => p,
            None => ctx.current_module,
        };
        match pending.look_for {
            Some(d) => {
                ctx.begin_parsing(PartialType::new(d, id));
            },
            None => {},
        }
        let ghost begun = *ctx;
        let result = Type::from_clang_ty(tu, id, ty, location, parent_id, ctx, depth - 1);
        proof {
            lemma_grows_trans(old(ctx), &begun, ctx, None, Some(id), Some(id));
            assert(is_modelled(&begun, tu, ty, location)
                == is_modelled(old(ctx), tu, ty, location));
        }
        let ghost decoded = *ctx;
        let ghost owed = !is_modelled(old(ctx), tu, ty, location) && shape_of(tu, ty, location)
            is Some;
        let ghost declaration = decoded_declaration(tu, ty);
        assert(owed ==> result is Ok && result.unwrap() is New && result.unwrap()->New_1
            == declaration);
        let ret = match result {
            Err(ParseError::Recurse) => Item::retry_below(
                tu,
                id,
                ty,
                location,
                parent_id,
                ctx,
                pending.look_for,
                depth,
            ),
            settled => Item::settle_type(
                tu,
                id,
                location,
                relevant_parent,
                ctx,
                pending.comment,
                pending.annotations,
                settled,
            ),
        };
        proof {
            lemma_grows_trans(old(ctx), &decoded, ctx, Some(id), Some(id), Some(id));
            if owed {
                let kind = result.unwrap()->New_0.kind;
                let stack = stack_within(old(ctx), pending.look_for, id);
                let first = ItemId(old(ctx).items@.len() as usize);
                assert(begun.currently_parsed_types@ == stack);
                assert(refers(stack, &begun, first, &decoded, tu, id, ty, location, (depth
                    - 1) as usize, kind));
                assert(refers(stack, old(ctx), first, &decoded, tu, id, ty, location, (depth
                    - 1) as usize, kind));
                lemma_refers_kept(
                    stack,
                    old(ctx),
                    first,
                    &decoded,
                    ctx,
                    Some(id),
                    tu,
                    id,
                    ty,
                    location,
                    (depth - 1) as usize,
                    kind,
                );
                let key = declaration_key(tu, declaration, location);
                if key is Some {
                    assert(ctx.parsed_types@.last() == (key->0, id));
                }
            }
        }
        if pending.look_for.is_some() {
            let _ = ctx.finish_parsing();
        }
        assert(ctx.currently_parsed_types@ =~= old(ctx).currently_parsed_types@);
        ret
    }

    /// Settles what the decoder gave for the type `id`.
    ///
    /// - A type that exists already is the result, and nothing changes.
    /// - A new type becomes the item `id` under `parent`, with the comment
    ///   and the annotations that were gathered, and is registered under the
    ///   declaration that the decoder names, or else under the template at
    ///   `location`.
    /// - A failure is passed on, and nothing changes.
    pub fn settle_type(
        tu: &TranslationUnit,
        id: ItemId,
        location: CursorId,
        parent: ItemId,
        ctx: &mut Context,
        comment: Option<String>,
        annotations: Option<Annotations>,
        result: Result<ParseResult<Type>, ParseError>,
    ) -> (r: Result<ItemId, ParseError>)
        requires
            ready(old(ctx), tu),
            tu.has_cursor(location),
            result matches Ok(ParseResult::New(t, declaration)) ==> old(ctx).vacant(id) && parent
                != id && parent.0 < old(ctx).items@.len() && !(t.kind is UnresolvedTypeRef) && (
            declaration is Some ==> tu.has_cursor(declaration->0)),
        ensures
            final(ctx).wf(),
            extends(old(ctx), final(ctx), Some(id)),
            final(ctx).modules == old(ctx).modules,
            filled_with_type(old(ctx), final(ctx), id),
            match result {
                Ok(ParseResult::AlreadyResolved(known)) => r == Ok::<ItemId, ParseError>(known)
                    && *final(ctx) == *old(ctx),
                Ok(ParseResult::New(t, declaration)) => {
                    &&& r == Ok::<ItemId, ParseError>(id)
                    &&& added(old(ctx), final(ctx), id)
                    &&& final(ctx).item(id).id == id
                    &&& final(ctx).item(id).parent_id == parent
                    &&& final(ctx).item(id).comment == comment
                    &&& final(ctx).item(id).kind == ItemKind::Type(t)
                    &&& annotations is Some ==> final(ctx).item(id).annotations == annotations->0
                    &&& annotations is None ==> carries(final(ctx).item(id), comment, None)
                    &&& final(ctx).parsed_types@
                        == match declaration_key(tu, declaration, location) {
                        Some(key) => old(ctx).parsed_types@.push((key, id)),
                        None => old(ctx).parsed_types@,
                    }
                    &&& *final(ctx) == (Context {
                        items: final(ctx).items,
                        parsed_types: final(ctx).parsed_types,
                        ..*old(ctx)
                    })
                },
                Err(e) => r == Err::<ItemId, ParseError>(e) && *final(ctx) == *old(ctx),
            },
    {
        match result {
            Ok(ParseResult::AlreadyResolved(known)) => {
                Ok(known)
            },
            Ok(ParseResult::New(item, declaration)) => {
                let key = key_of(tu, declaration, location);
                ctx.add_item(
                    Item::new(id, comment, annotations, parent, ItemKind::Type(item)),
                    key,
                );
                Ok(id)
            },
            Err(e) => Err(e),
        }
    }

    /// Tries the type `ty` at the children of `location`, where the decoder
    /// asked for that, and as a template type parameter if none of them
    /// gives a result. The record of the declaration being parsed is taken
    /// off while the children are visited, and put back afterwards. What the
    /// first step decides is as [`retried`] says.
    pub(crate) fn retry_below(
        tu: &TranslationUnit,
        id: ItemId,
        ty: TypeId,
        location: CursorId,
        parent_id: Option<ItemId>,
        ctx: &mut Context,
        look_for: Option<CursorId>,
        depth: usize,
    ) -> (r: Result<ItemId, ParseError>)
        requires
            ready(old(ctx), tu),
            tu.has_type(ty),
            tu.has_cursor(location),
            old(ctx).vacant(id),
            minted(old(ctx), parent_id),
            parent_id != Some(id),
            depth > 0,
            look_for is Some ==> old(ctx).currently_parsed_types@.len() > 0 && old(
                ctx,
            ).currently_parsed_types@.last() == (PartialType { decl: look_for->0, id }),
        ensures
            final(ctx).wf(),
            extends(old(ctx), final(ctx), Some(id)),
            final(ctx).modules == old(ctx).modules,
            filled_with_type(old(ctx), final(ctx), id),
            r is Err ==> final(ctx).vacant(id),
            r is Ok ==> r.unwrap().0 < final(ctx).items@.len(),
            r is Ok ==> new_type_or_among(
                stack_below(old(ctx), look_for),
                old(ctx),
                final(ctx),
                r.unwrap(),
            ),
            retried(old(ctx), final(ctx), tu, id, ty, location, parent_id, look_for, depth, r),
        decreases depth - 1, 5nat,
    {
        if look_for.is_some() {
            let _ = ctx.finish_parsing();
        }
        let ghost popped = *ctx;
        let visited = visit_children(
            tu,
            location,
            id,
            ty,
            parent_id,
            ctx,
            Err(ParseError::Recurse),
            depth - 1,
        );
        let ghost after = *ctx;
        match look_for {
            Some(d) => {
                ctx.begin_parsing(PartialType::new(d, id));
            },
            None => {},
        }
        assert(ctx.currently_parsed_types@ =~= old(ctx).currently_parsed_types@);
        proof {
            lemma_grows_trans(old(ctx), &popped, ctx, None, Some(id), Some(id));
        }
        match visited {
            Err(ParseError::Recurse) => {
                let ghost pushed = *ctx;
                let named = Item::named_type(tu, Some(id), location, ctx);
                proof {
                    lemma_grows_trans(old(ctx), &pushed, ctx, Some(id), Some(id), Some(id));
                }
                match named {
                    Some(n) => Ok(n),
                    None => Err(ParseError::Recurse),
                }
            },
            other => other,
        }
    }

    /// Parses the type `ty` seen at `location` into an item of its own: a
    /// fresh identifier is minted, and the type is parsed into it.
    pub fn from_ty(
        tu: &TranslationUnit,
        ty: TypeId,
        location: CursorId,
        parent_id: Option<ItemId>,
        ctx: &mut Context,
        depth: usize,
    ) -> (r: Result<ItemId, ParseError>)
        requires
            ready(old(ctx), tu),
            tu.has_type(ty),
            tu.has_cursor(location),
            minted(old(ctx), parent_id),
        ensures
            final(ctx).wf(),
            extends(old(ctx), final(ctx), None),
            final(ctx).modules == old(ctx).modules,
            r is Ok ==> r.unwrap().0 < final(ctx).items@.len(),
            r is Ok ==> new_type_or_in_flight(old(ctx), final(ctx), r.unwrap()),
            r is Ok && final(ctx).has(r.unwrap()) && !old(ctx).has(r.unwrap()) ==> final(ctx).item(
                r.unwrap(),
            ).kind is Type,
            depth > 0 && needs_decoding(old(ctx), tu, ty, location) && shape_of(tu, ty, location)
                is Some ==> r == Ok::<ItemId, ParseError>(ItemId(old(ctx).items@.len() as usize))
                && parsed_as_owed(
                old(ctx),
                final(ctx),
                tu,
                ItemId(old(ctx).items@.len() as usize),
                ty,
                location,
                parent_id,
            ) && parsed_refers(
                old(ctx),
                final(ctx),
                tu,
                ItemId(old(ctx).items@.len() as usize),
                ty,
                location,
                (depth - 1) as usize,
                ItemId((old(ctx).items@.len() + 1) as usize),
            ),
            depth == 0 ==> r == Err::<ItemId, ParseError>(ParseError::Continue) && minted_from(
                old(ctx),
                final(ctx),
            ),
            depth > 0 && needs_decoding(old(ctx), tu, ty, location) && cannot_decode(
                tu,
                ty,
                location,
            ) ==> r == Err::<ItemId, ParseError>(ParseError::Continue) && failed_afresh(
                old(ctx),
                final(ctx),
                tu,
                ty,
                location,
            ),
            depth > 0 && !needs_decoding(old(ctx), tu, ty, location) ==> r is Ok && settled_afresh(
                old(ctx),
                final(ctx),
                tu,
                ty,
                location,
                parent_id,
                r.unwrap(),
            ),
        decreases depth, 1nat,
    {
        let id = ctx.next_item_id();
        let ghost minted_one = *ctx;
        let r = Item::from_ty_with_id(tu, id, ty, location, parent_id, ctx, depth);
        proof {
            lemma_grows_trans(old(ctx), &minted_one, ctx, None, Some(id), None);
            assert(minted_from(old(ctx), &minted_one));
            assert(needs_decoding(&minted_one, tu, ty, location) == needs_decoding(
                old(ctx),
                tu,
                ty,
                location,
            ));
        }
        r
    }

    /// What a full parse of a type ends in: the item that the parse gave, or
    /// else the blob that stands for the type `ty`, which becomes the item
    /// `potential_id` under the root.
    pub fn parsed_or_blob(
        parsed: Result<ItemId, ParseError>,
        potential_id: ItemId,
        ty: &ClangType,
        ctx: &mut Context,
    ) -> (r: ItemId)
        requires
            old(ctx).wf(),
            !old(ctx).codegen,
            parsed is Err ==> old(ctx).vacant(potential_id),
        ensures
            final(ctx).wf(),
            extends(old(ctx), final(ctx), Some(potential_id)),
            match parsed {
                Ok(id) => r == id && *final(ctx) == *old(ctx),
                Err(_) => {
                    &&& r == potential_id
                    &&& added(old(ctx), final(ctx), potential_id)
                    &&& is_blob_for(
                        final(ctx).item(potential_id),
                        potential_id,
                        old(ctx).root_module,
                        *ty,
                    )
                    &&& *final(ctx) == (Context { items: final(ctx).items, ..*old(ctx) })
                },
            },
    {
        match parsed {
            Ok(id) => id,
            Err(_) => Item::new_opaque_type(potential_id, ty, ctx),
        }
    }

    /// Parses the type `ty` seen at `location` into the item `potential_id`,
    /// or leaves a forward reference there.
    ///
    /// - While forward references are collected: a type that is modelled
    ///   already is not parsed again; any other becomes a placeholder at
    ///   `potential_id`, to be resolved when everything is parsed.
    /// - Afterwards the type is parsed in full, and becomes a blob at
    ///   `potential_id`, under the root, if that fails: as it does without
    ///   depth, and where the decoding of the type is bound to fail. The
    ///   result is then a type that is no placeholder, unless it is the
    ///   identifier of a type that is being parsed further out, which has no
    ///   item yet.
    ///
    /// Whatever item the call adds at the result is a type; and where the
    /// types that are being parsed are types, the result is a type if it
    /// has an item at all, and after the collection no placeholder.
    pub fn from_ty_or_ref_with_id(
        tu: &TranslationUnit,
        potential_id: ItemId,
        ty: TypeId,
        location: CursorId,
        parent_id: Option<ItemId>,
        ctx: &mut Context,
        depth: usize,
    ) -> (r: ItemId)
        requires
            ready(old(ctx), tu),
            tu.has_type(ty),
            tu.has_cursor(location),
            old(ctx).vacant(potential_id),
            minted(old(ctx), parent_id),
            parent_id != Some(potential_id),
        ensures
            final(ctx).wf(),
            extends(old(ctx), final(ctx), Some(potential_id)),
            final(ctx).modules == old(ctx).modules,
            filled_with_type(old(ctx), final(ctx), potential_id),
            r.0 < final(ctx).items@.len(),
            new_type_or_in_flight(old(ctx), final(ctx), r),
            old(ctx).collected_typerefs ==> exists|parsed: Context| #[trigger]
                parsed_or_fell_back(old(ctx), &parsed, final(ctx), tu, potential_id, ty, r),
            final(ctx).has(r) && !old(ctx).has(r) ==> final(ctx).item(r).kind is Type && (old(
                ctx,
            ).collected_typerefs ==> !is_placeholder(final(ctx).item(r))),
            in_flight_are_types(old(ctx)) && final(ctx).has(r) ==> final(ctx).item(r).kind is Type
                && (old(ctx).collected_typerefs ==> !is_placeholder(final(ctx).item(r))),
            old(ctx).collected_typerefs && !on_stack(old(ctx), r) ==> {
                &&& final(ctx).has(r)
                &&& final(ctx).item(r).kind is Type
                &&& !is_placeholder(final(ctx).item(r))
            },
            !old(ctx).collected_typerefs ==> ({
                let known = match lookup_declaration(tu, ty, Some(location)) {
                    Some(d) => lookup(old(ctx).parsed_types@, d),
                    None => None,
                };
                if known is Some {
                    &&& r == potential_id
                    &&& added(old(ctx), final(ctx), potential_id)
                    &&& is_wrapper(
                        final(ctx).item(potential_id),
                        potential_id,
                        relevant_parent(old(ctx), parent_id),
                        known->0,
                        tu.type_at(ty),
                    )
                } else if builtin_kind(tu.type_at(ty).kind) is Some {
                    &&& r == ItemId(old(ctx).items@.len() as usize)
                    &&& appended(old(ctx), final(ctx), r)
                    &&& is_plain_type(
                        final(ctx).item(r),
                        r,
                        old(ctx).root_module,
                        builtin_kind(tu.type_at(ty).kind)->0,
                        tu.type_at(ty).layout,
                        tu.type_at(ty).is_const,
                    )
                } else {
                    &&& r == potential_id
                    &&& added(old(ctx), final(ctx), potential_id)
                    &&& is_plain_type(
                        final(ctx).item(potential_id),
                        potential_id,
                        relevant_parent(old(ctx), parent_id),
                        TypeKind::UnresolvedTypeRef(ty, location, parent_id),
                        None,
                        tu.type_at(ty).is_const,
                    )
                    &&& final(ctx).item(potential_id).kind->Type_0.name is None
                    &&& final(ctx).parsed_types == old(ctx).parsed_types
                }
            }),
            old(ctx).collected_typerefs && depth > 0 && needs_decoding(
                old(ctx),
                tu,
                ty,
                location,
            ) && shape_of(tu, ty, location) is Some ==> r == potential_id && parsed_as_owed(
                old(ctx),
                final(ctx),
                tu,
                potential_id,
                ty,
                location,
                parent_id,
            ) && parsed_refers(
                old(ctx),
                final(ctx),
                tu,
                potential_id,
                ty,
                location,
                (depth - 1) as usize,
                ItemId(old(ctx).items@.len() as usize),
            ),
            old(ctx).collected_typerefs && (depth == 0 || (needs_decoding(
                old(ctx),
                tu,
                ty,
                location,
            ) && cannot_decode(tu, ty, location))) ==> {
                &&& r == potential_id
                &&& added(old(ctx), final(ctx), potential_id)
                &&& is_blob_for(
                    final(ctx).item(potential_id),
                    potential_id,
                    old(ctx).root_module,
                    tu.type_at(ty),
                )
            },
            old(ctx).collected_typerefs && depth > 0 && !needs_decoding(
                old(ctx),
                tu,
                ty,
                location,
            ) ==> begin_type_post(
                old(ctx),
                final(ctx),
                tu,
                potential_id,
                ty,
                location,
                parent_id,
                TypeStart::Done(r),
            ),
        decreases depth, 1nat,
    {
        if ctx.collected_typerefs() {
            let parsed =
                Item::from_ty_with_id(tu, potential_id, ty, location, parent_id, ctx, depth);
            let ghost tried = *ctx;
            let r = Item::parsed_or_blob(parsed, potential_id, tu.ty(ty), ctx);
            proof {
                lemma_grows_trans(
                    old(ctx),
                    &tried,
                    ctx,
                    Some(potential_id),
                    Some(potential_id),
                    Some(potential_id),
                );
                assert(parsed_or_fell_back(old(ctx), &tried, ctx, tu, potential_id, ty, r));
            }
            return r;
        }
        match ctx.builtin_or_resolved_ty(tu, potential_id, parent_id, ty, Some(location)) {
            Some(known) => {
                return known;
            },
            None => {},
        }
        let is_const = tu.ty(ty).is_const;
        let kind = TypeKind::UnresolvedTypeRef(ty, location, parent_id);
        let parent = match parent_id {
            Some(p) => p,
            None => ctx.current_module,
        };
        let item = Item::new(
            potential_id,
            None,
            None,
            parent,
            ItemKind::Type(Type::new(None, None, kind, is_const)),
        );
        ctx.add_item(item, None);
        potential_id
    }

    /// Parses the type `ty` seen at `location` into an item of its own, or
    /// leaves a forward reference: a fresh identifier is minted for it. What
    /// the result is, by what is known of the type, is as [`is_reference`]
    /// says.
    pub fn from_ty_or_ref(
        tu: &TranslationUnit,
        ty: TypeId,
        location: CursorId,
        parent_id: Option<ItemId>,
        ctx: &mut Context,
        depth: usize,
    ) -> (r: ItemId)
        requires
            ready(old(ctx), tu),
            tu.has_type(ty),
            tu.has_cursor(location),
            minted(old(ctx), parent_id),
        ensures
            final(ctx).wf(),
            extends(old(ctx), final(ctx), None),
            final(ctx).modules == old(ctx).modules,
            r.0 < final(ctx).items@.len(),
            new_type_or_in_flight(old(ctx), final(ctx), r),
            final(ctx).has(r) && !old(ctx).has(r) ==> final(ctx).item(r).kind is Type && (old(
                ctx,
            ).collected_typerefs ==> !is_placeholder(final(ctx).item(r))),
            in_flight_are_types(old(ctx)) && final(ctx).has(r) ==> final(ctx).item(r).kind is Type
                && (old(ctx).collected_typerefs ==> !is_placeholder(final(ctx).item(r))),
            !old(ctx).collected_typerefs && !is_modelled(old(ctx), tu, ty, location) ==> {
                &&& r == ItemId(old(ctx).items@.len() as usize)
                &&& appended(old(ctx), final(ctx), r)
                &&& is_plain_type(
                    final(ctx).item(r),
                    r,
                    relevant_parent(old(ctx), parent_id),
                    TypeKind::UnresolvedTypeRef(ty, location, parent_id),
                    None,
                    tu.type_at(ty).is_const,
                )
                &&& final(ctx).item(r).kind->Type_0.name is None
            },
            old(ctx).collected_typerefs && depth > 0 && needs_decoding(
                old(ctx),
                tu,
                ty,
                location,
            ) && shape_of(tu, ty, location) is Some ==> r == ItemId(
                old(ctx).items@.len() as usize,
            ) && parsed_as_owed(
                old(ctx),
                final(ctx),
                tu,
                ItemId(old(ctx).items@.len() as usize),
                ty,
                location,
                parent_id,
            ) && parsed_refers(
                old(ctx),
                final(ctx),
                tu,
                ItemId(old(ctx).items@.len() as usize),
                ty,
                location,
                (depth - 1) as usize,
                ItemId((old(ctx).items@.len() + 1) as usize),
            ),
            is_reference(
                old(ctx).currently_parsed_types@,
                old(ctx),
                ItemId(old(ctx).items@.len() as usize),
                final(ctx),
                tu,
                ty,
                location,
                parent_id,
                depth,
                r,
            ),
        decreases depth, 2nat,
    {
        let id = ctx.next_item_id();
        let ghost minted_one = *ctx;
        let r = Item::from_ty_or_ref_with_id(tu, id, ty, location, parent_id, ctx, depth);
        proof {
            lemma_grows_trans(old(ctx), &minted_one, ctx, None, Some(id), None);
            assert(is_modelled(&minted_one, tu, ty, location) == is_modelled(
                old(ctx),
                tu,
                ty,
                location,
            ));
            if !old(ctx).collected_typerefs && !is_modelled(old(ctx), tu, ty, location) {
                assert(ctx.items@ =~= old(ctx).items@.push(ctx.items@[id.0 as int]));
            }
        }
        r
    }
}

/// Tries the type `ty` at the child `cur` of a location at which it could
/// not be decoded, and below `cur` if the decoder asks for that; a result
/// that is there already ends the walk and is handed on as it is. Without
/// depth nothing is tried; with depth, what the first try settles is as
/// [`settled_at`] says.
pub(crate) fn visit_child(
    tu: &TranslationUnit,
    cur: CursorId,
    id: ItemId,
    ty: TypeId,
    parent_id: Option<ItemId>,
    ctx: &mut Context,
    result: Result<ItemId, ParseError>,
    depth: usize,
) -> (r: (ChildVisit, Result<ItemId, ParseError>))
    requires
        ready(old(ctx), tu),
        tu.has_type(ty),
        tu.has_cursor(cur),
        minted(old(ctx), parent_id),
        parent_id != Some(id),
        result is Err ==> old(ctx).vacant(id),
        result is Ok ==> result.unwrap().0 < old(ctx).items@.len(),
        id.0 < old(ctx).items@.len(),
    ensures
        final(ctx).wf(),
        extends(old(ctx), final(ctx), Some(id)),
        final(ctx).modules == old(ctx).modules,
        filled_with_type(old(ctx), final(ctx), id),
        r.1 is Err ==> final(ctx).vacant(id),
        r.1 is Ok ==> r.1.unwrap().0 < final(ctx).items@.len(),
        result is Err && r.1 is Ok ==> new_type_or_in_flight(old(ctx), final(ctx), r.1.unwrap()),
        result is Ok ==> r == (ChildVisit::Break, result) && *final(ctx) == *old(ctx),
        r.0 == ChildVisit::Break <==> r.1 is Ok,
        result is Err && depth == 0 ==> r == (
            ChildVisit::Continue,
            Err::<ItemId, ParseError>(ParseError::Continue),
        ) && *final(ctx) == *old(ctx),
        result is Err && depth > 0 ==> settled_at(
            old(ctx),
            final(ctx),
            tu,
            id,
            ty,
            cur,
            parent_id,
            r.1,
        ),
    decreases depth, 1nat,
{
    if result.is_ok() {
        return (ChildVisit::Break, result);
    }
    let tried = Item::from_ty_with_id(tu, id, ty, cur, parent_id, ctx, depth);
    match tried {
        Ok(_) => (ChildVisit::Break, tried),
        Err(ParseError::Recurse) => {
            if depth == 0 {
                return (ChildVisit::Continue, tried);
            }
            let ghost before = *ctx;
            let below = visit_children(tu, cur, id, ty, parent_id, ctx, tried, depth - 1);
            proof {
                lemma_grows_trans(old(ctx), &before, ctx, Some(id), Some(id), Some(id));
            }
            match below {
                Ok(_) => (ChildVisit::Break, below),
                Err(_) => (ChildVisit::Continue, below),
            }
        },
        Err(ParseError::Continue) => (ChildVisit::Continue, tried),
    }
}

/// Visits the children of `location` in turn, until one gives a result. A
/// result that is there already is handed on, and so is the result given
/// where there are no children; what the first child settles is as
/// [`settled_at`] says.
pub(crate) fn visit_children(
    tu: &TranslationUnit,
    location: CursorId,
    id: ItemId,
    ty: TypeId,
    parent_id: Option<ItemId>,
    ctx: &mut Context,
    result: Result<ItemId, ParseError>,
    depth: usize,
) -> (r: Result<ItemId, ParseError>)
    requires
        ready(old(ctx), tu),
        tu.has_type(ty),
        tu.has_cursor(location),
        minted(old(ctx), parent_id),
        parent_id != Some(id),
        result is Err ==> old(ctx).vacant(id),
        result is Ok ==> result.unwrap().0 < old(ctx).items@.len(),
        id.0 < old(ctx).items@.len(),
    ensures
        final(ctx).wf(),
        extends(old(ctx), final(ctx), Some(id)),
        final(ctx).modules == old(ctx).modules,
        filled_with_type(old(ctx), final(ctx), id),
        r is Err ==> final(ctx).vacant(id),
        r is Ok ==> r.unwrap().0 < final(ctx).items@.len(),
        result is Err && r is Ok ==> new_type_or_in_flight(old(ctx), final(ctx), r.unwrap()),
        result is Ok || tu.cursor_at(location).children@.len() == 0 ==> r == result && *final(ctx)
            == *old(ctx),
        result is Err && tu.cursor_at(location).children@.len() > 0 && depth == 0 ==> r == Err::<
            ItemId,
            ParseError,
        >(ParseError::Continue) && *final(ctx) == *old(ctx),
        result is Err && tu.cursor_at(location).children@.len() > 0 && depth > 0 ==> settled_at(
            old(ctx),
            final(ctx),
            tu,
            id,
            ty,
            tu.cursor_at(location).children@[0],
            parent_id,
            r,
        ),
    decreases depth, 2nat,
{
    let children = &tu.cursor(location).children;
    let mut current = result;
    let mut i: usize = 0;
    while i < children.len()
        invariant
            i <= children@.len(),
            i == 0 ==> current == result && *ctx == *old(ctx),
            i > 0 ==> result is Err,
            result is Err ==> current is Err,
            i > 0 && depth == 0 ==> current == Err::<ItemId, ParseError>(ParseError::Continue)
                && *ctx == *old(ctx),
            i > 0 && depth > 0 ==> needs_decoding(old(ctx), tu, ty, children@[0]) && shape_of(
                tu,
                ty,
                children@[0],
            ) is None,
            ready(ctx, tu),
            tu.has_type(ty),
            tu.cursor_ok(tu.cursor_at(location)),
            *children == tu.cursor_at(location).children,
            parent_id != Some(id),
            minted(old(ctx), parent_id),
            id.0 < old(ctx).items@.len(),
            extends(old(ctx), ctx, Some(id)),
            ctx.modules == old(ctx).modules,
            current is Err ==> ctx.vacant(id),
            current is Ok ==> current.unwrap().0 < ctx.items@.len(),
        decreases children@.len() - i,
    {
        let ghost before = *ctx;
        let (visit, next) = visit_child(tu, children[i], id, ty, parent_id, ctx, current, depth);
        proof {
            lemma_grows_trans(old(ctx), &before, ctx, Some(id), Some(id), Some(id));
            if result is Err && next is Ok {
                lemma_new_type_later(
                    old(ctx).currently_parsed_types@,
                    old(ctx),
                    &before,
                    ctx,
                    Some(id),
                    next.unwrap(),
                );
            }
        }
        current = next;
        match visit {
            ChildVisit::Break => {
                return current;
            },
            _ => {},
        }
        i += 1;
    }
    current
}

} // verus!
