//! Types that need no decoding: those whose declaration was parsed already,
//! the builtin types, and the blob that stands for what cannot be modelled.

use vstd::prelude::*;
use crate::clang::{ClangType, ClangTypeKind, CursorId, CursorKind, TranslationUnit, TypeId};
use crate::context::{find, lemma_lookup_is_entry, lookup, Context};
use crate::item::Item;
use crate::item_kind::{ItemKind, Module, ModuleKind};
use crate::layout::Layout;
use crate::parse::{extends, same_parse_state};
use crate::ty::{ItemId, Type, TypeKind};

verus! {

/// The name that a declaration spelled `spelling` gives its item: none where
/// the spelling is empty.
pub open spec fn name_of(spelling: Seq<char>, name: Option<String>) -> bool {
    if spelling.len() == 0 {
        name is None
    } else {
        name is Some && name->0@ == spelling
    }
}

pub(crate) fn optional_name(spelling: &String) -> (r: Option<String>)
    ensures
        name_of(spelling@, r),
{
    if spelling.as_str().is_empty() {
        None
    } else {
        Some(spelling.clone())
    }
}

/// The kind of item type that a type of the front end is without reference
/// to any other: `void`, the null pointer, booleans and numbers.
pub open spec fn builtin_kind(kind: ClangTypeKind) -> Option<TypeKind> {
    match kind {
        ClangTypeKind::Void => Some(TypeKind::Void),
        ClangTypeKind::NullPtr => Some(TypeKind::NullPtr),
        ClangTypeKind::Bool => Some(TypeKind::Bool),
        ClangTypeKind::Int { bits, signed } => Some(TypeKind::Int { bits, signed }),
        ClangTypeKind::Float { bits } => Some(TypeKind::Float { bits }),
        _ => None,
    }
}

/// Whether a cursor of this kind declares a template.
pub open spec fn is_template_like(kind: CursorKind) -> bool {
    kind == CursorKind::ClassTemplate
}

/// The declaration by which a type is found again: the canonical cursor of
/// its declaration; where it has none, that of the template that `location`
/// is or refers to.
pub open spec fn lookup_declaration(
    tu: &TranslationUnit,
    ty: TypeId,
    location: Option<CursorId>,
) -> Option<CursorId> {
    match tu.type_at(ty).declaration {
        Some(d) => Some(tu.cursor_at(d).canonical),
        None => match location {
            Some(l) => {
                let at = match tu.cursor_at(l).referenced {
                    Some(r) => r,
                    None => l,
                };
                if is_template_like(tu.cursor_at(at).kind) {
                    Some(tu.cursor_at(at).canonical)
                } else {
                    None
                }
            },
            None => None,
        },
    }
}

/// Whether the type `ty` seen at `location` is modelled already: its
/// declaration was parsed into an item, or it is a builtin.
pub open spec fn is_modelled(
    ctx: &Context,
    tu: &TranslationUnit,
    ty: TypeId,
    location: CursorId,
) -> bool {
    builtin_kind(tu.type_at(ty).kind) is Some || match lookup_declaration(tu, ty, Some(location)) {
        Some(d) => lookup(ctx.parsed_types@, d) is Some,
        None => false,
    }
}

/// Whether `item` is the type item `id` under `parent` that refers to
/// `wrapped` and is spelled, laid out and qualified as `ty` is.
pub open spec fn is_wrapper(
    item: Item,
    id: ItemId,
    parent: ItemId,
    wrapped: ItemId,
    ty: ClangType,
) -> bool {
    &&& item.id == id
    &&& item.parent_id == parent
    &&& item.comment is None
    &&& item.annotations.use_instead_of is None
    &&& !item.annotations.hidden
    &&& !item.annotations.opaque
    &&& item.kind is Type
    &&& item.kind->Type_0.kind == TypeKind::ResolvedTypeRef(wrapped)
    &&& item.kind->Type_0.name is Some
    &&& item.kind->Type_0.name->0@ == ty.spelling@
    &&& item.kind->Type_0.layout == ty.layout
    &&& item.kind->Type_0.is_const == ty.is_const
}

/// Whether `item` is the type item `id` under `parent` of kind `kind`, named
/// by nothing but `name`, with the given layout and qualifier.
pub open spec fn is_plain_type(
    item: Item,
    id: ItemId,
    parent: ItemId,
    kind: TypeKind,
    layout: Option<Layout>,
    is_const: bool,
) -> bool {
    &&& item.id == id
    &&& item.parent_id == parent
    &&& item.comment is None
    &&& item.annotations.use_instead_of is None
    &&& !item.annotations.hidden
    &&& !item.annotations.opaque
    &&& item.kind is Type
    &&& item.kind->Type_0.kind == kind
    &&& item.kind->Type_0.layout == layout
    &&& item.kind->Type_0.is_const == is_const
}

/// Whether `new` is `old` with an item put at the vacant identifier `id`:
/// no other item changed, and the state of the parse and the modules of the
/// namespaces are as they were.
pub open spec fn added(old: &Context, new: &Context, id: ItemId) -> bool {
    &&& id.0 < old.items@.len()
    &&& old.items@[id.0 as int] is None
    &&& new.items@.len() == old.items@.len()
    &&& new.items@[id.0 as int] is Some
    &&& new.items@ == old.items@.update(id.0 as int, new.items@[id.0 as int])
    &&& same_parse_state(old, new)
    &&& new.modules == old.modules
}

/// Whether `new` is `old` with one more identifier, which has an item: no
/// other item changed, and the state of the parse is as it was.
pub open spec fn appended(old: &Context, new: &Context, id: ItemId) -> bool {
    &&& id.0 == old.items@.len()
    &&& new.items@.len() == old.items@.len() + 1
    &&& new.items@[id.0 as int] is Some
    &&& new.items@ == old.items@.push(new.items@[id.0 as int])
    &&& same_parse_state(old, new)
}

/// Whether `item` is the module `id` under `parent` that was made for the
/// namespace whose canonical cursor is `canonical`: it is named as the
/// namespace is spelled and inline if the namespace is.
pub open spec fn is_module_of(
    item: Item,
    id: ItemId,
    parent: ItemId,
    tu: &TranslationUnit,
    canonical: CursorId,
) -> bool {
    &&& item.id == id
    &&& item.parent_id == parent
    &&& item.kind is Module
    &&& name_of(tu.cursor_at(canonical).spelling@, item.kind->Module_0.name)
    &&& item.kind->Module_0.spec_is_inline() == tu.cursor_at(canonical).is_inline_namespace
    &&& item.annotations.use_instead_of is None
}

/// What the parse of the namespace at `cursor` leaves: the module `m` is
/// bound to the namespace. It is the module that the namespace had, or else
/// a new one at the next identifier, in the module that was current.
pub open spec fn namespace_parsed(
    old: &Context,
    new: &Context,
    tu: &TranslationUnit,
    cursor: CursorId,
    m: ItemId,
) -> bool {
    let canonical = tu.cursor_at(cursor).canonical;
    &&& lookup(new.modules@, canonical) == Some(m)
    &&& new.has(m)
    &&& new.item(m).kind is Module
    &&& match lookup(old.modules@, canonical) {
        Some(known) => m == known,
        None => m.0 == old.items@.len() && is_module_of(
            new.item(m),
            m,
            old.current_module,
            tu,
            canonical,
        ),
    }
}

impl Context {
    /// The module of the namespace at `cursor`: the one that was made for an
    /// earlier declaration of the same namespace, or else a new one in the
    /// current module, named as the namespace is.
    pub fn module(&mut self, tu: &TranslationUnit, cursor: CursorId) -> (id: ItemId)
        requires
            old(self).wf(),
            !old(self).codegen,
            tu.wf(),
            tu.has_cursor(cursor),
        ensures
            final(self).wf(),
            extends(old(self), final(self), None),
            final(self).has(id),
            final(self).item(id).kind is Module,
            lookup(final(self).modules@, tu.cursor_at(cursor).canonical) == Some(id),
            lookup(old(self).modules@, tu.cursor_at(cursor).canonical) is Some ==> *final(self)
                == *old(self),
            final(self).replacements == old(self).replacements,
            final(self).parsed_types == old(self).parsed_types,
            final(self).named_types == old(self).named_types,
            lookup(old(self).modules@, tu.cursor_at(cursor).canonical) is None ==> {
                &&& appended(old(self), final(self), id)
                &&& final(self).item(id).id == id
                &&& final(self).item(id).parent_id == old(self).current_module
                &&& name_of(
                    tu.cursor_at(tu.cursor_at(cursor).canonical).spelling@,
                    final(self).item(id).kind->Module_0.name,
                )
                &&& final(self).item(id).kind->Module_0.spec_is_inline() == tu.cursor_at(
                    tu.cursor_at(cursor).canonical,
                ).is_inline_namespace
                &&& final(self).item(id).annotations.use_instead_of is None
                &&& final(self).modules@ == old(self).modules@.push(
                    (tu.cursor_at(cursor).canonical, id),
                )
            },
    {
        let canonical = tu.cursor(cursor).canonical;
        match find(&self.modules, canonical) {
            Some(id) => {
                proof {
                    lemma_lookup_is_entry(self.modules@, canonical);
                }
                return id;
            },
            None => {},
        }
        let id = self.next_item_id();
        let decl = tu.cursor(canonical);
        let kind = if decl.is_inline_namespace {
            ModuleKind::Inline
        } else {
            ModuleKind::Normal
        };
        let module = Module::new(optional_name(&decl.spelling), kind);
        let item = Item::new(id, None, None, self.current_module, ItemKind::Module(module));
        self.add_item(item, None);
        self.modules.push((canonical, id));
        assert(self.modules@.last() == (canonical, id));
        assert(self.items@ =~= old(self).items@.push(Some(item)));
        proof {
            assert(self.modules@.drop_last() =~= old(self).modules@);
            assert forall|key: CursorId| lookup(old(self).modules@, key) is Some
                implies #[trigger] lookup(self.modules@, key) == lookup(old(self).modules@, key) by {
                assert(key != canonical);
            }
        }
        id
    }

    /// Adds the type item `with_id` that refers to `wrapped_id` under a new
    /// identity, spelled as `ty` is; its parent is `parent_id` or else the
    /// current module.
    pub fn build_ty_wrapper(
        &mut self,
        with_id: ItemId,
        wrapped_id: ItemId,
        parent_id: Option<ItemId>,
        ty: &ClangType,
    ) -> (id: ItemId)
        requires
            old(self).wf(),
            !old(self).codegen,
            old(self).vacant(with_id),
            parent_id != Some(with_id),
            parent_id is Some ==> parent_id.unwrap().0 < old(self).items@.len(),
        ensures
            final(self).wf(),
            extends(old(self), final(self), Some(with_id)),
            id == with_id,
            added(old(self), final(self), with_id),
            final(self).parsed_types == old(self).parsed_types,
            final(self).named_types == old(self).named_types,
            final(self).replacements == old(self).replacements,
            is_wrapper(
                final(self).item(with_id),
                with_id,
                match parent_id {
                    Some(p) => p,
                    None => old(self).current_module,
                },
                wrapped_id,
                *ty,
            ),
    {
        let kind = TypeKind::ResolvedTypeRef(wrapped_id);
        let t = Type::new(Some(ty.spelling.clone()), ty.layout, kind, ty.is_const);
        let parent = match parent_id {
            Some(p) => p,
            None => self.current_module,
        };
        let item = Item::new(with_id, None, None, parent, ItemKind::Type(t));
        self.add_item(item, None);
        with_id
    }

    /// Adds an item for `ty` if it is `void`, the null pointer, a boolean or
    /// a number: such a type hangs off the root, under a fresh identifier.
    pub fn build_builtin_ty(&mut self, ty: &ClangType) -> (r: Option<ItemId>)
        requires
            old(self).wf(),
            !old(self).codegen,
        ensures
            final(self).wf(),
            r is Some == builtin_kind(ty.kind) is Some,
            r is None ==> *final(self) == *old(self),
            r is Some ==> {
                &&& appended(old(self), final(self), r->0)
                &&& final(self).modules == old(self).modules
                &&& final(self).parsed_types == old(self).parsed_types
                &&& final(self).named_types == old(self).named_types
                &&& final(self).replacements == old(self).replacements
                &&& is_plain_type(
                    final(self).item(r->0),
                    r->0,
                    old(self).root_module,
                    builtin_kind(ty.kind)->0,
                    ty.layout,
                    ty.is_const,
                )
                &&& final(self).item(r->0).kind->Type_0.name is Some
                &&& final(self).item(r->0).kind->Type_0.name->0@ == ty.spelling@
            },
    {
        let kind = match ty.kind {
            ClangTypeKind::Void => TypeKind::Void,
            ClangTypeKind::NullPtr => TypeKind::NullPtr,
            ClangTypeKind::Bool => TypeKind::Bool,
            ClangTypeKind::Int { bits, signed } => TypeKind::Int { bits, signed },
            ClangTypeKind::Float { bits } => TypeKind::Float { bits },
            _ => {
                return None;
            },
        };
        let t = Type::new(Some(ty.spelling.clone()), ty.layout, kind, ty.is_const);
        let id = self.next_item_id();
        let item = Item::new(id, None, None, self.root_module, ItemKind::Type(t));
        self.add_item(item, None);
        assert(self.items@ =~= old(self).items@.push(Some(item)));
        Some(id)
    }

    /// The item that models `ty` already, if there is one.
    ///
    /// - Where the declaration of `ty` was parsed into an item: a new item
    ///   `with_id` that refers to it.
    /// - Otherwise, where `ty` is a builtin: a new item for it.
    /// - Otherwise none, and nothing changes.
    pub fn builtin_or_resolved_ty(
        &mut self,
        tu: &TranslationUnit,
        with_id: ItemId,
        parent_id: Option<ItemId>,
        ty: TypeId,
        location: Option<CursorId>,
    ) -> (r: Option<ItemId>)
        requires
            old(self).wf(),
            !old(self).codegen,
            tu.wf(),
            tu.has_type(ty),
            location is Some ==> tu.has_cursor(location->0),
            old(self).vacant(with_id),
            parent_id != Some(with_id),
            parent_id is Some ==> parent_id.unwrap().0 < old(self).items@.len(),
        ensures
            final(self).wf(),
            extends(old(self), final(self), Some(with_id)),
            final(self).modules == old(self).modules,
            final(self).parsed_types == old(self).parsed_types,
            final(self).named_types == old(self).named_types,
            final(self).replacements == old(self).replacements,
            location is Some ==> (r is Some == is_modelled(old(self), tu, ty, location->0)),
            ({
                let known = match lookup_declaration(tu, ty, location) {
                    Some(d) => lookup(old(self).parsed_types@, d),
                    None => None,
                };
                match known {
                    Some(wrapped) => {
                        &&& r == Some(with_id)
                        &&& added(old(self), final(self), with_id)
                        &&& is_wrapper(
                            final(self).item(with_id),
                            with_id,
                            match parent_id {
                                Some(p) => p,
                                None => old(self).current_module,
                            },
                            wrapped,
                            tu.type_at(ty),
                        )
                    },
                    None => match builtin_kind(tu.type_at(ty).kind) {
                        Some(kind) => {
                            &&& r == Some(ItemId(old(self).items@.len() as usize))
                            &&& appended(old(self), final(self), r->0)
                            &&& is_plain_type(
                                final(self).item(r->0),
                                r->0,
                                old(self).root_module,
                                kind,
                                tu.type_at(ty).layout,
                                tu.type_at(ty).is_const,
                            )
                        },
                        None => r is None && *final(self) == *old(self),
                    },
                }
            }),
    {
        let t = tu.ty(ty);
        let declaration = match t.declaration {
            Some(d) => Some(tu.cursor(d).canonical),
            None => match location {
                Some(l) => {
                    let at = match tu.cursor(l).referenced {
                        Some(r) => r,
                        None => l,
                    };
                    if tu.cursor(at).kind == CursorKind::ClassTemplate {
                        Some(tu.cursor(at).canonical)
                    } else {
                        None
                    }
                },
                None => None,
            },
        };
        let known = match declaration {
            Some(d) => self.get_resolved_type(d),
            None => None,
        };
        match known {
            Some(wrapped) => Some(self.build_ty_wrapper(with_id, wrapped, parent_id, t)),
            None => self.build_builtin_ty(t),
        }
    }
}

/// The layout of the blob that stands for a type: the layout of the type,
/// or that of nothing where the type has none.
pub open spec fn blob_layout(layout: Option<Layout>) -> Option<Layout> {
    match layout {
        Some(l) => Some(l),
        None => Some(Layout { size: 0, align: 0 }),
    }
}

impl Item {
    /// Adds a type item of one of the kinds that stand alone: `void`, a
    /// number or a pointer. It hangs off the root under a fresh identifier.
    pub fn builtin_type(kind: TypeKind, is_const: bool, ctx: &mut Context) -> (id: ItemId)
        requires
            old(ctx).wf(),
            !old(ctx).codegen,
            kind is Void || kind is Int || kind is Pointer || kind is Float,
        ensures
            final(ctx).wf(),
            extends(old(ctx), final(ctx), None),
            appended(old(ctx), final(ctx), id),
            is_plain_type(final(ctx).item(id), id, old(ctx).root_module, kind, None, is_const),
            final(ctx).item(id).kind->Type_0.name is None,
            *final(ctx) == (Context { items: final(ctx).items, ..*old(ctx) }),
    {
        let ty = Type::new(None, None, kind, is_const);
        let id = ctx.next_item_id();
        let module = ctx.root_module;
        let item = Item::new(id, None, None, module, ItemKind::Type(ty));
        ctx.add_item(item, None);
        assert(ctx.items@ =~= old(ctx).items@.push(Some(item)));
        id
    }

    /// Adds the blob that stands for `ty` as the item `with_id`, under the
    /// root: the fallback where a type cannot be modelled.
    pub fn new_opaque_type(with_id: ItemId, ty: &ClangType, ctx: &mut Context) -> (id: ItemId)
        requires
            old(ctx).wf(),
            !old(ctx).codegen,
            old(ctx).vacant(with_id),
        ensures
            final(ctx).wf(),
            id == with_id,
            extends(old(ctx), final(ctx), Some(with_id)),
            added(old(ctx), final(ctx), with_id),
            is_plain_type(
                final(ctx).item(with_id),
                with_id,
                old(ctx).root_module,
                TypeKind::Opaque,
                blob_layout(ty.layout),
                ty.is_const,
            ),
            final(ctx).item(with_id).kind->Type_0.name is None,
            *final(ctx) == (Context { items: final(ctx).items, ..*old(ctx) }),
    {
        let layout = match ty.layout {
            Some(l) => l,
            None => Layout::zero(),
        };
        let blob = Type::opaque(Some(layout), ty.is_const);
        let parent = ctx.root_module;
        let item = Item::new(with_id, None, None, parent, ItemKind::Type(blob));
        ctx.add_item(item, None);
        with_id
    }
}

} // verus!
