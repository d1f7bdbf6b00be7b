//! The decoders: what a cursor or a type of the front end becomes as a
//! module, a function, a variable or a type.

use vstd::prelude::*;
use crate::clang::{ClangTypeKind, CursorId, CursorKind, TranslationUnit, TypeId};
use crate::context::{lookup, Context, PartialType};
use crate::from_ty::{is_reference, needs_decoding, parsed_as_owed};
use crate::item::Item;
use crate::item_kind::{Function, FunctionKind, Module, Var};
use crate::known::{
    builtin_kind, is_modelled, is_plain_type, lookup_declaration, name_of, namespace_parsed,
    optional_name,
};
use crate::parse::{
    binds_only_below, extends, filled_with_type, grows, is_new, lemma_grows_trans,
    lemma_namespace_below_child, minted, namespace_below, parse_one, ready, ParseError,
    ParseResult,
};
use crate::ty::{
    CompInfo, CompKind, EnumInfo, EnumVariant, Field, FunctionSig, ItemId, Method, MethodKind,
    Type, TypeKind,
};

verus! {

/// What a type decodes into where nothing that it refers to can make the
/// decoding fail.
#[derive(Debug, Clone, Copy, PartialEq, Eq, Structural)]
pub enum Shape {
    Pointer,
    Reference,
    Alias,
    Enum,
    Comp(CompKind),
    Function,
}

/// The cursor below which the members of a record are declared: the
/// definition of the declaration of its type, or the declaration where that
/// has none, or `location` where the type has no declaration.
pub open spec fn comp_declaration(
    tu: &TranslationUnit,
    ty: TypeId,
    location: CursorId,
) -> CursorId {
    match tu.type_at(ty).declaration {
        Some(d) => match tu.cursor_at(d).definition {
            Some(definition) => definition,
            None => d,
        },
        None => location,
    }
}

/// Struct or union, by the kind of the cursor that declares the record.
pub open spec fn comp_kind_of(kind: CursorKind) -> Option<CompKind> {
    match kind {
        CursorKind::StructDecl => Some(CompKind::Struct),
        CursorKind::ClassDecl => Some(CompKind::Struct),
        CursorKind::ClassTemplate => Some(CompKind::Struct),
        CursorKind::UnionDecl => Some(CompKind::Union),
        _ => None,
    }
}

/// What the type `ty` seen at `location` decodes into, where that is owed:
/// a pointer or a reference that has a pointee, a typedef whose declaration
/// says what it stands for, an enumeration that an enumeration declares, a
/// record that a struct, a class, a union or a class template declares, a
/// function type that has a result. `None` for every type whose decoding may
/// fail or has to be retried.
pub open spec fn shape_of(tu: &TranslationUnit, ty: TypeId, location: CursorId) -> Option<Shape> {
    let t = tu.type_at(ty);
    let record = match comp_kind_of(tu.cursor_at(comp_declaration(tu, ty, location)).kind) {
        Some(k) => Some(Shape::Comp(k)),
        None => None,
    };
    match t.kind {
        ClangTypeKind::Unexposed => if tu.cursor_at(location).kind == CursorKind::ClassTemplate {
            record
        } else {
            None
        },
        ClangTypeKind::Invalid => if tu.cursor_at(location).kind == CursorKind::ClassTemplate {
            record
        } else {
            None
        },
        ClangTypeKind::Record => record,
        ClangTypeKind::Pointer => if t.inner is Some {
            Some(Shape::Pointer)
        } else {
            None
        },
        ClangTypeKind::Reference => if t.inner is Some {
            Some(Shape::Reference)
        } else {
            None
        },
        ClangTypeKind::FunctionProto => if t.result is Some {
            Some(Shape::Function)
        } else {
            None
        },
        ClangTypeKind::Typedef => if t.declaration is Some && tu.cursor_at(
            t.declaration->0,
        ).underlying is Some {
            Some(Shape::Alias)
        } else {
            None
        },
        ClangTypeKind::Enum => if t.declaration is Some && tu.cursor_at(t.declaration->0).kind
            == CursorKind::EnumDecl {
            Some(Shape::Enum)
        } else {
            None
        },
        _ => None,
    }
}

/// Whether the decoding of the type `ty` seen at `location` is bound to
/// fail: the type is of no kind that is decoded, or lacks what the decoding
/// of its kind starts from (the pointee of a pointer, the element of an
/// array, the result of a function type, the type that a typedef stands for,
/// the declaration of an enumeration or of a record).
pub open spec fn cannot_decode(tu: &TranslationUnit, ty: TypeId, location: CursorId) -> bool {
    let t = tu.type_at(ty);
    let templated = tu.cursor_at(location).kind == CursorKind::ClassTemplate;
    let record = comp_kind_of(tu.cursor_at(comp_declaration(tu, ty, location)).kind);
    match t.kind {
        ClangTypeKind::Invalid => !templated || record is None,
        ClangTypeKind::Unexposed => templated && record is None,
        ClangTypeKind::Record => record is None,
        ClangTypeKind::Pointer => t.inner is None,
        ClangTypeKind::Reference => t.inner is None,
        ClangTypeKind::IncompleteArray => t.inner is None,
        ClangTypeKind::ConstantArray => t.inner is None,
        ClangTypeKind::Elaborated => t.inner is None,
        ClangTypeKind::FunctionProto => t.result is None,
        ClangTypeKind::Typedef => !(t.declaration is Some && tu.cursor_at(
            t.declaration->0,
        ).underlying is Some),
        ClangTypeKind::Enum => !(t.declaration is Some && tu.cursor_at(t.declaration->0).kind
            == CursorKind::EnumDecl),
        _ => true,
    }
}

/// Whether a type of the kind `kind` has the shape `shape`.
pub open spec fn has_shape(kind: TypeKind, shape: Shape) -> bool {
    match shape {
        Shape::Pointer => kind is Pointer,
        Shape::Reference => kind is Reference,
        Shape::Alias => kind is Alias,
        Shape::Enum => kind is Enum,
        Shape::Comp(k) => kind is Comp && kind->Comp_0.kind == k,
        Shape::Function => kind is Function,
    }
}

/// The spelling that names the type `ty` seen at `location`: that of its
/// declaration, or that of the class template at `location` where it has no
/// declaration, or nothing.
pub open spec fn decoded_name(tu: &TranslationUnit, ty: TypeId, location: CursorId) -> Seq<char> {
    match tu.type_at(ty).declaration {
        Some(d) => tu.cursor_at(d).spelling@,
        None => if tu.cursor_at(location).kind == CursorKind::ClassTemplate {
            tu.cursor_at(location).spelling@
        } else {
            Seq::empty()
        },
    }
}

/// The spellings of those of `children` that are of the kind `kind`, in
/// order.
pub open spec fn spellings_of(
    tu: &TranslationUnit,
    children: Seq<CursorId>,
    kind: CursorKind,
) -> Seq<Seq<char>>
    decreases children.len(),
{
    if children.len() == 0 {
        Seq::empty()
    } else if tu.cursor_at(children.last()).kind == kind {
        spellings_of(tu, children.drop_last(), kind).push(tu.cursor_at(children.last()).spelling@)
    } else {
        spellings_of(tu, children.drop_last(), kind)
    }
}

/// The enumerators that `children` declare, each with its value, in order.
pub open spec fn enumerators(tu: &TranslationUnit, children: Seq<CursorId>) -> Seq<(Seq<char>, i64)>
    decreases children.len(),
{
    if children.len() == 0 {
        Seq::empty()
    } else if tu.cursor_at(children.last()).kind == CursorKind::EnumConstantDecl {
        enumerators(tu, children.drop_last()).push(
            (tu.cursor_at(children.last()).spelling@, tu.cursor_at(children.last()).enum_value),
        )
    } else {
        enumerators(tu, children.drop_last())
    }
}

/// The enumerators of `variants`, each name by its characters.
pub open spec fn variant_views(variants: Seq<EnumVariant>) -> Seq<(Seq<char>, i64)> {
    Seq::new(variants.len(), |i: int| (variants[i].name@, variants[i].value))
}

/// The names of `fields`, each by its characters; a field without a name has
/// the empty one.
pub open spec fn field_names(fields: Seq<Field>) -> Seq<Seq<char>> {
    Seq::new(
        fields.len(),
        |i: int|
            match fields[i].name {
                Some(n) => n@,
                None => Seq::empty(),
            },
    )
}

/// Whether the cursor `c` is one whose parameters are declared below it.
pub open spec fn declares_parameters(kind: CursorKind) -> bool {
    kind == CursorKind::FunctionDecl || kind == CursorKind::Constructor || kind
        == CursorKind::CxxMethod
}

/// The number of parameters of the function type `ty` seen at `cursor`: the
/// parameter declarations below a function cursor, the parameter types of
/// the type anywhere else.
pub open spec fn parameter_count(tu: &TranslationUnit, ty: TypeId, cursor: CursorId) -> nat {
    if declares_parameters(tu.cursor_at(cursor).kind) {
        spellings_of(tu, tu.cursor_at(cursor).children@, CursorKind::ParmDecl).len()
    } else {
        tu.type_at(ty).arguments@.len()
    }
}

/// Whether a type of the kind `kind` has the members that the type `ty` seen
/// at `location` declares: an enumeration its enumerators; a record a field
/// for each field declaration, named as it is spelled, and a base for each
/// base specifier; a function type as many parameters as are declared, and
/// the ellipsis if the type has it.
pub open spec fn members_match(
    tu: &TranslationUnit,
    ty: TypeId,
    location: CursorId,
    kind: TypeKind,
) -> bool {
    match kind {
        TypeKind::Enum(en) => variant_views(en.variants@) == enumerators(
            tu,
            tu.cursor_at(tu.type_at(ty).declaration->0).children@,
        ),
        TypeKind::Comp(ci) => {
            let children = tu.cursor_at(comp_declaration(tu, ty, location)).children@;
            &&& field_names(ci.fields@) == spellings_of(tu, children, CursorKind::FieldDecl)
            &&& ci.base_members@.len() == spellings_of(
                tu,
                children,
                CursorKind::CxxBaseSpecifier,
            ).len()
        },
        TypeKind::Function(sig) => sig.is_variadic == tu.type_at(ty).is_variadic
            && sig.argument_types@.len() == parameter_count(tu, ty, location),
        _ => true,
    }
}

/// The cursors of those of `children` that declare fields, in order.
pub open spec fn field_cursors(tu: &TranslationUnit, children: Seq<CursorId>) -> Seq<CursorId>
    decreases children.len(),
{
    if children.len() == 0 {
        Seq::empty()
    } else if tu.cursor_at(children.last()).kind == CursorKind::FieldDecl {
        field_cursors(tu, children.drop_last()).push(children.last())
    } else {
        field_cursors(tu, children.drop_last())
    }
}

/// Whether `item` is what the type `ty` of a member declared at `location`
/// became while forward references were collected, where the member asked
/// for the parent `parent` and `scope` is the parent that it got: an item
/// that refers to a declaration that was parsed, or the item of a builtin
/// type, or a placeholder for the type at the location. A type without a
/// declaration is a builtin or a placeholder, as its kind says.
pub open spec fn is_member_type(
    item: Item,
    tu: &TranslationUnit,
    ty: TypeId,
    location: CursorId,
    parent: Option<ItemId>,
    scope: ItemId,
) -> bool {
    let t = tu.type_at(ty);
    let placeholder = item.kind->Type_0.kind == TypeKind::UnresolvedTypeRef(ty, location, parent)
        && item.parent_id == scope;
    let builtin = builtin_kind(t.kind) is Some && is_plain_type(
        item,
        item.id,
        item.parent_id,
        builtin_kind(t.kind)->0,
        t.layout,
        t.is_const,
    );
    &&& item.kind is Type
    &&& if lookup_declaration(tu, ty, Some(location)) is None {
        if builtin_kind(t.kind) is Some {
            builtin
        } else {
            placeholder
        }
    } else {
        ||| item.kind->Type_0.kind is ResolvedTypeRef && item.parent_id == scope
        ||| builtin
        ||| placeholder
    }
}

/// Whether `item` is what the type of the field declared at `field` of the
/// record `record` became while forward references were collected, as
/// [`is_member_type`] says of a member under the record.
pub open spec fn is_field_type(
    item: Item,
    tu: &TranslationUnit,
    field: CursorId,
    record: ItemId,
) -> bool {
    is_member_type(item, tu, tu.cursor_at(field).ty, field, Some(record), record)
}

/// The cursors of those of `children` that declare parameters, in order.
pub open spec fn parameter_cursors(tu: &TranslationUnit, children: Seq<CursorId>) -> Seq<CursorId>
    decreases children.len(),
{
    if children.len() == 0 {
        Seq::empty()
    } else if tu.cursor_at(children.last()).kind == CursorKind::ParmDecl {
        parameter_cursors(tu, children.drop_last()).push(children.last())
    } else {
        parameter_cursors(tu, children.drop_last())
    }
}

/// Whether `arguments` are what the parameters declared at `cursors` got for
/// their types, while forward references were collected: each has its item
/// in `new`, as [`is_member_type`] says of a member of the module `scope`.
pub open spec fn parameters_refer(
    new: &Context,
    tu: &TranslationUnit,
    scope: ItemId,
    cursors: Seq<CursorId>,
    arguments: Seq<ItemId>,
) -> bool {
    &&& arguments.len() == cursors.len()
    &&& forall|k: int|
        0 <= k < arguments.len() ==> new.has(#[trigger] arguments[k]) && new.item(arguments[k]).id
            == arguments[k] && is_member_type(
            new.item(arguments[k]),
            tu,
            tu.cursor_at(cursors[k]).ty,
            cursors[k],
            None,
            scope,
        )
}

/// Whether `arguments` are what the parameter types `types` of a function
/// type seen at `cursor` became, while forward references were collected.
pub open spec fn arguments_refer(
    new: &Context,
    tu: &TranslationUnit,
    cursor: CursorId,
    scope: ItemId,
    types: Seq<TypeId>,
    arguments: Seq<ItemId>,
) -> bool {
    &&& arguments.len() == types.len()
    &&& forall|k: int|
        0 <= k < arguments.len() ==> new.has(#[trigger] arguments[k]) && new.item(arguments[k]).id
            == arguments[k] && is_member_type(
            new.item(arguments[k]),
            tu,
            types[k],
            cursor,
            None,
            scope,
        )
}

/// Whether the signature `sig`, decoded from the function type `ty` seen at
/// `cursor` while forward references were collected, refers to what it has
/// to: its result and each of its parameters have their items in `new`, as
/// [`is_member_type`] says of a member of the module `scope`. The
/// parameters are those declared below a function cursor, and those of the
/// type anywhere else.
pub open spec fn signature_refers(
    new: &Context,
    tu: &TranslationUnit,
    ty: TypeId,
    cursor: CursorId,
    scope: ItemId,
    sig: FunctionSig,
) -> bool {
    let t = tu.type_at(ty);
    &&& new.has(sig.return_type)
    &&& new.item(sig.return_type).id == sig.return_type
    &&& is_member_type(new.item(sig.return_type), tu, t.result->0, cursor, None, scope)
    &&& if declares_parameters(tu.cursor_at(cursor).kind) {
        parameters_refer(
            new,
            tu,
            scope,
            parameter_cursors(tu, tu.cursor_at(cursor).children@),
            sig.argument_types@,
        )
    } else {
        arguments_refer(new, tu, cursor, scope, t.arguments@, sig.argument_types@)
    }
}

/// Whether the types of `fields` are what the fields declared at `cursors`
/// got, while forward references were collected: each has its item in `new`,
/// as [`is_field_type`] says.
pub open spec fn fields_refer(
    new: &Context,
    tu: &TranslationUnit,
    record: ItemId,
    cursors: Seq<CursorId>,
    fields: Seq<Field>,
) -> bool {
    &&& fields.len() == cursors.len()
    &&& forall|k: int|
        0 <= k < fields.len() ==> new.has((#[trigger] fields[k]).ty) && new.item(fields[k].ty).id
            == fields[k].ty && is_field_type(new.item(fields[k].ty), tu, cursors[k], record)
}

/// Whether a type of the kind `kind`, decoded for the item `id` from the type
/// `ty` seen at `location`, refers to what it has to refer to.
///
/// - A pointer or a reference: what a reference to the pointee gives, as
///   [`is_reference`] says.
/// - A typedef: what a reference to the type that it stands for gives.
/// - A record that was decoded while forward references were collected: the
///   types of its fields, as [`fields_refer`] says.
/// - A function type that was decoded while forward references were
///   collected: the types of its result and of its parameters, as
///   [`signature_refers`] says.
pub open spec fn refers(
    stack: Seq<PartialType>,
    old: &Context,
    first: ItemId,
    new: &Context,
    tu: &TranslationUnit,
    id: ItemId,
    ty: TypeId,
    location: CursorId,
    depth: usize,
    kind: TypeKind,
) -> bool {
    let t = tu.type_at(ty);
    match kind {
        TypeKind::Pointer(q) => t.kind == ClangTypeKind::Pointer && t.inner is Some
            ==> is_reference(stack, old, first, new, tu, t.inner->0, location, None, depth, q),
        TypeKind::Reference(q) => t.kind == ClangTypeKind::Reference && t.inner is Some
            ==> is_reference(stack, old, first, new, tu, t.inner->0, location, None, depth, q),
        TypeKind::Alias(q) => shape_of(tu, ty, location) == Some(Shape::Alias) ==> is_reference(
            stack,
            old,
            first,
            new,
            tu,
            tu.cursor_at(t.declaration->0).underlying->0,
            location,
            None,
            depth,
            q,
        ),
        TypeKind::Comp(ci) => !old.collected_typerefs && shape_of(tu, ty, location) is Some
            ==> fields_refer(
            new,
            tu,
            id,
            field_cursors(tu, tu.cursor_at(comp_declaration(tu, ty, location)).children@),
            ci.fields@,
        ),
        TypeKind::Function(sig) => !old.collected_typerefs && shape_of(tu, ty, location) is Some
            ==> signature_refers(new, tu, ty, location, old.current_module, sig),
        _ => true,
    }
}

/// Whether `t` is what the type `ty` seen at `location` decodes into: it has
/// the shape `shape` and the members that are declared, it is named as the
/// declaration is spelled, and it is laid out and qualified as the type is.
/// What its members refer to is what [`refers`] says.
pub open spec fn is_decoded(
    tu: &TranslationUnit,
    ty: TypeId,
    location: CursorId,
    t: Type,
    shape: Shape,
) -> bool {
    &&& has_shape(t.kind, shape)
    &&& members_match(tu, ty, location, t.kind)
    &&& name_of(decoded_name(tu, ty, location), t.name)
    &&& t.layout == tu.type_at(ty).layout
    &&& t.is_const == tu.type_at(ty).is_const
}

/// The declaration that a type is registered under when it is decoded: the
/// canonical cursor of its declaration, if it has one.
pub open spec fn decoded_declaration(tu: &TranslationUnit, ty: TypeId) -> Option<CursorId> {
    match tu.type_at(ty).declaration {
        Some(d) => Some(tu.cursor_at(d).canonical),
        None => None,
    }
}

impl Module {
    /// Parses a namespace: the module of the namespace becomes the current
    /// module while the declarations in the namespace are parsed, each into
    /// that module. Any other cursor is none of ours.
    pub(crate) fn parse(
        tu: &TranslationUnit,
        cursor: CursorId,
        ctx: &mut Context,
        depth: usize,
    ) -> (r: Result<ParseResult<Module>, ParseError>)
        requires
            ready(old(ctx), tu),
            tu.has_cursor(cursor),
        ensures
            final(ctx).wf(),
            extends(old(ctx), final(ctx), None),
            binds_only_below(old(ctx), final(ctx), tu, cursor, depth as nat),
            r matches Ok(ParseResult::AlreadyResolved(id)) ==> id.0 < final(ctx).items@.len(),
            tu.cursor_at(cursor).kind != CursorKind::Namespace ==> r == Err::<
                ParseResult<Module>,
                ParseError,
            >(ParseError::Continue) && *final(ctx) == *old(ctx),
            tu.cursor_at(cursor).kind == CursorKind::Namespace ==> ({
                &&& r is Ok
                &&& r.unwrap() is AlreadyResolved
                &&& namespace_parsed(old(ctx), final(ctx), tu, cursor, r.unwrap()->AlreadyResolved_0)
            }),
        decreases depth, 3nat,
    {
        let c = tu.cursor(cursor);
        if c.kind != CursorKind::Namespace {
            return Err(ParseError::Continue);
        }
        let module_id = ctx.module(tu, cursor);
        let ghost made = *ctx;
        proof {
            assert forall|key: CursorId|
                lookup(old(ctx).modules@, key) is None && (#[trigger] lookup(made.modules@, key))
                    is Some implies namespace_below(tu, cursor, key, depth as nat) by {
                if lookup(old(ctx).modules@, c.canonical) is None {
                    assert(made.modules@.drop_last() =~= old(ctx).modules@);
                    assert(key == c.canonical);
                }
            }
        }
        let previous = ctx.enter_module(module_id);
        let mut i: usize = 0;
        while i < c.children.len()
            invariant
                i <= c.children@.len(),
                ready(ctx, tu),
                tu.cursor_ok(*c),
                grows(&made, ctx, None),
                ctx.current_module == module_id,
                ctx.root_module == made.root_module,
                ctx.currently_parsed_types@ == made.currently_parsed_types@,
                ctx.options == made.options,
                ctx.has(module_id),
                ctx.item(module_id).kind is Module,
                made.has(previous),
                made.item(previous).kind is Module,
                *c == tu.cursor_at(cursor),
                binds_only_below(old(ctx), ctx, tu, cursor, depth as nat),
            decreases c.children@.len() - i,
        {
            let ghost before = *ctx;
            if depth > 0 {
                parse_one(tu, ctx, c.children[i], Some(module_id), depth - 1);
            }
            proof {
                lemma_grows_trans(&made, &before, ctx, None, None, None);
                assert forall|key: CursorId|
                    lookup(old(ctx).modules@, key) is None && (#[trigger] lookup(
                        ctx.modules@,
                        key,
                    )) is Some implies namespace_below(tu, cursor, key, depth as nat) by {
                    if lookup(before.modules@, key) is None {
                        lemma_namespace_below_child(
                            tu,
                            cursor,
                            i as int,
                            key,
                            (depth - 1) as nat,
                            depth as nat,
                        );
                    }
                }
            }
            i += 1;
        }
        assert(ctx.items@[previous.0 as int] == made.items@[previous.0 as int]);
        let _ = ctx.enter_module(previous);
        proof {
            lemma_grows_trans(old(ctx), &made, ctx, None, None, None);
        }
        Ok(ParseResult::AlreadyResolved(module_id))
    }
}

impl Function {
    /// Parses a function, a method or a constructor: its name is the
    /// spelling of the cursor, its signature the type of the cursor, parsed
    /// into an item of its own. A declaration without a name is skipped.
    pub(crate) fn parse(
        tu: &TranslationUnit,
        cursor: CursorId,
        ctx: &mut Context,
        depth: usize,
    ) -> (r: Result<ParseResult<Function>, ParseError>)
        requires
            ready(old(ctx), tu),
            tu.has_cursor(cursor),
        ensures
            final(ctx).wf(),
            extends(old(ctx), final(ctx), None),
            final(ctx).modules == old(ctx).modules,
            r matches Ok(ParseResult::AlreadyResolved(id)) ==> id.0 < final(ctx).items@.len(),
            r matches Ok(ParseResult::New(function, declaration)) ==> function.name@
                == tu.cursor_at(cursor).spelling@ && function.signature.0 < final(ctx).items@.len()
                && function.kind == function_kind(tu.cursor_at(cursor).kind) && declaration == Some(
                cursor,
            ),
            !(r matches Ok(ParseResult::AlreadyResolved(_))),
            r matches Ok(ParseResult::New(function, _)) ==> function.mangled_name is None,
            is_function_cursor(tu.cursor_at(cursor).kind)
                && tu.cursor_at(cursor).spelling@.len() > 0
                && depth > 0 && needs_decoding(old(ctx), tu, tu.cursor_at(cursor).ty, cursor)
                && shape_of(tu, tu.cursor_at(cursor).ty, cursor) is Some ==> {
                &&& r is Ok
                &&& r.unwrap()->New_0.signature == ItemId(old(ctx).items@.len() as usize)
                &&& parsed_as_owed(
                    old(ctx),
                    final(ctx),
                    tu,
                    ItemId(old(ctx).items@.len() as usize),
                    tu.cursor_at(cursor).ty,
                    cursor,
                    None,
                )
            },
            !is_function_cursor(tu.cursor_at(cursor).kind) || tu.cursor_at(cursor).spelling@.len()
                == 0 ==> r == Err::<ParseResult<Function>, ParseError>(ParseError::Continue)
                && *final(ctx) == *old(ctx),
        decreases depth, 3nat,
    {
        let c = tu.cursor(cursor);
        let kind = match c.kind {
            CursorKind::FunctionDecl => FunctionKind::Function,
            CursorKind::Constructor => FunctionKind::Method(MethodKind::Constructor),
            CursorKind::CxxMethod => FunctionKind::Method(MethodKind::Normal),
            _ => {
                return Err(ParseError::Continue);
            },
        };
        if c.spelling.as_str().is_empty() {
            return Err(ParseError::Continue);
        }
        let signature = match Item::from_ty(tu, c.ty, cursor, None, ctx, depth) {
            Ok(sig) => sig,
            Err(e) => {
                return Err(e);
            },
        };
        Ok(ParseResult::New(Function::new(c.spelling.clone(), None, signature, kind), Some(cursor)))
    }
}

/// Whether a cursor of this kind declares a function.
pub open spec fn is_function_cursor(kind: CursorKind) -> bool {
    kind == CursorKind::FunctionDecl || kind == CursorKind::Constructor || kind
        == CursorKind::CxxMethod
}

/// The kind of function that a cursor of this kind declares.
pub open spec fn function_kind(kind: CursorKind) -> FunctionKind {
    match kind {
        CursorKind::Constructor => FunctionKind::Method(MethodKind::Constructor),
        CursorKind::CxxMethod => FunctionKind::Method(MethodKind::Normal),
        _ => FunctionKind::Function,
    }
}

impl Var {
    /// Parses a variable: its name is the spelling of the cursor, its type
    /// the type of the cursor, parsed into an item of its own. A declaration
    /// without a name is skipped.
    pub(crate) fn parse(
        tu: &TranslationUnit,
        cursor: CursorId,
        ctx: &mut Context,
        depth: usize,
    ) -> (r: Result<ParseResult<Var>, ParseError>)
        requires
            ready(old(ctx), tu),
            tu.has_cursor(cursor),
        ensures
            final(ctx).wf(),
            extends(old(ctx), final(ctx), None),
            final(ctx).modules == old(ctx).modules,
            r matches Ok(ParseResult::AlreadyResolved(id)) ==> id.0 < final(ctx).items@.len(),
            r matches Ok(ParseResult::New(var, declaration)) ==> var.name@ == tu.cursor_at(
                cursor,
            ).spelling@ && var.ty.0 < final(ctx).items@.len() && var.is_const == tu.type_at(
                tu.cursor_at(cursor).ty,
            ).is_const && declaration == Some(cursor),
            !(r matches Ok(ParseResult::AlreadyResolved(_))),
            tu.cursor_at(cursor).kind == CursorKind::VarDecl && tu.cursor_at(cursor).spelling@.len()
                > 0 && depth > 0 && needs_decoding(old(ctx), tu, tu.cursor_at(cursor).ty, cursor)
                && shape_of(tu, tu.cursor_at(cursor).ty, cursor) is Some ==> {
                &&& r is Ok
                &&& r.unwrap()->New_0.ty == ItemId(old(ctx).items@.len() as usize)
                &&& parsed_as_owed(
                    old(ctx),
                    final(ctx),
                    tu,
                    ItemId(old(ctx).items@.len() as usize),
                    tu.cursor_at(cursor).ty,
                    cursor,
                    None,
                )
            },
            tu.cursor_at(cursor).kind != CursorKind::VarDecl || tu.cursor_at(cursor).spelling@.len()
                == 0 ==> r == Err::<ParseResult<Var>, ParseError>(ParseError::Continue)
                && *final(ctx) == *old(ctx),
        decreases depth, 3nat,
    {
        let c = tu.cursor(cursor);
        if c.kind != CursorKind::VarDecl {
            return Err(ParseError::Continue);
        }
        if c.spelling.as_str().is_empty() {
            return Err(ParseError::Continue);
        }
        let is_const = tu.ty(c.ty).is_const;
        let ty = match Item::from_ty(tu, c.ty, cursor, None, ctx, depth) {
            Ok(ty) => ty,
            Err(e) => {
                return Err(e);
            },
        };
        Ok(ParseResult::New(Var::new(c.spelling.clone(), ty, is_const), Some(cursor)))
    }
}

impl FunctionSig {
    /// Decodes a function type: the types of the parameters, taken from the
    /// parameter declarations below a function cursor and from the type
    /// itself anywhere else, and the result type.
    pub(crate) fn from_ty(
        tu: &TranslationUnit,
        ty: TypeId,
        cursor: CursorId,
        ctx: &mut Context,
        depth: usize,
    ) -> (r: Result<FunctionSig, ParseError>)
        requires
            ready(old(ctx), tu),
            tu.has_type(ty),
            tu.has_cursor(cursor),
        ensures
            final(ctx).wf(),
            extends(old(ctx), final(ctx), None),
            r is Err ==> r == Err::<FunctionSig, ParseError>(ParseError::Continue) && *final(ctx)
                == *old(ctx),
            final(ctx).modules == old(ctx).modules,
            r is Ok == tu.type_at(ty).result is Some,
            r is Ok ==> members_match(tu, ty, cursor, TypeKind::Function(r.unwrap())),
            r is Ok && !old(ctx).collected_typerefs ==> signature_refers(
                final(ctx),
                tu,
                ty,
                cursor,
                old(ctx).current_module,
                r.unwrap(),
            ),
        decreases depth, 3nat,
    {
        let t = tu.ty(ty);
        let c = tu.cursor(cursor);
        let result = match t.result {
            Some(result) => result,
            None => {
                return Err(ParseError::Continue);
            },
        };
        let mut arguments: Vec<ItemId> = Vec::new();
        let from_cursor = match c.kind {
            CursorKind::FunctionDecl => true,
            CursorKind::Constructor => true,
            CursorKind::CxxMethod => true,
            _ => false,
        };
        if from_cursor {
            let mut i: usize = 0;
            while i < c.children.len()
                invariant
                    i <= c.children@.len(),
                    ready(ctx, tu),
                    tu.cursor_ok(*c),
                    extends(old(ctx), ctx, None),
                    ctx.modules == old(ctx).modules,
                    arguments@.len() == spellings_of(
                        tu,
                        c.children@.take(i as int),
                        CursorKind::ParmDecl,
                    ).len(),
                    *c == tu.cursor_at(cursor),
                    !old(ctx).collected_typerefs ==> parameters_refer(
                        ctx,
                        tu,
                        old(ctx).current_module,
                        parameter_cursors(tu, c.children@.take(i as int)),
                        arguments@,
                    ),
                decreases c.children@.len() - i,
            {
                let child = tu.cursor(c.children[i]);
                assert(c.children@.take(i + 1).drop_last() =~= c.children@.take(i as int));
                if child.kind == CursorKind::ParmDecl {
                    let ghost before = *ctx;
                    let ghost earlier = arguments@;
                    let arg = Item::from_ty_or_ref(tu, child.ty, c.children[i], None, ctx, depth);
                    proof {
                        lemma_grows_trans(old(ctx), &before, ctx, None, None, None);
                    }
                    arguments.push(arg);
                    proof {
                        if !old(ctx).collected_typerefs {
                            let cursors = parameter_cursors(tu, c.children@.take(i + 1));
                            assert(ctx.has(arg));
                            assert(is_member_type(
                                ctx.item(arg),
                                tu,
                                child.ty,
                                c.children@[i as int],
                                None,
                                old(ctx).current_module,
                            ));
                            assert forall|k: int| 0 <= k < arguments@.len() implies ctx.has(
                                #[trigger] arguments@[k],
                            ) && ctx.item(arguments@[k]).id == arguments@[k] && is_member_type(
                                ctx.item(arguments@[k]),
                                tu,
                                tu.cursor_at(cursors[k]).ty,
                                cursors[k],
                                None,
                                old(ctx).current_module,
                            ) by {
                                if k < earlier.len() {
                                    assert(arguments@[k] == earlier[k]);
                                    assert(before.has(earlier[k]));
                                    assert(ctx.items@[earlier[k].0 as int]
                                        == before.items@[earlier[k].0 as int]);
                                }
                            }
                        }
                    }
                }
                i += 1;
            }
            assert(c.children@.take(i as int) =~= c.children@);
        } else {
            let mut i: usize = 0;
            while i < t.arguments.len()
                invariant
                    i <= t.arguments@.len(),
                    ready(ctx, tu),
                    tu.type_ok(*t),
                    tu.has_cursor(cursor),
                    extends(old(ctx), ctx, None),
                    ctx.modules == old(ctx).modules,
                    arguments@.len() == i,
                    *t == tu.type_at(ty),
                    !old(ctx).collected_typerefs ==> arguments_refer(
                        ctx,
                        tu,
                        cursor,
                        old(ctx).current_module,
                        t.arguments@.take(i as int),
                        arguments@,
                    ),
                decreases t.arguments@.len() - i,
            {
                let ghost before = *ctx;
                let ghost earlier = arguments@;
                let arg = Item::from_ty_or_ref(tu, t.arguments[i], cursor, None, ctx, depth);
                proof {
                    lemma_grows_trans(old(ctx), &before, ctx, None, None, None);
                }
                arguments.push(arg);
                proof {
                    if !old(ctx).collected_typerefs {
                        assert(ctx.has(arg));
                        assert(is_member_type(
                            ctx.item(arg),
                            tu,
                            t.arguments@[i as int],
                            cursor,
                            None,
                            old(ctx).current_module,
                        ));
                        assert forall|k: int| 0 <= k < arguments@.len() implies ctx.has(
                            #[trigger] arguments@[k],
                        ) && ctx.item(arguments@[k]).id == arguments@[k] && is_member_type(
                            ctx.item(arguments@[k]),
                            tu,
                            t.arguments@.take(i + 1)[k],
                            cursor,
                            None,
                            old(ctx).current_module,
                        ) by {
                            if k < earlier.len() {
                                assert(arguments@[k] == earlier[k]);
                                assert(before.has(earlier[k]));
                                assert(ctx.items@[earlier[k].0 as int]
                                    == before.items@[earlier[k].0 as int]);
                            }
                        }
                    }
                }
                i += 1;
            }
        }
        assert(!from_cursor ==> t.arguments@.take(t.arguments@.len() as int) =~= t.arguments@);
        let ghost before = *ctx;
        let return_type = Item::from_ty_or_ref(tu, result, cursor, None, ctx, depth);
        proof {
            lemma_grows_trans(old(ctx), &before, ctx, None, None, None);
            if !old(ctx).collected_typerefs {
                assert(ctx.has(return_type));
                assert forall|k: int| 0 <= k < arguments@.len() implies ctx.items@[(
                #[trigger] arguments@[k]).0 as int] == before.items@[arguments@[k].0 as int] by {
                    assert(before.has(arguments@[k]));
                }
            }
        }
        Ok(FunctionSig { return_type, argument_types: arguments, is_variadic: t.is_variadic })
    }
}

impl EnumInfo {
    /// Decodes an enumeration: its integer type, parsed into an item of its
    /// own where that succeeds, and its enumerators.
    pub(crate) fn from_ty(
        tu: &TranslationUnit,
        ty: TypeId,
        ctx: &mut Context,
        depth: usize,
    ) -> (r: Result<EnumInfo, ParseError>)
        requires
            ready(old(ctx), tu),
            tu.has_type(ty),
        ensures
            final(ctx).wf(),
            extends(old(ctx), final(ctx), None),
            r is Err ==> *final(ctx) == *old(ctx),
            final(ctx).modules == old(ctx).modules,
            r is Ok == (tu.type_at(ty).declaration is Some && tu.cursor_at(
                tu.type_at(ty).declaration->0,
            ).kind == CursorKind::EnumDecl),
            r is Ok ==> members_match(tu, ty, tu.type_at(ty).declaration->0, TypeKind::Enum(r.unwrap())),
        decreases depth, 3nat,
    {
        let declaration = match tu.ty(ty).declaration {
            Some(d) => d,
            None => {
                return Err(ParseError::Continue);
            },
        };
        let decl = tu.cursor(declaration);
        if decl.kind != CursorKind::EnumDecl {
            return Err(ParseError::Continue);
        }
        let repr = match decl.underlying {
            Some(u) => match Item::from_ty(tu, u, declaration, None, ctx, depth) {
                Ok(id) => Some(id),
                Err(_) => None,
            },
            None => None,
        };
        let mut variants: Vec<EnumVariant> = Vec::new();
        let mut i: usize = 0;
        while i < decl.children.len()
            invariant
                i <= decl.children@.len(),
                tu.wf(),
                tu.cursor_ok(*decl),
                variant_views(variants@) == enumerators(tu, decl.children@.take(i as int)),
            decreases decl.children@.len() - i,
        {
            let child = tu.cursor(decl.children[i]);
            assert(decl.children@.take(i + 1).drop_last() =~= decl.children@.take(i as int));
            if child.kind == CursorKind::EnumConstantDecl {
                let ghost before = variant_views(variants@);
                let name = child.spelling.clone();
                variants.push(EnumVariant { name, value: child.enum_value });
                assert(variant_views(variants@) =~= before.push((name@, child.enum_value)));
            }
            i += 1;
        }
        assert(decl.children@.take(i as int) =~= decl.children@);
        Ok(EnumInfo { repr, variants })
    }
}

/// Whether the item `id` exists and is a function.
fn is_function_item(ctx: &Context, id: ItemId) -> (r: bool)
    ensures
        r == (ctx.has(id) && ctx.item(id).kind is Function),
{
    match ctx.resolve_item_fallible(id) {
        Some(item) => item.func_name().is_some(),
        None => false,
    }
}

impl CompInfo {
    /// Decodes a struct, class or union from the declarations below its
    /// definition, or below `location` where the type has no declaration (a
    /// class template): fields, bases, template parameters, inner types,
    /// methods and constructors, each parsed with `potential_id` as its
    /// parent.
    pub(crate) fn from_ty(
        tu: &TranslationUnit,
        potential_id: ItemId,
        ty: TypeId,
        location: CursorId,
        ctx: &mut Context,
        depth: usize,
    ) -> (r: Result<CompInfo, ParseError>)
        requires
            ready(old(ctx), tu),
            tu.has_type(ty),
            tu.has_cursor(location),
            potential_id.0 < old(ctx).items@.len(),
        ensures
            final(ctx).wf(),
            extends(old(ctx), final(ctx), None),
            r is Err ==> *final(ctx) == *old(ctx),
            final(ctx).modules == old(ctx).modules,
            r is Ok == comp_kind_of(tu.cursor_at(comp_declaration(tu, ty, location)).kind) is Some,
            r is Ok ==> Some(r.unwrap().kind) == comp_kind_of(
                tu.cursor_at(comp_declaration(tu, ty, location)).kind,
            ),
            r is Ok ==> members_match(tu, ty, location, TypeKind::Comp(r.unwrap())),
            r is Ok && !old(ctx).collected_typerefs ==> fields_refer(
                final(ctx),
                tu,
                potential_id,
                field_cursors(tu, tu.cursor_at(comp_declaration(tu, ty, location)).children@),
                r.unwrap().fields@,
            ),
        decreases depth, 3nat,
    {
        let declaration = match tu.ty(ty).declaration {
            Some(d) => match tu.cursor(d).definition {
                Some(definition) => definition,
                None => d,
            },
            None => location,
        };
        let decl = tu.cursor(declaration);
        let kind = match decl.kind {
            CursorKind::StructDecl => CompKind::Struct,
            CursorKind::ClassDecl => CompKind::Struct,
            CursorKind::ClassTemplate => CompKind::Struct,
            CursorKind::UnionDecl => CompKind::Union,
            _ => {
                return Err(ParseError::Continue);
            },
        };
        let mut ci = CompInfo {
            kind,
            fields: Vec::new(),
            template_params: Vec::new(),
            methods: Vec::new(),
            constructors: Vec::new(),
            base_members: Vec::new(),
            inner_types: Vec::new(),
        };
        let mut i: usize = 0;
        while i < decl.children.len()
            invariant
                i <= decl.children@.len(),
                ready(ctx, tu),
                tu.cursor_ok(*decl),
                potential_id.0 < old(ctx).items@.len(),
                ci.kind == kind,
                extends(old(ctx), ctx, None),
                !old(ctx).collected_typerefs ==> fields_refer(
                    ctx,
                    tu,
                    potential_id,
                    field_cursors(tu, decl.children@.take(i as int)),
                    ci.fields@,
                ),
                ctx.modules == old(ctx).modules,
                field_names(ci.fields@) == spellings_of(
                    tu,
                    decl.children@.take(i as int),
                    CursorKind::FieldDecl,
                ),
                ci.base_members@.len() == spellings_of(
                    tu,
                    decl.children@.take(i as int),
                    CursorKind::CxxBaseSpecifier,
                ).len(),
            decreases decl.children@.len() - i,
        {
            let cur = decl.children[i];
            let child = tu.cursor(cur);
            let ghost before = *ctx;
            let ghost names = field_names(ci.fields@);
            assert(decl.children@.take(i + 1).drop_last() =~= decl.children@.take(i as int));
            match child.kind {
                CursorKind::FieldDecl => {
                    let field_type = Item::from_ty_or_ref(
                        tu,
                        child.ty,
                        cur,
                        Some(potential_id),
                        ctx,
                        depth,
                    );
                    let name = optional_name(&child.spelling);
                    let ghost fields = ci.fields@;
                    let field = Field { name, ty: field_type };
                    ci.fields.push(field);
                    proof {
                        if !old(ctx).collected_typerefs {
                            assert(ctx.has(field_type));
                            assert(is_field_type(ctx.item(field_type), tu, cur, potential_id));
                        }
                    }
                    proof {
                        assert(ci.fields@ == fields.push(field));
                        let now = field_names(ci.fields@);
                        assert(now.len() == names.len() + 1);
                        assert(now[names.len() as int] == child.spelling@);
                        assert forall|k: int| 0 <= k < names.len() implies now[k] == names[k] by {
                            assert(ci.fields@[k] == fields[k]);
                        }
                        assert(now =~= names.push(child.spelling@));
                    }
                },
                CursorKind::CxxBaseSpecifier => {
                    let base = Item::from_ty_or_ref(tu, child.ty, cur, None, ctx, depth);
                    ci.base_members.push(base);
                },
                CursorKind::TemplateTypeParameter => {
                    match Item::named_type(tu, None, cur, ctx) {
                        Some(param) => {
                            ci.template_params.push(param);
                        },
                        None => {},
                    }
                },
                CursorKind::EnumDecl | CursorKind::TypedefDecl | CursorKind::StructDecl
                | CursorKind::UnionDecl | CursorKind::ClassTemplate | CursorKind::ClassDecl => {
                    if depth > 0 {
                        match Item::parse(tu, cur, Some(potential_id), ctx, depth - 1) {
                            Ok(inner) => {
                                ci.inner_types.push(inner);
                            },
                            Err(_) => {},
                        }
                    }
                },
                CursorKind::Constructor | CursorKind::CxxMethod => {
                    if depth > 0 {
                        match Item::parse(tu, cur, Some(potential_id), ctx, depth - 1) {
                            Ok(function) => {
                                if is_function_item(ctx, function) {
                                    if child.kind == CursorKind::Constructor {
                                        ci.constructors.push(function);
                                    } else {
                                        let kind = MethodKind::Normal;
                                        ci.methods.push(Method { kind, signature: function });
                                    }
                                }
                            },
                            Err(_) => {},
                        }
                    }
                },
                _ => {},
            }
            proof {
                lemma_grows_trans(old(ctx), &before, ctx, None, None, None);
                if !old(ctx).collected_typerefs {
                    let cursors = field_cursors(tu, decl.children@.take(i + 1));
                    let earlier = field_cursors(tu, decl.children@.take(i as int));
                    assert forall|k: int| 0 <= k < ci.fields@.len() implies ctx.has(
                        (#[trigger] ci.fields@[k]).ty,
                    ) && ctx.item(ci.fields@[k].ty).id == ci.fields@[k].ty && is_field_type(
                        ctx.item(ci.fields@[k].ty),
                        tu,
                        cursors[k],
                        potential_id,
                    ) by {
                        if k < earlier.len() {
                            assert(before.has(ci.fields@[k].ty));
                            assert(ctx.items@[ci.fields@[k].ty.0 as int]
                                == before.items@[ci.fields@[k].ty.0 as int]);
                            assert(cursors[k] == earlier[k]);
                        }
                    }
                }
            }
            i += 1;
        }
        assert(decl.children@.take(i as int) =~= decl.children@);
        Ok(ci)
    }
}

impl Type {
    /// Decodes the type `ty` seen at `location`, for the item
    /// `potential_id`.
    ///
    /// - A type that is modelled already is not decoded again.
    /// - A pointer, a reference, an array, a typedef: the type that it leads
    ///   to is parsed, or left as a forward reference.
    /// - A function type, an enumeration, a record: see their decoders.
    /// - An elaborated type: the type that it names is decoded in its place.
    /// - A type without a kind of its own at a class template: the record
    ///   that the template declares.
    /// - Any other unexposed type asks for the children of `location` to be
    ///   tried; anything else is skipped.
    pub(crate) fn from_clang_ty(
        tu: &TranslationUnit,
        potential_id: ItemId,
        ty: TypeId,
        location: CursorId,
        parent_id: Option<ItemId>,
        ctx: &mut Context,
        depth: usize,
    ) -> (r: Result<ParseResult<Type>, ParseError>)
        requires
            ready(old(ctx), tu),
            tu.has_type(ty),
            tu.has_cursor(location),
            old(ctx).vacant(potential_id),
            minted(old(ctx), parent_id),
            parent_id != Some(potential_id),
        ensures
            final(ctx).wf(),
            extends(old(ctx), final(ctx), Some(potential_id)),
            filled_with_type(old(ctx), final(ctx), potential_id),
            final(ctx).modules == old(ctx).modules,
            r matches Ok(ParseResult::AlreadyResolved(id)) ==> id.0 < final(ctx).items@.len(),
            r matches Ok(ParseResult::AlreadyResolved(id)) ==> is_new(
                old(ctx),
                final(ctx),
                id.0 as int,
            ) && final(ctx).item(id).kind is Type,
            r matches Ok(ParseResult::New(t, declaration))
                ==> final(ctx).vacant(potential_id) && !(t.kind is UnresolvedTypeRef)
                && (declaration is Some ==> tu.has_cursor(declaration->0)),
            r is Err ==> final(ctx).vacant(potential_id),
            !is_modelled(old(ctx), tu, ty, location) && cannot_decode(tu, ty, location) ==> r
                == Err::<ParseResult<Type>, ParseError>(ParseError::Continue) && *final(ctx)
                == *old(ctx),
            !is_modelled(old(ctx), tu, ty, location) && shape_of(tu, ty, location) is Some ==> {
                &&& r is Ok
                &&& r.unwrap() is New
                &&& is_decoded(tu, ty, location, r.unwrap()->New_0, shape_of(tu, ty, location)->0)
                &&& r.unwrap()->New_1 == decoded_declaration(tu, ty)
                &&& refers(
                    old(ctx).currently_parsed_types@,
                    old(ctx),
                    ItemId(old(ctx).items@.len() as usize),
                    final(ctx),
                    tu,
                    potential_id,
                    ty,
                    location,
                    depth,
                    r.unwrap()->New_0.kind,
                )
            },
        decreases depth, 4nat,
    {
        match ctx.builtin_or_resolved_ty(tu, potential_id, parent_id, ty, Some(location)) {
            Some(known) => {
                return Ok(ParseResult::AlreadyResolved(known));
            },
            None => {},
        }
        let t = tu.ty(ty);
        let templated = tu.cursor(location).kind == CursorKind::ClassTemplate;
        let kind = match t.kind {
            ClangTypeKind::Unexposed | ClangTypeKind::Invalid => {
                if !templated {
                    if t.kind == ClangTypeKind::Unexposed {
                        return Err(ParseError::Recurse);
                    }
                    return Err(ParseError::Continue);
                }
                match CompInfo::from_ty(tu, potential_id, ty, location, ctx, depth) {
                    Ok(ci) => TypeKind::Comp(ci),
                    Err(_) => {
                        return Err(ParseError::Continue);
                    },
                }
            },
            ClangTypeKind::Pointer => {
                let pointee = match t.inner {
                    Some(p) => p,
                    None => {
                        return Err(ParseError::Continue);
                    },
                };
                TypeKind::Pointer(Item::from_ty_or_ref(tu, pointee, location, None, ctx, depth))
            },
            ClangTypeKind::Reference => {
                let pointee = match t.inner {
                    Some(p) => p,
                    None => {
                        return Err(ParseError::Continue);
                    },
                };
                TypeKind::Reference(Item::from_ty_or_ref(tu, pointee, location, None, ctx, depth))
            },
            ClangTypeKind::IncompleteArray => {
                let element = match t.inner {
                    Some(e) => e,
                    None => {
                        return Err(ParseError::Continue);
                    },
                };
                match Item::from_ty(tu, element, location, None, ctx, depth) {
                    Ok(inner) => TypeKind::Array(inner, 0),
                    Err(_) => {
                        return Err(ParseError::Continue);
                    },
                }
            },
            ClangTypeKind::ConstantArray => {
                let element = match t.inner {
                    Some(e) => e,
                    None => {
                        return Err(ParseError::Continue);
                    },
                };
                match Item::from_ty(tu, element, location, None, ctx, depth) {
                    Ok(inner) => TypeKind::Array(inner, t.num_elements),
                    Err(_) => {
                        return Err(ParseError::Continue);
                    },
                }
            },
            ClangTypeKind::FunctionProto => {
                match FunctionSig::from_ty(tu, ty, location, ctx, depth) {
                    Ok(signature) => TypeKind::Function(signature),
                    Err(e) => {
                        return Err(e);
                    },
                }
            },
            ClangTypeKind::Typedef => {
                let aliased = match t.declaration {
                    Some(d) => tu.cursor(d).underlying,
                    None => None,
                };
                match aliased {
                    Some(inner) => TypeKind::Alias(
                        Item::from_ty_or_ref(tu, inner, location, None, ctx, depth),
                    ),
                    None => {
                        return Err(ParseError::Continue);
                    },
                }
            },
            ClangTypeKind::Enum => {
                match EnumInfo::from_ty(tu, ty, ctx, depth) {
                    Ok(en) => TypeKind::Enum(en),
                    Err(_) => {
                        return Err(ParseError::Continue);
                    },
                }
            },
            ClangTypeKind::Record => {
                match CompInfo::from_ty(tu, potential_id, ty, location, ctx, depth) {
                    Ok(ci) => TypeKind::Comp(ci),
                    Err(_) => {
                        return Err(ParseError::Continue);
                    },
                }
            },
            ClangTypeKind::Elaborated => {
                let named = match t.inner {
                    Some(n) => n,
                    None => {
                        return Err(ParseError::Continue);
                    },
                };
                if depth == 0 {
                    return Err(ParseError::Continue);
                }
                return Type::from_clang_ty(
                    tu,
                    potential_id,
                    named,
                    location,
                    parent_id,
                    ctx,
                    depth - 1,
                );
            },
            _ => {
                return Err(ParseError::Continue);
            },
        };
        let name = match t.declaration {
            Some(d) => optional_name(&tu.cursor(d).spelling),
            None => if templated {
                optional_name(&tu.cursor(location).spelling)
            } else {
                None
            },
        };
        let declaration = match t.declaration {
            Some(d) => Some(tu.cursor(d).canonical),
            None => None,
        };
        Ok(ParseResult::New(Type::new(name, t.layout, kind, t.is_const), declaration))
    }
}

} // verus!
