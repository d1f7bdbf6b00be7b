//! The outgoing edges of an item, typed by what they stand for.

use vstd::prelude::*;
use crate::item::Item;
use crate::item_kind::ItemKind;
use crate::ty::{CompInfo, Field, FunctionSig, ItemId, Method, TypeKind};

verus! {

/// What an edge from one item to another stands for.
#[derive(Debug, Clone, Copy, PartialEq, Eq, Structural)]
pub enum EdgeKind {
    /// An edge of no particular kind.
    Generic,
    /// From a template to one of its parameters.
    TemplateParameterDefinition,
    /// From an instantiation to the template that it instantiates.
    TemplateDeclaration,
    /// From an instantiation to one of its arguments.
    TemplateArgument,
    /// From a record to one of its bases.
    BaseMember,
    /// From a record to the type of one of its fields.
    Field,
    /// From a record to a type declared inside it.
    InnerType,
    /// From a record to one of its methods.
    Method,
    /// From a record to one of its constructors.
    Constructor,
    /// From a signature to its return type.
    FunctionReturn,
    /// From a signature to the type of one of its parameters.
    FunctionParameter,
    /// From a function to its signature.
    FunctionSignature,
    /// From a variable to its type.
    VarType,
    /// From a pointer, reference, array, alias or type reference to the type
    /// that it leads to.
    TypeReference,
    /// From a module to an item declared in it.
    ModuleChild,
}

/// An edge to the item `to`.
#[derive(Debug, Clone, Copy, PartialEq, Eq, Structural)]
pub struct Edge {
    pub to: ItemId,
    pub kind: EdgeKind,
}

/// One edge of kind `kind` to each of `ids`, in order.
pub open spec fn edges_to(ids: Seq<ItemId>, kind: EdgeKind) -> Seq<Edge> {
    Seq::new(ids.len(), |i: int| Edge { to: ids[i], kind })
}

/// The edges from a record to the types of its fields.
pub open spec fn field_edges(fields: Seq<Field>) -> Seq<Edge> {
    Seq::new(fields.len(), |i: int| Edge { to: fields[i].ty, kind: EdgeKind::Field })
}

/// The edges from a record to its methods.
pub open spec fn method_edges(methods: Seq<Method>) -> Seq<Edge> {
    Seq::new(methods.len(), |i: int| Edge { to: methods[i].signature, kind: EdgeKind::Method })
}

/// The edges out of a record: template parameters, bases, fields, inner
/// types, methods, constructors.
pub open spec fn comp_edges(ci: CompInfo) -> Seq<Edge> {
    edges_to(ci.template_params@, EdgeKind::TemplateParameterDefinition) + edges_to(
        ci.base_members@,
        EdgeKind::BaseMember,
    ) + field_edges(ci.fields@) + edges_to(ci.inner_types@, EdgeKind::InnerType) + method_edges(
        ci.methods@,
    ) + edges_to(ci.constructors@, EdgeKind::Constructor)
}

/// The edges out of a signature: the return type, then the parameters.
pub open spec fn sig_edges(sig: FunctionSig) -> Seq<Edge> {
    seq![Edge { to: sig.return_type, kind: EdgeKind::FunctionReturn }] + edges_to(
        sig.argument_types@,
        EdgeKind::FunctionParameter,
    )
}

/// The edges out of a type of the given kind.
pub open spec fn type_edges(kind: TypeKind) -> Seq<Edge> {
    match kind {
        TypeKind::Pointer(inner) => seq![Edge { to: inner, kind: EdgeKind::TypeReference }],
        TypeKind::Reference(inner) => seq![Edge { to: inner, kind: EdgeKind::TypeReference }],
        TypeKind::Array(inner, _) => seq![Edge { to: inner, kind: EdgeKind::TypeReference }],
        TypeKind::Alias(inner) => seq![Edge { to: inner, kind: EdgeKind::TypeReference }],
        TypeKind::ResolvedTypeRef(inner) => seq![
            Edge { to: inner, kind: EdgeKind::TypeReference },
        ],
        TypeKind::TemplateAlias(inner, params) => seq![
            Edge { to: inner, kind: EdgeKind::TypeReference },
        ] + edges_to(params@, EdgeKind::TemplateParameterDefinition),
        TypeKind::TemplateInstantiation(inst) => seq![
            Edge { to: inst.definition, kind: EdgeKind::TemplateDeclaration },
        ] + edges_to(inst.args@, EdgeKind::TemplateArgument),
        TypeKind::Comp(ci) => comp_edges(ci),
        TypeKind::Function(sig) => sig_edges(sig),
        TypeKind::Enum(en) => match en.repr {
            Some(repr) => seq![Edge { to: repr, kind: EdgeKind::Generic }],
            None => Seq::empty(),
        },
        TypeKind::UnresolvedTypeRef(_, _, parent) => match parent {
            Some(id) => seq![Edge { to: id, kind: EdgeKind::Generic }],
            None => Seq::empty(),
        },
        _ => Seq::empty(),
    }
}

/// The edges out of an item, whatever is hidden or opaque: a function leads
/// to its signature, a variable to its type, a type to what its kind refers
/// to. A module has none here: its children are found through their parent.
pub open spec fn item_edges(item: Item) -> Seq<Edge> {
    match item.kind {
        ItemKind::Type(ty) => type_edges(ty.kind),
        ItemKind::Function(fun) => seq![
            Edge { to: fun.signature, kind: EdgeKind::FunctionSignature },
        ],
        ItemKind::Var(var) => seq![Edge { to: var.ty, kind: EdgeKind::VarType }],
        ItemKind::Module(_) => Seq::empty(),
    }
}

fn push_edges(out: &mut Vec<Edge>, ids: &Vec<ItemId>, kind: EdgeKind)
    ensures
        final(out)@ == old(out)@ + edges_to(ids@, kind),
{
    let ghost before = out@;
    let mut i: usize = 0;
    while i < ids.len()
        invariant
            i <= ids.len(),
            out@ == before + edges_to(ids@.take(i as int), kind),
        decreases ids.len() - i,
    {
        out.push(Edge { to: ids[i], kind });
        i += 1;
        assert(out@ =~= before + edges_to(ids@.take(i as int), kind));
    }
    assert(ids@.take(ids.len() as int) =~= ids@);
    assert(before + edges_to(Seq::<ItemId>::empty(), kind) =~= before);
}

fn push_field_edges(out: &mut Vec<Edge>, fields: &Vec<Field>)
    ensures
        final(out)@ == old(out)@ + field_edges(fields@),
{
    let ghost before = out@;
    let mut i: usize = 0;
    while i < fields.len()
        invariant
            i <= fields.len(),
            out@ == before + field_edges(fields@.take(i as int)),
        decreases fields.len() - i,
    {
        out.push(Edge { to: fields[i].ty, kind: EdgeKind::Field });
        i += 1;
        assert(out@ =~= before + field_edges(fields@.take(i as int)));
    }
    assert(fields@.take(fields.len() as int) =~= fields@);
}

fn push_method_edges(out: &mut Vec<Edge>, methods: &Vec<Method>)
    ensures
        final(out)@ == old(out)@ + method_edges(methods@),
{
    let ghost before = out@;
    let mut i: usize = 0;
    while i < methods.len()
        invariant
            i <= methods.len(),
            out@ == before + method_edges(methods@.take(i as int)),
        decreases methods.len() - i,
    {
        out.push(Edge { to: methods[i].signature, kind: EdgeKind::Method });
        i += 1;
        assert(out@ =~= before + method_edges(methods@.take(i as int)));
    }
    assert(methods@.take(methods.len() as int) =~= methods@);
}

/// The edges out of a type of the given kind.
pub fn edges_of_type(kind: &TypeKind) -> (r: Vec<Edge>)
    ensures
        r@ == type_edges(*kind),
{
    let mut out: Vec<Edge> = Vec::new();
    match kind {
        TypeKind::Pointer(inner) => {
            out.push(Edge { to: *inner, kind: EdgeKind::TypeReference });
        },
        TypeKind::Reference(inner) => {
            out.push(Edge { to: *inner, kind: EdgeKind::TypeReference });
        },
        TypeKind::Array(inner, _) => {
            out.push(Edge { to: *inner, kind: EdgeKind::TypeReference });
        },
        TypeKind::Alias(inner) => {
            out.push(Edge { to: *inner, kind: EdgeKind::TypeReference });
        },
        TypeKind::ResolvedTypeRef(inner) => {
            out.push(Edge { to: *inner, kind: EdgeKind::TypeReference });
        },
        TypeKind::TemplateAlias(inner, params) => {
            out.push(Edge { to: *inner, kind: EdgeKind::TypeReference });
            push_edges(&mut out, params, EdgeKind::TemplateParameterDefinition);
        },
        TypeKind::TemplateInstantiation(inst) => {
            out.push(Edge { to: inst.definition, kind: EdgeKind::TemplateDeclaration });
            push_edges(&mut out, &inst.args, EdgeKind::TemplateArgument);
        },
        TypeKind::Comp(ci) => {
            push_edges(&mut out, &ci.template_params, EdgeKind::TemplateParameterDefinition);
            push_edges(&mut out, &ci.base_members, EdgeKind::BaseMember);
            push_field_edges(&mut out, &ci.fields);
            push_edges(&mut out, &ci.inner_types, EdgeKind::InnerType);
            push_method_edges(&mut out, &ci.methods);
            push_edges(&mut out, &ci.constructors, EdgeKind::Constructor);
        },
        TypeKind::Function(sig) => {
            out.push(Edge { to: sig.return_type, kind: EdgeKind::FunctionReturn });
            push_edges(&mut out, &sig.argument_types, EdgeKind::FunctionParameter);
        },
        TypeKind::Enum(en) => {
            match en.repr {
                Some(repr) => {
                    out.push(Edge { to: repr, kind: EdgeKind::Generic });
                },
                None => {},
            }
        },
        TypeKind::UnresolvedTypeRef(_, _, parent) => {
            match parent {
                Some(id) => {
                    out.push(Edge { to: *id, kind: EdgeKind::Generic });
                },
                None => {},
            }
        },
        _ => {},
    }
    assert(out@ =~= type_edges(*kind));
    out
}

/// The edges out of an item, whatever is hidden or opaque.
pub fn edges_of(item: &Item) -> (r: Vec<Edge>)
    ensures
        r@ == item_edges(*item),
{
    match &item.kind {
        ItemKind::Type(ty) => edges_of_type(&ty.kind),
        ItemKind::Function(fun) => {
            let mut out: Vec<Edge> = Vec::new();
            out.push(Edge { to: fun.signature, kind: EdgeKind::FunctionSignature });
            assert(out@ =~= item_edges(*item));
            out
        },
        ItemKind::Var(var) => {
            let mut out: Vec<Edge> = Vec::new();
            out.push(Edge { to: var.ty, kind: EdgeKind::VarType });
            assert(out@ =~= item_edges(*item));
            out
        },
        ItemKind::Module(_) => Vec::new(),
    }
}

} // verus!
