//! The type sub-model: what a type item holds.

use vstd::prelude::*;
use crate::clang::{CursorId, TypeId};
use crate::layout::Layout;

verus! {

/// The identity of an item within a context.
#[derive(Debug, Clone, Copy, PartialEq, Eq, Structural, Hash, PartialOrd, Ord)]
pub struct ItemId(pub usize);

impl ItemId {
    /// The identity as a number.
    pub fn as_usize(&self) -> (r: usize)
        ensures
            r == self.0,
    {
        self.0
    }
}

/// Struct (or class) versus union.
#[derive(Debug, Clone, Copy, PartialEq, Eq, Structural)]
pub enum CompKind {
    Struct,
    Union,
}

/// How a method is bound to its record.
#[derive(Debug, Clone, Copy, PartialEq, Eq, Structural)]
pub enum MethodKind {
    Constructor,
    Static,
    Normal,
    Virtual,
}

/// A data member of a record.
#[derive(Debug, Clone)]
pub struct Field {
    pub name: Option<String>,
    pub ty: ItemId,
}

/// A method of a record; `signature` is the id of the function item.
#[derive(Debug, Clone, Copy, PartialEq, Eq, Structural)]
pub struct Method {
    pub kind: MethodKind,
    pub signature: ItemId,
}

/// A struct, class or union.
#[derive(Debug, Clone)]
pub struct CompInfo {
    pub kind: CompKind,
    pub fields: Vec<Field>,
    pub template_params: Vec<ItemId>,
    pub methods: Vec<Method>,
    pub constructors: Vec<ItemId>,
    pub base_members: Vec<ItemId>,
    pub inner_types: Vec<ItemId>,
}

/// One enumerator.
#[derive(Debug, Clone)]
pub struct EnumVariant {
    pub name: String,
    pub value: i64,
}

/// An enumeration.
#[derive(Debug, Clone)]
pub struct EnumInfo {
    pub repr: Option<ItemId>,
    pub variants: Vec<EnumVariant>,
}

/// The signature of a function.
#[derive(Debug, Clone)]
pub struct FunctionSig {
    pub return_type: ItemId,
    pub argument_types: Vec<ItemId>,
    pub is_variadic: bool,
}

/// A template applied to arguments.
#[derive(Debug, Clone)]
pub struct TemplateInstantiation {
    pub definition: ItemId,
    pub args: Vec<ItemId>,
}

/// The variants of a type.
#[derive(Debug, Clone)]
pub enum TypeKind {
    Void,
    NullPtr,
    Bool,
    Int { bits: u32, signed: bool },
    Float { bits: u32 },
    Pointer(ItemId),
    Reference(ItemId),
    Array(ItemId, usize),
    Comp(CompInfo),
    Enum(EnumInfo),
    Function(FunctionSig),
    /// A typedef of another type.
    Alias(ItemId),
    /// A templated alias: the aliased type and the parameters.
    TemplateAlias(ItemId, Vec<ItemId>),
    TemplateInstantiation(TemplateInstantiation),
    /// An indirection to another item, which names the same type.
    ResolvedTypeRef(ItemId),
    /// A forward reference, to be resolved once everything is parsed: the
    /// front end's type, the cursor it was seen at, and the parent asked for.
    UnresolvedTypeRef(TypeId, CursorId, Option<ItemId>),
    /// A template type parameter.
    Named,
    /// A blob of known size and alignment.
    Opaque,
}

/// A type: its kind and what is common to all kinds.
#[derive(Debug, Clone)]
pub struct Type {
    pub name: Option<String>,
    pub layout: Option<Layout>,
    pub kind: TypeKind,
    pub is_const: bool,
}

impl Type {
    /// A type made of its parts.
    pub fn new(name: Option<String>, layout: Option<Layout>, kind: TypeKind, is_const: bool) -> (r:
        Self)
        ensures
            r.name == name,
            r.layout == layout,
            r.kind == kind,
            r.is_const == is_const,
    {
        Type { name, layout, kind, is_const }
    }

    /// The template type parameter called `name`.
    pub fn named(name: String) -> (r: Self)
        ensures
            r.name == Some(name),
            r.layout is None,
            r.kind == TypeKind::Named,
            !r.is_const,
    {
        Type { name: Some(name), layout: None, kind: TypeKind::Named, is_const: false }
    }

    /// The blob that stands for a type of the given layout.
    pub fn opaque(layout: Option<Layout>, is_const: bool) -> (r: Self)
        ensures
            r.name is None,
            r.layout == layout,
            r.kind == TypeKind::Opaque,
            r.is_const == is_const,
    {
        Type { name: None, layout, kind: TypeKind::Opaque, is_const }
    }

    /// The kind of this type.
    pub fn kind(&self) -> (r: &TypeKind)
        ensures
            *r == self.kind,
    {
        &self.kind
    }

    /// The name of this type, if it has one.
    pub fn name(&self) -> (r: Option<&String>)
        ensures
            r is Some == self.name is Some,
            r is Some ==> *r->0 == self.name->0,
    {
        self.name.as_ref()
    }

    /// The layout recorded for this type, if any.
    pub fn layout(&self) -> (r: Option<Layout>)
        ensures
            r == self.layout,
    {
        self.layout
    }

    /// Whether the type is `const`-qualified.
    pub fn is_const(&self) -> (r: bool)
        ensures
            r == self.is_const,
    {
        self.is_const
    }

    /// Whether this type is a blob.
    pub open spec fn spec_is_opaque(&self) -> bool {
        self.kind is Opaque
    }

    /// Whether this type is a blob.
    #[verifier::when_used_as_spec(spec_is_opaque)]
    pub fn is_opaque(&self) -> (r: bool)
        ensures
            r == self.spec_is_opaque(),
    {
        match self.kind {
            TypeKind::Opaque => true,
            _ => false,
        }
    }

    /// Whether this type is a reference to another item, resolved or not.
    pub open spec fn spec_is_type_ref(&self) -> bool {
        self.kind is ResolvedTypeRef || self.kind is UnresolvedTypeRef
    }

    /// Whether this type is a reference to another item, resolved or not.
    #[verifier::when_used_as_spec(spec_is_type_ref)]
    pub fn is_type_ref(&self) -> (r: bool)
        ensures
            r == self.spec_is_type_ref(),
    {
        match self.kind {
            TypeKind::ResolvedTypeRef(_) => true,
            TypeKind::UnresolvedTypeRef(_, _, _) => true,
            _ => false,
        }
    }

    /// Whether this type is a forward reference that is not resolved yet.
    pub open spec fn spec_is_unresolved_ref(&self) -> bool {
        self.kind is UnresolvedTypeRef
    }

    /// Whether this type is a forward reference that is not resolved yet.
    #[verifier::when_used_as_spec(spec_is_unresolved_ref)]
    pub fn is_unresolved_ref(&self) -> (r: bool)
        ensures
            r == self.spec_is_unresolved_ref(),
    {
        match self.kind {
            TypeKind::UnresolvedTypeRef(_, _, _) => true,
            _ => false,
        }
    }

    /// Whether this type is a struct, class or union.
    pub open spec fn spec_is_comp(&self) -> bool {
        self.kind is Comp
    }

    /// Whether this type is a struct, class or union.
    #[verifier::when_used_as_spec(spec_is_comp)]
    pub fn is_comp(&self) -> (r: bool)
        ensures
            r == self.spec_is_comp(),
    {
        match self.kind {
            TypeKind::Comp(_) => true,
            _ => false,
        }
    }

    /// Whether edges out of this type are followed even where the item is
    /// opaque: a resolved reference always leads on to its target.
    pub open spec fn spec_should_be_traced_unconditionally(&self) -> bool {
        self.kind is ResolvedTypeRef
    }

    /// Whether edges out of this type are followed even where the item is
    /// opaque.
    #[verifier::when_used_as_spec(spec_should_be_traced_unconditionally)]
    pub fn should_be_traced_unconditionally(&self) -> (r: bool)
        ensures
            r == self.spec_should_be_traced_unconditionally(),
    {
        match self.kind {
            TypeKind::ResolvedTypeRef(_) => true,
            _ => false,
        }
    }
}

} // verus!
