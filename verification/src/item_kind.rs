//! The four kinds of item: module, type, function, variable.

use vstd::prelude::*;
use crate::ty::{ItemId, MethodKind, Type};

verus! {

/// Whether a namespace is declared `inline`.
#[derive(Debug, Clone, Copy, PartialEq, Eq, Structural)]
pub enum ModuleKind {
    Normal,
    Inline,
}

/// A scope: a namespace, or the root.
#[derive(Debug, Clone)]
pub struct Module {
    pub name: Option<String>,
    pub kind: ModuleKind,
}

impl Module {
    /// A module called `name` (or anonymous) of the given kind.
    pub fn new(name: Option<String>, kind: ModuleKind) -> (r: Self)
        ensures
            r.name == name,
            r.kind == kind,
    {
        Module { name, kind }
    }

    /// The name of the module, if it has one.
    pub fn name(&self) -> (r: Option<&String>)
        ensures
            r is Some == self.name is Some,
            r is Some ==> *r->0 == self.name->0,
    {
        self.name.as_ref()
    }

    /// Whether this is an inline namespace.
    pub open spec fn spec_is_inline(&self) -> bool {
        self.kind == ModuleKind::Inline
    }

    /// Whether this is an inline namespace.
    #[verifier::when_used_as_spec(spec_is_inline)]
    pub fn is_inline(&self) -> (r: bool)
        ensures
            r == self.spec_is_inline(),
    {
        self.kind == ModuleKind::Inline
    }
}

/// Free function or method.
#[derive(Debug, Clone, Copy, PartialEq, Eq, Structural)]
pub enum FunctionKind {
    Function,
    Method(MethodKind),
}

/// A function: its name and the id of the type item that is its signature.
#[derive(Debug, Clone)]
pub struct Function {
    pub name: String,
    pub mangled_name: Option<String>,
    pub signature: ItemId,
    pub kind: FunctionKind,
}

impl Function {
    /// A function made of its parts.
    pub fn new(
        name: String,
        mangled_name: Option<String>,
        signature: ItemId,
        kind: FunctionKind,
    ) -> (r: Self)
        ensures
            r.name == name,
            r.mangled_name == mangled_name,
            r.signature == signature,
            r.kind == kind,
    {
        Function { name, mangled_name, signature, kind }
    }

    /// The name of the function.
    pub fn name(&self) -> (r: &String)
        ensures
            *r == self.name,
    {
        &self.name
    }

    /// The id of the signature's type item.
    pub fn signature(&self) -> (r: ItemId)
        ensures
            r == self.signature,
    {
        self.signature
    }
}

/// A global or static variable.
#[derive(Debug, Clone)]
pub struct Var {
    pub name: String,
    pub ty: ItemId,
    pub is_const: bool,
}

impl Var {
    /// A variable made of its parts.
    pub fn new(name: String, ty: ItemId, is_const: bool) -> (r: Self)
        ensures
            r.name == name,
            r.ty == ty,
            r.is_const == is_const,
    {
        Var { name, ty, is_const }
    }

    /// The name of the variable.
    pub fn name(&self) -> (r: &String)
        ensures
            *r == self.name,
    {
        &self.name
    }

    /// The id of the variable's type.
    pub fn ty(&self) -> (r: ItemId)
        ensures
            r == self.ty,
    {
        self.ty
    }
}

/// What an item is.
#[derive(Debug, Clone)]
pub enum ItemKind {
    Module(Module),
    Type(Type),
    Function(Function),
    Var(Var),
}

impl ItemKind {
    /// Whether this is a module.
    pub open spec fn spec_is_module(&self) -> bool {
        self is Module
    }

    /// Whether this is a module.
    #[verifier::when_used_as_spec(spec_is_module)]
    pub fn is_module(&self) -> (r: bool)
        ensures
            r == self.spec_is_module(),
    {
        match self {
            ItemKind::Module(_) => true,
            _ => false,
        }
    }

    /// Whether this is a type.
    pub open spec fn spec_is_type(&self) -> bool {
        self is Type
    }

    /// Whether this is a type.
    #[verifier::when_used_as_spec(spec_is_type)]
    pub fn is_type(&self) -> (r: bool)
        ensures
            r == self.spec_is_type(),
    {
        match self {
            ItemKind::Type(_) => true,
            _ => false,
        }
    }

    /// The module, if this is one.
    pub fn as_module(&self) -> (r: Option<&Module>)
        ensures
            r is Some == self is Module,
            r is Some ==> *r->0 == self->Module_0,
    {
        match self {
            ItemKind::Module(m) => Some(m),
            _ => None,
        }
    }

    /// The type, if this is one.
    pub fn as_type(&self) -> (r: Option<&Type>)
        ensures
            r is Some == self is Type,
            r is Some ==> *r->0 == self->Type_0,
    {
        match self {
            ItemKind::Type(t) => Some(t),
            _ => None,
        }
    }

    /// The function, if this is one.
    pub fn as_function(&self) -> (r: Option<&Function>)
        ensures
            r is Some == self is Function,
            r is Some ==> *r->0 == self->Function_0,
    {
        match self {
            ItemKind::Function(f) => Some(f),
            _ => None,
        }
    }

    /// The variable, if this is one.
    pub fn as_var(&self) -> (r: Option<&Var>)
        ensures
            r is Some == self is Var,
            r is Some ==> *r->0 == self->Var_0,
    {
        match self {
            ItemKind::Var(v) => Some(v),
            _ => None,
        }
    }

    /// The type; the caller knows that this is one.
    pub fn expect_type(&self) -> (r: &Type)
        requires
            self is Type,
        ensures
            *r == self->Type_0,
    {
        match self {
            ItemKind::Type(t) => t,
            _ => vstd::pervasive::unreached(),
        }
    }

    /// The function; the caller knows that this is one.
    pub fn expect_function(&self) -> (r: &Function)
        requires
            self is Function,
        ensures
            *r == self->Function_0,
    {
        match self {
            ItemKind::Function(f) => f,
            _ => vstd::pervasive::unreached(),
        }
    }
}

} // verus!
