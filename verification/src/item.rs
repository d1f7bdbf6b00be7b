//! The item: one node of the graph.

use vstd::prelude::*;
use crate::annotations::Annotations;
use crate::item_kind::{Function, ItemKind, Module};
use crate::ty::{ItemId, Type};

verus! {

/// A node of the graph: a module, a type, a function or a variable, with its
/// identity, its lexical parent and what its documentation comment carried.
///
/// The per-item caches (local id, canonical name, the guards of the derive
/// queries) are cells that the context keeps beside the item, so that an item
/// never changes once it is in the graph.
#[derive(Debug, Clone)]
pub struct Item {
    pub id: ItemId,
    pub comment: Option<String>,
    pub annotations: Annotations,
    pub parent_id: ItemId,
    pub kind: ItemKind,
}

impl AsRef<ItemId> for Item {
    /// This item's identifier.
    fn as_ref(&self) -> (r: &ItemId)
        ensures
            *r == self.id,
    {
        &self.id
    }
}

impl Item {
    /// An item made of its parts; without annotations it gets the empty bag.
    ///
    /// Only a module may be its own parent.
    pub fn new(
        id: ItemId,
        comment: Option<String>,
        annotations: Option<Annotations>,
        parent_id: ItemId,
        kind: ItemKind,
    ) -> (r: Self)
        requires
            id != parent_id || kind is Module,
        ensures
            r.id == id,
            r.comment == comment,
            r.parent_id == parent_id,
            r.kind == kind,
            annotations is Some ==> r.annotations == annotations->0,
            annotations is None ==> !r.annotations.hidden && !r.annotations.opaque
                && r.annotations.use_instead_of is None && r.annotations.other@.len() == 0,
    {
        let annotations = match annotations {
            Some(a) => a,
            None => Annotations::new(),
        };
        Item { id, comment, annotations, parent_id, kind }
    }

    /// This item's identifier.
    pub fn id(&self) -> (r: ItemId)
        ensures
            r == self.id,
    {
        self.id
    }

    /// The identifier of this item's parent; the root module is its own.
    pub fn parent_id(&self) -> (r: ItemId)
        ensures
            r == self.parent_id,
    {
        self.parent_id
    }

    /// Moves this item under another parent, so that a replacement is
    /// generated in the module of what it replaces.
    pub fn set_parent_for_replacement(&mut self, id: ItemId)
        ensures
            final(self).parent_id == id,
            final(self).id == old(self).id,
            final(self).comment == old(self).comment,
            final(self).annotations == old(self).annotations,
            final(self).kind == old(self).kind,
    {
        self.parent_id = id;
    }

    /// This item's documentation comment, if it has one.
    pub fn comment(&self) -> (r: Option<&str>)
        ensures
            r is Some == self.comment is Some,
            r is Some ==> r->0@ == self.comment->0@,
    {
        match &self.comment {
            Some(c) => Some(c.as_str()),
            None => None,
        }
    }

    /// What kind of item this is.
    pub fn kind(&self) -> (r: &ItemKind)
        ensures
            *r == self.kind,
    {
        &self.kind
    }

    /// Mutable access to this item's kind.
    pub fn kind_mut(&mut self) -> (r: &mut ItemKind)
        ensures
            *r == old(self).kind,
            final(self).kind == *final(r),
            final(self).id == old(self).id,
            final(self).comment == old(self).comment,
            final(self).annotations == old(self).annotations,
            final(self).parent_id == old(self).parent_id,
    {
        &mut self.kind
    }

    /// The type that this item holds; the caller knows that it is one.
    pub fn expect_type(&self) -> (r: &Type)
        requires
            self.kind is Type,
        ensures
            *r == self.kind->Type_0,
    {
        self.kind.expect_type()
    }

    /// The type that this item holds, if it is one.
    pub fn as_type(&self) -> (r: Option<&Type>)
        ensures
            r is Some == self.kind is Type,
            r is Some ==> *r->0 == self.kind->Type_0,
    {
        self.kind.as_type()
    }

    /// The function that this item holds; the caller knows that it is one.
    pub fn expect_function(&self) -> (r: &Function)
        requires
            self.kind is Function,
        ensures
            *r == self.kind->Function_0,
    {
        self.kind.expect_function()
    }

    /// Whether this item is a module.
    pub open spec fn spec_is_module(&self) -> bool {
        self.kind is Module
    }

    /// Whether this item is a module.
    #[verifier::when_used_as_spec(spec_is_module)]
    pub fn is_module(&self) -> (r: bool)
        ensures
            r == self.spec_is_module(),
    {
        match self.kind {
            ItemKind::Module(_) => true,
            _ => false,
        }
    }

    /// This item's annotations.
    pub fn annotations(&self) -> (r: &Annotations)
        ensures
            *r == self.annotations,
    {
        &self.annotations
    }

    /// Whether this item is a reference to another type, resolved or not.
    pub open spec fn spec_is_type_ref(&self) -> bool {
        self.kind is Type && self.kind->Type_0.spec_is_type_ref()
    }

    /// Whether this item is a reference to another type, resolved or not.
    #[verifier::when_used_as_spec(spec_is_type_ref)]
    pub fn is_type_ref(&self) -> (r: bool)
        ensures
            r == self.spec_is_type_ref(),
    {
        match self.as_type() {
            Some(ty) => ty.is_type_ref(),
            None => false,
        }
    }

    /// Whether this item is a variable.
    pub open spec fn spec_is_var(&self) -> bool {
        self.kind is Var
    }

    /// Whether this item is a variable.
    #[verifier::when_used_as_spec(spec_is_var)]
    pub fn is_var(&self) -> (r: bool)
        ensures
            r == self.spec_is_var(),
    {
        match self.kind {
            ItemKind::Var(_) => true,
            _ => false,
        }
    }

    /// The name of this item if it is a function.
    pub fn func_name(&self) -> (r: Option<&String>)
        ensures
            r is Some == self.kind is Function,
            r is Some ==> *r->0 == self.kind->Function_0.name,
    {
        match &self.kind {
            ItemKind::Function(f) => Some(f.name()),
            _ => None,
        }
    }

    /// The module that this item holds, if it is one.
    pub fn as_module(&self) -> (r: Option<&Module>)
        ensures
            r is Some == self.kind is Module,
            r is Some ==> *r->0 == self.kind->Module_0,
    {
        match &self.kind {
            ItemKind::Module(module) => Some(module),
            _ => None,
        }
    }

    /// Mutable access to the module that this item holds, if it is one.
    pub fn as_module_mut(&mut self) -> (r: Option<&mut Module>)
        ensures
            r is Some == old(self).kind is Module,
            r is Some ==> *r->0 == old(self).kind->Module_0 && final(self).kind
                == ItemKind::Module(*final(r->0)),
            r is None ==> final(self).kind == old(self).kind,
            final(self).id == old(self).id,
            final(self).comment == old(self).comment,
            final(self).annotations == old(self).annotations,
            final(self).parent_id == old(self).parent_id,
    {
        match &mut self.kind {
            ItemKind::Module(module) => Some(module),
            _ => None,
        }
    }
}

} // verus!
