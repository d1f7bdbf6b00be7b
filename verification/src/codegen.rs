//! The step from parsing to code generation: the graph is checked once, and
//! the cells that the queries fill are set up.

use vstd::prelude::*;
use crate::context::Context;
use crate::graph::{
    edges_resolve, graph_ok, has_item, is_scope, item_at, item_ok, methods_are_functions,
    name_target, names_itself, reaches_root,
};
use crate::item::Item;
use crate::item_kind::ItemKind;
use crate::naming::{alias_target_of, assigned_set, cached_names_ok, local_ids_ok};
use crate::traversal::{edges_of, item_edges};
use crate::ty::{ItemId, TypeKind};

verus! {

fn repeat<T: Copy>(value: T, n: usize) -> (r: Vec<T>)
    ensures
        r@.len() == n,
        forall|i: int| 0 <= i < n ==> r@[i] == value,
{
    let mut out: Vec<T> = Vec::new();
    let mut i: usize = 0;
    while i < n
        invariant
            i <= n,
            out@.len() == i,
            forall|k: int| 0 <= k < i ==> out@[k] == value,
        decreases n - i,
    {
        out.push(value);
        i += 1;
    }
    out
}

fn no_names(n: usize) -> (r: Vec<Option<String>>)
    ensures
        r@.len() == n,
        forall|i: int| 0 <= i < n ==> r@[i] is None,
{
    let mut out: Vec<Option<String>> = Vec::new();
    let mut i: usize = 0;
    while i < n
        invariant
            i <= n,
            out@.len() == i,
            forall|k: int| 0 <= k < i ==> out@[k] is None,
        decreases n - i,
    {
        out.push(None);
        i += 1;
    }
    out
}

impl Context {
    /// Whether the parent links lead from `id` to the root.
    pub fn reaches_root(&self, id: ItemId) -> (r: bool)
        ensures
            r == reaches_root(self.items@, self.root_module, id, self.items@.len()),
    {
        let mut cur = id;
        let mut fuel: usize = self.items.len();
        loop
            invariant
                reaches_root(self.items@, self.root_module, id, self.items@.len()) == reaches_root(
                    self.items@,
                    self.root_module,
                    cur,
                    fuel as nat,
                ),
            decreases fuel,
        {
            let item = match self.resolve_item_fallible(cur) {
                Some(item) => item,
                None => {
                    return false;
                },
            };
            if cur == self.root_module {
                return true;
            }
            if fuel == 0 || item.parent_id == cur {
                return false;
            }
            cur = item.parent_id;
            fuel = fuel - 1;
        }
    }

    fn check_scope(&self, id: ItemId) -> (r: bool)
        requires
            self.has(id),
        ensures
            r == {
                let item = self.item(id);
                &&& id != self.root_module ==> item.parent_id != id && self.has(item.parent_id)
                    && is_scope(self.item(item.parent_id))
                &&& id == self.root_module ==> item.parent_id == id && item.kind is Module
            },
    {
        let item = self.resolve_item(id);
        if id == self.root_module {
            item.parent_id == id && item.kind.is_module()
        } else if item.parent_id == id {
            false
        } else {
            match self.resolve_item_fallible(item.parent_id) {
                None => false,
                Some(parent) => match &parent.kind {
                    ItemKind::Module(_) => true,
                    ItemKind::Type(ty) => ty.is_comp(),
                    _ => false,
                },
            }
        }
    }

    fn check_name_target(&self, id: ItemId) -> (r: bool)
        ensures
            r == names_itself(self.items@, name_target(self.items@, id)),
    {
        let target = Item::name_target(self, id);
        match self.resolve_item_fallible(target) {
            None => false,
            Some(item) => item.annotations.use_instead_of.is_some() || alias_target_of(
                item,
            ).is_none(),
        }
    }

    fn check_edges(&self, id: ItemId) -> (r: bool)
        requires
            self.has(id),
        ensures
            r == edges_resolve(self.items@, self.item(id)),
    {
        let item = self.resolve_item(id);
        let edges = edges_of(item);
        let mut k: usize = 0;
        while k < edges.len()
            invariant
                k <= edges@.len(),
                edges@ == item_edges(self.item(id)),
                forall|j: int| 0 <= j < k ==> has_item(self.items@, (#[trigger] edges@[j]).to),
            decreases edges@.len() - k,
        {
            if self.resolve_item_fallible(edges[k].to).is_none() {
                return false;
            }
            k += 1;
        }
        true
    }

    fn check_methods(&self, id: ItemId) -> (r: bool)
        requires
            self.has(id),
        ensures
            r == methods_are_functions(self.items@, self.item(id)),
    {
        let item = self.resolve_item(id);
        let ci = match &item.kind {
            ItemKind::Type(ty) => match &ty.kind {
                TypeKind::Comp(ci) => ci,
                _ => {
                    return true;
                },
            },
            _ => {
                return true;
            },
        };
        let mut k: usize = 0;
        while k < ci.methods.len()
            invariant
                k <= ci.methods@.len(),
                self.has(id),
                self.item(id).kind is Type,
                self.item(id).kind->Type_0.kind == TypeKind::Comp(*ci),
                forall|j: int|
                    0 <= j < k ==> has_item(self.items@, (#[trigger] ci.methods@[j]).signature)
                        && item_at(self.items@, ci.methods@[j].signature).kind is Function,
            decreases ci.methods@.len() - k,
        {
            let method = ci.methods[k];
            assert(method == ci.methods@[k as int]);
            match self.resolve_item_fallible(method.signature) {
                None => {
                    return false;
                },
                Some(function) => {
                    if function.func_name().is_none() {
                        return false;
                    }
                },
            }
            k += 1;
        }
        true
    }

    /// Whether the item `id` is as an item of a finished graph must be.
    pub fn check_item(&self, id: ItemId) -> (r: bool)
        requires
            self.has(id),
            self.item(id).id == id,
        ensures
            r == item_ok(self.items@, self.root_module, id),
    {
        let item = self.resolve_item(id);
        let path_ok = match &item.annotations.use_instead_of {
            Some(path) => path.len() > 0,
            None => true,
        };
        let resolved = match &item.kind {
            ItemKind::Type(ty) => !ty.is_unresolved_ref(),
            _ => true,
        };
        path_ok && resolved && self.reaches_root(id) && self.check_scope(id)
            && self.check_name_target(id) && self.check_edges(id) && self.check_methods(id)
    }

    /// Whether the graph is finished: whether every item is as `item_ok` says.
    pub fn check_graph(&self) -> (r: bool)
        requires
            self.wf(),
        ensures
            r == graph_ok(self.items@, self.root_module),
    {
        reveal(graph_ok);
        if self.items.len() == usize::MAX {
            return false;
        }
        let mut i: usize = 0;
        while i < self.items.len()
            invariant
                i <= self.items@.len(),
                self.wf(),
                forall|j: int|
                    0 <= j < i && (#[trigger] self.items@[j]) is Some ==> item_ok(
                        self.items@,
                        self.root_module,
                        ItemId(j as usize),
                    ),
            decreases self.items@.len() - i,
        {
            if self.items[i].is_some() {
                assert(self.items@[i as int] is Some);
                if !self.check_item(ItemId(i)) {
                    proof {
                        reveal(graph_ok);
                    }
                    return false;
                }
            }
            i += 1;
        }
        true
    }

    /// Ends the parse and begins the code-generation phase, if the graph is
    /// finished; otherwise the context stays as it is.
    ///
    /// In the new phase no local identifier is handed out yet, no canonical
    /// name is cached, and no derive query is under way.
    pub fn begin_codegen(&mut self) -> (ok: bool)
        requires
            old(self).wf(),
            !old(self).codegen,
        ensures
            final(self).wf(),
            ok == graph_ok(old(self).items@, old(self).root_module),
            final(self).codegen == ok,
            !ok ==> *final(self) == *old(self),
            ok ==> *final(self) == (Context {
                codegen: true,
                local_ids: final(self).local_ids,
                next_child_local_ids: final(self).next_child_local_ids,
                canonical_names: final(self).canonical_names,
                derive_debug_guard: final(self).derive_debug_guard,
                derive_copy_guard: final(self).derive_copy_guard,
                derive_default_guard: final(self).derive_default_guard,
                ..*old(self)
            }),
            ok ==> forall|i: int|
                0 <= i < final(self).items@.len()
                    ==> (#[trigger] final(self).local_ids@[i]) is None,
            ok ==> forall|i: int|
                0 <= i < final(self).items@.len() ==> (
                #[trigger] final(self).next_child_local_ids@[i]) == 1,
            ok ==> forall|i: int|
                0 <= i < final(self).items@.len() ==> (#[trigger] final(self).canonical_names@[i])
                    is None,
    {
        if !self.check_graph() {
            return false;
        }
        let n = self.items.len();
        self.local_ids = repeat(None, n);
        self.next_child_local_ids = repeat(1usize, n);
        self.canonical_names = no_names(n);
        self.derive_debug_guard = repeat(false, n);
        self.derive_copy_guard = repeat(false, n);
        self.derive_default_guard = repeat(false, n);
        self.codegen = true;
        proof {
            reveal(local_ids_ok);
            reveal(cached_names_ok);
            assert(assigned_set(self.local_id_state()) =~= Set::<int>::empty());
        }
        true
    }
}

} // verus!
