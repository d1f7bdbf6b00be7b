//! Tracing: which edges out of an item a walk over the graph follows.

use vstd::prelude::*;
use crate::context::{Context, Graph};
use crate::graph::item_at;
use crate::item::Item;
use crate::item_kind::ItemKind;
use crate::naming::LocalIds;
use crate::policy::{is_hidden_spec, is_opaque_spec};
use crate::stable::after_queries;
use crate::traversal::{edges_of, item_edges, Edge, EdgeKind};
use crate::ty::ItemId;

verus! {

/// The edges that a walk follows out of `id`.
///
/// - A hidden item has none.
/// - A type has the edges of its kind, unless the item is opaque; a resolved
///   type reference has its edge even then, and is not asked whether it is
///   opaque.
/// - A function has the edge to its signature, a variable the edge to its
///   type.
/// - A module has none: the edges to its children would make everything in a
///   namespace reachable from anything in it.
pub open spec fn trace_spec(g: Graph, st: LocalIds, id: ItemId) -> (LocalIds, Seq<Edge>) {
    let item = item_at(g.items, id);
    let (st1, hidden) = is_hidden_spec(g, st, id);
    if hidden {
        (st1, Seq::empty())
    } else {
        match item.kind {
            ItemKind::Type(ty) => if ty.spec_should_be_traced_unconditionally() {
                (st1, item_edges(item))
            } else {
                let (st2, opaque) = is_opaque_spec(g, st1, id);
                (
                    st2,
                    if opaque {
                        Seq::empty()
                    } else {
                        item_edges(item)
                    },
                )
            },
            _ => (st1, item_edges(item)),
        }
    }
}

/// The edges from the module `parent` to those of the first `n` items that
/// are its children, in the order of their identifiers.
pub open spec fn child_edges(items: Seq<Option<Item>>, parent: ItemId, n: nat) -> Seq<Edge>
    decreases n,
{
    if n == 0 {
        Seq::empty()
    } else {
        let i = (n - 1) as int;
        let rest = child_edges(items, parent, (n - 1) as nat);
        if i < items.len() && items[i] is Some && items[i]->0.parent_id == parent && i != parent.0 {
            rest.push(Edge { to: ItemId(i as usize), kind: EdgeKind::ModuleChild })
        } else {
            rest
        }
    }
}

/// The edges from `id` to its children, if `id` is a module: one to each
/// other item whose parent it is. Any other item has none.
pub open spec fn module_edges_spec(items: Seq<Option<Item>>, id: ItemId) -> Seq<Edge> {
    if item_at(items, id).kind is Module {
        child_edges(items, id, items.len())
    } else {
        Seq::empty()
    }
}

impl Item {
    /// The edges that a walk follows out of `id`, in order.
    pub fn trace(ctx: &mut Context, id: ItemId) -> (r: Vec<Edge>)
        requires
            old(ctx).wf_but_guards(),
            old(ctx).codegen,
            old(ctx).has(id),
        ensures
            final(ctx).wf_but_guards(),
            after_queries(old(ctx), final(ctx)),
            (final(ctx).local_id_state(), r@) == trace_spec(
                old(ctx).graph(),
                old(ctx).local_id_state(),
                id,
            ),
            *final(ctx) == (Context {
                local_ids: final(ctx).local_ids,
                next_child_local_ids: final(ctx).next_child_local_ids,
                ..*old(ctx)
            }),
    {
        if Item::is_hidden(ctx, id) {
            return Vec::new();
        }
        let unconditional = match &ctx.resolve_item(id).kind {
            ItemKind::Type(ty) => ty.should_be_traced_unconditionally(),
            _ => true,
        };
        if !unconditional {
            if Item::is_opaque(ctx, id) {
                return Vec::new();
            }
        }
        edges_of(ctx.resolve_item(id))
    }

    /// The edges from the module `id` to its children; these are kept apart
    /// from the edges that a walk follows.
    pub fn module_edges(ctx: &Context, id: ItemId) -> (r: Vec<Edge>)
        requires
            ctx.has(id),
        ensures
            r@ == module_edges_spec(ctx.items@, id),
    {
        let mut out: Vec<Edge> = Vec::new();
        if !ctx.resolve_item(id).kind.is_module() {
            return out;
        }
        let mut i: usize = 0;
        while i < ctx.items.len()
            invariant
                i <= ctx.items@.len(),
                out@ == child_edges(ctx.items@, id, i as nat),
            decreases ctx.items@.len() - i,
        {
            let is_child = match &ctx.items[i] {
                Some(item) => item.parent_id == id && i != id.0,
                None => false,
            };
            if is_child {
                out.push(Edge { to: ItemId(i), kind: EdgeKind::ModuleChild });
            }
            i += 1;
        }
        out
    }
}

} // verus!
