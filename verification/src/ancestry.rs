//! Walks up the parent links: the ancestors of an item, and whether an item
//! is generated at top level.

use vstd::prelude::*;
use crate::context::Context;
use crate::graph::{ancestors, ancestors_from, has_item, item_at};
use crate::item::Item;
use crate::ty::ItemId;

verus! {

/// A walk over an item and its ancestors, up to and without the root module.
///
/// The walk is bounded by the size of the table, so it ends on every graph,
/// also on one whose parent links form a cycle.
#[derive(Debug)]
pub struct ItemAncestorsIter<'a> {
    pub item: ItemId,
    pub ctx: &'a Context,
    pub fuel: usize,
}

impl<'a> ItemAncestorsIter<'a> {
    /// What the walk has yet to yield.
    pub open spec fn remaining(&self) -> Seq<ItemId> {
        ancestors_from(self.ctx.items@, self.item, self.fuel as nat)
    }

    /// The walk that starts at `item`.
    pub fn new(ctx: &'a Context, item: ItemId) -> (r: Self)
        ensures
            r.ctx == ctx,
            r.remaining() == ancestors(ctx.items@, item),
    {
        ItemAncestorsIter { item, ctx, fuel: ctx.items.len() }
    }

    /// The next item of the walk, or `None` at its end.
    pub fn next(&mut self) -> (r: Option<ItemId>)
        ensures
            final(self).ctx == old(self).ctx,
            old(self).remaining().len() == 0 ==> r is None && final(self).remaining().len() == 0,
            old(self).remaining().len() > 0 ==> r == Some(old(self).remaining()[0]),
            old(self).remaining().len() > 0 ==> final(self).remaining() == old(
                self,
            ).remaining().skip(1),
    {
        if self.fuel == 0 {
            return None;
        }
        match self.ctx.resolve_item_fallible(self.item) {
            None => None,
            Some(item) => {
                if item.parent_id == self.item {
                    None
                } else {
                    let id = self.item;
                    self.item = item.parent_id;
                    self.fuel = self.fuel - 1;
                    assert(old(self).remaining() == seq![id] + self.remaining());
                    assert(old(self).remaining().skip(1) =~= self.remaining());
                    Some(id)
                }
            },
        }
    }
}

/// What has ancestors: an item, or the identifier of one.
pub trait ItemAncestors {
    /// The identifier that the walk starts at.
    spec fn start(&self) -> ItemId;

    /// A walk over this item and its ancestors, up to and without the root.
    fn ancestors<'a>(&self, ctx: &'a Context) -> (r: ItemAncestorsIter<'a>)
        ensures
            r.ctx == ctx,
            r.remaining() == ancestors(ctx.items@, self.start()),
    ;
}

impl ItemAncestors for ItemId {
    open spec fn start(&self) -> ItemId {
        *self
    }

    fn ancestors<'a>(&self, ctx: &'a Context) -> (r: ItemAncestorsIter<'a>) {
        ItemAncestorsIter::new(ctx, *self)
    }
}

impl ItemAncestors for Item {
    open spec fn start(&self) -> ItemId {
        self.id
    }

    fn ancestors<'a>(&self, ctx: &'a Context) -> (r: ItemAncestorsIter<'a>) {
        ItemAncestorsIter::new(ctx, self.id)
    }
}

/// Whether the parent links lead from `parent` to the root through modules
/// alone, and with namespaces enabled in no step at all.
pub open spec fn toplevel_from(
    items: Seq<Option<Item>>,
    root: ItemId,
    namespaces: bool,
    parent: ItemId,
    fuel: nat,
) -> bool
    decreases fuel,
{
    has_item(items, parent) && (item_at(items, parent).id == root || (!namespaces && item_at(
        items,
        parent,
    ).kind is Module && fuel > 0 && toplevel_from(
        items,
        root,
        namespaces,
        item_at(items, parent).parent_id,
        (fuel - 1) as nat,
    )))
}

/// Whether `item` is generated at top level rather than by its parent.
///
/// With namespaces enabled the root is the only module at top level, and
/// another item is at top level if and only if its parent is the root. With
/// namespaces disabled modules are transparent: an item is at top level if
/// and only if only modules stand between it and the root.
pub open spec fn is_toplevel_spec(
    items: Seq<Option<Item>>,
    root: ItemId,
    namespaces: bool,
    item: Item,
) -> bool {
    !(namespaces && item.kind is Module && item.id != root) && toplevel_from(
        items,
        root,
        namespaces,
        item.parent_id,
        items.len(),
    )
}

impl Context {
    /// The ancestors of `id`, itself first, up to and without the root.
    pub fn ancestors_of(&self, id: ItemId) -> (r: Vec<ItemId>)
        ensures
            r@ == ancestors(self.items@, id),
    {
        let mut out: Vec<ItemId> = Vec::new();
        let mut walk = ItemAncestorsIter::new(self, id);
        loop
            invariant
                walk.ctx == self,
                ancestors(self.items@, id) == out@ + walk.remaining(),
            decreases walk.remaining().len(),
        {
            let ghost before = walk.remaining();
            match walk.next() {
                Some(a) => {
                    assert(before == seq![a] + before.skip(1));
                    out.push(a);
                    assert(out@ + walk.remaining() =~= ancestors(self.items@, id));
                },
                None => {
                    assert(out@ + walk.remaining() =~= out@);
                    return out;
                },
            }
        }
    }
}

impl Item {
    /// Whether this item is generated at top level rather than by its parent.
    pub fn is_toplevel(&self, ctx: &Context) -> (r: bool)
        ensures
            r == is_toplevel_spec(
                ctx.items@,
                ctx.root_module,
                ctx.options.enable_cxx_namespaces,
                *self,
            ),
    {
        let namespaces = ctx.options.enable_cxx_namespaces;
        if namespaces && self.kind.is_module() && self.id != ctx.root_module {
            return false;
        }
        let mut parent = self.parent_id;
        let mut fuel: usize = ctx.items.len();
        loop
            invariant
                namespaces == ctx.options.enable_cxx_namespaces,
                !(namespaces && self.kind is Module && self.id != ctx.root_module),
                toplevel_from(
                    ctx.items@,
                    ctx.root_module,
                    namespaces,
                    self.parent_id,
                    ctx.items@.len(),
                )
                    == toplevel_from(ctx.items@, ctx.root_module, namespaces, parent, fuel as nat),
            decreases fuel,
        {
            let parent_item = match ctx.resolve_item_fallible(parent) {
                Some(item) => item,
                None => {
                    return false;
                },
            };
            if parent_item.id == ctx.root_module {
                assert(toplevel_from(
                    ctx.items@,
                    ctx.root_module,
                    namespaces,
                    parent,
                    fuel as nat,
                ));
                return true;
            } else if namespaces || !parent_item.kind.is_module() {
                return false;
            }
            if fuel == 0 {
                return false;
            }
            parent = parent_item.parent_id;
            fuel = fuel - 1;
        }
    }
}

} // verus!
