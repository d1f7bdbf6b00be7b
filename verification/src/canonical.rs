//! The canonical name of an item, cached, and its canonical path.

use vstd::prelude::*;
use crate::context::{Context, Graph};
use crate::graph::{
    ancestors, has_item, item_at, lemma_ancestors_end_at_root, lemma_ancestors_resolve,
    name_target,
};
use crate::item::Item;
use crate::naming::{
    cached_names_ok, is_name_of, lemma_item_ok, names_within_namespaces, real_canonical_name_spec,
    reversed, LocalIds, NameOptions,
};
use crate::stable::after_queries;
use crate::text::{join, join_spec, views};
use crate::ty::ItemId;

verus! {

/// The canonical name of `id`: the cached one where there is one, else the
/// one that the naming rules give now, within namespaces where namespaces
/// are emitted as modules or left out of names.
pub open spec fn canonical_name_spec(ctx: &Context, id: ItemId) -> (LocalIds, Seq<char>) {
    match ctx.canonical_names@[id.0 as int] {
        Some(name) => (ctx.local_id_state(), name@),
        None => real_canonical_name_spec(
            ctx.items@,
            ctx.root_module,
            ctx.options.enable_cxx_namespaces,
            ctx.local_id_state(),
            id,
            names_within_namespaces(ctx),
        ),
    }
}

/// Whether `id` shows in the path of `target`: the target itself does, and of
/// its ancestors the modules do, inline namespaces only where the
/// configuration keeps them.
pub open spec fn in_path(
    items: Seq<Option<Item>>,
    target: ItemId,
    conservative: bool,
    id: ItemId,
) -> bool {
    id == target || (item_at(items, id).kind is Module && (!item_at(
        items,
        id,
    ).kind->Module_0.spec_is_inline() || conservative))
}

/// The names of those of `chain` that show in the path of `target`, in the
/// order of `chain`: each is the canonical name, within its namespace, of the
/// item that it goes by.
pub open spec fn path_names(
    items: Seq<Option<Item>>,
    root: ItemId,
    namespaces: bool,
    conservative: bool,
    st: LocalIds,
    chain: Seq<ItemId>,
    target: ItemId,
) -> (LocalIds, Seq<Seq<char>>)
    decreases chain.len(),
{
    if chain.len() == 0 {
        (st, Seq::empty())
    } else if in_path(items, target, conservative, chain[0]) {
        let (st1, name) = real_canonical_name_spec(
            items,
            root,
            namespaces,
            st,
            name_target(items, chain[0]),
            true,
        );
        let (st2, rest) = path_names(
            items,
            root,
            namespaces,
            conservative,
            st1,
            chain.skip(1),
            target,
        );
        (st2, seq![name] + rest)
    } else {
        path_names(items, root, namespaces, conservative, st, chain.skip(1), target)
    }
}

/// The canonical path of `id`, from the root down.
///
/// - A replacement: the name of the root, then the path that it replaces.
/// - Otherwise: the item that `id` goes by and the modules around it, the
///   root last, each by its name within its namespace; then reversed.
pub open spec fn canonical_path_spec(g: Graph, st: LocalIds, id: ItemId) -> (
    LocalIds,
    Seq<Seq<char>>,
) {
    let item = item_at(g.items, id);
    if item.annotations.use_instead_of is Some {
        let (st1, root_name) = real_canonical_name_spec(
            g.items,
            g.root,
            g.options.enable_cxx_namespaces,
            st,
            g.root,
            false,
        );
        (st1, seq![root_name] + views(item.annotations.use_instead_of->0@))
    } else {
        let t = name_target(g.items, id);
        let (st1, names) = path_names(
            g.items,
            g.root,
            g.options.enable_cxx_namespaces,
            g.options.conservative_inline_namespaces,
            st,
            ancestors(g.items, t).push(g.root),
            t,
        );
        (st1, names.reverse())
    }
}

/// The path as the configuration wants it: the whole path with namespaces
/// enabled; else its last segment alone where namespaces are left out of
/// names; else the segments below the root joined by `_`, as one segment.
pub open spec fn namespace_aware_path(
    namespaces: bool,
    disable_name_namespacing: bool,
    path: Seq<Seq<char>>,
) -> Seq<Seq<char>> {
    if namespaces {
        path
    } else if disable_name_namespacing {
        seq![path.last()]
    } else {
        seq![join_spec(path.skip(1), "_"@)]
    }
}

/// A path that holds the target of its walk has at least one segment.
pub proof fn lemma_path_names_nonempty(
    items: Seq<Option<Item>>,
    root: ItemId,
    namespaces: bool,
    conservative: bool,
    st: LocalIds,
    chain: Seq<ItemId>,
    target: ItemId,
)
    requires
        chain.contains(target),
    ensures
        path_names(items, root, namespaces, conservative, st, chain, target).1.len() > 0,
    decreases chain.len(),
{
    if chain[0] != target {
        let k = choose|k: int| 0 <= k < chain.len() && chain[k] == target;
        assert(chain.skip(1)[k - 1] == target);
        if in_path(items, target, conservative, chain[0]) {
            let st1 = real_canonical_name_spec(
                items,
                root,
                namespaces,
                st,
                name_target(items, chain[0]),
                true,
            ).0;
            lemma_path_names_nonempty(
                items,
                root,
                namespaces,
                conservative,
                st1,
                chain.skip(1),
                target,
            );
        } else {
            lemma_path_names_nonempty(
                items,
                root,
                namespaces,
                conservative,
                st,
                chain.skip(1),
                target,
            );
        }
    }
}

/// What has a canonical name: an item, or the identifier of one.
pub trait ItemCanonicalName {
    /// The identifier of the item that is named.
    spec fn named_item(&self) -> ItemId;

    /// The canonical name of this item: a name that the target language
    /// accepts. It is computed once and cached; every later call returns the
    /// cached name and changes nothing.
    fn canonical_name(&self, ctx: &mut Context) -> (r: String)
        requires
            old(ctx).wf_but_guards(),
            old(ctx).codegen,
            old(ctx).has(self.named_item()),
        ensures
            final(ctx).wf_but_guards(),
            after_queries(old(ctx), final(ctx)),
            (final(ctx).local_id_state(), r@) == canonical_name_spec(old(ctx), self.named_item()),
            final(ctx).canonical_names@[self.named_item().0 as int] is Some,
            final(ctx).canonical_names@[self.named_item().0 as int]->0@ == r@,
            old(ctx).canonical_names@[self.named_item().0 as int] is Some ==> *final(ctx) == *old(
                ctx,
            ),
            final(ctx).canonical_names@ =~= old(ctx).canonical_names@.update(
                self.named_item().0 as int,
                final(ctx).canonical_names@[self.named_item().0 as int],
            ),
            *final(ctx) == (Context {
                local_ids: final(ctx).local_ids,
                next_child_local_ids: final(ctx).next_child_local_ids,
                canonical_names: final(ctx).canonical_names,
                ..*old(ctx)
            }),
    ;
}

impl ItemCanonicalName for ItemId {
    open spec fn named_item(&self) -> ItemId {
        *self
    }

    fn canonical_name(&self, ctx: &mut Context) -> (r: String) {
        proof {
            reveal(cached_names_ok);
        }
        match &ctx.canonical_names[self.0] {
            Some(name) => {
                return name.clone();
            },
            None => {},
        }
        let mut opt = NameOptions::new(*self);
        if ctx.options.enable_cxx_namespaces || ctx.options.disable_name_namespacing {
            opt.within_namespaces = true;
        }
        let name = opt.get(ctx);
        ctx.canonical_names[self.0] = Some(name.clone());
        proof {
            let st = old(ctx).local_id_state();
            assert(real_canonical_name_spec(
                ctx.items@,
                ctx.root_module,
                ctx.options.enable_cxx_namespaces,
                st,
                *self,
                names_within_namespaces(ctx),
            ).1 == name@);
            assert(is_name_of(
                ctx.items@,
                ctx.root_module,
                ctx.options.enable_cxx_namespaces,
                names_within_namespaces(ctx),
                *self,
                name@,
            ));
        }
        name
    }
}

impl ItemCanonicalName for Item {
    open spec fn named_item(&self) -> ItemId {
        self.id
    }

    fn canonical_name(&self, ctx: &mut Context) -> (r: String) {
        self.id.canonical_name(ctx)
    }
}

/// The names of those of `chain` that show in the path of `target`.
fn path_names_of(ctx: &mut Context, chain: &Vec<ItemId>, target: ItemId) -> (r: Vec<String>)
    requires
        old(ctx).wf_but_guards(),
        old(ctx).codegen,
        forall|k: int| 0 <= k < chain@.len() ==> old(ctx).has(#[trigger] chain@[k]),
    ensures
        final(ctx).wf_but_guards(),
        (final(ctx).local_id_state(), views(r@)) == path_names(
            old(ctx).items@,
            old(ctx).root_module,
            old(ctx).options.enable_cxx_namespaces,
            old(ctx).options.conservative_inline_namespaces,
            old(ctx).local_id_state(),
            chain@,
            target,
        ),
        *final(ctx) == (Context {
            local_ids: final(ctx).local_ids,
            next_child_local_ids: final(ctx).next_child_local_ids,
            ..*old(ctx)
        }),
{
    let mut out: Vec<String> = Vec::new();
    let mut i: usize = 0;
    let ghost items = ctx.items@;
    let ghost root = ctx.root_module;
    let ghost ns = ctx.options.enable_cxx_namespaces;
    let ghost cons = ctx.options.conservative_inline_namespaces;
    let ghost st0 = ctx.local_id_state();
    assert(chain@.skip(0) =~= chain@);
    assert(views(out@) + path_names(items, root, ns, cons, st0, chain@, target).1 =~= path_names(
        items,
        root,
        ns,
        cons,
        st0,
        chain@,
        target,
    ).1);
    while i < chain.len()
        invariant
            i <= chain@.len(),
            ctx.wf_but_guards(),
            ctx.codegen,
            items == ctx.items@,
            root == ctx.root_module,
            ns == ctx.options.enable_cxx_namespaces,
            cons == ctx.options.conservative_inline_namespaces,
            st0 == old(ctx).local_id_state(),
            forall|k: int| 0 <= k < chain@.len() ==> has_item(items, #[trigger] chain@[k]),
            *ctx == (Context {
                local_ids: ctx.local_ids,
                next_child_local_ids: ctx.next_child_local_ids,
                ..*old(ctx)
            }),
            path_names(items, root, ns, cons, st0, chain@, target).0 == path_names(
                items,
                root,
                ns,
                cons,
                ctx.local_id_state(),
                chain@.skip(i as int),
                target,
            ).0,
            path_names(items, root, ns, cons, st0, chain@, target).1 == views(out@) + path_names(
                items,
                root,
                ns,
                cons,
                ctx.local_id_state(),
                chain@.skip(i as int),
                target,
            ).1,
        decreases chain@.len() - i,
    {
        let id = chain[i];
        let ghost rest = chain@.skip(i as int);
        assert(rest[0] == id);
        assert(rest.skip(1) =~= chain@.skip(i + 1));
        let shows = id == target || match &ctx.resolve_item(id).kind {
            crate::item_kind::ItemKind::Module(module) => !module.is_inline()
                || ctx.options.conservative_inline_namespaces,
            _ => false,
        };
        if shows {
            proof {
                lemma_item_ok(ctx, id);
            }
            let named = Item::name_target(ctx, id);
            let mut opt = NameOptions::new(named);
            opt.within_namespaces = true;
            let name = opt.get(ctx);
            let ghost before = views(out@);
            out.push(name);
            assert(views(out@) =~= before + seq![name@]);
            proof {
                let tail = path_names(
                    items,
                    root,
                    ns,
                    cons,
                    ctx.local_id_state(),
                    chain@.skip(i + 1),
                    target,
                ).1;
                assert(views(out@) + tail =~= before + (seq![name@] + tail));
            }
        }
        i += 1;
    }
    assert(chain@.skip(i as int).len() == 0);
    assert(views(out@) + Seq::<Seq<char>>::empty() =~= views(out@));
    out
}

/// What has a canonical path: an item, or the identifier of one.
pub trait ItemCanonicalPath {
    /// The identifier of the item whose path is asked for.
    spec fn path_item(&self) -> ItemId;

    /// The path as the configuration wants it: see [`namespace_aware_path`].
    fn namespace_aware_canonical_path(&self, ctx: &mut Context) -> (r: Vec<String>)
        requires
            old(ctx).wf_but_guards(),
            old(ctx).codegen,
            old(ctx).has(self.path_item()),
        ensures
            final(ctx).wf_but_guards(),
            after_queries(old(ctx), final(ctx)),
            final(ctx).local_id_state() == canonical_path_spec(
                old(ctx).graph(),
                old(ctx).local_id_state(),
                self.path_item(),
            ).0,
            views(r@) == namespace_aware_path(
                old(ctx).options.enable_cxx_namespaces,
                old(ctx).options.disable_name_namespacing,
                canonical_path_spec(
                    old(ctx).graph(),
                    old(ctx).local_id_state(),
                    self.path_item(),
                ).1,
            ),
            *final(ctx) == (Context {
                local_ids: final(ctx).local_ids,
                next_child_local_ids: final(ctx).next_child_local_ids,
                ..*old(ctx)
            }),
    ;

    /// The canonical path of this item, from the root down; it has at least
    /// one segment.
    fn canonical_path(&self, ctx: &mut Context) -> (r: Vec<String>)
        requires
            old(ctx).wf_but_guards(),
            old(ctx).codegen,
            old(ctx).has(self.path_item()),
        ensures
            final(ctx).wf_but_guards(),
            after_queries(old(ctx), final(ctx)),
            (final(ctx).local_id_state(), views(r@)) == canonical_path_spec(
                old(ctx).graph(),
                old(ctx).local_id_state(),
                self.path_item(),
            ),
            r@.len() > 0,
            *final(ctx) == (Context {
                local_ids: final(ctx).local_ids,
                next_child_local_ids: final(ctx).next_child_local_ids,
                ..*old(ctx)
            }),
    ;
}

impl ItemCanonicalPath for ItemId {
    open spec fn path_item(&self) -> ItemId {
        *self
    }

    fn namespace_aware_canonical_path(&self, ctx: &mut Context) -> (r: Vec<String>) {
        let path = self.canonical_path(ctx);
        if ctx.options.enable_cxx_namespaces {
            return path;
        }
        let mut out: Vec<String> = Vec::new();
        if ctx.options.disable_name_namespacing {
            out.push(path[path.len() - 1].clone());
            assert(views(out@) =~= seq![views(path@).last()]);
            return out;
        }
        let mut below: Vec<String> = Vec::new();
        let mut i: usize = 1;
        while i < path.len()
            invariant
                1 <= i <= path@.len(),
                views(below@) == views(path@).subrange(1, i as int),
            decreases path@.len() - i,
        {
            let ghost before = views(below@);
            let segment = path[i].clone();
            assert(segment@ == views(path@)[i as int]);
            below.push(segment);
            assert(views(below@) =~= before.push(segment@));
            i += 1;
            assert(views(below@) =~= views(path@).subrange(1, i as int));
        }
        assert(views(path@).subrange(1, path@.len() as int) =~= views(path@).skip(1));
        out.push(join(&below, "_"));
        assert(views(out@) =~= seq![join_spec(views(path@).skip(1), "_"@)]);
        out
    }

    fn canonical_path(&self, ctx: &mut Context) -> (r: Vec<String>) {
        proof {
            lemma_item_ok(ctx, *self);
        }
        if ctx.resolve_item(*self).annotations.use_instead_of.is_some() {
            let opt = NameOptions::new(ctx.root_module);
            let root_name = opt.get(ctx);
            let mut out: Vec<String> = Vec::new();
            out.push(root_name);
            let path = match &ctx.resolve_item(*self).annotations.use_instead_of {
                Some(path) => path,
                None => vstd::pervasive::unreached(),
            };
            let mut i: usize = 0;
            while i < path.len()
                invariant
                    i <= path@.len(),
                    views(out@) == seq![root_name@] + views(path@).take(i as int),
                decreases path@.len() - i,
            {
                let ghost before = views(out@);
                let segment = path[i].clone();
                assert(segment@ == views(path@)[i as int]);
                out.push(segment);
                assert(views(out@) =~= before.push(segment@));
                i += 1;
                assert(views(out@) =~= seq![root_name@] + views(path@).take(i as int));
            }
            assert(views(path@).take(path@.len() as int) =~= views(path@));
            return out;
        }
        let t = Item::name_target(ctx, *self);
        let mut chain = ctx.ancestors_of(t);
        proof {
            lemma_ancestors_resolve(ctx.items@, t, ctx.items@.len() as nat);
            lemma_item_ok(ctx, t);
            lemma_ancestors_end_at_root(
                ctx.items@,
                ctx.root_module,
                t,
                ctx.items@.len() as nat,
            );
        }
        chain.push(ctx.root_module);
        proof {
            let c = chain@;
            if ancestors(ctx.items@, t).len() == 0 {
                assert(c[0] == t);
            } else {
                assert(c[0] == t);
            }
            assert(c.contains(t));
            lemma_path_names_nonempty(
                ctx.items@,
                ctx.root_module,
                ctx.options.enable_cxx_namespaces,
                ctx.options.conservative_inline_namespaces,
                ctx.local_id_state(),
                c,
                t,
            );
        }
        let names = path_names_of(ctx, &chain, t);
        let path = reversed(names);
        assert(views(path@).len() == path@.len());
        assert(views(names@).reverse().len() == views(names@).len());
        path
    }
}

impl ItemCanonicalPath for Item {
    open spec fn path_item(&self) -> ItemId {
        self.id
    }

    fn namespace_aware_canonical_path(&self, ctx: &mut Context) -> (r: Vec<String>) {
        self.id.namespace_aware_canonical_path(ctx)
    }

    fn canonical_path(&self, ctx: &mut Context) -> (r: Vec<String>) {
        self.id.canonical_path(ctx)
    }
}

} // verus!
