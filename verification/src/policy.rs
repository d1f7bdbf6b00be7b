//! Which items are hidden and which are opaque: by annotation, by kind, by
//! the patterns of the configuration, or because another item replaces them.

use vstd::prelude::*;
use crate::canonical::{canonical_path_spec, ItemCanonicalPath};
use crate::context::{Context, Graph};
use crate::graph::item_at;
use crate::item::Item;
use crate::naming::LocalIds;
use crate::pattern::{regex_set_is_match, regex_set_match};
use crate::stable::after_queries;
use crate::text::{join, join_spec, views};
use crate::ty::ItemId;

verus! {

/// Each pattern anchored at both ends, so that it has to match a whole path.
pub open spec fn anchored(patterns: Seq<Seq<char>>) -> Seq<Seq<char>> {
    Seq::new(patterns.len(), |i: int| seq!['^'] + patterns[i] + seq!['$'])
}

/// Whether one of `patterns` matches the whole of `path` below the root, its
/// segments joined by `::`. A set that does not compile matches nothing.
pub open spec fn path_matches(patterns: Seq<Seq<char>>, path: Seq<Seq<char>>) -> bool {
    regex_set_match(anchored(patterns), join_spec(path.skip(1), "::"@)) == Some(true)
}

/// The item that was registered last as the replacement of `path`.
pub open spec fn replacement_for(table: Seq<(Vec<String>, ItemId)>, path: Seq<Seq<char>>) -> Option<
    ItemId,
>
    decreases table.len(),
{
    if table.len() == 0 {
        None
    } else if views(table.last().0@) == path {
        Some(table.last().1)
    } else {
        replacement_for(table.drop_last(), path)
    }
}

/// Whether the item `id` at `path` is hidden by name: a pattern of the
/// hidden set matches its path, or another item replaces what is at `path`.
pub open spec fn hidden_by_name_spec(g: Graph, path: Seq<Seq<char>>, id: ItemId) -> bool {
    path_matches(views(g.options.hidden_types@), path) || (replacement_for(g.replacements, path)
        is Some && replacement_for(g.replacements, path)->0 != id)
}

/// Whether `id` is hidden: by its annotation, or else by name. The path is
/// only computed where the annotation does not decide.
pub open spec fn is_hidden_spec(g: Graph, st: LocalIds, id: ItemId) -> (LocalIds, bool) {
    if item_at(g.items, id).annotations.hidden {
        (st, true)
    } else {
        let (st1, path) = canonical_path_spec(g, st, id);
        (st1, hidden_by_name_spec(g, path, id))
    }
}

/// Whether `id` is opaque: by its annotation, or as a type that is a blob, or
/// else because a pattern of the opaque set matches its path. The path is only
/// computed where neither of the first two decides.
pub open spec fn is_opaque_spec(g: Graph, st: LocalIds, id: ItemId) -> (LocalIds, bool) {
    let item = item_at(g.items, id);
    if item.annotations.opaque || (item.kind is Type && item.kind->Type_0.spec_is_opaque()) {
        (st, true)
    } else {
        let (st1, path) = canonical_path_spec(g, st, id);
        (st1, path_matches(views(g.options.opaque_types@), path))
    }
}

fn anchor_all(patterns: &Vec<String>) -> (r: Vec<String>)
    ensures
        views(r@) == anchored(views(patterns@)),
{
    let mut out: Vec<String> = Vec::new();
    let mut i: usize = 0;
    proof {
        reveal_strlit("^");
        reveal_strlit("$");
    }
    while i < patterns.len()
        invariant
            i <= patterns@.len(),
            "^"@ == seq!['^'],
            "$"@ == seq!['$'],
            views(out@) == anchored(views(patterns@)).take(i as int),
        decreases patterns@.len() - i,
    {
        let mut p = String::from_str("^");
        p.append(patterns[i].as_str());
        p.append("$");
        let ghost before = views(out@);
        out.push(p);
        assert(views(out@) =~= before.push(p@));
        i += 1;
        assert(views(out@) =~= anchored(views(patterns@)).take(i as int));
    }
    assert(anchored(views(patterns@)).take(i as int) =~= anchored(views(patterns@)));
    out
}

fn below_root(path: &Vec<String>) -> (r: String)
    requires
        path@.len() > 0,
    ensures
        r@ == join_spec(views(path@).skip(1), "::"@),
{
    let mut below: Vec<String> = Vec::new();
    let mut i: usize = 1;
    while i < path.len()
        invariant
            1 <= i <= path@.len(),
            views(below@) == views(path@).subrange(1, i as int),
        decreases path@.len() - i,
    {
        let ghost before = views(below@);
        let segment = path[i].clone();
        assert(segment@ == views(path@)[i as int]);
        below.push(segment);
        assert(views(below@) =~= before.push(segment@));
        i += 1;
        assert(views(below@) =~= views(path@).subrange(1, i as int));
    }
    assert(views(path@).subrange(1, path@.len() as int) =~= views(path@).skip(1));
    join(&below, "::")
}

fn matches_path(patterns: &Vec<String>, path: &Vec<String>) -> (r: bool)
    requires
        path@.len() > 0,
    ensures
        r == path_matches(views(patterns@), views(path@)),
{
    let anchored = anchor_all(patterns);
    let text = below_root(path);
    match regex_set_is_match(&anchored, text.as_str()) {
        Some(m) => m,
        None => false,
    }
}

fn same_path(a: &Vec<String>, b: &Vec<String>) -> (r: bool)
    ensures
        r == (views(a@) == views(b@)),
{
    if a.len() != b.len() {
        assert(views(a@).len() != views(b@).len());
        return false;
    }
    let mut i: usize = 0;
    while i < a.len()
        invariant
            i <= a@.len(),
            a@.len() == b@.len(),
            forall|k: int| 0 <= k < i ==> a@[k]@ == b@[k]@,
        decreases a@.len() - i,
    {
        if a[i] != b[i] {
            assert(views(a@)[i as int] != views(b@)[i as int]);
            return false;
        }
        i += 1;
    }
    assert(views(a@) =~= views(b@));
    true
}

impl Context {
    /// Whether the item `id` at `path` is hidden by name.
    pub fn hidden_by_name(&self, path: &Vec<String>, id: ItemId) -> (r: bool)
        requires
            self.codegen,
            path@.len() > 0,
        ensures
            r == hidden_by_name_spec(self.graph(), views(path@), id),
    {
        if matches_path(&self.options.hidden_types, path) {
            return true;
        }
        let mut i: usize = self.replacements.len();
        assert(self.replacements@.take(i as int) =~= self.replacements@);
        while i > 0
            invariant
                i <= self.replacements@.len(),
                !path_matches(views(self.options.hidden_types@), views(path@)),
                replacement_for(self.replacements@, views(path@)) == replacement_for(
                    self.replacements@.take(i as int),
                    views(path@),
                ),
            decreases i,
        {
            i -= 1;
            assert(self.replacements@.take(i + 1).drop_last() =~= self.replacements@.take(
                i as int,
            ));
            if same_path(&self.replacements[i].0, path) {
                return self.replacements[i].1 != id;
            }
        }
        false
    }

    /// Whether a pattern of the opaque set matches `path`.
    pub fn opaque_by_name(&self, path: &Vec<String>) -> (r: bool)
        requires
            self.codegen,
            path@.len() > 0,
        ensures
            r == path_matches(views(self.options.opaque_types@), views(path@)),
    {
        matches_path(&self.options.opaque_types, path)
    }
}

impl Item {
    /// Whether `id` is left out of the bindings.
    pub fn is_hidden(ctx: &mut Context, id: ItemId) -> (r: bool)
        requires
            old(ctx).wf_but_guards(),
            old(ctx).codegen,
            old(ctx).has(id),
        ensures
            final(ctx).wf_but_guards(),
            after_queries(old(ctx), final(ctx)),
            (final(ctx).local_id_state(), r) == is_hidden_spec(
                old(ctx).graph(),
                old(ctx).local_id_state(),
                id,
            ),
            *final(ctx) == (Context {
                local_ids: final(ctx).local_ids,
                next_child_local_ids: final(ctx).next_child_local_ids,
                ..*old(ctx)
            }),
    {
        if ctx.resolve_item(id).annotations.hidden {
            return true;
        }
        let path = id.canonical_path(ctx);
        ctx.hidden_by_name(&path, id)
    }

    /// Whether `id` is generated as a blob.
    pub fn is_opaque(ctx: &mut Context, id: ItemId) -> (r: bool)
        requires
            old(ctx).wf_but_guards(),
            old(ctx).codegen,
            old(ctx).has(id),
        ensures
            final(ctx).wf_but_guards(),
            after_queries(old(ctx), final(ctx)),
            (final(ctx).local_id_state(), r) == is_opaque_spec(
                old(ctx).graph(),
                old(ctx).local_id_state(),
                id,
            ),
            *final(ctx) == (Context {
                local_ids: final(ctx).local_ids,
                next_child_local_ids: final(ctx).next_child_local_ids,
                ..*old(ctx)
            }),
    {
        let item = ctx.resolve_item(id);
        if item.annotations.opaque {
            return true;
        }
        let blob = match item.as_type() {
            Some(ty) => ty.is_opaque(),
            None => false,
        };
        if blob {
            return true;
        }
        let path = id.canonical_path(ctx);
        ctx.opaque_by_name(&path)
    }
}

} // verus!
