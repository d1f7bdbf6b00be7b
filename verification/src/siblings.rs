//! Siblings are told apart: two anonymous records or enumerations of one
//! scope, and two overloads of one record, get different canonical names.

use vstd::prelude::*;
use crate::context::Context;
use crate::graph::{
    ancestors, as_named, has_item, item_at, lemma_ancestors_resolve, name_target, overload_index,
};
use crate::item::Item;
use crate::laws::law_overloads_differ;
use crate::mangle::{has_symbol_char, is_symbol, lemma_mangle_tells_apart};
use crate::naming::{
    anonymous_prefix, base_name_spec, claim_local_id, given_name, lemma_claim_local_id,
    lemma_item_ok, local_ids_ok, real_canonical_name_spec, scope_names, uses_local_id, LocalIds,
};
use crate::stable::{
    all_exist, fits, lemma_base_name_stays, lemma_scope_names_stay, lemma_targets_exist,
    targets_exist,
};
use crate::text::{
    decimal, is_digit, join_spec, lemma_decimal_digits, lemma_decimal_injective,
    lemma_decimal_nonempty,
};
use crate::ty::ItemId;

verus! {

/// Naming an item keeps the local identifiers consistent with the graph.
pub proof fn lemma_base_name_ok(items: Seq<Option<Item>>, st: LocalIds, id: ItemId)
    requires
        items.len() < usize::MAX,
        local_ids_ok(items, st),
        has_item(items, id),
        has_item(items, item_at(items, id).parent_id),
    ensures
        local_ids_ok(items, base_name_spec(items, st, id).0),
{
    if given_name(items, id) is None && uses_local_id(item_at(items, id)) {
        lemma_claim_local_id(items, st, id);
    }
}

/// Naming the scopes of an item keeps the local identifiers consistent with
/// the graph.
pub proof fn lemma_scope_names_ok(
    items: Seq<Option<Item>>,
    root: ItemId,
    st: LocalIds,
    chain: Seq<ItemId>,
    within_namespaces: bool,
)
    requires
        items.len() < usize::MAX,
        local_ids_ok(items, st),
        targets_exist(items),
        all_exist(items, chain),
    ensures
        local_ids_ok(items, scope_names(items, root, st, chain, within_namespaces).0),
    decreases chain.len(),
{
    if chain.len() > 0 {
        let tail = chain.skip(1);
        assert forall|k: int| 0 <= k < tail.len() implies has_item(items, #[trigger] tail[k]) by {
            assert(tail[k] == chain[k + 1]);
        }
        if chain[0] == root {
            lemma_scope_names_ok(items, root, st, tail, within_namespaces);
        } else if within_namespaces && item_at(items, chain[0]).kind is Module {
        } else {
            let t = name_target(items, chain[0]);
            assert(has_item(items, chain[0]));
            lemma_base_name_ok(items, st, t);
            lemma_scope_names_ok(
                items,
                root,
                base_name_spec(items, st, t).0,
                tail,
                within_namespaces,
            );
        }
    }
}

/// What stands before the last of the parts of a joined name: nothing where
/// it is the only part, and the parts before it with a `_` otherwise.
pub open spec fn joined_before(scopes: Seq<Seq<char>>) -> Seq<char> {
    if scopes.len() == 0 {
        Seq::empty()
    } else {
        join_spec(scopes, "_"@) + seq!['_']
    }
}

/// A joined name is what stands before its last part, and the last part.
pub proof fn lemma_join_last(scopes: Seq<Seq<char>>, last: Seq<char>)
    ensures
        join_spec(scopes.push(last), "_"@) == joined_before(scopes) + last,
{
    reveal_strlit("_");
    assert("_"@ =~= seq!['_']);
    let all = scopes.push(last);
    assert(all.drop_last() =~= scopes);
    assert(all.last() == last);
    if scopes.len() == 0 {
        assert(all[0] == last);
        assert(Seq::<char>::empty() + last =~= last);
    }
}

/// Digits are none of the characters that mangling replaces, and no `_`.
pub proof fn lemma_digits_are_plain(n: nat)
    ensures
        !has_symbol_char(decimal(n)),
        decimal(n).len() > 0,
        is_digit(decimal(n).last()),
        forall|other: Seq<char>| (#[trigger] (other + seq!['_'])) != decimal(n),
{
    let d = decimal(n);
    lemma_decimal_digits(n);
    lemma_decimal_nonempty(n);
    assert forall|c: char| is_symbol(c) implies !d.contains(c) by {
        if d.contains(c) {
            let i = choose|i: int| 0 <= i < d.len() && d[i] == c;
            assert(is_digit(d[i]));
        }
    }
    assert forall|other: Seq<char>| (#[trigger] (other + seq!['_'])) != d by {
        if other + seq!['_'] == d {
            assert((other + seq!['_']).last() == '_');
            assert(is_digit(d[d.len() - 1]));
        }
    }
}

/// Two anonymous records or enumerations in one scope get different
/// canonical names: whatever local identifiers were handed out before, the
/// canonical name of the one and, asked for next, that of the other differ.
pub proof fn law_anonymous_siblings_differ_by_name(
    ctx: &Context,
    st: LocalIds,
    i: ItemId,
    j: ItemId,
    within_namespaces: bool,
)
    requires
        ctx.wf(),
        ctx.codegen,
        local_ids_ok(ctx.items@, st),
        ctx.has(i),
        ctx.has(j),
        i != j,
        ctx.item(i).parent_id == ctx.item(j).parent_id,
        uses_local_id(ctx.item(i)),
        uses_local_id(ctx.item(j)),
        given_name(ctx.items@, i) is None,
        given_name(ctx.items@, j) is None,
    ensures
        ({
            let (st1, first) = real_canonical_name_spec(
                ctx.items@,
                ctx.root_module,
                ctx.options.enable_cxx_namespaces,
                st,
                i,
                within_namespaces,
            );
            let (st2, second) = real_canonical_name_spec(
                ctx.items@,
                ctx.root_module,
                ctx.options.enable_cxx_namespaces,
                st1,
                j,
                within_namespaces,
            );
            first != second
        }),
{
    let items = ctx.items@;
    let root = ctx.root_module;
    let parent = ctx.item(i).parent_id;
    lemma_item_ok(ctx, i);
    lemma_item_ok(ctx, j);
    lemma_targets_exist(items, root);
    assert(fits(items, st)) by {
        reveal(local_ids_ok);
    }
    assert(name_target(items, i) == i);
    assert(name_target(items, j) == j);
    assert(as_named(items, i) is None);
    assert(as_named(items, j) is None);
    let chain = ancestors(items, parent);
    lemma_ancestors_resolve(items, parent, items.len());
    assert(all_exist(items, chain));
    // The first name.
    let (claimed, base1) = base_name_spec(items, st, i);
    let k1 = claim_local_id(items, st, i).1;
    lemma_base_name_ok(items, st, i);
    assert(fits(items, claimed)) by {
        reveal(local_ids_ok);
    }
    let (walked, names) = scope_names(items, root, claimed, chain, within_namespaces);
    lemma_scope_names_ok(items, root, claimed, chain, within_namespaces);
    lemma_scope_names_stay(items, root, claimed, walked, chain, within_namespaces);
    assert(claimed.assigned[i.0 as int] == Some(k1));
    assert(walked.assigned[i.0 as int] == Some(k1));
    // The second name.
    let (again, base2) = base_name_spec(items, walked, j);
    let k2 = claim_local_id(items, walked, j).1;
    assert(k1 != k2) by {
        reveal(local_ids_ok);
        assert(items[i.0 as int] is Some && items[j.0 as int] is Some);
    }
    assert(fits(items, walked)) by {
        reveal(local_ids_ok);
    }
    lemma_base_name_stays(items, walked, again, j);
    lemma_scope_names_stay(items, root, claimed, again, chain, within_namespaces);
    assert(scope_names(items, root, again, chain, within_namespaces) == (again, names));
    let prefix = anonymous_prefix(ctx.item(i));
    assert(anonymous_prefix(ctx.item(j)) == prefix);
    let d1 = decimal(k1 as nat);
    let d2 = decimal(k2 as nat);
    assert(base1 == prefix + d1);
    assert(base2 == prefix + d2);
    lemma_digits_are_plain(k1 as nat);
    lemma_digits_are_plain(k2 as nat);
    let scopes = names.reverse();
    lemma_join_last(scopes, base1);
    lemma_join_last(scopes, base2);
    let begin = joined_before(scopes) + prefix;
    assert(joined_before(scopes) + base1 =~= begin + d1);
    assert(joined_before(scopes) + base2 =~= begin + d2);
    if d1 == d2 {
        lemma_decimal_injective(k1 as nat, k2 as nat);
    }
    lemma_mangle_tells_apart(begin, d1, d2);
}

/// What the overload index adds to the name of a function.
pub open spec fn overload_suffix(index: nat) -> Seq<char> {
    if index > 0 {
        decimal(index)
    } else {
        Seq::empty()
    }
}

/// Two functions of one name get different canonical names if they are two
/// methods of one record, or two of its constructors: whatever local
/// identifiers were handed out before, the canonical name of the one and,
/// asked for next, that of the other differ.
pub proof fn law_overloads_differ_by_name(
    ctx: &Context,
    st: LocalIds,
    i: ItemId,
    j: ItemId,
    a: int,
    b: int,
    within_namespaces: bool,
)
    requires
        ctx.wf(),
        ctx.codegen,
        local_ids_ok(ctx.items@, st),
        ctx.has(i),
        ctx.has(j),
        i != j,
        ctx.item(i).parent_id == ctx.item(j).parent_id,
        ctx.item(i).kind is Function,
        ctx.item(j).kind is Function,
        ctx.item(i).kind->Function_0.name@ == ctx.item(j).kind->Function_0.name@,
        ctx.item(i).annotations.use_instead_of is None,
        ctx.item(j).annotations.use_instead_of is None,
        ctx.item(ctx.item(i).parent_id).kind is Type,
        ctx.item(ctx.item(i).parent_id).kind->Type_0.kind is Comp,
        ({
            let ci = ctx.item(ctx.item(i).parent_id).kind->Type_0.kind->Comp_0;
            ||| {
                &&& 0 <= a < ci.constructors@.len() && ci.constructors@[a] == i
                &&& 0 <= b < ci.constructors@.len() && ci.constructors@[b] == j
            }
            ||| {
                &&& !ci.constructors@.contains(i) && !ci.constructors@.contains(j)
                &&& 0 <= a < ci.methods@.len() && ci.methods@[a].signature == i
                &&& 0 <= b < ci.methods@.len() && ci.methods@[b].signature == j
            }
        }),
    ensures
        ({
            let (st1, first) = real_canonical_name_spec(
                ctx.items@,
                ctx.root_module,
                ctx.options.enable_cxx_namespaces,
                st,
                i,
                within_namespaces,
            );
            let (st2, second) = real_canonical_name_spec(
                ctx.items@,
                ctx.root_module,
                ctx.options.enable_cxx_namespaces,
                st1,
                j,
                within_namespaces,
            );
            first != second
        }),
{
    let items = ctx.items@;
    let root = ctx.root_module;
    let parent = ctx.item(i).parent_id;
    let name = ctx.item(i).kind->Function_0.name@;
    law_overloads_differ(ctx, i, j, a, b);
    lemma_item_ok(ctx, i);
    lemma_item_ok(ctx, j);
    lemma_targets_exist(items, root);
    assert(fits(items, st)) by {
        reveal(local_ids_ok);
    }
    assert(name_target(items, i) == i);
    assert(name_target(items, j) == j);
    assert(as_named(items, i) is None);
    assert(as_named(items, j) is None);
    let chain = ancestors(items, parent);
    lemma_ancestors_resolve(items, parent, items.len());
    assert(all_exist(items, chain));
    let p = overload_index(items, i)->0;
    let q = overload_index(items, j)->0;
    let base1 = name + overload_suffix(p);
    let base2 = name + overload_suffix(q);
    assert(name + Seq::<char>::empty() =~= name);
    assert(base_name_spec(items, st, i) == (st, base1));
    let (walked, names) = scope_names(items, root, st, chain, within_namespaces);
    lemma_scope_names_stay(items, root, st, walked, chain, within_namespaces);
    assert(base_name_spec(items, walked, j) == (walked, base2));
    assert(scope_names(items, root, walked, chain, within_namespaces) == (walked, names));
    let scopes = names.reverse();
    let e1 = overload_suffix(p);
    let e2 = overload_suffix(q);
    lemma_digits_are_plain(p);
    lemma_digits_are_plain(q);
    assert(!has_symbol_char(Seq::<char>::empty()));
    assert(e1 != e2) by {
        if e1 == e2 {
            if p > 0 && q > 0 {
                lemma_decimal_injective(p, q);
            }
        }
    }
    assert(e1 + seq!['_'] != e2) by {
        assert((e1 + seq!['_']).len() > 0);
    }
    assert(e2 + seq!['_'] != e1) by {
        assert((e2 + seq!['_']).len() > 0);
    }
    let first = real_canonical_name_spec(
        items,
        root,
        ctx.options.enable_cxx_namespaces,
        st,
        i,
        within_namespaces,
    ).1;
    let second = real_canonical_name_spec(
        items,
        root,
        ctx.options.enable_cxx_namespaces,
        walked,
        j,
        within_namespaces,
    ).1;
    if base1.len() > 0 && base2.len() > 0 {
        lemma_join_last(scopes, base1);
        lemma_join_last(scopes, base2);
        let begin = joined_before(scopes) + name;
        assert(joined_before(scopes) + base1 =~= begin + e1);
        assert(joined_before(scopes) + base2 =~= begin + e2);
        lemma_mangle_tells_apart(begin, e1, e2);
    } else {
        // The name is empty, and one of the two has no index to show.
        reveal_strlit("_");
        assert("_"@ =~= seq!['_']);
        assert(name.len() == 0);
        let whole = join_spec(scopes, "_"@);
        let shown = if base1.len() > 0 {
            e1
        } else {
            e2
        };
        let index = if base1.len() > 0 {
            p
        } else {
            q
        };
        assert(shown == decimal(index));
        assert(Seq::<char>::empty() + shown =~= shown);
        lemma_join_last(scopes, shown);
        let none = Seq::<char>::empty();
        assert(whole + none =~= whole);
        if scopes.len() == 0 {
            assert(whole =~= none);
            assert(none + shown =~= shown);
            if base1.len() > 0 {
                assert(base1 =~= shown);
                lemma_mangle_tells_apart(none, shown, none);
            } else {
                assert(base2 =~= shown);
                lemma_mangle_tells_apart(none, none, shown);
            }
        } else {
            let end = seq!['_'] + shown;
            assert(joined_before(scopes) + shown =~= whole + end);
            lemma_symbols_of_underscore(shown);
            assert(end.len() >= 2);
            assert(none + seq!['_'] != end) by {
                assert((none + seq!['_']).len() == 1);
            }
            assert(end + seq!['_'] != none) by {
                assert((end + seq!['_']).len() > 0);
            }
            if base1.len() > 0 {
                assert(base1 =~= shown);
                lemma_mangle_tells_apart(whole, end, none);
            } else {
                assert(base2 =~= shown);
                lemma_mangle_tells_apart(whole, none, end);
            }
        }
    }
}

/// A `_` before a name adds none of the characters that mangling replaces.
pub proof fn lemma_symbols_of_underscore(name: Seq<char>)
    requires
        !has_symbol_char(name),
    ensures
        !has_symbol_char(seq!['_'] + name),
{
    crate::mangle::lemma_symbols_of_both(seq!['_'], name);
    assert forall|c: char| is_symbol(c) implies !seq!['_'].contains(c) by {
        if seq!['_'].contains(c) {
            let i = choose|i: int| 0 <= i < seq!['_'].len() && seq!['_'][i] == c;
            assert(seq!['_'][0] == '_');
        }
    }
}

} // verus!
