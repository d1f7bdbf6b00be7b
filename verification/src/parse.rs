//! From declarations to items: the outcomes of a parse step, what every step
//! leaves as it was, and the dispatch over cursors.

use vstd::prelude::*;
use vstd::string::*;
use crate::clang::{Cursor, CursorId, CursorKind, TranslationUnit};
use crate::context::{lookup, Context};
use crate::decode::{cannot_decode, function_kind, is_function_cursor, shape_of};
use crate::from_ty::{
    carries, failed_afresh, needs_decoding, parsed_as_owed, parsed_refers, settled_afresh,
};
use crate::item::Item;
use crate::item_kind::{Function, ItemKind, Module, Var};
use crate::known::{appended, namespace_parsed};
use crate::text::{clone_optional, str_eq};
use crate::ty::ItemId;

verus! {

/// Why a cursor gave no item.
#[derive(Debug, Clone, Copy, PartialEq, Eq, Structural)]
pub enum ParseError {
    /// The cursor has to be taken apart: the caller visits its children.
    Recurse,
    /// The cursor is nothing to parse: the caller goes on with the next.
    Continue,
}

/// What an attempt to parse a cursor as one kind of item gave.
#[derive(Debug)]
pub enum ParseResult<T> {
    /// The item exists already.
    AlreadyResolved(ItemId),
    /// A new item, to be added, and the cursor that declares it.
    New(T, Option<CursorId>),
}

/// Whether `item` is a forward reference that awaits resolution.
pub open spec fn is_placeholder(item: Item) -> bool {
    item.kind is Type && item.kind->Type_0.kind is UnresolvedTypeRef
}

/// Whether `new` has an item at `i` that `old` had not.
pub open spec fn is_new(old: &Context, new: &Context, i: int) -> bool {
    0 <= i < new.items@.len() && new.items@[i] is Some && (i >= old.items@.len()
        || old.items@[i] is None)
}

/// Whether the state of the parse is the same in both: the root, the current
/// module, the types being parsed, the phase and the configuration.
pub open spec fn same_parse_state(a: &Context, b: &Context) -> bool {
    &&& a.root_module == b.root_module
    &&& a.current_module == b.current_module
    &&& a.currently_parsed_types@ == b.currently_parsed_types@
    &&& a.collected_typerefs == b.collected_typerefs
    &&& a.codegen == b.codegen
    &&& a.options == b.options
}

/// Whether the item that `new` has at `id`, if `old` had none there and
/// `new` has one, is a type.
pub open spec fn filled_with_type(old: &Context, new: &Context, id: ItemId) -> bool {
    !old.has(id) && new.has(id) ==> new.item(id).kind is Type
}

/// Whether the table of `new` came from that of `old` by parsing:
/// identifiers were only added; no item changed, and of the identifiers that
/// had no item only `own` may have got one; once the forward references are
/// collected, no item that was added is a placeholder; every item that was
/// added has a parent whose identifier was minted; and a namespace that has
/// its module keeps it.
pub open spec fn grows(old: &Context, new: &Context, own: Option<ItemId>) -> bool {
    &&& old.collected_typerefs == new.collected_typerefs
    &&& old.items@.len() <= new.items@.len()
    &&& forall|i: int|
        0 <= i < old.items@.len() && Some(ItemId(i as usize)) != own ==> #[trigger] new.items@[i]
            == old.items@[i]
    &&& forall|i: int|
        0 <= i < old.items@.len() && old.items@[i] is Some ==> #[trigger] new.items@[i]
            == old.items@[i]
    &&& old.collected_typerefs ==> forall|i: int|
        is_new(old, new, i) ==> !is_placeholder((#[trigger] new.items@[i])->0)
    &&& forall|i: int|
        is_new(old, new, i) ==> (#[trigger] new.items@[i])->0.parent_id.0 < new.items@.len()
    &&& forall|key: CursorId|
        lookup(old.modules@, key) is Some ==> #[trigger] lookup(new.modules@, key) == lookup(
            old.modules@,
            key,
        )
}

/// Whether `new` came from `old` by parsing: the table grew as [`grows`]
/// says, and the state of the parse is as it was.
pub open spec fn extends(old: &Context, new: &Context, own: Option<ItemId>) -> bool {
    same_parse_state(old, new) && grows(old, new, own)
}

/// Growth after growth is growth: the steps may each have filled `own`, or
/// an identifier that was minted after `a`.
pub proof fn lemma_grows_trans(
    a: &Context,
    b: &Context,
    c: &Context,
    first: Option<ItemId>,
    second: Option<ItemId>,
    own: Option<ItemId>,
)
    requires
        grows(a, b, first),
        grows(b, c, second),
        first is None || first == own || first.unwrap().0 >= a.items@.len(),
        second is None || second == own || second.unwrap().0 >= a.items@.len(),
    ensures
        grows(a, c, own),
{
    assert forall|i: int|
        0 <= i < a.items@.len() && Some(ItemId(i as usize)) != own implies #[trigger] c.items@[i]
        == a.items@[i] by {
        assert(b.items@[i] == a.items@[i]);
    }
    assert forall|i: int| 0 <= i < a.items@.len() && a.items@[i] is Some
        implies #[trigger] c.items@[i]
        == a.items@[i] by {
        assert(b.items@[i] == a.items@[i]);
    }
    if a.collected_typerefs {
        assert forall|i: int| is_new(a, c, i)
            implies !is_placeholder((#[trigger] c.items@[i])->0) by {
            if i < b.items@.len() && b.items@[i] is Some {
                assert(is_new(a, b, i));
                assert(c.items@[i] == b.items@[i]);
            } else {
                assert(is_new(b, c, i));
            }
        }
    }
    assert forall|i: int| is_new(a, c, i) implies (#[trigger] c.items@[i])->0.parent_id.0
        < c.items@.len() by {
        if i < b.items@.len() && b.items@[i] is Some {
            assert(is_new(a, b, i));
            assert(c.items@[i] == b.items@[i]);
        } else {
            assert(is_new(b, c, i));
        }
    }
    assert forall|key: CursorId| lookup(a.modules@, key) is Some implies #[trigger] lookup(
        c.modules@,
        key,
    ) == lookup(a.modules@, key) by {
        assert(lookup(b.modules@, key) == lookup(a.modules@, key));
    }
}

/// What a visit of a child tells the walk over its siblings.
#[derive(Debug, Clone, Copy, PartialEq, Eq, Structural)]
pub enum ChildVisit {
    /// Stop the walk.
    Break,
    /// Go on with the next sibling.
    Continue,
    /// Go on with the children of this child.
    Recurse,
}

/// Whether parsing may go on: the context is well formed and still in the
/// parse phase, and the links of the unit stay inside it.
pub open spec fn ready(ctx: &Context, tu: &TranslationUnit) -> bool {
    ctx.wf() && !ctx.codegen && tu.wf()
}

/// Whether the parent that the caller asks for, if any, was minted.
pub open spec fn minted(ctx: &Context, parent: Option<ItemId>) -> bool {
    parent is Some ==> parent.unwrap().0 < ctx.items@.len()
}

/// The parent of a new item: the one that the caller asks for, or else the
/// current module.
pub open spec fn relevant_parent(ctx: &Context, parent: Option<ItemId>) -> ItemId {
    match parent {
        Some(p) => p,
        None => ctx.current_module,
    }
}

/// The cursor whose type is parsed where `cursor` is parsed as a type: its
/// definition, or itself where it has none.
pub open spec fn applicable(tu: &TranslationUnit, cursor: CursorId) -> CursorId {
    match tu.cursor_at(cursor).definition {
        Some(d) => d,
        None => cursor,
    }
}

/// Whether a cursor is tried as a type at once: it is no namespace, no
/// function with a name and no variable with a name.
pub open spec fn tried_as_type(c: Cursor) -> bool {
    &&& c.kind != CursorKind::Namespace
    &&& !is_function_cursor(c.kind) || c.spelling@.len() == 0
    &&& c.kind != CursorKind::VarDecl || c.spelling@.len() == 0
}

/// Whether `item` is the function that the cursor `c` declares, under
/// `parent` and with the signature `signature`.
pub open spec fn is_parsed_function(
    item: Item,
    parent: ItemId,
    c: Cursor,
    signature: ItemId,
) -> bool {
    &&& item.parent_id == parent
    &&& item.kind is Function
    &&& item.kind->Function_0.name@ == c.spelling@
    &&& item.kind->Function_0.kind == function_kind(c.kind)
    &&& item.kind->Function_0.signature == signature
    &&& item.kind->Function_0.mangled_name is None
    &&& carries(item, c.raw_comment, c.annotations)
}

/// Whether `item` is the variable that the cursor `c` declares, under
/// `parent` and of the type `ty`.
pub open spec fn is_parsed_var(
    item: Item,
    parent: ItemId,
    c: Cursor,
    ty: ItemId,
    is_const: bool,
) -> bool {
    &&& item.parent_id == parent
    &&& item.kind is Var
    &&& item.kind->Var_0.name@ == c.spelling@
    &&& item.kind->Var_0.ty == ty
    &&& item.kind->Var_0.is_const == is_const
    &&& carries(item, c.raw_comment, c.annotations)
}

/// Whether `key` is the canonical cursor of a namespace at `cursor` or at
/// most `fuel` levels below it.
pub open spec fn namespace_below(
    tu: &TranslationUnit,
    cursor: CursorId,
    key: CursorId,
    fuel: nat,
) -> bool
    decreases fuel, 0nat, 0nat,
{
    ||| tu.cursor_at(cursor).kind == CursorKind::Namespace && tu.cursor_at(cursor).canonical
        == key
    ||| fuel > 0 && namespace_among(tu, tu.cursor_at(cursor).children@, key, (fuel - 1) as nat)
}

/// Whether `key` is the canonical cursor of a namespace at one of `cursors`
/// or at most `fuel` levels below one of them.
pub open spec fn namespace_among(
    tu: &TranslationUnit,
    cursors: Seq<CursorId>,
    key: CursorId,
    fuel: nat,
) -> bool
    decreases fuel, 1nat, cursors.len(),
{
    cursors.len() > 0 && (namespace_below(tu, cursors.last(), key, fuel) || namespace_among(
        tu,
        cursors.drop_last(),
        key,
        fuel,
    ))
}

/// A namespace below one of some cursors is among them.
pub proof fn lemma_namespace_among(
    tu: &TranslationUnit,
    cursors: Seq<CursorId>,
    k: int,
    key: CursorId,
    fuel: nat,
)
    requires
        0 <= k < cursors.len(),
        namespace_below(tu, cursors[k], key, fuel),
    ensures
        namespace_among(tu, cursors, key, fuel),
    decreases cursors.len(),
{
    if k < cursors.len() - 1 {
        assert(cursors.drop_last()[k] == cursors[k]);
        lemma_namespace_among(tu, cursors.drop_last(), k, key, fuel);
    }
}

/// A namespace that is found within some levels is found within more.
pub proof fn lemma_namespace_below_more(
    tu: &TranslationUnit,
    cursor: CursorId,
    key: CursorId,
    fuel: nat,
    more: nat,
)
    requires
        namespace_below(tu, cursor, key, fuel),
        fuel <= more,
    ensures
        namespace_below(tu, cursor, key, more),
    decreases fuel, 0nat, 0nat,
{
    let c = tu.cursor_at(cursor);
    if c.kind == CursorKind::Namespace && c.canonical == key {
    } else {
        lemma_namespace_among_more(
            tu,
            c.children@,
            key,
            (fuel - 1) as nat,
            (more - 1) as nat,
        );
    }
}

/// A namespace that is found among cursors within some levels is found
/// within more.
pub proof fn lemma_namespace_among_more(
    tu: &TranslationUnit,
    cursors: Seq<CursorId>,
    key: CursorId,
    fuel: nat,
    more: nat,
)
    requires
        namespace_among(tu, cursors, key, fuel),
        fuel <= more,
    ensures
        namespace_among(tu, cursors, key, more),
    decreases fuel, 1nat, cursors.len(),
{
    if namespace_below(tu, cursors.last(), key, fuel) {
        lemma_namespace_below_more(tu, cursors.last(), key, fuel, more);
    } else {
        lemma_namespace_among_more(tu, cursors.drop_last(), key, fuel, more);
    }
}

/// A namespace below a child of a cursor is below the cursor.
pub proof fn lemma_namespace_below_child(
    tu: &TranslationUnit,
    cursor: CursorId,
    k: int,
    key: CursorId,
    fuel: nat,
    more: nat,
)
    requires
        0 <= k < tu.cursor_at(cursor).children@.len(),
        namespace_below(tu, tu.cursor_at(cursor).children@[k], key, fuel),
        fuel < more,
    ensures
        namespace_below(tu, cursor, key, more),
{
    lemma_namespace_below_more(
        tu,
        tu.cursor_at(cursor).children@[k],
        key,
        fuel,
        (more - 1) as nat,
    );
    lemma_namespace_among(tu, tu.cursor_at(cursor).children@, k, key, (more - 1) as nat);
}

/// Whether the only namespaces that have a module in `new` and had none in
/// `old` are namespaces at `cursor` or at most `fuel` levels below it.
pub open spec fn binds_only_below(
    old: &Context,
    new: &Context,
    tu: &TranslationUnit,
    cursor: CursorId,
    fuel: nat,
) -> bool {
    forall|key: CursorId|
        lookup(old.modules@, key) is None && (#[trigger] lookup(new.modules@, key)) is Some
            ==> namespace_below(tu, cursor, key, fuel)
}

/// Whether a function is owed by the cursor: there is depth, the cursor is
/// that of a function with a name, and the type of the function has to be
/// decoded and has a shape.
pub open spec fn owes_function(
    ctx: &Context,
    tu: &TranslationUnit,
    cursor: CursorId,
    depth: usize,
) -> bool {
    let c = tu.cursor_at(cursor);
    &&& depth > 1
    &&& c.is_valid
    &&& is_function_cursor(c.kind)
    &&& c.spelling@.len() > 0
    &&& needs_decoding(ctx, tu, c.ty, cursor)
    &&& shape_of(tu, c.ty, cursor) is Some
}

/// Whether a variable is owed by the cursor: there is depth, the cursor is
/// that of a variable with a name, and the type of the variable has to be
/// decoded and has a shape.
pub open spec fn owes_var(
    ctx: &Context,
    tu: &TranslationUnit,
    cursor: CursorId,
    depth: usize,
) -> bool {
    let c = tu.cursor_at(cursor);
    &&& depth > 1
    &&& c.is_valid
    &&& c.kind == CursorKind::VarDecl
    &&& c.spelling@.len() > 0
    &&& needs_decoding(ctx, tu, c.ty, cursor)
    &&& shape_of(tu, c.ty, cursor) is Some
}

/// Whether a type is owed by the cursor: there is depth, the cursor is tried
/// as a type at once, and the type that it declares has to be decoded and
/// has a shape.
pub open spec fn owes_type(
    ctx: &Context,
    tu: &TranslationUnit,
    cursor: CursorId,
    depth: usize,
) -> bool {
    let a = applicable(tu, cursor);
    &&& depth > 1
    &&& tu.cursor_at(cursor).is_valid
    &&& tried_as_type(tu.cursor_at(cursor))
    &&& needs_decoding(ctx, tu, tu.cursor_at(a).ty, a)
    &&& shape_of(tu, tu.cursor_at(a).ty, a) is Some
}

/// Whether the parse of the cursor is decided without its children being
/// visited in its place: nothing is parsed, or the cursor is a namespace, or
/// an item is owed.
pub open spec fn parse_decided(
    ctx: &Context,
    tu: &TranslationUnit,
    cursor: CursorId,
    depth: usize,
) -> bool {
    ||| depth == 0
    ||| !tu.cursor_at(cursor).is_valid
    ||| tu.cursor_at(cursor).kind == CursorKind::Namespace
    ||| owes_function(ctx, tu, cursor, depth)
    ||| owes_var(ctx, tu, cursor, depth)
    ||| owes_type(ctx, tu, cursor, depth)
}

/// Whether the cursor is bound to be taken apart: there is depth, and it is
/// an unexposed declaration, such as a linkage specification, whose type
/// has to be decoded and cannot be.
pub open spec fn takes_apart(
    ctx: &Context,
    tu: &TranslationUnit,
    cursor: CursorId,
    depth: usize,
) -> bool {
    let a = applicable(tu, cursor);
    &&& depth > 1
    &&& tu.cursor_at(cursor).is_valid
    &&& tu.cursor_at(cursor).kind == CursorKind::UnexposedDecl
    &&& needs_decoding(ctx, tu, tu.cursor_at(a).ty, a)
    &&& cannot_decode(tu, tu.cursor_at(a).ty, a)
}

/// Whether `new` holds the function that the cursor declares, under the
/// parent asked for, with its signature at the identifier `signature`.
pub open spec fn holds_function(
    new: &Context,
    parent: ItemId,
    c: Cursor,
    signature: ItemId,
) -> bool {
    exists|f: ItemId| new.has(f) && is_parsed_function(#[trigger] new.item(f), parent, c, signature)
}

/// Whether `new` holds the variable that the cursor declares, under the
/// parent asked for, with its type at the identifier `ty`.
pub open spec fn holds_var(
    new: &Context,
    parent: ItemId,
    c: Cursor,
    ty: ItemId,
    is_const: bool,
) -> bool {
    exists|v: ItemId| new.has(v) && is_parsed_var(#[trigger] new.item(v), parent, c, ty, is_const)
}

/// What the parse of one cursor into `parent` leaves, whatever becomes of
/// the cursors below it. Only namespaces at the cursor or below it get a
/// module.
///
/// - Without depth, and of a cursor that is not valid: everything as it was.
/// - Of a namespace: its module, as [`namespace_parsed`] says.
/// - Of a function or a variable that is owed: its type at the next
///   identifier, as [`parsed_as_owed`] says, and the function or variable
///   itself.
/// - Of a declaration of a type that is owed: the type at the next
///   identifier, as [`parsed_as_owed`] says, under `parent`, which refers
///   to what [`parsed_refers`] says.
pub open spec fn declaration_post(
    old: &Context,
    new: &Context,
    tu: &TranslationUnit,
    cursor: CursorId,
    parent: Option<ItemId>,
    depth: usize,
) -> bool {
    let c = tu.cursor_at(cursor);
    let next = ItemId(old.items@.len() as usize);
    let a = applicable(tu, cursor);
    &&& binds_only_below(old, new, tu, cursor, depth as nat)
    &&& if depth == 0 || !c.is_valid {
        *new == *old
    } else if c.kind == CursorKind::Namespace {
        lookup(new.modules@, c.canonical) is Some && namespace_parsed(
            old,
            new,
            tu,
            cursor,
            lookup(new.modules@, c.canonical)->0,
        )
    } else {
        &&& owes_function(old, tu, cursor, depth) ==> parsed_as_owed(
            old,
            new,
            tu,
            next,
            c.ty,
            cursor,
            None,
        ) && holds_function(new, relevant_parent(old, parent), c, next)
        &&& owes_var(old, tu, cursor, depth) ==> parsed_as_owed(
            old,
            new,
            tu,
            next,
            c.ty,
            cursor,
            None,
        ) && holds_var(new, relevant_parent(old, parent), c, next, tu.type_at(c.ty).is_const)
        &&& owes_type(old, tu, cursor, depth) ==> parsed_as_owed(
            old,
            new,
            tu,
            next,
            tu.cursor_at(a).ty,
            a,
            parent,
        ) && parsed_refers(
            old,
            new,
            tu,
            next,
            tu.cursor_at(a).ty,
            a,
            (depth - 2) as usize,
            ItemId((old.items@.len() + 1) as usize),
        )
    }
}

/// Whether the step from `states[k]` to `states[k + 1]` is the parse of the
/// `k`-th of the declarations `cursors` that a declaration was taken apart
/// into, as [`declaration_post`] says.
pub open spec fn taken_step(
    states: Seq<Context>,
    tu: &TranslationUnit,
    cursors: Seq<CursorId>,
    parent: Option<ItemId>,
    depth: usize,
    k: int,
) -> bool {
    &&& declaration_post(&states[k], &states[k + 1], tu, cursors[k], parent, depth)
    &&& extends(&states[k], &states[k + 1], None)
}

/// Whether `states` are the contexts that the parse of the declarations
/// `cursors` goes through, one after the other, each into `parent`.
pub open spec fn taken_in_turn(
    states: Seq<Context>,
    tu: &TranslationUnit,
    cursors: Seq<CursorId>,
    parent: Option<ItemId>,
    depth: usize,
) -> bool {
    &&& states.len() == cursors.len() + 1
    &&& forall|k: int|
        0 <= k < cursors.len() ==> #[trigger] taken_step(states, tu, cursors, parent, depth, k)
}

/// What the parse of one cursor into `parent` leaves, and of those below it
/// where it is taken apart.
///
/// - Of the cursor itself: what [`declaration_post`] says.
/// - Of a declaration that is bound to be taken apart: an identifier is
///   minted for its type and stays without an item, and then the
///   declarations below the cursor are parsed in turn, with one level of
///   depth less, each as [`declaration_post`] says.
pub open spec fn parse_one_post(
    old: &Context,
    new: &Context,
    tu: &TranslationUnit,
    cursor: CursorId,
    parent: Option<ItemId>,
    depth: usize,
) -> bool {
    let a = applicable(tu, cursor);
    &&& declaration_post(old, new, tu, cursor, parent, depth)
    &&& takes_apart(old, tu, cursor, depth) ==> exists|states: Seq<Context>| #[trigger]
        taken_in_turn(
            states,
            tu,
            tu.cursor_at(cursor).children@,
            parent,
            (depth - 1) as usize,
        ) && failed_afresh(old, &states[0], tu, tu.cursor_at(a).ty, a) && states.last() == *new
}

/// Whether the step from `states[k]` to `states[k + 1]` is the parse of the
/// `k`-th of `cursors` into `parent`.
pub open spec fn parse_step(
    states: Seq<Context>,
    tu: &TranslationUnit,
    cursors: Seq<CursorId>,
    parent: Option<ItemId>,
    depth: usize,
    k: int,
) -> bool {
    &&& parse_one_post(&states[k], &states[k + 1], tu, cursors[k], parent, depth)
    &&& extends(&states[k], &states[k + 1], None)
}

/// Whether `states` are the contexts that the parse of `cursors` goes
/// through, one cursor after the other, each into `parent`.
pub open spec fn parsed_in_turn(
    states: Seq<Context>,
    tu: &TranslationUnit,
    cursors: Seq<CursorId>,
    parent: Option<ItemId>,
    depth: usize,
) -> bool {
    &&& states.len() == cursors.len() + 1
    &&& forall|k: int|
        0 <= k < cursors.len() ==> #[trigger] parse_step(states, tu, cursors, parent, depth, k)
}

/// Whether a cursor of this kind is known to give no item.
pub open spec fn known_noise(kind: CursorKind) -> bool {
    kind == CursorKind::MacroDefinition || kind == CursorKind::MacroExpansion || kind
        == CursorKind::UsingDeclaration || kind == CursorKind::UsingDirective || kind
        == CursorKind::StaticAssert || kind == CursorKind::InclusionDirective
}

/// Whether `spelling` is that of an operator: whether it begins with
/// `operator`.
pub open spec fn is_operator(spelling: Seq<char>) -> bool {
    spelling.len() >= 8 && spelling.take(8) == "operator"@
}

impl Item {
    /// Parses the declaration at `cursor` into an item.
    ///
    /// The cursor is tried as a module, then as a function, then as a
    /// variable, and only then as a type: a function declaration read as a
    /// type would be lost as a function. The first attempt that does not ask
    /// to go on decides. A declaration that is none of these has to be taken
    /// apart if it is unexposed, and is skipped otherwise.
    ///
    /// Success is owed, given depth, to a namespace; to a function or a
    /// variable with a name whose type has to be decoded and has a shape; and
    /// to a declaration of a type that has to be decoded and has a shape: the
    /// item is then what the cursor declares, under the parent asked for. A
    /// function or a variable is a new item, minted after its type, and a
    /// type refers to what [`parsed_refers`] says. Only a namespace binds a
    /// module, and only namespaces at the cursor or below it get one.
    ///
    /// A declaration of a type that needs no decoding is settled as
    /// [`settled_afresh`] says. One whose decoding is bound to fail gives no
    /// item: it has to be taken apart if it is unexposed, and is skipped
    /// otherwise.
    pub fn parse(
        tu: &TranslationUnit,
        cursor: CursorId,
        parent_id: Option<ItemId>,
        ctx: &mut Context,
        depth: usize,
    ) -> (r: Result<ItemId, ParseError>)
        requires
            ready(old(ctx), tu),
            tu.has_cursor(cursor),
            minted(old(ctx), parent_id),
        ensures
            final(ctx).wf(),
            extends(old(ctx), final(ctx), None),
            r is Ok ==> r.unwrap().0 < final(ctx).items@.len(),
            depth == 0 || !tu.cursor_at(cursor).is_valid ==> r == Err::<ItemId, ParseError>(
                ParseError::Continue,
            ) && *final(ctx) == *old(ctx),
            tu.cursor_at(cursor).kind != CursorKind::Namespace ==> final(ctx).modules == old(
                ctx,
            ).modules,
            binds_only_below(old(ctx), final(ctx), tu, cursor, depth as nat),
            depth > 0 && tu.cursor_at(cursor).is_valid && tu.cursor_at(cursor).kind
                == CursorKind::Namespace ==> r is Ok && namespace_parsed(
                old(ctx),
                final(ctx),
                tu,
                cursor,
                r.unwrap(),
            ),
            depth > 1 && tu.cursor_at(cursor).is_valid && needs_decoding(
                old(ctx),
                tu,
                tu.cursor_at(cursor).ty,
                cursor,
            ) && shape_of(tu, tu.cursor_at(cursor).ty, cursor) is Some ==> {
                let c = tu.cursor_at(cursor);
                let signature = ItemId(old(ctx).items@.len() as usize);
                let parent = relevant_parent(old(ctx), parent_id);
                &&& is_function_cursor(c.kind) && c.spelling@.len() > 0 ==> {
                    &&& r is Ok
                    &&& r.unwrap().0 > old(ctx).items@.len()
                    &&& final(ctx).item(r.unwrap()).id == r.unwrap()
                    &&& final(ctx).has(r.unwrap())
                    &&& is_parsed_function(final(ctx).item(r.unwrap()), parent, c, signature)
                    &&& parsed_as_owed(old(ctx), final(ctx), tu, signature, c.ty, cursor, None)
                }
                &&& c.kind == CursorKind::VarDecl && c.spelling@.len() > 0 ==> {
                    &&& r is Ok
                    &&& r.unwrap().0 > old(ctx).items@.len()
                    &&& final(ctx).item(r.unwrap()).id == r.unwrap()
                    &&& final(ctx).has(r.unwrap())
                    &&& is_parsed_var(
                        final(ctx).item(r.unwrap()),
                        parent,
                        c,
                        signature,
                        tu.type_at(c.ty).is_const,
                    )
                    &&& parsed_as_owed(old(ctx), final(ctx), tu, signature, c.ty, cursor, None)
                }
            },
            depth > 1 && tu.cursor_at(cursor).is_valid && tried_as_type(tu.cursor_at(cursor))
                && needs_decoding(
                old(ctx),
                tu,
                tu.cursor_at(applicable(tu, cursor)).ty,
                applicable(tu, cursor),
            ) && shape_of(tu, tu.cursor_at(applicable(tu, cursor)).ty, applicable(tu, cursor))
                is Some ==> r == Ok::<ItemId, ParseError>(ItemId(old(ctx).items@.len() as usize))
                && parsed_as_owed(
                old(ctx),
                final(ctx),
                tu,
                ItemId(old(ctx).items@.len() as usize),
                tu.cursor_at(applicable(tu, cursor)).ty,
                applicable(tu, cursor),
                parent_id,
            ) && parsed_refers(
                old(ctx),
                final(ctx),
                tu,
                ItemId(old(ctx).items@.len() as usize),
                tu.cursor_at(applicable(tu, cursor)).ty,
                applicable(tu, cursor),
                (depth - 2) as usize,
                ItemId((old(ctx).items@.len() + 1) as usize),
            ),
            depth > 1 && tu.cursor_at(cursor).is_valid && tried_as_type(tu.cursor_at(cursor))
                && !needs_decoding(
                old(ctx),
                tu,
                tu.cursor_at(applicable(tu, cursor)).ty,
                applicable(tu, cursor),
            ) ==> r is Ok && settled_afresh(
                old(ctx),
                final(ctx),
                tu,
                tu.cursor_at(applicable(tu, cursor)).ty,
                applicable(tu, cursor),
                parent_id,
                r.unwrap(),
            ),
            depth > 1 && tu.cursor_at(cursor).is_valid && tried_as_type(tu.cursor_at(cursor))
                && needs_decoding(
                old(ctx),
                tu,
                tu.cursor_at(applicable(tu, cursor)).ty,
                applicable(tu, cursor),
            ) && cannot_decode(tu, tu.cursor_at(applicable(tu, cursor)).ty, applicable(tu, cursor))
                ==> r == Err::<ItemId, ParseError>(
                if tu.cursor_at(cursor).kind == CursorKind::UnexposedDecl {
                    ParseError::Recurse
                } else {
                    ParseError::Continue
                },
            ) && failed_afresh(
                old(ctx),
                final(ctx),
                tu,
                tu.cursor_at(applicable(tu, cursor)).ty,
                applicable(tu, cursor),
            ),
        decreases depth, 0nat,
    {
        if depth == 0 {
            return Err(ParseError::Continue);
        }
        let c = tu.cursor(cursor);
        if !c.is_valid {
            return Err(ParseError::Continue);
        }
        let relevant_parent = match parent_id {
            Some(p) => p,
            None => ctx.current_module,
        };
        let module = match Module::parse(tu, cursor, ctx, depth - 1) {
            Ok(ParseResult::New(m, d)) => Ok(ParseResult::New(ItemKind::Module(m), d)),
            Ok(ParseResult::AlreadyResolved(id)) => Ok(ParseResult::AlreadyResolved(id)),
            Err(e) => Err(e),
        };
        let ghost tried = *ctx;
        let settled =
            Item::add_parsed(ctx, module, &c.raw_comment, &c.annotations, relevant_parent);
        proof {
            lemma_grows_trans(old(ctx), &tried, ctx, None, None, None);
            assert forall|key: CursorId|
                lookup(old(ctx).modules@, key) is None && (#[trigger] lookup(ctx.modules@, key))
                    is Some implies namespace_below(tu, cursor, key, depth as nat) by {
                lemma_namespace_below_more(tu, cursor, key, (depth - 1) as nat, depth as nat);
            }
        }
        match settled {
            Some(r) => {
                return r;
            },
            None => {},
        }
        let ghost after_module = *ctx;
        let function = match Function::parse(tu, cursor, ctx, depth - 1) {
            Ok(ParseResult::New(f, d)) => Ok(ParseResult::New(ItemKind::Function(f), d)),
            Ok(ParseResult::AlreadyResolved(id)) => Ok(ParseResult::AlreadyResolved(id)),
            Err(e) => Err(e),
        };
        let ghost tried = *ctx;
        let settled = Item::add_parsed(
            ctx,
            function,
            &c.raw_comment,
            &c.annotations,
            relevant_parent,
        );
        proof {
            lemma_grows_trans(&after_module, &tried, ctx, None, None, None);
            lemma_grows_trans(old(ctx), &after_module, ctx, None, None, None);
        }
        match settled {
            Some(r) => {
                return r;
            },
            None => {},
        }
        let ghost after_function = *ctx;
        let var = match Var::parse(tu, cursor, ctx, depth - 1) {
            Ok(ParseResult::New(v, d)) => Ok(ParseResult::New(ItemKind::Var(v), d)),
            Ok(ParseResult::AlreadyResolved(id)) => Ok(ParseResult::AlreadyResolved(id)),
            Err(e) => Err(e),
        };
        let ghost tried = *ctx;
        let settled = Item::add_parsed(ctx, var, &c.raw_comment, &c.annotations, relevant_parent);
        proof {
            lemma_grows_trans(&after_function, &tried, ctx, None, None, None);
            lemma_grows_trans(old(ctx), &after_function, ctx, None, None, None);
        }
        match settled {
            Some(r) => {
                return r;
            },
            None => {},
        }
        let ghost after_var = *ctx;
        let applicable = match c.definition {
            Some(d) => d,
            None => cursor,
        };
        let applicable_ty = tu.cursor(applicable).ty;
        let typed = Item::from_ty(tu, applicable_ty, applicable, parent_id, ctx, depth - 1);
        proof {
            lemma_grows_trans(old(ctx), &after_var, ctx, None, None, None);
        }
        match typed {
            Ok(ty) => {
                return Ok(ty);
            },
            Err(ParseError::Recurse) => {
                return Err(ParseError::Recurse);
            },
            Err(ParseError::Continue) => {},
        }
        Err(Item::unhandled(c.kind))
    }

    /// Settles one attempt to parse a cursor as a kind of item.
    ///
    /// - A new module, function or variable gets a fresh identifier and is
    ///   added under `parent`, with the comment and the annotations of the
    ///   cursor: that decides.
    /// - An item that exists already decides too, and so does a cursor that
    ///   has to be taken apart.
    /// - An attempt that found nothing of its kind decides nothing: the next
    ///   kind is tried.
    pub fn add_parsed(
        ctx: &mut Context,
        attempt: Result<ParseResult<ItemKind>, ParseError>,
        comment: &Option<String>,
        annotations: &Option<crate::annotations::Annotations>,
        parent: ItemId,
    ) -> (r: Option<Result<ItemId, ParseError>>)
        requires
            old(ctx).wf(),
            !old(ctx).codegen,
            parent.0 < old(ctx).items@.len(),
            attempt matches Ok(ParseResult::New(kind, _)) ==> !(kind is Type),
            attempt matches Ok(ParseResult::AlreadyResolved(id)) ==> id.0 < old(ctx).items@.len(),
        ensures
            final(ctx).wf(),
            extends(old(ctx), final(ctx), None),
            r matches Some(Ok(id)) ==> id.0 < final(ctx).items@.len(),
            match attempt {
                Ok(ParseResult::New(kind, _)) => {
                    let id = ItemId(old(ctx).items@.len() as usize);
                    &&& r == Some(Ok::<ItemId, ParseError>(id))
                    &&& appended(old(ctx), final(ctx), id)
                    &&& final(ctx).item(id).id == id
                    &&& final(ctx).item(id).parent_id == parent
                    &&& final(ctx).item(id).kind == kind
                    &&& carries(final(ctx).item(id), *comment, *annotations)
                    &&& *final(ctx) == (Context { items: final(ctx).items, ..*old(ctx) })
                },
                Ok(ParseResult::AlreadyResolved(id)) => r == Some(Ok::<ItemId, ParseError>(id))
                    && *final(ctx) == *old(ctx),
                Err(ParseError::Recurse) => r == Some(
                    Err::<ItemId, ParseError>(ParseError::Recurse),
                ) && *final(ctx) == *old(ctx),
                Err(ParseError::Continue) => r is None && *final(ctx) == *old(ctx),
            },
    {
        match attempt {
            Ok(ParseResult::New(kind, _)) => {
                let id = ctx.next_item_id();
                let a = match annotations {
                    Some(a) => Some(a.duplicate()),
                    None => None,
                };
                let item = Item::new(id, clone_optional(comment), a, parent, kind);
                ctx.add_item(item, None);
                assert(ctx.items@ =~= old(ctx).items@.push(Some(item)));
                Some(Ok(id))
            },
            Ok(ParseResult::AlreadyResolved(id)) => Some(Ok(id)),
            Err(ParseError::Recurse) => Some(Err(ParseError::Recurse)),
            Err(ParseError::Continue) => None,
        }
    }

    /// Whether a cursor that gave nothing is one that is known to give
    /// nothing, so that nobody has to be told: macros, using declarations and
    /// directives, static assertions, inclusions, and operators at top level.
    pub fn is_known_noise(kind: CursorKind, spelling: &str) -> (r: bool)
        ensures
            r == (known_noise(kind) || is_operator(spelling@)),
    {
        let known = match kind {
            CursorKind::MacroDefinition => true,
            CursorKind::MacroExpansion => true,
            CursorKind::UsingDeclaration => true,
            CursorKind::UsingDirective => true,
            CursorKind::StaticAssert => true,
            CursorKind::InclusionDirective => true,
            _ => false,
        };
        if known {
            return true;
        }
        proof {
            reveal_strlit("operator");
        }
        if spelling.unicode_len() < 8 {
            return false;
        }
        str_eq(spelling.substring_char(0, 8), "operator")
    }

    /// What a cursor gives that is no module, function, variable or type: an
    /// unexposed declaration, such as a linkage specification, has to be taken
    /// apart; anything else is skipped.
    pub fn unhandled(kind: CursorKind) -> (r: ParseError)
        ensures
            r == if kind == CursorKind::UnexposedDecl {
                ParseError::Recurse
            } else {
                ParseError::Continue
            },
    {
        if kind == CursorKind::UnexposedDecl {
            ParseError::Recurse
        } else {
            ParseError::Continue
        }
    }
}

/// Parses the declaration at `cursor` and, where it has to be taken apart,
/// the declarations below it, all into `parent`. What is left is what
/// [`parse_one_post`] says.
pub fn parse_one(
    tu: &TranslationUnit,
    ctx: &mut Context,
    cursor: CursorId,
    parent: Option<ItemId>,
    depth: usize,
) -> (r: ChildVisit)
    requires
        ready(old(ctx), tu),
        tu.has_cursor(cursor),
        minted(old(ctx), parent),
    ensures
        final(ctx).wf(),
        extends(old(ctx), final(ctx), None),
        r == ChildVisit::Continue,
        parse_one_post(old(ctx), final(ctx), tu, cursor, parent, depth),
    decreases depth, 1nat,
{
    match Item::parse(tu, cursor, parent, ctx, depth) {
        Ok(_) => {},
        Err(ParseError::Continue) => {},
        Err(ParseError::Recurse) => {
            if depth > 0 {
                let children = &tu.cursor(cursor).children;
                let ghost begun = *ctx;
                let ghost mut states: Seq<Context> = seq![*ctx];
                let mut i: usize = 0;
                while i < children.len()
                    invariant
                        i <= children@.len(),
                        depth > 0,
                        states.len() == i + 1,
                        states[0] == begun,
                        states.last() == *ctx,
                        forall|k: int|
                            0 <= k < i ==> #[trigger] taken_step(
                                states,
                                tu,
                                children@,
                                parent,
                                (depth - 1) as usize,
                                k,
                            ),
                        !parse_decided(old(ctx), tu, cursor, depth),
                        binds_only_below(old(ctx), ctx, tu, cursor, depth as nat),
                        ready(ctx, tu),
                        tu.cursor_ok(tu.cursor_at(cursor)),
                        *children == tu.cursor_at(cursor).children,
                        minted(old(ctx), parent),
                        extends(old(ctx), ctx, None),
                    decreases children@.len() - i,
                {
                    let ghost before = *ctx;
                    let ghost earlier = states;
                    parse_one(tu, ctx, children[i], parent, depth - 1);
                    proof {
                        lemma_grows_trans(old(ctx), &before, ctx, None, None, None);
                        states = earlier.push(*ctx);
                        assert forall|k: int| 0 <= k < i + 1 implies #[trigger] taken_step(
                            states,
                            tu,
                            children@,
                            parent,
                            (depth - 1) as usize,
                            k,
                        ) by {
                            if k < i {
                                assert(taken_step(
                                    earlier,
                                    tu,
                                    children@,
                                    parent,
                                    (depth - 1) as usize,
                                    k,
                                ));
                                assert(states[k] == earlier[k]);
                                assert(states[k + 1] == earlier[k + 1]);
                            } else {
                                assert(states[k] == before);
                                assert(states[k + 1] == *ctx);
                            }
                        }
                        assert forall|key: CursorId|
                            lookup(old(ctx).modules@, key) is None && (#[trigger] lookup(
                                ctx.modules@,
                                key,
                            )) is Some implies namespace_below(tu, cursor, key, depth as nat) by {
                            if lookup(before.modules@, key) is None {
                                lemma_namespace_below_child(
                                    tu,
                                    cursor,
                                    i as int,
                                    key,
                                    (depth - 1) as nat,
                                    depth as nat,
                                );
                            }
                        }
                    }
                    i += 1;
                }
                proof {
                    assert(taken_in_turn(
                        states,
                        tu,
                        tu.cursor_at(cursor).children@,
                        parent,
                        (depth - 1) as usize,
                    ));
                }
            }
        },
    }
    ChildVisit::Continue
}

impl Context {
    /// Parses every declaration of the unit: the cursors below the root are
    /// parsed in turn, each as [`parse_one`] parses it, into the module that
    /// is current. Afterwards every namespace among them has its module.
    pub fn parse_unit(&mut self, tu: &TranslationUnit, depth: usize)
        requires
            ready(old(self), tu),
        ensures
            final(self).wf(),
            extends(old(self), final(self), None),
            exists|states: Seq<Context>| #[trigger]
                parsed_in_turn(states, tu, tu.cursor_at(tu.root).children@, None, depth)
                    && states[0] == *old(self) && states.last() == *final(self),
            forall|k: int|
                0 <= k < tu.cursor_at(tu.root).children@.len() && depth > 0 && tu.cursor_at(
                    #[trigger] tu.cursor_at(tu.root).children@[k],
                ).is_valid && tu.cursor_at(tu.cursor_at(tu.root).children@[k]).kind
                    == CursorKind::Namespace ==> lookup(
                    final(self).modules@,
                    tu.cursor_at(tu.cursor_at(tu.root).children@[k]).canonical,
                ) is Some,
    {
        let children = &tu.cursor(tu.root).children;
        let ghost mut states: Seq<Context> = seq![*self];
        let mut i: usize = 0;
        while i < children.len()
            invariant
                i <= children@.len(),
                ready(self, tu),
                tu.cursor_ok(tu.cursor_at(tu.root)),
                *children == tu.cursor_at(tu.root).children,
                extends(old(self), self, None),
                states.len() == i + 1,
                states[0] == *old(self),
                states.last() == *self,
                forall|k: int|
                    0 <= k < i ==> #[trigger] parse_step(states, tu, children@, None, depth, k),
                forall|k: int|
                    0 <= k < i && depth > 0 && tu.cursor_at(#[trigger] children@[k]).is_valid
                        && tu.cursor_at(children@[k]).kind == CursorKind::Namespace ==> lookup(
                        self.modules@,
                        tu.cursor_at(children@[k]).canonical,
                    ) is Some,
            decreases children@.len() - i,
        {
            let ghost before = *self;
            let ghost earlier = states;
            parse_one(tu, self, children[i], None, depth);
            proof {
                lemma_grows_trans(old(self), &before, self, None, None, None);
                states = earlier.push(*self);
                assert forall|k: int| 0 <= k < i + 1 implies #[trigger] parse_step(
                    states,
                    tu,
                    children@,
                    None,
                    depth,
                    k,
                ) by {
                    if k < i {
                        assert(parse_step(earlier, tu, children@, None, depth, k));
                        assert(states[k] == earlier[k]);
                        assert(states[k + 1] == earlier[k + 1]);
                    } else {
                        assert(states[k] == before);
                        assert(states[k + 1] == *self);
                    }
                }
            }
            i += 1;
        }
        proof {
            assert(parsed_in_turn(states, tu, tu.cursor_at(tu.root).children@, None, depth));
        }
    }
}

} // verus!
