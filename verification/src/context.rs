//! The context: the table of items, the state of the parse, and the cells
//! that the queries of the code-generation phase fill.

use vstd::prelude::*;
use crate::clang::CursorId;
use crate::graph::{graph_ok, has_item, item_at};
use crate::item::Item;
use crate::item_kind::{ItemKind, Module, ModuleKind};
use crate::naming::{cached_names_ok, local_ids_ok, names_within_namespaces, LocalIds};
use crate::options::Options;
use crate::ty::ItemId;

verus! {

/// A type whose declaration is being parsed: the declaration, and the
/// identifier that the type will have.
#[derive(Debug, Clone, Copy, PartialEq, Eq, Structural)]
pub struct PartialType {
    pub decl: CursorId,
    pub id: ItemId,
}

impl PartialType {
    /// The type `id`, declared at `decl`, as one that is being parsed.
    pub fn new(decl: CursorId, id: ItemId) -> (r: Self)
        ensures
            r == (PartialType { decl, id }),
    {
        PartialType { decl, id }
    }

    /// The declaration that is being parsed.
    pub fn decl(&self) -> (r: CursorId)
        ensures
            r == self.decl,
    {
        self.decl
    }

    /// The identifier that the type will have.
    pub fn id(&self) -> (r: ItemId)
        ensures
            r == self.id,
    {
        self.id
    }
}

/// The aggregate that owns the items.
///
/// `items` is indexed by identifier; an identifier that was minted and not
/// yet given an item has `None`. `parsed_types`, `named_types` and `modules`
/// bind the declarations that were parsed to their items. The cells of the code-generation phase
/// (`local_ids`, `next_child_local_ids`, `canonical_names` and the three
/// guards) are indexed by identifier too and are set up when that phase
/// begins.
#[derive(Debug)]
pub struct Context {
    pub items: Vec<Option<Item>>,
    pub root_module: ItemId,
    pub current_module: ItemId,
    pub currently_parsed_types: Vec<PartialType>,
    pub collected_typerefs: bool,
    pub codegen: bool,
    pub parsed_types: Vec<(CursorId, ItemId)>,
    pub named_types: Vec<(CursorId, ItemId)>,
    pub modules: Vec<(CursorId, ItemId)>,
    pub replacements: Vec<(Vec<String>, ItemId)>,
    pub options: Options,
    pub local_ids: Vec<Option<usize>>,
    pub next_child_local_ids: Vec<usize>,
    pub canonical_names: Vec<Option<String>>,
    pub derive_debug_guard: Vec<bool>,
    pub derive_copy_guard: Vec<bool>,
    pub derive_default_guard: Vec<bool>,
}

/// What the queries of the code-generation phase read and never change: the
/// items, the root, the configuration and the registered replacements.
pub struct Graph {
    pub items: Seq<Option<Item>>,
    pub root: ItemId,
    pub options: Options,
    pub replacements: Seq<(Vec<String>, ItemId)>,
}

/// Whether the item that `key` is bound to is one that `table` holds.
pub proof fn lemma_lookup_is_entry(table: Seq<(CursorId, ItemId)>, key: CursorId)
    ensures
        lookup(table, key) is Some ==> exists|k: int|
            0 <= k < table.len() && (#[trigger] table[k]).1 == lookup(table, key)->0,
    decreases table.len(),
{
    if table.len() > 0 {
        if table.last().0 == key {
            assert(table[table.len() - 1].1 == lookup(table, key)->0);
        } else {
            lemma_lookup_is_entry(table.drop_last(), key);
            if lookup(table, key) is Some {
                let k = choose|k: int|
                    0 <= k < table.drop_last().len() && (#[trigger] table.drop_last()[k]).1
                        == lookup(table.drop_last(), key)->0;
                assert(table[k].1 == lookup(table, key)->0);
            }
        }
    }
}

/// The last identifier that `key` is bound to in `table`.
pub open spec fn lookup(table: Seq<(CursorId, ItemId)>, key: CursorId) -> Option<ItemId>
    decreases table.len(),
{
    if table.len() == 0 {
        None
    } else if table.last().0 == key {
        Some(table.last().1)
    } else {
        lookup(table.drop_last(), key)
    }
}

pub(crate) fn find(table: &Vec<(CursorId, ItemId)>, key: CursorId) -> (r: Option<ItemId>)
    ensures
        r == lookup(table@, key),
{
    let mut i: usize = table.len();
    assert(table@.take(i as int) =~= table@);
    while i > 0
        invariant
            i <= table.len(),
            lookup(table@, key) == lookup(table@.take(i as int), key),
        decreases i,
    {
        i -= 1;
        assert(table@.take(i + 1).drop_last() =~= table@.take(i as int));
        if table[i].0 == key {
            return Some(table[i].1);
        }
    }
    assert(table@.take(0).len() == 0);
    None
}

impl Context {
    /// What the queries read of this context.
    pub open spec fn graph(&self) -> Graph {
        Graph {
            items: self.items@,
            root: self.root_module,
            options: self.options,
            replacements: self.replacements@,
        }
    }

    /// The local identifiers that were handed out, as a mathematical value.
    pub open spec fn local_id_state(&self) -> LocalIds {
        LocalIds { assigned: self.local_ids@, next_child: self.next_child_local_ids@ }
    }

    /// Whether the guards of the derive queries are all down.
    pub open spec fn guards_down(&self) -> bool {
        &&& self.derive_debug_guard@.len() == self.items@.len()
        &&& self.derive_copy_guard@.len() == self.items@.len()
        &&& self.derive_default_guard@.len() == self.items@.len()
        &&& forall|i: int| 0 <= i < self.items@.len() ==> !(#[trigger] self.derive_debug_guard@[i])
        &&& forall|i: int| 0 <= i < self.items@.len() ==> !(#[trigger] self.derive_copy_guard@[i])
        &&& forall|i: int|
            0 <= i < self.items@.len() ==> !(#[trigger] self.derive_default_guard@[i])
    }

    /// Whether the tables hang together, the guards apart: every item sits
    /// at its identifier, the root is a module and its own parent, the
    /// current module and the modules of the namespaces are modules, the
    /// types being parsed have identifiers that were minted, and in the
    /// code-generation phase the graph is finished and the cells are
    /// consistent with it.
    pub open spec fn wf_but_guards(&self) -> bool {
        &&& has_item(self.items@, self.root_module)
        &&& item_at(self.items@, self.root_module).kind is Module
        &&& item_at(self.items@, self.root_module).parent_id == self.root_module
        &&& forall|i: int|
            0 <= i < self.items@.len() && (#[trigger] self.items@[i]) is Some
                ==> self.items@[i]->0.id.0 == i
        &&& has_item(self.items@, self.current_module)
        &&& item_at(self.items@, self.current_module).kind is Module
        &&& forall|k: int|
            0 <= k < self.modules@.len() ==> has_item(self.items@, (#[trigger] self.modules@[k]).1)
                && item_at(self.items@, self.modules@[k].1).kind is Module
        &&& forall|k: int|
            0 <= k < self.currently_parsed_types@.len() ==> (
            #[trigger] self.currently_parsed_types@[k]).id.0 < self.items@.len()
        &&& self.codegen ==> {
            &&& graph_ok(self.items@, self.root_module)
            &&& local_ids_ok(self.items@, self.local_id_state())
            &&& self.canonical_names@.len() == self.items@.len()
            &&& cached_names_ok(
                self.items@,
                self.root_module,
                self.options.enable_cxx_namespaces,
                names_within_namespaces(self),
                self.canonical_names@,
            )
        }
    }

    /// Whether the context is well formed: the tables hang together and no
    /// derive query is under way.
    pub open spec fn wf(&self) -> bool {
        &&& self.wf_but_guards()
        &&& self.codegen ==> self.guards_down()
    }

    /// Whether `id` names an item.
    pub open spec fn has(&self, id: ItemId) -> bool {
        has_item(self.items@, id)
    }

    /// The item that `id` names.
    pub open spec fn item(&self, id: ItemId) -> Item
        recommends
            self.has(id),
    {
        item_at(self.items@, id)
    }

    /// Whether `id` was minted and has no item yet.
    pub open spec fn vacant(&self, id: ItemId) -> bool {
        id.0 < self.items@.len() && self.items@[id.0 as int] is None
    }

    /// A context that holds the root module and nothing else.
    pub fn new(options: Options) -> (r: Self)
        ensures
            r.wf(),
            r.items@.len() == 1,
            r.root_module == ItemId(0),
            r.current_module == ItemId(0),
            r.has(ItemId(0)),
            r.item(ItemId(0)).kind is Module,
            r.item(ItemId(0)).kind->Module_0.name is Some,
            r.item(ItemId(0)).kind->Module_0.name->0@ == "root"@,
            r.item(ItemId(0)).kind->Module_0.kind == ModuleKind::Normal,
            r.item(ItemId(0)).annotations.use_instead_of is None,
            !r.item(ItemId(0)).annotations.hidden,
            !r.item(ItemId(0)).annotations.opaque,
            r.currently_parsed_types@.len() == 0,
            !r.collected_typerefs,
            !r.codegen,
            r.parsed_types@.len() == 0,
            r.named_types@.len() == 0,
            r.modules@.len() == 0,
            r.replacements@.len() == 0,
            r.options == options,
    {
        let root = ItemId(0);
        let module = Module::new(Some(String::from_str("root")), ModuleKind::Normal);
        let item = Item::new(root, None, None, root, ItemKind::Module(module));
        let mut items: Vec<Option<Item>> = Vec::new();
        items.push(Some(item));
        Context {
            items,
            root_module: root,
            current_module: root,
            currently_parsed_types: Vec::new(),
            collected_typerefs: false,
            codegen: false,
            parsed_types: Vec::new(),
            named_types: Vec::new(),
            modules: Vec::new(),
            replacements: Vec::new(),
            options,
            local_ids: Vec::new(),
            next_child_local_ids: Vec::new(),
            canonical_names: Vec::new(),
            derive_debug_guard: Vec::new(),
            derive_copy_guard: Vec::new(),
            derive_default_guard: Vec::new(),
        }
    }

    /// Mints a fresh identifier: one more than the last.
    pub fn next_item_id(&mut self) -> (id: ItemId)
        requires
            old(self).wf(),
            !old(self).codegen,
        ensures
            final(self).wf(),
            id.0 == old(self).items@.len(),
            final(self).items@ == old(self).items@.push(None),
            *final(self) == (Context { items: final(self).items, ..*old(self) }),
    {
        let id = ItemId(self.items.len());
        self.items.push(None);
        id
    }

    /// Puts `item` at its identifier, which was minted and has no item yet.
    /// Where the item is a type and `declaration` is given, the declaration is
    /// bound to the item, so that later references to it find the item.
    pub fn add_item(&mut self, item: Item, declaration: Option<CursorId>)
        requires
            old(self).wf(),
            !old(self).codegen,
            old(self).vacant(item.id),
        ensures
            final(self).wf(),
            final(self).items@ == old(self).items@.update(item.id.0 as int, Some(item)),
            final(self).parsed_types@ == if item.kind is Type && declaration is Some {
                old(self).parsed_types@.push((declaration->0, item.id))
            } else {
                old(self).parsed_types@
            },
            !(item.kind is Type && declaration is Some)
                ==> final(self).parsed_types == old(self).parsed_types,
            *final(self) == (Context {
                items: final(self).items,
                parsed_types: final(self).parsed_types,
                ..*old(self)
            }),
    {
        let id = item.id;
        let is_type = item.kind.is_type();
        self.items[id.0] = Some(item);
        if is_type {
            match declaration {
                Some(decl) => {
                    self.parsed_types.push((decl, id));
                },
                None => {},
            }
        }
    }

    /// The item that `id` names.
    pub fn resolve_item(&self, id: ItemId) -> (r: &Item)
        requires
            self.has(id),
        ensures
            *r == self.item(id),
    {
        match &self.items[id.0] {
            Some(item) => item,
            None => vstd::pervasive::unreached(),
        }
    }

    /// The item that `id` names, if it names one.
    pub fn resolve_item_fallible(&self, id: ItemId) -> (r: Option<&Item>)
        ensures
            r is Some == self.has(id),
            r is Some ==> *r->0 == self.item(id),
    {
        if id.0 < self.items.len() {
            self.items[id.0].as_ref()
        } else {
            None
        }
    }

    /// The identifier of the root module.
    pub fn root_module(&self) -> (r: ItemId)
        ensures
            r == self.root_module,
    {
        self.root_module
    }

    /// The module that items without a parent of their own are put in.
    pub fn current_module(&self) -> (r: ItemId)
        ensures
            r == self.current_module,
    {
        self.current_module
    }

    /// Makes `module` the current module and returns the one that was.
    pub fn enter_module(&mut self, module: ItemId) -> (previous: ItemId)
        requires
            old(self).wf(),
            old(self).has(module),
            old(self).item(module).kind is Module,
        ensures
            final(self).wf(),
            previous == old(self).current_module,
            *final(self) == (Context { current_module: module, ..*old(self) }),
    {
        let previous = self.current_module;
        self.current_module = module;
        previous
    }

    /// Records that the declaration of `partial` is being parsed.
    pub fn begin_parsing(&mut self, partial: PartialType)
        requires
            old(self).wf(),
            partial.id.0 < old(self).items@.len(),
        ensures
            final(self).wf(),
            final(self).currently_parsed_types@ == old(self).currently_parsed_types@.push(partial),
            *final(self) == (Context {
                currently_parsed_types: final(self).currently_parsed_types,
                ..*old(self)
            }),
    {
        self.currently_parsed_types.push(partial);
    }

    /// Ends the parse that began last, and returns what was recorded of it.
    pub fn finish_parsing(&mut self) -> (partial: PartialType)
        requires
            old(self).wf(),
            old(self).currently_parsed_types@.len() > 0,
        ensures
            final(self).wf(),
            partial == old(self).currently_parsed_types@.last(),
            final(self).currently_parsed_types@ == old(self).currently_parsed_types@.drop_last(),
            *final(self) == (Context {
                currently_parsed_types: final(self).currently_parsed_types,
                ..*old(self)
            }),
    {
        match self.currently_parsed_types.pop() {
            Some(partial) => partial,
            None => vstd::pervasive::unreached(),
        }
    }

    /// The types whose declarations are being parsed, the outermost first.
    pub fn currently_parsed_types(&self) -> (r: &Vec<PartialType>)
        ensures
            *r == self.currently_parsed_types,
    {
        &self.currently_parsed_types
    }

    /// Whether every forward reference is known; from then on the parser
    /// makes no placeholder.
    pub fn collected_typerefs(&self) -> (r: bool)
        ensures
            r == self.collected_typerefs,
    {
        self.collected_typerefs
    }

    /// Whether the code-generation phase has begun.
    pub fn in_codegen_phase(&self) -> (r: bool)
        ensures
            r == self.codegen,
    {
        self.codegen
    }

    /// The configuration.
    pub fn options(&self) -> (r: &Options)
        ensures
            *r == self.options,
    {
        &self.options
    }

    /// The item that the declaration `decl` was parsed into, if it was.
    pub fn get_resolved_type(&self, decl: CursorId) -> (r: Option<ItemId>)
        ensures
            r == lookup(self.parsed_types@, decl),
    {
        find(&self.parsed_types, decl)
    }

    /// The template type parameter that is defined at `definition`, if it is
    /// known.
    pub fn get_named_type(&self, definition: CursorId) -> (r: Option<ItemId>)
        ensures
            r == lookup(self.named_types@, definition),
    {
        find(&self.named_types, definition)
    }

    /// Adds the template type parameter `item`, defined at `definition`.
    pub fn add_named_type(&mut self, item: Item, definition: CursorId)
        requires
            old(self).wf(),
            !old(self).codegen,
            old(self).vacant(item.id),
        ensures
            final(self).wf(),
            final(self).items@ == old(self).items@.update(item.id.0 as int, Some(item)),
            final(self).named_types@ == old(self).named_types@.push((definition, item.id)),
            lookup(final(self).named_types@, definition) == Some(item.id),
            *final(self) == (Context {
                items: final(self).items,
                named_types: final(self).named_types,
                ..*old(self)
            }),
    {
        let id = item.id;
        self.add_item(item, None);
        self.named_types.push((definition, id));
        assert(self.named_types@.last() == (definition, id));
    }

    /// Registers an override: `id` takes the place of the declaration at
    /// `path`. The last registration for a path is the one that counts.
    pub fn replace(&mut self, path: Vec<String>, id: ItemId)
        requires
            old(self).wf(),
        ensures
            final(self).wf(),
            final(self).replacements@ == old(self).replacements@.push((path, id)),
            *final(self) == (Context { replacements: final(self).replacements, ..*old(self) }),
    {
        self.replacements.push((path, id));
    }
}

} // verus!
