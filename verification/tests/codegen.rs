use bindgen_ir::annotations::Annotations;
use bindgen_ir::context::{Context, PartialType};
use bindgen_ir::clang::{CursorId, TypeId};
use bindgen_ir::item::Item;
use bindgen_ir::item_kind::{Function, FunctionKind, ItemKind, Module, ModuleKind, Var};
use bindgen_ir::options::Options;
use bindgen_ir::ty::{CompInfo, CompKind, Field, ItemId, Method, MethodKind, Type, TypeKind};

fn add(ctx: &mut Context, parent: ItemId, kind: ItemKind) -> ItemId {
    let id = ctx.next_item_id();
    ctx.add_item(Item::new(id, None, None, parent, kind), None);
    id
}

fn module(name: &str) -> ItemKind {
    ItemKind::Module(Module::new(Some(name.to_string()), ModuleKind::Normal))
}

fn ty(name: Option<&str>, kind: TypeKind) -> ItemKind {
    ItemKind::Type(Type::new(name.map(|n| n.to_string()), None, kind, false))
}

fn comp() -> CompInfo {
    CompInfo {
        kind: CompKind::Struct,
        fields: Vec::new(),
        template_params: Vec::new(),
        methods: Vec::new(),
        constructors: Vec::new(),
        base_members: Vec::new(),
        inner_types: Vec::new(),
    }
}

fn fresh() -> (Context, ItemId) {
    let ctx = Context::new(Options::new());
    let root = ctx.root_module();
    (ctx, root)
}

#[test]
fn a_new_context_holds_the_root() {
    let (mut ctx, root) = fresh();
    assert_eq!(root, ItemId(0));
    assert_eq!(ctx.current_module(), root);
    assert!(!ctx.in_codegen_phase());
    assert!(!ctx.collected_typerefs());
    assert!(ctx.currently_parsed_types().is_empty());
    assert!(ctx.options().derive_debug);
    assert_eq!(ctx.items.len(), 1);
    assert!(ctx.resolve_item_fallible(root).is_some());
    assert!(ctx.resolve_item_fallible(ItemId(1)).is_none());
    assert!(ctx.check_graph());
    assert!(ctx.begin_codegen());
    assert!(ctx.in_codegen_phase());
    assert_eq!(ctx.local_ids, vec![None]);
    assert_eq!(ctx.next_child_local_ids, vec![1]);
    assert_eq!(ctx.canonical_names, vec![None]);
}

#[test]
fn identifiers_are_minted_in_order() {
    let (mut ctx, root) = fresh();
    let a = ctx.next_item_id();
    let b = ctx.next_item_id();
    assert_eq!((a, b), (ItemId(1), ItemId(2)));
    // A minted identifier names no item until one is added.
    assert!(ctx.resolve_item_fallible(a).is_none());
    ctx.add_item(Item::new(b, None, None, root, module("b")), None);
    assert!(ctx.resolve_item_fallible(a).is_none());
    assert_eq!(ctx.resolve_item(b).id(), b);
    assert_eq!(ctx.next_item_id(), ItemId(3));
    // An identifier without an item is no obstacle to code generation.
    assert!(ctx.begin_codegen());
}

#[test]
fn declarations_are_bound_to_types_only() {
    let (mut ctx, root) = fresh();
    let t = ctx.next_item_id();
    ctx.add_item(Item::new(t, None, None, root, ty(Some("T"), TypeKind::Void)), Some(CursorId(4)));
    let m = ctx.next_item_id();
    ctx.add_item(Item::new(m, None, None, root, module("m")), Some(CursorId(5)));
    let u = ctx.next_item_id();
    ctx.add_item(Item::new(u, None, None, root, ty(Some("U"), TypeKind::Void)), Some(CursorId(4)));
    assert_eq!(ctx.get_resolved_type(CursorId(4)), Some(u));
    assert_eq!(ctx.get_resolved_type(CursorId(5)), None);
    let n = ctx.next_item_id();
    ctx.add_named_type(Item::new(n, None, None, root, ItemKind::Type(Type::named("N".to_string()))), CursorId(9));
    assert_eq!(ctx.get_named_type(CursorId(9)), Some(n));
    assert_eq!(ctx.get_named_type(CursorId(4)), None);
    assert_eq!(ctx.get_resolved_type(CursorId(9)), None);
}

#[test]
fn the_current_module_and_the_parsing_stack() {
    let (mut ctx, root) = fresh();
    let m = add(&mut ctx, root, module("m"));
    assert_eq!(ctx.enter_module(m), root);
    assert_eq!(ctx.current_module(), m);
    assert_eq!(ctx.enter_module(root), m);
    assert_eq!(ctx.current_module(), root);
    let first = PartialType::new(CursorId(1), m);
    let second = PartialType::new(CursorId(2), root);
    ctx.begin_parsing(first);
    ctx.begin_parsing(second);
    assert_eq!(ctx.currently_parsed_types(), &vec![first, second]);
    let done = ctx.finish_parsing();
    assert_eq!(done, second);
    assert_eq!(done.decl(), CursorId(2));
    assert_eq!(done.id(), root);
    assert_eq!(ctx.finish_parsing(), first);
    assert!(ctx.currently_parsed_types().is_empty());
}

fn refused(build: &dyn Fn(&mut Context, ItemId)) {
    let (mut ctx, root) = fresh();
    build(&mut ctx, root);
    assert!(!ctx.check_graph());
    assert!(!ctx.begin_codegen());
    assert!(!ctx.in_codegen_phase());
    assert!(ctx.local_ids.is_empty());
}

#[test]
fn a_parent_has_to_exist() {
    refused(&|ctx, _root| {
        let orphan = ctx.next_item_id();
        add(ctx, orphan, ty(Some("T"), TypeKind::Void));
    });
}

#[test]
fn a_parent_has_to_be_a_module_or_a_record() {
    refused(&|ctx, root| {
        let t = add(ctx, root, ty(Some("T"), TypeKind::Void));
        add(ctx, t, ty(Some("U"), TypeKind::Void));
    });
    refused(&|ctx, root| {
        let t = add(ctx, root, ty(Some("T"), TypeKind::Void));
        let v = add(ctx, root, ItemKind::Var(Var::new("v".to_string(), t, false)));
        add(ctx, v, ty(Some("U"), TypeKind::Void));
    });
    let (mut ctx, root) = fresh();
    let r = add(&mut ctx, root, ty(Some("R"), TypeKind::Comp(comp())));
    let inner = add(&mut ctx, r, ty(Some("I"), TypeKind::Void));
    assert!(ctx.check_item(inner));
    assert!(ctx.begin_codegen());
}

#[test]
fn only_the_root_is_its_own_parent() {
    refused(&|ctx, _root| {
        let m = ctx.next_item_id();
        ctx.add_item(Item::new(m, None, None, m, module("m")), None);
    });
}

#[test]
fn no_forward_reference_may_remain() {
    refused(&|ctx, root| {
        add(ctx, root, ty(None, TypeKind::UnresolvedTypeRef(TypeId(0), CursorId(0), None)));
    });
}

#[test]
fn every_reference_has_to_resolve() {
    refused(&|ctx, root| {
        add(ctx, root, ty(None, TypeKind::Pointer(ItemId(40))));
    });
    refused(&|ctx, root| {
        let vacant = ctx.next_item_id();
        add(ctx, root, ItemKind::Var(Var::new("v".to_string(), vacant, false)));
    });
    refused(&|ctx, root| {
        add(
            ctx,
            root,
            ItemKind::Function(Function::new("f".to_string(), None, ItemId(40), FunctionKind::Function)),
        );
    });
    refused(&|ctx, root| {
        let mut ci = comp();
        ci.fields.push(Field { name: None, ty: ItemId(40) });
        add(ctx, root, ty(Some("R"), TypeKind::Comp(ci)));
    });
}

#[test]
fn a_method_has_to_be_a_function() {
    refused(&|ctx, root| {
        let t = add(ctx, root, ty(Some("T"), TypeKind::Void));
        let mut ci = comp();
        ci.methods.push(Method { kind: MethodKind::Normal, signature: t });
        add(ctx, root, ty(Some("R"), TypeKind::Comp(ci)));
    });
}

#[test]
fn a_chain_of_references_has_to_end() {
    refused(&|ctx, root| {
        let a = ctx.next_item_id();
        let b = add(ctx, root, ty(None, TypeKind::ResolvedTypeRef(a)));
        ctx.add_item(Item::new(a, None, None, root, ty(None, TypeKind::ResolvedTypeRef(b))), None);
    });
    let (mut ctx, root) = fresh();
    let a = ctx.next_item_id();
    let b = add(&mut ctx, root, ty(None, TypeKind::ResolvedTypeRef(a)));
    ctx.add_item(Item::new(a, None, None, root, ty(None, TypeKind::ResolvedTypeRef(b))), None);
    // The walk ends all the same.
    let end = Item::name_target(&ctx, a);
    assert!(end == a || end == b);
    assert_eq!(a.as_named(&ctx), None);
}

#[test]
fn a_replaced_path_has_a_segment() {
    refused(&|ctx, root| {
        let id = ctx.next_item_id();
        let mut a = Annotations::new();
        a.use_instead_of = Some(Vec::new());
        ctx.add_item(Item::new(id, None, Some(a), root, ty(Some("T"), TypeKind::Void)), None);
    });
}
