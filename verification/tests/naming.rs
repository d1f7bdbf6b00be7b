use bindgen_ir::ancestry::{ItemAncestors, ItemAncestorsIter};
use bindgen_ir::annotations::Annotations;
use bindgen_ir::canonical::{ItemCanonicalName, ItemCanonicalPath};
use bindgen_ir::context::Context;
use bindgen_ir::item::Item;
use bindgen_ir::item_kind::{Function, FunctionKind, ItemKind, Module, ModuleKind, Var};
use bindgen_ir::mangle::rust_mangle;
use bindgen_ir::naming::NameOptions;
use bindgen_ir::options::Options;
use bindgen_ir::text::{join, to_decimal};
use bindgen_ir::ty::{
    CompInfo, CompKind, EnumInfo, ItemId, Method, MethodKind, TemplateInstantiation, Type, TypeKind,
};

fn add(ctx: &mut Context, parent: ItemId, kind: ItemKind) -> ItemId {
    let id = ctx.next_item_id();
    ctx.add_item(Item::new(id, None, None, parent, kind), None);
    id
}

fn add_annotated(ctx: &mut Context, parent: ItemId, kind: ItemKind, a: Annotations) -> ItemId {
    let id = ctx.next_item_id();
    ctx.add_item(Item::new(id, None, Some(a), parent, kind), None);
    id
}

fn module(name: Option<&str>, kind: ModuleKind) -> ItemKind {
    ItemKind::Module(Module::new(name.map(|n| n.to_string()), kind))
}

fn ty(name: Option<&str>, kind: TypeKind) -> ItemKind {
    ItemKind::Type(Type::new(name.map(|n| n.to_string()), None, kind, false))
}

fn comp() -> CompInfo {
    CompInfo {
        kind: CompKind::Struct,
        fields: Vec::new(),
        template_params: Vec::new(),
        methods: Vec::new(),
        constructors: Vec::new(),
        base_members: Vec::new(),
        inner_types: Vec::new(),
    }
}

fn record(name: Option<&str>) -> ItemKind {
    ty(name, TypeKind::Comp(comp()))
}

fn int32() -> TypeKind {
    TypeKind::Int { bits: 32, signed: true }
}

fn namespaces_on() -> Options {
    let mut options = Options::new();
    options.enable_cxx_namespaces = true;
    options
}

fn replaces(path: &[&str]) -> Annotations {
    let mut a = Annotations::new();
    a.use_instead_of = Some(path.iter().map(|s| s.to_string()).collect());
    a
}

#[test]
fn decimal_digits() {
    assert_eq!(to_decimal(0), "0");
    assert_eq!(to_decimal(7), "7");
    assert_eq!(to_decimal(10), "10");
    assert_eq!(to_decimal(12345), "12345");
    assert_eq!(to_decimal(9007), "9007");
    assert_eq!(to_decimal(usize::MAX), usize::MAX.to_string());
}

#[test]
fn joining() {
    let none: Vec<String> = Vec::new();
    assert_eq!(join(&none, "_"), "");
    assert_eq!(join(&vec!["a".to_string()], "_"), "a");
    let parts = vec!["a".to_string(), "b".to_string(), "c".to_string()];
    assert_eq!(join(&parts, "_"), "a_b_c");
    assert_eq!(join(&parts, "::"), "a::b::c");
    assert_eq!(join(&vec!["".to_string(), "x".to_string()], "_"), "_x");
}

#[test]
fn mangling() {
    assert_eq!(rust_mangle("plain"), "plain");
    assert_eq!(rust_mangle("fn"), "fn_");
    assert_eq!(rust_mangle("Self"), "Self_");
    assert_eq!(rust_mangle("self"), "self_");
    assert_eq!(rust_mangle("bool"), "bool_");
    assert_eq!(rust_mangle("type"), "type_");
    assert_eq!(rust_mangle("a@b?c$"), "a_b_c__");
    assert_eq!(rust_mangle("?x"), "_x_");
    assert_eq!(rust_mangle("fnord"), "fnord");
    assert_eq!(rust_mangle(""), "");
}

#[test]
fn the_root_is_called_root() {
    let mut ctx = Context::new(Options::new());
    assert!(ctx.begin_codegen());
    let root = ctx.root_module();
    assert_eq!(root, ItemId(0));
    assert!(ctx.resolve_item(root).is_module());
    assert_eq!(ctx.resolve_item(root).parent_id(), root);
    assert_eq!(root.canonical_name(&mut ctx), "root");
    assert_eq!(root.canonical_path(&mut ctx), vec!["root"]);
    assert!(ctx.resolve_item(root).is_toplevel(&ctx));
}

#[test]
fn anonymous_items_are_named_by_identifier() {
    let mut ctx = Context::new(Options::new());
    let root = ctx.root_module();
    let anonymous_module = add(&mut ctx, root, module(None, ModuleKind::Normal));
    let pointee = add(&mut ctx, root, ty(Some("int"), int32()));
    let pointer = add(&mut ctx, anonymous_module, ty(None, TypeKind::Pointer(pointee)));
    let en = add(
        &mut ctx,
        anonymous_module,
        ty(None, TypeKind::Enum(EnumInfo { repr: None, variants: Vec::new() })),
    );
    let st = add(&mut ctx, anonymous_module, record(None));
    assert!(ctx.begin_codegen());

    assert_eq!(Item::exposed_id(&mut ctx, anonymous_module), format!("id_{}", anonymous_module.0));
    assert_eq!(
        Item::base_name(&mut ctx, anonymous_module),
        format!("_bindgen_mod_id_{}", anonymous_module.0)
    );
    assert_eq!(Item::base_name(&mut ctx, pointer), format!("_bindgen_ty_id_{}", pointer.0));
    assert_eq!(Item::given_name(&ctx, pointer), None);
    assert_eq!(Item::given_name(&ctx, pointee), Some("int".to_string()));
    // Local identifiers are handed out in the order of the queries.
    assert_eq!(Item::base_name(&mut ctx, st), "_bindgen_ty_1");
    assert_eq!(Item::base_name(&mut ctx, en), "_bindgen_ty_2");
    assert_eq!(Item::local_id(&mut ctx, st), 1);
    assert_eq!(Item::local_id(&mut ctx, en), 2);
    assert_eq!(Item::base_name(&mut ctx, st), "_bindgen_ty_1");
    assert_eq!(
        st.canonical_name(&mut ctx),
        format!("_bindgen_mod_id_{}__bindgen_ty_1", anonymous_module.0)
    );
    assert_eq!(ctx.local_ids[st.0], Some(1));
    assert_eq!(ctx.next_child_local_ids[anonymous_module.0], 3);
}

#[test]
fn anonymous_siblings_get_different_names() {
    let mut ctx = Context::new(Options::new());
    let root = ctx.root_module();
    let a = add(&mut ctx, root, module(Some("a"), ModuleKind::Normal));
    let b = add(&mut ctx, root, module(Some("b"), ModuleKind::Normal));
    let a1 = add(&mut ctx, a, record(None));
    let a2 = add(&mut ctx, a, record(None));
    let b1 = add(&mut ctx, b, record(None));
    assert!(ctx.begin_codegen());
    let n2 = Item::base_name(&mut ctx, a2);
    let n1 = Item::base_name(&mut ctx, a1);
    let m1 = Item::base_name(&mut ctx, b1);
    assert_ne!(n1, n2);
    assert_eq!(n2, "_bindgen_ty_1");
    assert_eq!(n1, "_bindgen_ty_2");
    // Each parent counts for itself.
    assert_eq!(m1, "_bindgen_ty_1");
    assert_ne!(a1.canonical_name(&mut ctx), a2.canonical_name(&mut ctx));
}

#[test]
fn the_canonical_name_is_cached() {
    let mut ctx = Context::new(Options::new());
    let root = ctx.root_module();
    let n = add(&mut ctx, root, module(Some("n"), ModuleKind::Normal));
    let s = add(&mut ctx, n, record(Some("S")));
    assert!(ctx.begin_codegen());
    assert_eq!(ctx.canonical_names[s.0], None);
    let first = s.canonical_name(&mut ctx);
    assert_eq!(first, "n_S");
    assert_eq!(ctx.canonical_names[s.0], Some("n_S".to_string()));
    let locals = ctx.local_ids.clone();
    let second = s.canonical_name(&mut ctx);
    assert_eq!(second, first);
    assert_eq!(ctx.local_ids, locals);
    // The item gives the same name as its identifier does.
    let item = ctx.resolve_item(s).clone();
    assert_eq!(item.canonical_name(&mut ctx), "n_S");
    assert_eq!(item.canonical_path(&mut ctx), vec!["root", "n", "S"]);
}

#[test]
fn names_go_through_references_and_instantiations() {
    let mut ctx = Context::new(Options::new());
    let root = ctx.root_module();
    let n = add(&mut ctx, root, module(Some("n"), ModuleKind::Normal));
    let target = add(&mut ctx, n, record(Some("Target")));
    let reference = add(&mut ctx, root, ty(Some("alias"), TypeKind::ResolvedTypeRef(target)));
    let again = add(&mut ctx, root, ty(None, TypeKind::ResolvedTypeRef(reference)));
    let inst = add(
        &mut ctx,
        root,
        ty(
            Some("Target<int>"),
            TypeKind::TemplateInstantiation(TemplateInstantiation {
                definition: again,
                args: Vec::new(),
            }),
        ),
    );
    let overriding = add_annotated(
        &mut ctx,
        root,
        ty(Some("x"), TypeKind::ResolvedTypeRef(target)),
        replaces(&["n", "Other"]),
    );
    let through = add(&mut ctx, root, ty(None, TypeKind::ResolvedTypeRef(overriding)));
    assert!(ctx.begin_codegen());
    assert_eq!(Item::name_target(&ctx, target), target);
    assert_eq!(Item::name_target(&ctx, reference), target);
    assert_eq!(Item::name_target(&ctx, again), target);
    assert_eq!(Item::name_target(&ctx, inst), target);
    // The walk stops at the first item that replaces a declaration.
    assert_eq!(Item::name_target(&ctx, overriding), overriding);
    assert_eq!(Item::name_target(&ctx, through), overriding);
    assert_eq!(inst.canonical_name(&mut ctx), "n_Target");
    assert_eq!(again.canonical_path(&mut ctx), vec!["root", "n", "Target"]);
    assert_eq!(through.canonical_name(&mut ctx), "n_Other");
    assert_eq!(overriding.canonical_path(&mut ctx), vec!["root", "n", "Other"]);
    // Without namespaces the path of the replacement is one segment.
    assert_eq!(through.canonical_path(&mut ctx), vec!["root", "n_Other"]);
}

#[test]
fn a_replacement_is_named_by_the_last_segment_with_namespaces() {
    let mut ctx = Context::new(namespaces_on());
    let root = ctx.root_module();
    let n = add(&mut ctx, root, module(Some("n"), ModuleKind::Normal));
    let real =
        add_annotated(&mut ctx, n, record(Some("Real")), replaces(&["root", "n", "Fake"]));
    let var = add_annotated(
        &mut ctx,
        n,
        ItemKind::Var(Var::new("v".to_string(), real, false)),
        replaces(&["w"]),
    );
    assert!(ctx.begin_codegen());
    assert_eq!(real.canonical_name(&mut ctx), "Fake");
    assert_eq!(real.canonical_name(&mut ctx), "Fake");
    assert_eq!(var.canonical_name(&mut ctx), "w");
    assert_eq!(Item::base_name(&mut ctx, var), "w");
    assert_eq!(real.canonical_path(&mut ctx), vec!["root", "root", "n", "Fake"]);
}

#[test]
fn within_namespaces_leaves_the_modules_out() {
    let mut ctx = Context::new(Options::new());
    let root = ctx.root_module();
    let outer = add(&mut ctx, root, module(Some("outer"), ModuleKind::Normal));
    let inner = add(&mut ctx, outer, module(Some("inner"), ModuleKind::Normal));
    let s = add(&mut ctx, inner, record(Some("S")));
    let t = add(&mut ctx, s, record(Some("T")));
    assert!(ctx.begin_codegen());
    let item = ctx.resolve_item(t).clone();
    let mut opt = item.name();
    assert_eq!(item.name().get(&mut ctx), "outer_inner_S_T");
    assert_eq!(opt.get(&mut ctx), "outer_inner_S_T");
    assert_eq!(opt.within_namespaces().get(&mut ctx), "S_T");
    assert_eq!(NameOptions::new(inner).get(&mut ctx), "outer_inner");
    assert_eq!(Item::real_canonical_name(&mut ctx, t, &opt), "S_T");
    assert_eq!(t.canonical_name(&mut ctx), "outer_inner_S_T");
    // A record is no segment of a path: it is folded into the name.
    assert_eq!(t.canonical_path(&mut ctx), vec!["root", "outer", "inner", "S_T"]);
    assert_eq!(t.namespace_aware_canonical_path(&mut ctx), vec!["outer_inner_S_T"]);
}

#[test]
fn inline_namespaces_collapse_in_paths() {
    let build = |options: Options| {
        let mut ctx = Context::new(options);
        let root = ctx.root_module();
        let outer = add(&mut ctx, root, module(Some("outer"), ModuleKind::Normal));
        let v1 = add(&mut ctx, outer, module(Some("v1"), ModuleKind::Inline));
        let s = add(&mut ctx, v1, record(Some("S")));
        assert!(ctx.begin_codegen());
        (ctx, s)
    };
    let (mut ctx, s) = build(namespaces_on());
    assert_eq!(s.canonical_path(&mut ctx), vec!["root", "outer", "S"]);
    // Names are not affected: only paths are.
    assert_eq!(s.canonical_name(&mut ctx), "S");
    let mut options = namespaces_on();
    options.conservative_inline_namespaces = true;
    let (mut ctx, s) = build(options);
    assert_eq!(s.canonical_path(&mut ctx), vec!["root", "outer", "v1", "S"]);
    let (mut ctx, s) = build(Options::new());
    assert_eq!(s.canonical_name(&mut ctx), "outer_v1_S");
}

#[test]
fn names_are_mangled_but_template_parameters_are_not() {
    let mut ctx = Context::new(Options::new());
    let root = ctx.root_module();
    let keyword = add(&mut ctx, root, record(Some("match")));
    let symbols = add(&mut ctx, root, ItemKind::Var(Var::new("?x@@3HA".to_string(), keyword, false)));
    let named = add(&mut ctx, root, ItemKind::Type(Type::named("type".to_string())));
    let alias = add(&mut ctx, root, ty(Some("fn"), TypeKind::Alias(named)));
    assert!(ctx.begin_codegen());
    assert_eq!(keyword.canonical_name(&mut ctx), "match_");
    assert_eq!(symbols.canonical_name(&mut ctx), "_x__3HA_");
    assert_eq!(named.canonical_name(&mut ctx), "type");
    // An alias of a parameter stands for the parameter.
    assert_eq!(alias.as_named(&ctx), Some(named));
    assert_eq!(alias.canonical_name(&mut ctx), "fn");
    assert_eq!(keyword.as_named(&ctx), None);
}

#[test]
fn overload_indices() {
    let mut ctx = Context::new(Options::new());
    let root = ctx.root_module();
    let record_id = ctx.next_item_id();
    let sig = add(&mut ctx, root, ty(None, TypeKind::Void));
    let function = |name: &str| {
        ItemKind::Function(Function::new(name.to_string(), None, sig, FunctionKind::Function))
    };
    let f = add(&mut ctx, record_id, function("f"));
    let g = add(&mut ctx, record_id, function("g"));
    let f2 = add(&mut ctx, record_id, function("f"));
    let c0 = add(&mut ctx, record_id, function("C"));
    let c1 = add(&mut ctx, record_id, function("C"));
    let unlisted = add(&mut ctx, record_id, function("f"));
    let free = add(&mut ctx, root, function("f"));
    let mut ci = comp();
    for m in [f, g, f2] {
        ci.methods.push(Method { kind: MethodKind::Normal, signature: m });
    }
    ci.constructors = vec![c0, c1];
    ctx.add_item(Item::new(record_id, None, None, root, ty(Some("C"), TypeKind::Comp(ci))), None);
    assert!(ctx.begin_codegen());
    assert_eq!(Item::overload_index(&ctx, f), Some(0));
    assert_eq!(Item::overload_index(&ctx, g), Some(0));
    assert_eq!(Item::overload_index(&ctx, f2), Some(1));
    assert_eq!(Item::overload_index(&ctx, c0), Some(0));
    assert_eq!(Item::overload_index(&ctx, c1), Some(1));
    assert_eq!(Item::overload_index(&ctx, unlisted), None);
    assert_eq!(Item::overload_index(&ctx, free), None);
    assert_eq!(Item::overload_index(&ctx, sig), None);
    assert_eq!(Item::base_name(&mut ctx, f), "f");
    assert_eq!(Item::base_name(&mut ctx, f2), "f1");
    assert_eq!(Item::base_name(&mut ctx, g), "g");
    assert_eq!(Item::base_name(&mut ctx, c1), "C1");
    assert_eq!(Item::base_name(&mut ctx, unlisted), "f");
    assert_ne!(Item::base_name(&mut ctx, f), Item::base_name(&mut ctx, f2));
    assert_eq!(f2.canonical_name(&mut ctx), "C_f1");
    assert_eq!(free.canonical_name(&mut ctx), "f");
}

#[test]
fn ancestors_walk_up_to_the_root() {
    let mut ctx = Context::new(Options::new());
    let root = ctx.root_module();
    let a = add(&mut ctx, root, module(Some("a"), ModuleKind::Normal));
    let b = add(&mut ctx, a, module(Some("b"), ModuleKind::Normal));
    let s = add(&mut ctx, b, record(Some("S")));
    assert_eq!(ctx.ancestors_of(s), vec![s, b, a]);
    assert_eq!(ctx.ancestors_of(a), vec![a]);
    assert_eq!(ctx.ancestors_of(root), Vec::<ItemId>::new());
    // An identifier that names no item has no ancestors.
    assert_eq!(ctx.ancestors_of(ItemId(99)), Vec::<ItemId>::new());

    let mut walk = s.ancestors(&ctx);
    assert_eq!(walk.next(), Some(s));
    assert_eq!(walk.next(), Some(b));
    assert_eq!(walk.next(), Some(a));
    assert_eq!(walk.next(), None);
    assert_eq!(walk.next(), None);
    let mut walk = ctx.resolve_item(b).ancestors(&ctx);
    assert_eq!(walk.next(), Some(b));
    let mut walk = ItemAncestorsIter::new(&ctx, root);
    assert_eq!(walk.next(), None);
    assert!(ctx.reaches_root(s));
    assert!(!ctx.reaches_root(ItemId(99)));
}

#[test]
fn a_walk_over_a_cycle_ends() {
    let mut ctx = Context::new(Options::new());
    let x = ctx.next_item_id();
    let y = ctx.next_item_id();
    ctx.add_item(Item::new(x, None, None, y, module(Some("x"), ModuleKind::Normal)), None);
    ctx.add_item(Item::new(y, None, None, x, module(Some("y"), ModuleKind::Normal)), None);
    let walk = ctx.ancestors_of(x);
    assert_eq!(walk.len(), ctx.items.len());
    assert_eq!(walk, vec![x, y, x]);
    assert!(!ctx.reaches_root(x));
    assert!(!ctx.resolve_item(x).is_toplevel(&ctx));
    assert!(!ctx.begin_codegen());
}

#[test]
fn toplevel_items() {
    let build = |options: Options| {
        let mut ctx = Context::new(options);
        let root = ctx.root_module();
        let n = add(&mut ctx, root, module(Some("n"), ModuleKind::Normal));
        let m = add(&mut ctx, n, module(Some("m"), ModuleKind::Normal));
        let s = add(&mut ctx, m, record(Some("S")));
        let inner = add(&mut ctx, s, record(Some("Inner")));
        let top = add(&mut ctx, root, record(Some("Top")));
        let orphan = ctx.next_item_id();
        let dangling = ctx.next_item_id();
        ctx.add_item(Item::new(dangling, None, None, orphan, record(Some("D"))), None);
        (ctx, [root, n, m, s, inner, top, dangling])
    };
    let (ctx, ids) = build(Options::new());
    let is = |i: usize| ctx.resolve_item(ids[i]).is_toplevel(&ctx);
    // Without namespaces modules are transparent.
    assert_eq!(
        [is(0), is(1), is(2), is(3), is(4), is(5), is(6)],
        [true, true, true, true, false, true, false]
    );
    let (ctx, ids) = build(namespaces_on());
    let is = |i: usize| ctx.resolve_item(ids[i]).is_toplevel(&ctx);
    assert_eq!(
        [is(0), is(1), is(2), is(3), is(4), is(5), is(6)],
        [true, false, false, false, false, true, false]
    );
}

#[test]
fn item_accessors() {
    let mut a = Annotations::new();
    a.hidden = true;
    let mut item = Item::new(
        ItemId(3),
        Some("/// doc".to_string()),
        Some(a),
        ItemId(1),
        module(Some("m"), ModuleKind::Normal),
    );
    assert_eq!(item.id(), ItemId(3));
    assert_eq!(item.id().as_usize(), 3);
    let by_ref: &ItemId = item.as_ref();
    assert_eq!(*by_ref, ItemId(3));
    assert_eq!(item.parent_id(), ItemId(1));
    assert_eq!(item.comment(), Some("/// doc"));
    assert!(item.annotations().hidden());
    assert!(!item.annotations().opaque());
    assert!(item.annotations().use_instead_of().is_none());
    assert!(item.is_module());
    assert!(item.kind().is_module());
    assert!(!item.is_var());
    assert!(!item.is_type_ref());
    assert!(item.as_type().is_none());
    assert!(item.func_name().is_none());
    assert_eq!(item.as_module().unwrap().name().map(|s| s.as_str()), Some("m"));
    assert!(!item.as_module().unwrap().is_inline());
    item.as_module_mut().unwrap().kind = ModuleKind::Inline;
    assert!(item.as_module().unwrap().is_inline());
    item.set_parent_for_replacement(ItemId(7));
    assert_eq!(item.parent_id(), ItemId(7));
    assert_eq!(item.id(), ItemId(3));
    *item.kind_mut() = ty(Some("t"), TypeKind::ResolvedTypeRef(ItemId(1)));
    assert!(item.is_type_ref());
    assert!(item.as_module().is_none());
    assert!(item.as_module_mut().is_none());
    assert_eq!(item.expect_type().name().map(|s| s.as_str()), Some("t"));
    assert!(!item.expect_type().is_const());
    *item.kind_mut() =
        ItemKind::Function(Function::new("f".to_string(), None, ItemId(2), FunctionKind::Function));
    assert_eq!(item.expect_function().name(), "f");
    assert_eq!(item.expect_function().signature(), ItemId(2));
    assert_eq!(item.func_name().map(|s| s.as_str()), Some("f"));
    let plain = Item::new(ItemId(4), None, None, ItemId(0), ty(None, int32()));
    assert_eq!(plain.comment(), None);
    assert!(!plain.annotations().hidden());
    assert_eq!(plain.name().item, ItemId(4));
    assert!(!plain.name().within_namespaces);
}

#[test]
fn template_parameters_of_a_declaration() {
    let mut ctx = Context::new(Options::new());
    let root = ctx.root_module();
    let t = add(&mut ctx, root, ItemKind::Type(Type::named("T".to_string())));
    let u = add(&mut ctx, root, ItemKind::Type(Type::named("U".to_string())));
    let mut ci = comp();
    ci.template_params = vec![t, u];
    let templated = add(&mut ctx, root, ty(Some("V"), TypeKind::Comp(ci)));
    let plain = add(&mut ctx, root, record(Some("P")));
    let reference = add(&mut ctx, root, ty(None, TypeKind::ResolvedTypeRef(templated)));
    let alias = add(&mut ctx, root, ty(Some("A"), TypeKind::TemplateAlias(plain, vec![u])));
    let to_param = add(&mut ctx, root, ty(None, TypeKind::ResolvedTypeRef(t)));
    let var = add(&mut ctx, root, ItemKind::Var(Var::new("v".to_string(), templated, false)));
    assert_eq!(templated.self_template_params(&ctx), Some(vec![t, u]));
    assert_eq!(plain.self_template_params(&ctx), None);
    assert_eq!(reference.self_template_params(&ctx), Some(vec![t, u]));
    assert_eq!(alias.self_template_params(&ctx), Some(vec![u]));
    assert_eq!(var.self_template_params(&ctx), None);
    assert_eq!(ItemId(99).self_template_params(&ctx), None);
    assert_eq!(ctx.resolve_item(reference).self_template_params(&ctx), Some(vec![t, u]));
    assert_eq!(ctx.resolve_item(reference).kind().self_template_params(&ctx), Some(vec![t, u]));
    assert_eq!(ctx.resolve_item(t).as_named(&ctx), Some(t));
    assert_eq!(ctx.resolve_item(to_param).as_named(&ctx), Some(t));
    assert_eq!(ctx.resolve_item(to_param).kind().as_named(&ctx, ctx.resolve_item(to_param)), Some(t));
    assert_eq!(ctx.resolve_item(var).as_named(&ctx), None);
    assert_eq!(to_param.as_named(&ctx), Some(t));
    assert_eq!(ItemId(99).as_named(&ctx), None);
}

#[test]
fn a_cached_name_survives_other_queries() {
    let mut ctx = Context::new(Options::new());
    let root = ctx.root_module();
    let n = add(&mut ctx, root, module(Some("n"), ModuleKind::Normal));
    let a1 = add(&mut ctx, n, record(None));
    let a2 = add(&mut ctx, n, record(None));
    let s = add(&mut ctx, n, record(Some("S")));
    assert!(ctx.begin_codegen());
    let name = a2.canonical_name(&mut ctx);
    assert_eq!(name, "n__bindgen_ty_1");
    let cached = ctx.canonical_names[a2.0].clone();
    assert_eq!(cached, Some(name.clone()));
    // Whatever is asked in between, of this item or of others.
    assert_eq!(a1.canonical_name(&mut ctx), "n__bindgen_ty_2");
    assert_eq!(s.canonical_path(&mut ctx), vec!["root", "n", "S"]);
    assert_eq!(Item::base_name(&mut ctx, a2), "_bindgen_ty_1");
    assert_eq!(Item::local_id(&mut ctx, a1), 2);
    assert!(Item::can_derive_debug(&mut ctx, a2));
    assert!(!Item::is_hidden(&mut ctx, a2));
    assert!(!Item::is_opaque(&mut ctx, a1));
    let _ = Item::trace(&mut ctx, n);
    assert_eq!(ctx.canonical_names[a2.0], cached);
    assert_eq!(a2.canonical_name(&mut ctx), name);
    assert_eq!(ctx.canonical_names[a1.0], Some("n__bindgen_ty_2".to_string()));
    assert_eq!(ctx.canonical_names[s.0], None);
}

#[test]
fn the_walk_up_passes_no_item_twice() {
    let mut ctx = Context::new(Options::new());
    let root = ctx.root_module();
    let a = add(&mut ctx, root, module(Some("a"), ModuleKind::Normal));
    let b = add(&mut ctx, a, module(Some("b"), ModuleKind::Normal));
    let s = add(&mut ctx, b, record(Some("S")));
    let inner = add(&mut ctx, s, record(Some("Inner")));
    let other = add(&mut ctx, root, record(Some("Other")));
    assert!(ctx.begin_codegen());
    for id in [root, a, b, s, inner, other] {
        let walk = ctx.ancestors_of(id);
        assert!(walk.len() < ctx.items.len());
        assert!(!walk.contains(&root));
        for (k, x) in walk.iter().enumerate() {
            assert!(!walk[..k].contains(x));
        }
    }
    assert_eq!(ctx.ancestors_of(inner), vec![inner, s, b, a]);
}

#[test]
fn overloads_get_different_canonical_names() {
    let mut ctx = Context::new(Options::new());
    let root = ctx.root_module();
    let record_id = ctx.next_item_id();
    let sig = add(&mut ctx, root, ty(None, TypeKind::Void));
    let function = |name: &str| {
        ItemKind::Function(Function::new(name.to_string(), None, sig, FunctionKind::Function))
    };
    let f = add(&mut ctx, record_id, function("f"));
    let f1 = add(&mut ctx, record_id, function("f"));
    let odd = add(&mut ctx, record_id, function("g$"));
    let odd1 = add(&mut ctx, record_id, function("g$"));
    let nameless = add(&mut ctx, record_id, function(""));
    let nameless1 = add(&mut ctx, record_id, function(""));
    let c0 = add(&mut ctx, record_id, function("C"));
    let c1 = add(&mut ctx, record_id, function("C"));
    let c2 = add(&mut ctx, record_id, function("C"));
    let mut ci = comp();
    for m in [f, f1, odd, odd1, nameless, nameless1] {
        ci.methods.push(Method { kind: MethodKind::Normal, signature: m });
    }
    ci.constructors = vec![c0, c1, c2];
    ctx.add_item(Item::new(record_id, None, None, root, ty(Some("C"), TypeKind::Comp(ci))), None);
    assert!(ctx.begin_codegen());
    assert_eq!(f.canonical_name(&mut ctx), "C_f");
    assert_eq!(f1.canonical_name(&mut ctx), "C_f1");
    // A name that is mangled keeps its index.
    assert_eq!(odd.canonical_name(&mut ctx), "C_g__");
    assert_eq!(odd1.canonical_name(&mut ctx), "C_g_1_");
    // A function without a name is named by its scope alone.
    assert_eq!(nameless.canonical_name(&mut ctx), "C");
    assert_eq!(nameless1.canonical_name(&mut ctx), "C_1");
    assert_eq!(c0.canonical_name(&mut ctx), "C_C");
    assert_eq!(c1.canonical_name(&mut ctx), "C_C1");
    assert_eq!(c2.canonical_name(&mut ctx), "C_C2");
}
