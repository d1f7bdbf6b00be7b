use bindgen_ir::annotations::Annotations;
use bindgen_ir::context::Context;
use bindgen_ir::item::Item;
use bindgen_ir::item_kind::{Function, FunctionKind, ItemKind, Module, ModuleKind, Var};
use bindgen_ir::layout::Layout;
use bindgen_ir::options::Options;
use bindgen_ir::traversal::{edges_of, Edge, EdgeKind};
use bindgen_ir::ty::{
    CompInfo, CompKind, EnumInfo, Field, FunctionSig, ItemId, Method, MethodKind,
    TemplateInstantiation, Type, TypeKind,
};

fn add(ctx: &mut Context, parent: ItemId, kind: ItemKind) -> ItemId {
    let id = ctx.next_item_id();
    ctx.add_item(Item::new(id, None, None, parent, kind), None);
    id
}

fn add_annotated(ctx: &mut Context, parent: ItemId, kind: ItemKind, a: Annotations) -> ItemId {
    let id = ctx.next_item_id();
    ctx.add_item(Item::new(id, None, Some(a), parent, kind), None);
    id
}

fn module(name: &str) -> ItemKind {
    ItemKind::Module(Module::new(Some(name.to_string()), ModuleKind::Normal))
}

fn ty(name: Option<&str>, kind: TypeKind) -> ItemKind {
    ItemKind::Type(Type::new(name.map(|n| n.to_string()), None, kind, false))
}

fn number() -> TypeKind {
    TypeKind::Int { bits: 32, signed: true }
}

fn comp() -> CompInfo {
    CompInfo {
        kind: CompKind::Struct,
        fields: Vec::new(),
        template_params: Vec::new(),
        methods: Vec::new(),
        constructors: Vec::new(),
        base_members: Vec::new(),
        inner_types: Vec::new(),
    }
}

fn path(segments: &[&str]) -> Vec<String> {
    segments.iter().map(|s| s.to_string()).collect()
}

fn with_patterns(hidden: &[&str], opaque: &[&str]) -> Options {
    let mut options = Options::new();
    options.enable_cxx_namespaces = true;
    options.hidden_types = path(hidden);
    options.opaque_types = path(opaque);
    options
}

fn edge(to: ItemId, kind: EdgeKind) -> Edge {
    Edge { to, kind }
}

#[test]
fn patterns_match_whole_paths_below_the_root() {
    let mut ctx = Context::new(with_patterns(&["foo::.*", "Exact"], &["bar::B[a-z]+"]));
    assert!(ctx.begin_codegen());
    let id = ItemId(0);
    assert!(ctx.hidden_by_name(&path(&["root", "foo", "Bar"]), id));
    assert!(ctx.hidden_by_name(&path(&["root", "Exact"]), id));
    // A pattern has to match the whole path, and the path the whole pattern.
    assert!(!ctx.hidden_by_name(&path(&["root", "Exactly"]), id));
    assert!(!ctx.hidden_by_name(&path(&["root", "n", "Exact"]), id));
    assert!(!ctx.hidden_by_name(&path(&["root", "foo"]), id));
    assert!(!ctx.hidden_by_name(&path(&["root"]), id));
    assert!(ctx.opaque_by_name(&path(&["root", "bar", "Baz"])));
    assert!(!ctx.opaque_by_name(&path(&["root", "bar", "B"])));
    assert!(!ctx.opaque_by_name(&path(&["root", "foo", "Bar"])));
}

#[test]
fn no_patterns_hide_nothing() {
    let mut ctx = Context::new(Options::new());
    assert!(ctx.begin_codegen());
    assert!(!ctx.hidden_by_name(&path(&["root", "foo", "Bar"]), ItemId(0)));
    assert!(!ctx.opaque_by_name(&path(&["root", "foo", "Bar"])));
}

#[test]
fn a_set_that_does_not_compile_matches_nothing() {
    let mut ctx = Context::new(with_patterns(&["Bar", "(unclosed"], &["Bar"]));
    assert!(ctx.begin_codegen());
    assert!(!ctx.hidden_by_name(&path(&["root", "Bar"]), ItemId(0)));
    assert!(ctx.opaque_by_name(&path(&["root", "Bar"])));
}

#[test]
fn the_last_replacement_of_a_path_counts() {
    let mut ctx = Context::new(Options::new());
    ctx.replace(path(&["root", "n", "X"]), ItemId(5));
    ctx.replace(path(&["root", "n", "Y"]), ItemId(6));
    ctx.replace(path(&["root", "n", "X"]), ItemId(7));
    assert!(ctx.begin_codegen());
    assert!(ctx.hidden_by_name(&path(&["root", "n", "X"]), ItemId(5)));
    assert!(!ctx.hidden_by_name(&path(&["root", "n", "X"]), ItemId(7)));
    assert!(!ctx.hidden_by_name(&path(&["root", "n", "Y"]), ItemId(6)));
    assert!(ctx.hidden_by_name(&path(&["root", "n", "Y"]), ItemId(7)));
    assert!(!ctx.hidden_by_name(&path(&["root", "n"]), ItemId(7)));
}

#[test]
fn hidden_and_opaque_items() {
    let mut ctx = Context::new(with_patterns(&["n::Hidden.*"], &["n::Blob"]));
    let root = ctx.root_module();
    let n = add(&mut ctx, root, module("n"));
    let hidden_by_name = add(&mut ctx, n, ty(Some("HiddenThing"), TypeKind::Comp(comp())));
    let mut a = Annotations::new();
    a.hidden = true;
    let hidden_by_annotation = add_annotated(&mut ctx, n, ty(None, TypeKind::Comp(comp())), a);
    let seen = add(&mut ctx, n, ty(Some("Seen"), TypeKind::Comp(comp())));
    let blob_by_name = add(&mut ctx, n, ty(Some("Blob"), TypeKind::Comp(comp())));
    let blob_by_kind = add(&mut ctx, n, ItemKind::Type(Type::opaque(Some(Layout::new(4, 4)), false)));
    let mut a = Annotations::new();
    a.opaque = true;
    let blob_by_annotation = add_annotated(&mut ctx, n, ty(None, TypeKind::Comp(comp())), a);
    assert!(ctx.begin_codegen());

    assert!(Item::is_hidden(&mut ctx, hidden_by_name));
    assert!(Item::is_hidden(&mut ctx, hidden_by_annotation));
    assert!(!Item::is_hidden(&mut ctx, seen));
    assert!(!Item::is_hidden(&mut ctx, n));
    assert!(Item::is_opaque(&mut ctx, blob_by_name));
    assert!(Item::is_opaque(&mut ctx, blob_by_kind));
    assert!(Item::is_opaque(&mut ctx, blob_by_annotation));
    assert!(!Item::is_opaque(&mut ctx, seen));
    // The annotation decides without the path being computed, so the
    // anonymous record was given no local identifier.
    assert_eq!(ctx.local_ids[hidden_by_annotation.0], None);
    assert_eq!(ctx.local_ids[blob_by_annotation.0], None);
}

#[test]
fn edges_by_kind() {
    let a = ItemId(10);
    let b = ItemId(11);
    let c = ItemId(12);
    let of = |kind: TypeKind| edges_of(&Item::new(ItemId(1), None, None, ItemId(0), ty(None, kind)));
    assert_eq!(of(TypeKind::Void), vec![]);
    assert_eq!(of(number()), vec![]);
    assert_eq!(of(TypeKind::Named), vec![]);
    assert_eq!(of(TypeKind::Opaque), vec![]);
    assert_eq!(of(TypeKind::Pointer(a)), vec![edge(a, EdgeKind::TypeReference)]);
    assert_eq!(of(TypeKind::Reference(a)), vec![edge(a, EdgeKind::TypeReference)]);
    assert_eq!(of(TypeKind::Array(a, 3)), vec![edge(a, EdgeKind::TypeReference)]);
    assert_eq!(of(TypeKind::Alias(a)), vec![edge(a, EdgeKind::TypeReference)]);
    assert_eq!(of(TypeKind::ResolvedTypeRef(a)), vec![edge(a, EdgeKind::TypeReference)]);
    assert_eq!(
        of(TypeKind::TemplateAlias(a, vec![b, c])),
        vec![
            edge(a, EdgeKind::TypeReference),
            edge(b, EdgeKind::TemplateParameterDefinition),
            edge(c, EdgeKind::TemplateParameterDefinition),
        ]
    );
    assert_eq!(
        of(TypeKind::TemplateInstantiation(TemplateInstantiation { definition: a, args: vec![b] })),
        vec![edge(a, EdgeKind::TemplateDeclaration), edge(b, EdgeKind::TemplateArgument)]
    );
    assert_eq!(
        of(TypeKind::Function(FunctionSig {
            return_type: a,
            argument_types: vec![b, c],
            is_variadic: false,
        })),
        vec![
            edge(a, EdgeKind::FunctionReturn),
            edge(b, EdgeKind::FunctionParameter),
            edge(c, EdgeKind::FunctionParameter),
        ]
    );
    assert_eq!(
        of(TypeKind::Enum(EnumInfo { repr: Some(a), variants: Vec::new() })),
        vec![edge(a, EdgeKind::Generic)]
    );
    assert_eq!(of(TypeKind::Enum(EnumInfo { repr: None, variants: Vec::new() })), vec![]);
    let ci = CompInfo {
        kind: CompKind::Struct,
        fields: vec![Field { name: Some("f".to_string()), ty: ItemId(3) }],
        template_params: vec![ItemId(1)],
        methods: vec![Method { kind: MethodKind::Normal, signature: ItemId(5) }],
        constructors: vec![ItemId(6)],
        base_members: vec![ItemId(2)],
        inner_types: vec![ItemId(4)],
    };
    assert_eq!(
        of(TypeKind::Comp(ci)),
        vec![
            edge(ItemId(1), EdgeKind::TemplateParameterDefinition),
            edge(ItemId(2), EdgeKind::BaseMember),
            edge(ItemId(3), EdgeKind::Field),
            edge(ItemId(4), EdgeKind::InnerType),
            edge(ItemId(5), EdgeKind::Method),
            edge(ItemId(6), EdgeKind::Constructor),
        ]
    );
    let function = Item::new(
        ItemId(1),
        None,
        None,
        ItemId(0),
        ItemKind::Function(Function::new("f".to_string(), None, a, FunctionKind::Function)),
    );
    assert_eq!(edges_of(&function), vec![edge(a, EdgeKind::FunctionSignature)]);
    let var =
        Item::new(ItemId(1), None, None, ItemId(0), ItemKind::Var(Var::new("v".to_string(), b, true)));
    assert_eq!(edges_of(&var), vec![edge(b, EdgeKind::VarType)]);
    assert_eq!(edges_of(&Item::new(ItemId(1), None, None, ItemId(0), module("m"))), vec![]);
}

#[test]
fn tracing_follows_what_is_neither_hidden_nor_opaque() {
    let mut ctx = Context::new(with_patterns(&[], &[]));
    let root = ctx.root_module();
    let n = add(&mut ctx, root, module("n"));
    let number = add(&mut ctx, root, ty(Some("int"), number()));
    let mut with_field = comp();
    with_field.fields.push(Field { name: None, ty: number });
    let seen = add(&mut ctx, n, ty(Some("Seen"), TypeKind::Comp(with_field.clone())));
    let mut a = Annotations::new();
    a.hidden = true;
    let hidden = add_annotated(&mut ctx, n, ty(Some("H"), TypeKind::Comp(with_field.clone())), a);
    let mut a = Annotations::new();
    a.opaque = true;
    let blob = add_annotated(&mut ctx, n, ty(Some("B"), TypeKind::Comp(with_field.clone())), a);
    let mut a = Annotations::new();
    a.opaque = true;
    let reference = add_annotated(&mut ctx, n, ty(Some("R"), TypeKind::ResolvedTypeRef(seen)), a);
    let var = add(&mut ctx, n, ItemKind::Var(Var::new("v".to_string(), seen, false)));
    let sig = add(
        &mut ctx,
        root,
        ty(
            None,
            TypeKind::Function(FunctionSig {
                return_type: number,
                argument_types: Vec::new(),
                is_variadic: false,
            }),
        ),
    );
    let mut a = Annotations::new();
    a.opaque = true;
    let function = add_annotated(
        &mut ctx,
        n,
        ItemKind::Function(Function::new("f".to_string(), None, sig, FunctionKind::Function)),
        a,
    );
    assert!(ctx.begin_codegen());
    assert_eq!(Item::trace(&mut ctx, seen), vec![edge(number, EdgeKind::Field)]);
    assert_eq!(Item::trace(&mut ctx, hidden), vec![]);
    assert_eq!(Item::trace(&mut ctx, blob), vec![]);
    // A resolved reference leads on even where it is opaque.
    assert_eq!(Item::trace(&mut ctx, reference), vec![edge(seen, EdgeKind::TypeReference)]);
    assert_eq!(Item::trace(&mut ctx, var), vec![edge(seen, EdgeKind::VarType)]);
    // It means nothing for a function to be opaque.
    assert_eq!(Item::trace(&mut ctx, function), vec![edge(sig, EdgeKind::FunctionSignature)]);
    assert_eq!(Item::trace(&mut ctx, sig), vec![edge(number, EdgeKind::FunctionReturn)]);
    // The children of a module are no edges of a walk; they are kept apart.
    assert_eq!(Item::trace(&mut ctx, n), vec![]);
    assert_eq!(
        Item::module_edges(&ctx, n),
        [seen, hidden, blob, reference, var, function]
            .iter()
            .map(|c| edge(*c, EdgeKind::ModuleChild))
            .collect::<Vec<Edge>>()
    );
    assert_eq!(
        Item::module_edges(&ctx, root),
        vec![
            edge(n, EdgeKind::ModuleChild),
            edge(number, EdgeKind::ModuleChild),
            edge(sig, EdgeKind::ModuleChild),
        ]
    );
    assert_eq!(Item::module_edges(&ctx, seen), vec![]);
}
