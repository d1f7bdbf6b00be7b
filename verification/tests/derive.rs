use bindgen_ir::annotations::Annotations;
use bindgen_ir::context::Context;
use bindgen_ir::derive::{members_of, rule_of, DeriveTrait, Rule};
use bindgen_ir::item::Item;
use bindgen_ir::item_kind::{ItemKind, Module, ModuleKind, Var};
use bindgen_ir::layout::Layout;
use bindgen_ir::options::Options;
use bindgen_ir::ty::{
    CompInfo, CompKind, EnumInfo, Field, ItemId, TemplateInstantiation, Type, TypeKind,
};

fn add(ctx: &mut Context, parent: ItemId, kind: ItemKind) -> ItemId {
    let id = ctx.next_item_id();
    ctx.add_item(Item::new(id, None, None, parent, kind), None);
    id
}

fn ty(name: Option<&str>, layout: Option<Layout>, kind: TypeKind) -> ItemKind {
    ItemKind::Type(Type::new(name.map(|n| n.to_string()), layout, kind, false))
}

fn comp(kind: CompKind, fields: &[ItemId]) -> TypeKind {
    TypeKind::Comp(CompInfo {
        kind,
        fields: fields.iter().map(|f| Field { name: None, ty: *f }).collect(),
        template_params: Vec::new(),
        methods: Vec::new(),
        constructors: Vec::new(),
        base_members: Vec::new(),
        inner_types: Vec::new(),
    })
}

fn all_on() -> Options {
    let mut options = Options::new();
    options.derive_debug = true;
    options.derive_default = true;
    options
}

fn answers(ctx: &mut Context, id: ItemId) -> [bool; 4] {
    let r = [
        Item::can_derive_debug(ctx, id),
        Item::can_derive_default(ctx, id),
        Item::can_derive_copy(ctx, id),
        Item::can_derive_copy_in_array(ctx, id),
    ];
    // Every guard is down again.
    assert!(ctx.derive_debug_guard.iter().all(|g| !g));
    assert!(ctx.derive_copy_guard.iter().all(|g| !g));
    assert!(ctx.derive_default_guard.iter().all(|g| !g));
    r
}

#[test]
fn leaves() {
    let mut ctx = Context::new(all_on());
    let root = ctx.root_module();
    let int_ty = add(&mut ctx, root, ty(Some("int"), None, TypeKind::Int { bits: 32, signed: true }));
    let void = add(&mut ctx, root, ty(None, None, TypeKind::Void));
    let pointer = add(&mut ctx, root, ty(None, None, TypeKind::Pointer(int_ty)));
    let named = add(&mut ctx, root, ItemKind::Type(Type::named("T".to_string())));
    let en = add(
        &mut ctx,
        root,
        ty(Some("E"), None, TypeKind::Enum(EnumInfo { repr: Some(int_ty), variants: Vec::new() })),
    );
    let var = add(&mut ctx, root, ItemKind::Var(Var::new("v".to_string(), int_ty, false)));
    let module = add(
        &mut ctx,
        root,
        ItemKind::Module(Module::new(Some("m".to_string()), ModuleKind::Normal)),
    );
    assert!(ctx.begin_codegen());
    assert_eq!(answers(&mut ctx, int_ty), [true, true, true, true]);
    assert_eq!(answers(&mut ctx, void), [true, false, true, true]);
    assert_eq!(answers(&mut ctx, pointer), [true, false, true, true]);
    assert_eq!(answers(&mut ctx, named), [true, false, true, false]);
    assert_eq!(answers(&mut ctx, en), [true, false, true, true]);
    // What is no type derives nothing.
    assert_eq!(answers(&mut ctx, var), [false, false, false, false]);
    assert_eq!(answers(&mut ctx, module), [false, false, false, false]);
}

#[test]
fn the_configuration_rules_traits_out() {
    let mut options = Options::new();
    options.derive_debug = false;
    options.derive_default = false;
    let mut ctx = Context::new(options);
    let root = ctx.root_module();
    let int_ty = add(&mut ctx, root, ty(Some("int"), None, TypeKind::Int { bits: 32, signed: true }));
    assert!(ctx.begin_codegen());
    assert_eq!(answers(&mut ctx, int_ty), [false, false, true, true]);
    let defaults = Options::new();
    assert!(defaults.derive_debug);
    assert!(!defaults.derive_default);
}

#[test]
fn records_ask_their_members() {
    let mut ctx = Context::new(all_on());
    let root = ctx.root_module();
    let int_ty = add(&mut ctx, root, ty(Some("int"), None, TypeKind::Int { bits: 32, signed: true }));
    let pointer = add(&mut ctx, root, ty(None, None, TypeKind::Pointer(int_ty)));
    let plain = add(&mut ctx, root, ty(Some("Plain"), None, comp(CompKind::Struct, &[int_ty, int_ty])));
    let with_pointer =
        add(&mut ctx, root, ty(Some("P"), None, comp(CompKind::Struct, &[int_ty, pointer])));
    let nested = add(&mut ctx, root, ty(Some("N"), None, comp(CompKind::Struct, &[with_pointer])));
    let alias = add(&mut ctx, root, ty(Some("A"), None, TypeKind::Alias(nested)));
    let based = {
        let mut ci = match comp(CompKind::Struct, &[int_ty]) {
            TypeKind::Comp(ci) => ci,
            _ => unreachable!(),
        };
        ci.base_members.push(with_pointer);
        add(&mut ctx, root, ty(Some("B"), None, TypeKind::Comp(ci)))
    };
    assert!(ctx.begin_codegen());
    assert_eq!(answers(&mut ctx, plain), [true, true, true, true]);
    assert_eq!(answers(&mut ctx, with_pointer), [true, false, true, true]);
    assert_eq!(answers(&mut ctx, nested), [true, false, true, true]);
    assert_eq!(answers(&mut ctx, alias), [true, false, true, true]);
    assert_eq!(answers(&mut ctx, based), [true, false, true, true]);
}

#[test]
fn arrays_have_a_limit() {
    let mut ctx = Context::new(all_on());
    let root = ctx.root_module();
    let int_ty = add(&mut ctx, root, ty(Some("int"), None, TypeKind::Int { bits: 32, signed: true }));
    let small = add(&mut ctx, root, ty(None, None, TypeKind::Array(int_ty, 32)));
    let large = add(&mut ctx, root, ty(None, None, TypeKind::Array(int_ty, 33)));
    let named = add(&mut ctx, root, ItemKind::Type(Type::named("T".to_string())));
    let alias = add(&mut ctx, root, ty(Some("U"), None, TypeKind::Alias(named)));
    let of_params = add(&mut ctx, root, ty(None, None, TypeKind::Array(alias, 2)));
    let of_arrays = add(&mut ctx, root, ty(None, None, TypeKind::Array(small, 2)));
    assert!(ctx.begin_codegen());
    assert_eq!(answers(&mut ctx, small), [true, true, true, true]);
    assert_eq!(answers(&mut ctx, large), [false, false, true, true]);
    // A template parameter cannot be copied as an array element.
    assert_eq!(answers(&mut ctx, of_params), [true, false, false, false]);
    assert_eq!(answers(&mut ctx, alias), [true, false, true, false]);
    assert_eq!(answers(&mut ctx, of_arrays), [true, true, true, true]);
}

#[test]
fn opaque_items_answer_by_their_blob() {
    let mut ctx = Context::new(all_on());
    let root = ctx.root_module();
    let blob = |layout: Option<Layout>| ItemKind::Type(Type::opaque(layout, false));
    let small = add(&mut ctx, root, blob(Some(Layout::new(64, 8))));
    let bytes = add(&mut ctx, root, blob(Some(Layout::new(64, 1))));
    let odd = add(&mut ctx, root, blob(Some(Layout::new(32, 16))));
    let unknown = add(&mut ctx, root, blob(None));
    let int_ty = add(&mut ctx, root, ty(Some("int"), None, TypeKind::Int { bits: 32, signed: true }));
    let annotated = {
        let id = ctx.next_item_id();
        let mut a = Annotations::new();
        a.opaque = true;
        let kind = ty(Some("S"), Some(Layout::new(400, 4)), comp(CompKind::Struct, &[int_ty]));
        ctx.add_item(Item::new(id, None, Some(a), root, kind), None);
        id
    };
    let union_small =
        add(&mut ctx, root, ty(Some("U"), Some(Layout::new(8, 8)), comp(CompKind::Union, &[int_ty])));
    let union_large = add(
        &mut ctx,
        root,
        ty(Some("V"), Some(Layout::new(264, 8)), comp(CompKind::Union, &[int_ty])),
    );
    assert!(ctx.begin_codegen());
    assert_eq!(Layout::new(64, 8).opaque_units(), Some(8));
    assert_eq!(Layout::new(64, 1).opaque_units(), Some(64));
    assert_eq!(Layout::new(32, 16).opaque_units(), None);
    assert_eq!(Layout::new(2, 4).opaque_units(), Some(0));
    assert_eq!(Layout::zero().opaque_units(), None);
    assert!(Layout::new(32, 1).opaque_can_derive());
    assert!(!Layout::new(33, 1).opaque_can_derive());
    assert!(Layout::new(256, 8).opaque_can_derive());
    assert!(!Layout::new(264, 8).opaque_can_derive());
    assert!(!Layout::zero().opaque_can_derive());
    assert!(Item::is_opaque(&mut ctx, small));
    assert!(Item::is_opaque(&mut ctx, annotated));
    assert!(!Item::is_opaque(&mut ctx, int_ty));
    assert_eq!(answers(&mut ctx, small), [true, true, true, true]);
    assert_eq!(answers(&mut ctx, bytes), [false, false, false, false]);
    // A blob of an alignment that no integer has is no array.
    assert_eq!(answers(&mut ctx, odd), [false, false, false, false]);
    // Without a layout: yes for Debug and Copy, no for Default.
    assert_eq!(answers(&mut ctx, unknown), [true, false, true, true]);
    assert_eq!(answers(&mut ctx, annotated), [false, false, false, false]);
    assert_eq!(answers(&mut ctx, union_small), [true, true, true, true]);
    assert_eq!(answers(&mut ctx, union_large), [false, false, true, true]);
}

#[test]
fn queries_end_on_cycles() {
    let mut ctx = Context::new(all_on());
    let root = ctx.root_module();
    let int_ty = add(&mut ctx, root, ty(Some("int"), None, TypeKind::Int { bits: 32, signed: true }));
    let void = add(&mut ctx, root, ty(None, None, TypeKind::Void));
    // A record that holds a reference to itself.
    let a = ctx.next_item_id();
    let to_a = add(&mut ctx, root, ty(None, None, TypeKind::ResolvedTypeRef(a)));
    ctx.add_item(
        Item::new(a, None, None, root, ty(Some("A"), None, comp(CompKind::Struct, &[int_ty, to_a]))),
        None,
    );
    // Two records that hold each other, one of them with a member that
    // nothing can be derived for by default.
    let b = ctx.next_item_id();
    let c = ctx.next_item_id();
    ctx.add_item(
        Item::new(b, None, None, root, ty(Some("B"), None, comp(CompKind::Struct, &[c]))),
        None,
    );
    ctx.add_item(
        Item::new(c, None, None, root, ty(Some("C"), None, comp(CompKind::Struct, &[b, void]))),
        None,
    );
    // An alias of itself, an array of itself, an instantiation of itself.
    let alias = ctx.next_item_id();
    ctx.add_item(Item::new(alias, None, None, root, ty(Some("L"), None, TypeKind::Alias(alias))), None);
    let array = ctx.next_item_id();
    ctx.add_item(Item::new(array, None, None, root, ty(None, None, TypeKind::Array(array, 2))), None);
    let inst = ctx.next_item_id();
    let args = add(&mut ctx, root, ty(None, None, TypeKind::Alias(inst)));
    ctx.add_item(
        Item::new(
            inst,
            None,
            None,
            root,
            ty(
                Some("I"),
                None,
                TypeKind::TemplateInstantiation(TemplateInstantiation {
                    definition: a,
                    args: vec![args, int_ty],
                }),
            ),
        ),
        None,
    );
    assert!(ctx.begin_codegen());
    // A cycle is derivable if everything else in it is: yes for Debug and
    // Copy, and for Default the way back answers no.
    assert_eq!(answers(&mut ctx, a), [true, false, true, true]);
    assert_eq!(answers(&mut ctx, to_a), [true, false, true, true]);
    assert_eq!(answers(&mut ctx, b), [true, false, true, true]);
    assert_eq!(answers(&mut ctx, c), [true, false, true, true]);
    assert_eq!(answers(&mut ctx, alias), [true, false, true, true]);
    assert_eq!(answers(&mut ctx, array), [true, false, true, true]);
    assert_eq!(answers(&mut ctx, inst), [true, false, true, true]);
    assert_eq!(answers(&mut ctx, a), [true, false, true, true]);
}

#[test]
fn rules_and_members() {
    let int_ty = Type::new(None, None, TypeKind::Int { bits: 8, signed: false }, false);
    assert_eq!(rule_of(DeriveTrait::Debug, &int_ty), Rule::Const(true));
    assert_eq!(rule_of(DeriveTrait::Default, &int_ty), Rule::Const(true));
    let pointer = Type::new(None, None, TypeKind::Pointer(ItemId(1)), false);
    assert_eq!(rule_of(DeriveTrait::Default, &pointer), Rule::Const(false));
    assert_eq!(rule_of(DeriveTrait::Copy, &pointer), Rule::Const(true));
    let array = Type::new(None, None, TypeKind::Array(ItemId(1), 40), false);
    assert_eq!(rule_of(DeriveTrait::Debug, &array), Rule::Const(false));
    assert_eq!(rule_of(DeriveTrait::Copy, &array), Rule::InArray(ItemId(1)));
    let array = Type::new(None, None, TypeKind::Array(ItemId(1), 4), false);
    assert_eq!(rule_of(DeriveTrait::Default, &array), Rule::Follow(ItemId(1)));
    let record = Type::new(None, None, comp(CompKind::Struct, &[ItemId(3), ItemId(4)]), false);
    assert_eq!(rule_of(DeriveTrait::Debug, &record), Rule::Every);
    assert_eq!(members_of(&record), vec![ItemId(3), ItemId(4)]);
    let union = Type::new(None, Some(Layout::new(4, 4)), comp(CompKind::Union, &[ItemId(3)]), false);
    assert_eq!(rule_of(DeriveTrait::Debug, &union), Rule::Const(true));
    assert_eq!(rule_of(DeriveTrait::Copy, &union), Rule::Every);
    let inst = Type::new(
        None,
        None,
        TypeKind::TemplateInstantiation(TemplateInstantiation {
            definition: ItemId(5),
            args: vec![ItemId(6)],
        }),
        false,
    );
    assert_eq!(rule_of(DeriveTrait::Default, &inst), Rule::Const(false));
    assert_eq!(members_of(&inst), vec![ItemId(5), ItemId(6)]);
    assert_eq!(members_of(&int_ty), Vec::<ItemId>::new());
}
