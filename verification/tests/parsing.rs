use bindgen_ir::annotations::Annotations;
use bindgen_ir::clang::{
    ClangType, ClangTypeKind, Cursor, CursorId, CursorKind, TranslationUnit, TypeId,
};
use bindgen_ir::context::Context;
use bindgen_ir::item::Item;
use bindgen_ir::item_kind::{FunctionKind, ItemKind};
use bindgen_ir::layout::Layout;
use bindgen_ir::options::Options;
use bindgen_ir::from_ty::TypeStart;
use bindgen_ir::parse::{parse_one, ChildVisit, ParseError, ParseResult};
use bindgen_ir::ty::{ItemId, MethodKind, Type, TypeKind};

const DEPTH: usize = 64;

struct Builder {
    tu: TranslationUnit,
}

impl Builder {
    fn new() -> Builder {
        let mut b = Builder {
            tu: TranslationUnit { cursors: Vec::new(), types: Vec::new(), root: CursorId(0) },
        };
        b.ty(ClangTypeKind::Invalid, "", None);
        b.cursor(CursorKind::TranslationUnit, "", TypeId(0));
        b
    }

    fn ty(&mut self, kind: ClangTypeKind, spelling: &str, layout: Option<Layout>) -> TypeId {
        self.tu.types.push(ClangType {
            kind,
            spelling: spelling.to_string(),
            is_const: false,
            is_associated_type: false,
            declaration: None,
            layout,
            inner: None,
            num_elements: 0,
            result: None,
            arguments: Vec::new(),
            is_variadic: false,
        });
        TypeId(self.tu.types.len() - 1)
    }

    fn cursor(&mut self, kind: CursorKind, spelling: &str, ty: TypeId) -> CursorId {
        let id = CursorId(self.tu.cursors.len());
        self.tu.cursors.push(Cursor {
            kind,
            is_valid: true,
            spelling: spelling.to_string(),
            raw_comment: None,
            annotations: None,
            definition: None,
            referenced: None,
            canonical: id,
            children: Vec::new(),
            ty,
            underlying: None,
            enum_value: 0,
            is_inline_namespace: false,
        });
        id
    }

    fn child(&mut self, parent: CursorId, kind: CursorKind, spelling: &str, ty: TypeId) -> CursorId {
        let id = self.cursor(kind, spelling, ty);
        self.tu.cursors[parent.0].children.push(id);
        id
    }

    fn number(&mut self) -> TypeId {
        self.ty(ClangTypeKind::Int { bits: 32, signed: true }, "int", Some(Layout::new(4, 4)))
    }

    fn record(&mut self, parent: CursorId, name: &str) -> (CursorId, TypeId) {
        let ty = self.ty(ClangTypeKind::Record, name, Some(Layout::new(4, 4)));
        let decl = self.child(parent, CursorKind::StructDecl, name, ty);
        self.tu.types[ty.0].declaration = Some(decl);
        self.tu.cursors[decl.0].definition = Some(decl);
        (decl, ty)
    }

    fn function(&mut self, parent: CursorId, kind: CursorKind, name: &str) -> CursorId {
        let void = self.ty(ClangTypeKind::Void, "void", None);
        let sig = self.ty(ClangTypeKind::FunctionProto, "void ()", None);
        self.tu.types[sig.0].result = Some(void);
        self.child(parent, kind, name, sig)
    }
}

const ROOT: CursorId = CursorId(0);

fn kind_of(ctx: &Context, id: ItemId) -> &TypeKind {
    ctx.resolve_item(id).expect_type().kind()
}

fn only<'a>(ctx: &'a Context, pred: &dyn Fn(&Item) -> bool) -> &'a Item {
    let mut found = None;
    for item in ctx.items.iter().flatten() {
        if pred(item) {
            assert!(found.is_none());
            found = Some(item);
        }
    }
    found.expect("no item matches")
}

#[test]
fn a_unit_has_to_hang_together() {
    let mut b = Builder::new();
    assert!(b.tu.check());
    b.record(ROOT, "S");
    assert!(b.tu.check());
    let mut broken = b.tu.clone();
    broken.cursors[0].children.push(CursorId(17));
    assert!(!broken.check());
    let mut broken = b.tu.clone();
    broken.types[1].declaration = Some(CursorId(17));
    assert!(!broken.check());
    let mut broken = b.tu.clone();
    broken.cursors[1].ty = TypeId(17);
    assert!(!broken.check());
    let mut broken = b.tu.clone();
    broken.types[1].arguments.push(TypeId(17));
    assert!(!broken.check());
    let mut broken = b.tu.clone();
    broken.root = CursorId(17);
    assert!(!broken.check());
    assert_eq!(b.tu.cursor(CursorId(1)).spelling, "S");
    assert_eq!(b.tu.ty(TypeId(1)).kind, ClangTypeKind::Record);
}

#[test]
fn what_is_not_valid_is_skipped() {
    let mut b = Builder::new();
    let (decl, _) = b.record(ROOT, "S");
    b.tu.cursors[decl.0].is_valid = false;
    let mut ctx = Context::new(Options::new());
    assert_eq!(Item::parse(&b.tu, decl, None, &mut ctx, DEPTH), Err(ParseError::Continue));
    assert_eq!(ctx.items.len(), 1);
    b.tu.cursors[decl.0].is_valid = true;
    // Without depth nothing is parsed either.
    assert_eq!(Item::parse(&b.tu, decl, None, &mut ctx, 0), Err(ParseError::Continue));
    assert_eq!(ctx.items.len(), 1);
    assert!(Item::parse(&b.tu, decl, None, &mut ctx, DEPTH).is_ok());
}

#[test]
fn noise_is_skipped_and_linkage_blocks_are_taken_apart() {
    assert_eq!(Item::unhandled(CursorKind::UnexposedDecl), ParseError::Recurse);
    for kind in [
        CursorKind::MacroDefinition,
        CursorKind::MacroExpansion,
        CursorKind::UsingDeclaration,
        CursorKind::UsingDirective,
        CursorKind::StaticAssert,
        CursorKind::InclusionDirective,
        CursorKind::Other,
    ] {
        assert_eq!(Item::unhandled(kind), ParseError::Continue);
        let mut b = Builder::new();
        let c = b.child(ROOT, kind, "X", TypeId(0));
        let mut ctx = Context::new(Options::new());
        assert_eq!(Item::parse(&b.tu, c, None, &mut ctx, DEPTH), Err(ParseError::Continue));
    }
    // `extern "C" { void f(); }`
    let mut b = Builder::new();
    let block = b.child(ROOT, CursorKind::UnexposedDecl, "", TypeId(0));
    b.function(block, CursorKind::FunctionDecl, "f");
    let mut ctx = Context::new(Options::new());
    assert_eq!(Item::parse(&b.tu, block, None, &mut ctx, DEPTH), Err(ParseError::Recurse));
    assert_eq!(parse_one(&b.tu, &mut ctx, block, None, DEPTH), ChildVisit::Continue);
    let f = only(&ctx, &|item| item.func_name().is_some());
    assert_eq!(f.parent_id(), ctx.root_module());
    assert_eq!(f.expect_function().name(), "f");
}

#[test]
fn a_function_is_parsed_as_a_function() {
    let mut b = Builder::new();
    let f = b.function(ROOT, CursorKind::FunctionDecl, "f");
    b.tu.cursors[f.0].raw_comment = Some("/// does".to_string());
    let number = b.number();
    b.child(f, CursorKind::ParmDecl, "x", number);
    let mut ctx = Context::new(Options::new());
    let id = Item::parse(&b.tu, f, None, &mut ctx, DEPTH).unwrap();
    let item = ctx.resolve_item(id);
    assert_eq!(item.comment(), Some("/// does"));
    assert_eq!(item.expect_function().name(), "f");
    assert_eq!(item.expect_function().kind, FunctionKind::Function);
    let sig = item.expect_function().signature();
    match kind_of(&ctx, sig) {
        TypeKind::Function(sig) => {
            assert_eq!(sig.argument_types.len(), 1);
            assert!(matches!(kind_of(&ctx, sig.return_type), TypeKind::Void));
            assert!(matches!(
                kind_of(&ctx, sig.argument_types[0]),
                TypeKind::Int { bits: 32, signed: true }
            ));
            assert!(!sig.is_variadic);
        }
        other => panic!("the signature is {:?}", other),
    }
    let method = b.function(ROOT, CursorKind::CxxMethod, "m");
    let id = Item::parse(&b.tu, method, None, &mut ctx, DEPTH).unwrap();
    assert_eq!(
        ctx.resolve_item(id).expect_function().kind,
        FunctionKind::Method(MethodKind::Normal)
    );
    // A function without a name is no function.
    let nameless = b.function(ROOT, CursorKind::FunctionDecl, "");
    let id = Item::parse(&b.tu, nameless, None, &mut ctx, DEPTH).unwrap();
    assert!(ctx.resolve_item(id).as_type().is_some());
}

#[test]
fn variables_typedefs_enums_and_arrays() {
    let mut b = Builder::new();
    let number = b.number();
    let array = b.ty(ClangTypeKind::ConstantArray, "int [3]", Some(Layout::new(12, 4)));
    b.tu.types[array.0].inner = Some(number);
    b.tu.types[array.0].num_elements = 3;
    b.tu.types[array.0].is_const = true;
    let var = b.child(ROOT, CursorKind::VarDecl, "table", array);
    let alias_ty = b.ty(ClangTypeKind::Typedef, "word", Some(Layout::new(4, 4)));
    let alias = b.child(ROOT, CursorKind::TypedefDecl, "word", alias_ty);
    b.tu.types[alias_ty.0].declaration = Some(alias);
    b.tu.cursors[alias.0].underlying = Some(number);
    let enum_ty = b.ty(ClangTypeKind::Enum, "E", Some(Layout::new(4, 4)));
    let en = b.child(ROOT, CursorKind::EnumDecl, "E", enum_ty);
    b.tu.types[enum_ty.0].declaration = Some(en);
    b.tu.cursors[en.0].underlying = Some(number);
    let first = b.child(en, CursorKind::EnumConstantDecl, "A", enum_ty);
    b.tu.cursors[first.0].enum_value = -1;
    let second = b.child(en, CursorKind::EnumConstantDecl, "B", enum_ty);
    b.tu.cursors[second.0].enum_value = 7;
    let reference = b.ty(ClangTypeKind::Reference, "int &", Some(Layout::new(8, 8)));
    b.tu.types[reference.0].inner = Some(number);
    let by_ref = b.child(ROOT, CursorKind::VarDecl, "r", reference);
    assert!(b.tu.check());

    let mut ctx = Context::new(Options::new());
    ctx.parse_unit(&b.tu, DEPTH);
    ctx.resolve_typerefs(&b.tu, DEPTH);
    assert!(ctx.begin_codegen());
    let _ = (var, by_ref);

    let table = only(&ctx, &|item| match item.kind() {
        ItemKind::Var(v) => v.name() == "table",
        _ => false,
    });
    let v = match table.kind() {
        ItemKind::Var(v) => v,
        _ => unreachable!(),
    };
    assert!(v.is_const);
    match kind_of(&ctx, v.ty()) {
        TypeKind::Array(element, 3) => {
            assert!(matches!(kind_of(&ctx, *element), TypeKind::Int { .. }))
        }
        other => panic!("the table is {:?}", other),
    }
    assert_eq!(ctx.resolve_item(v.ty()).expect_type().layout(), Some(Layout::new(12, 4)));

    let word = only(&ctx, &|item| match item.kind() {
        ItemKind::Type(t) => matches!(t.kind(), TypeKind::Alias(_)),
        _ => false,
    });
    assert_eq!(word.expect_type().name().map(|s| s.as_str()), Some("word"));

    let e = only(&ctx, &|item| match item.kind() {
        ItemKind::Type(t) => matches!(t.kind(), TypeKind::Enum(_)),
        _ => false,
    });
    match e.expect_type().kind() {
        TypeKind::Enum(info) => {
            assert!(info.repr.is_some());
            let variants: Vec<(&str, i64)> =
                info.variants.iter().map(|v| (v.name.as_str(), v.value)).collect();
            assert_eq!(variants, vec![("A", -1), ("B", 7)]);
        }
        _ => unreachable!(),
    }
    let r = only(&ctx, &|item| match item.kind() {
        ItemKind::Var(v) => v.name() == "r",
        _ => false,
    });
    let target = match r.kind() {
        ItemKind::Var(v) => v.ty(),
        _ => unreachable!(),
    };
    assert!(matches!(kind_of(&ctx, target), TypeKind::Reference(_)));
}

#[test]
fn anonymous_template_parameters() {
    for (spelling, recognised) in [
        ("type-parameter-0-0", true),
        ("type-parameter-12-345", true),
        ("type-parameter-0-", false),
        ("type-parameter--0", false),
        ("xtype-parameter-0-0", false),
        ("type-parameter-0-0x", false),
        ("T", false),
    ] {
        let mut b = Builder::new();
        let ty = b.ty(ClangTypeKind::Unexposed, spelling, None);
        let template = b.child(ROOT, CursorKind::ClassTemplate, "V", TypeId(0));
        let param = b.child(template, CursorKind::TemplateTypeParameter, "", ty);
        let mut ctx = Context::new(Options::new());
        let r = Item::named_type(&b.tu, None, param, &mut ctx);
        assert_eq!(r.is_some(), recognised, "{}", spelling);
        if let Some(id) = r {
            assert!(matches!(kind_of(&ctx, id), TypeKind::Named));
            assert_eq!(ctx.resolve_item(id).expect_type().name().map(|s| s.as_str()), Some(spelling));
            assert_eq!(ctx.get_named_type(param), Some(id));
        } else {
            assert_eq!(ctx.items.len(), 1);
        }
    }
}

#[test]
fn the_three_ways_to_a_template_parameter() {
    let mut b = Builder::new();
    let t = b.ty(ClangTypeKind::Unexposed, "const T", None);
    let template = b.child(ROOT, CursorKind::ClassTemplate, "V", TypeId(0));
    let param = b.child(template, CursorKind::TemplateTypeParameter, "const T", t);
    let reference = b.child(template, CursorKind::TypeRef, "const T", t);
    b.tu.cursors[reference.0].referenced = Some(param);
    let field = b.child(template, CursorKind::FieldDecl, "f", t);
    let other = b.child(field, CursorKind::TypeRef, "U", t);
    b.tu.cursors[other.0].referenced = Some(param);
    let inner = b.child(field, CursorKind::TypeRef, "const T", t);
    b.tu.cursors[inner.0].referenced = Some(param);
    let elsewhere = b.child(template, CursorKind::TypeRef, "const T", t);
    let exposed = b.number();
    let plain = b.child(template, CursorKind::FieldDecl, "g", exposed);
    let other_param_ty = b.ty(ClangTypeKind::Unexposed, "U", None);
    let mismatch = b.child(template, CursorKind::FieldDecl, "h", other_param_ty);
    let to_param = b.child(mismatch, CursorKind::TypeRef, "U", other_param_ty);
    b.tu.cursors[to_param.0].referenced = Some(param);

    let mut ctx = Context::new(Options::new());
    let root = ctx.root_module();
    // 1. The declaration itself. The name loses `const ` and dots.
    let id = Item::named_type(&b.tu, None, param, &mut ctx).unwrap();
    assert_eq!(ctx.resolve_item(id).parent_id(), root);
    assert_eq!(ctx.resolve_item(id).expect_type().name().map(|s| s.as_str()), Some("T"));
    assert_eq!(ctx.items.len(), 2);
    // 2. A reference to it: the same item, and nothing new.
    assert_eq!(Item::named_type(&b.tu, None, reference, &mut ctx), Some(id));
    assert_eq!(ctx.items.len(), 2);
    // 3. A use with a child that refers to it.
    assert_eq!(Item::named_type(&b.tu, None, field, &mut ctx), Some(id));
    // With an identifier of the caller's, a new item refers to the known one.
    let with_id = ctx.next_item_id();
    assert_eq!(Item::named_type(&b.tu, Some(with_id), field, &mut ctx), Some(with_id));
    assert!(matches!(kind_of(&ctx, with_id), TypeKind::ResolvedTypeRef(k) if *k == id));
    assert_eq!(ctx.resolve_item(with_id).parent_id(), root);
    // None of the three.
    let before = ctx.items.len();
    assert_eq!(Item::named_type(&b.tu, None, elsewhere, &mut ctx), None);
    assert_eq!(Item::named_type(&b.tu, None, plain, &mut ctx), None);
    assert_eq!(Item::named_type(&b.tu, None, mismatch, &mut ctx), None);
    assert_eq!(Item::named_type(&b.tu, None, template, &mut ctx), None);
    assert_eq!(ctx.items.len(), before);
}

#[test]
fn a_new_parameter_takes_the_identifier_it_is_given() {
    let mut b = Builder::new();
    let t = b.ty(ClangTypeKind::Unexposed, "Args...", None);
    let param = b.child(ROOT, CursorKind::TemplateTypeParameter, "Args...", t);
    let mut ctx = Context::new(Options::new());
    let with_id = ctx.next_item_id();
    assert_eq!(Item::named_type(&b.tu, Some(with_id), param, &mut ctx), Some(with_id));
    assert!(matches!(kind_of(&ctx, with_id), TypeKind::Named));
    assert_eq!(ctx.resolve_item(with_id).expect_type().name().map(|s| s.as_str()), Some("Args"));
    assert_eq!(ctx.get_named_type(param), Some(with_id));
}

#[test]
fn types_that_depend_on_a_parameter_become_blobs() {
    let mut b = Builder::new();
    let t = b.ty(ClangTypeKind::Unexposed, "typename T::Inner", Some(Layout::new(16, 8)));
    b.tu.types[t.0].is_associated_type = true;
    b.tu.types[t.0].is_const = true;
    let field = b.child(ROOT, CursorKind::FieldDecl, "f", t);
    let mut ctx = Context::new(Options::new());
    let id = ctx.next_item_id();
    assert_eq!(Item::from_ty_with_id(&b.tu, id, t, field, None, &mut ctx, DEPTH), Ok(id));
    let item = ctx.resolve_item(id);
    assert!(item.expect_type().is_opaque());
    assert_eq!(item.expect_type().layout(), Some(Layout::new(16, 8)));
    assert!(item.expect_type().is_const());
    assert_eq!(item.parent_id(), ctx.root_module());
    let id = ctx.next_item_id();
    assert!(matches!(
        Item::begin_type(&b.tu, id, t, field, None, &mut ctx),
        TypeStart::Done(done) if done == id
    ));
}

#[test]
fn builtin_and_opaque_types() {
    let mut ctx = Context::new(Options::new());
    let root = ctx.root_module();
    let id = Item::builtin_type(TypeKind::Int { bits: 8, signed: false }, true, &mut ctx);
    assert_eq!(id, ItemId(1));
    let item = ctx.resolve_item(id);
    assert_eq!(item.parent_id(), root);
    assert!(matches!(item.expect_type().kind(), TypeKind::Int { bits: 8, signed: false }));
    assert!(item.expect_type().is_const());
    assert!(item.expect_type().name().is_none());
    let pointer = Item::builtin_type(TypeKind::Pointer(id), false, &mut ctx);
    assert!(matches!(kind_of(&ctx, pointer), TypeKind::Pointer(p) if *p == id));

    let mut b = Builder::new();
    let t = b.ty(ClangTypeKind::Record, "S", Some(Layout::new(24, 8)));
    let with_id = ctx.next_item_id();
    assert_eq!(Item::new_opaque_type(with_id, b.tu.ty(t), &mut ctx), with_id);
    assert!(ctx.resolve_item(with_id).expect_type().is_opaque());
    assert_eq!(ctx.resolve_item(with_id).expect_type().layout(), Some(Layout::new(24, 8)));
    assert_eq!(ctx.resolve_item(with_id).parent_id(), root);
    // A type without a layout becomes the blob of nothing.
    let unknown = b.ty(ClangTypeKind::Other, "?", None);
    let with_id = ctx.next_item_id();
    Item::new_opaque_type(with_id, b.tu.ty(unknown), &mut ctx);
    assert_eq!(ctx.resolve_item(with_id).expect_type().layout(), Some(Layout::zero()));
    assert_eq!(ctx.build_builtin_ty(b.tu.ty(t)), None);
    let number = b.number();
    let built = ctx.build_builtin_ty(b.tu.ty(number)).unwrap();
    assert_eq!(ctx.resolve_item(built).expect_type().name().map(|s| s.as_str()), Some("int"));
}

#[test]
fn forward_references_while_they_are_collected_and_after() {
    let mut b = Builder::new();
    let (_, record_ty) = b.record(ROOT, "S");
    let pointer = b.ty(ClangTypeKind::Pointer, "S *", Some(Layout::new(8, 8)));
    b.tu.types[pointer.0].inner = Some(record_ty);
    b.tu.types[pointer.0].is_const = true;
    let field = b.child(ROOT, CursorKind::FieldDecl, "p", pointer);
    let number = b.number();

    let mut ctx = Context::new(Options::new());
    let m = ctx.module(&b.tu, ROOT);
    // While forward references are collected, a pointer is left as one.
    let id = ctx.next_item_id();
    assert_eq!(Item::from_ty_or_ref_with_id(&b.tu, id, pointer, field, Some(m), &mut ctx, DEPTH), id);
    match kind_of(&ctx, id) {
        TypeKind::UnresolvedTypeRef(t, l, p) => assert_eq!((*t, *l, *p), (pointer, field, Some(m))),
        other => panic!("{:?}", other),
    }
    assert!(ctx.resolve_item(id).expect_type().is_const());
    assert_eq!(ctx.resolve_item(id).parent_id(), m);
    // A builtin is made at once, at an identifier of its own.
    let id = ctx.next_item_id();
    let built = Item::from_ty_or_ref_with_id(&b.tu, id, number, field, None, &mut ctx, DEPTH);
    assert_ne!(built, id);
    assert!(ctx.resolve_item_fallible(id).is_none());
    assert!(matches!(kind_of(&ctx, built), TypeKind::Int { .. }));
    let through = Item::from_ty_or_ref(&b.tu, number, field, None, &mut ctx, DEPTH);
    assert!(matches!(kind_of(&ctx, through), TypeKind::Int { .. }));

    ctx.resolve_typerefs(&b.tu, DEPTH);
    // Afterwards nothing that is added is a forward reference.
    let before = ctx.items.len();
    let id = ctx.next_item_id();
    assert_eq!(Item::from_ty_or_ref_with_id(&b.tu, id, pointer, field, None, &mut ctx, DEPTH), id);
    assert!(matches!(kind_of(&ctx, id), TypeKind::Pointer(_)));
    for item in ctx.items[before..].iter().flatten() {
        assert!(!item.expect_type().is_unresolved_ref());
    }
    // What cannot be parsed becomes a blob.
    let odd = b.ty(ClangTypeKind::Other, "odd", Some(Layout::new(2, 2)));
    let id = ctx.next_item_id();
    assert_eq!(Item::from_ty_or_ref_with_id(&b.tu, id, odd, field, None, &mut ctx, DEPTH), id);
    assert!(ctx.resolve_item(id).expect_type().is_opaque());
    assert_eq!(Item::from_ty(&b.tu, odd, field, None, &mut ctx, DEPTH), Err(ParseError::Continue));
    assert!(ctx.begin_codegen());
}

#[test]
fn a_record_that_refers_to_itself() {
    // `struct Node { Node* next; };`
    let mut b = Builder::new();
    let (decl, ty) = b.record(ROOT, "Node");
    let pointer = b.ty(ClangTypeKind::Pointer, "Node *", Some(Layout::new(8, 8)));
    b.tu.types[pointer.0].inner = Some(ty);
    b.child(decl, CursorKind::FieldDecl, "next", pointer);
    // `struct Outer { struct Inner { Outer whole; } inner; };`, seen after the
    // forward references are collected: the outer record is in flight while
    // the inner one is parsed.
    let (outer, outer_ty) = b.record(ROOT, "Outer");
    let (inner, _) = b.record(outer, "Inner");
    b.child(inner, CursorKind::FieldDecl, "whole", outer_ty);

    let mut ctx = Context::new(Options::new());
    ctx.resolve_typerefs(&b.tu, DEPTH);
    ctx.parse_unit(&b.tu, DEPTH);
    assert!(ctx.currently_parsed_types().is_empty());
    assert_eq!(ctx.current_module(), ctx.root_module());
    let node = only(&ctx, &|item| match item.kind() {
        ItemKind::Type(t) => t.is_comp() && t.name().map(|s| s.as_str()) == Some("Node"),
        _ => false,
    })
    .id();
    let next = match kind_of(&ctx, node) {
        TypeKind::Comp(ci) => ci.fields[0].ty,
        _ => unreachable!(),
    };
    let pointee = match kind_of(&ctx, next) {
        TypeKind::Pointer(p) => *p,
        other => panic!("{:?}", other),
    };
    // The record is being parsed, so the pointer leads straight to it.
    assert_eq!(pointee, node);
    let outer_item = only(&ctx, &|item| match item.kind() {
        ItemKind::Type(t) => t.is_comp() && t.name().map(|s| s.as_str()) == Some("Outer"),
        _ => false,
    })
    .id();
    let inner_item = only(&ctx, &|item| match item.kind() {
        ItemKind::Type(t) => t.is_comp() && t.name().map(|s| s.as_str()) == Some("Inner"),
        _ => false,
    });
    assert_eq!(inner_item.parent_id(), outer_item);
    match inner_item.expect_type().kind() {
        TypeKind::Comp(ci) => assert_eq!(ci.fields[0].ty, outer_item),
        _ => unreachable!(),
    }
    assert!(ctx.begin_codegen());
}

#[test]
fn annotations_and_comments_come_with_the_declaration() {
    let mut b = Builder::new();
    let (decl, ty) = b.record(ROOT, "S");
    let mut a = Annotations::new();
    a.hidden = true;
    a.other.push(("derive".to_string(), "Clone".to_string()));
    b.tu.cursors[decl.0].annotations = Some(a);
    b.tu.cursors[decl.0].raw_comment = Some("/** a record */".to_string());
    let var = b.child(ROOT, CursorKind::VarDecl, "v", ty);
    b.tu.cursors[var.0].raw_comment = Some("// a variable".to_string());
    let (plain, _) = b.record(ROOT, "P");
    let mut ctx = Context::new(Options::new());
    ctx.parse_unit(&b.tu, DEPTH);
    let _ = plain;
    let s = only(&ctx, &|item| match item.kind() {
        ItemKind::Type(t) => t.is_comp() && t.name().map(|n| n.as_str()) == Some("S"),
        _ => false,
    });
    assert!(s.annotations().hidden());
    assert_eq!(s.annotations().other, vec![("derive".to_string(), "Clone".to_string())]);
    assert_eq!(s.comment(), Some("/** a record */"));
    let v = only(&ctx, &|item| item.is_var());
    assert_eq!(v.comment(), Some("// a variable"));
    assert!(!v.annotations().hidden());
    let p = only(&ctx, &|item| match item.kind() {
        ItemKind::Type(t) => t.is_comp() && t.name().map(|n| n.as_str()) == Some("P"),
        _ => false,
    });
    assert_eq!(p.comment(), None);
    assert!(ctx.replacements.is_empty());
    let copy = s.annotations().duplicate();
    assert!(copy.hidden());
    assert_eq!(copy.other.len(), 1);
}

#[test]
fn settling_an_attempt() {
    let mut ctx = Context::new(Options::new());
    let root = ctx.root_module();
    let comment = Some("c".to_string());
    let none: Option<Annotations> = None;
    assert_eq!(
        Item::add_parsed(&mut ctx, Err(ParseError::Continue), &comment, &none, root),
        None
    );
    assert_eq!(
        Item::add_parsed(&mut ctx, Err(ParseError::Recurse), &comment, &none, root),
        Some(Err(ParseError::Recurse))
    );
    assert_eq!(
        Item::add_parsed(
            &mut ctx,
            Ok(ParseResult::AlreadyResolved(root)),
            &comment,
            &none,
            root
        ),
        Some(Ok(root))
    );
    assert_eq!(ctx.items.len(), 1);
    let kind = ItemKind::Var(bindgen_ir::item_kind::Var::new("v".to_string(), root, false));
    let added = Item::add_parsed(&mut ctx, Ok(ParseResult::New(kind, None)), &comment, &none, root);
    assert_eq!(added, Some(Ok(ItemId(1))));
    assert_eq!(ctx.resolve_item(ItemId(1)).comment(), Some("c"));
    assert!(ctx.resolve_item(ItemId(1)).is_var());

    let mut b = Builder::new();
    let (decl, _) = b.record(ROOT, "S");
    let id = ctx.next_item_id();
    let new = Ok(ParseResult::New(Type::new(None, None, TypeKind::Void, false), Some(decl)));
    assert_eq!(Item::settle_type(&b.tu, id, decl, root, &mut ctx, None, None, new), Ok(id));
    assert_eq!(ctx.get_resolved_type(decl), Some(id));
    let before = ctx.items.len();
    assert_eq!(
        Item::settle_type(&b.tu, id, decl, root, &mut ctx, None, None, Err(ParseError::Continue)),
        Err(ParseError::Continue)
    );
    assert_eq!(
        Item::settle_type(
            &b.tu,
            id,
            decl,
            root,
            &mut ctx,
            None,
            None,
            Ok(ParseResult::AlreadyResolved(root))
        ),
        Ok(root)
    );
    assert_eq!(ctx.items.len(), before);
}

#[test]
fn known_noise() {
    for kind in [
        CursorKind::MacroDefinition,
        CursorKind::MacroExpansion,
        CursorKind::UsingDeclaration,
        CursorKind::UsingDirective,
        CursorKind::StaticAssert,
        CursorKind::InclusionDirective,
    ] {
        assert!(Item::is_known_noise(kind, "x"));
    }
    assert!(!Item::is_known_noise(CursorKind::Other, "x"));
    assert!(!Item::is_known_noise(CursorKind::FunctionDecl, "operato"));
    assert!(!Item::is_known_noise(CursorKind::FunctionDecl, "my_operator"));
    assert!(!Item::is_known_noise(CursorKind::FunctionDecl, ""));
    assert!(Item::is_known_noise(CursorKind::FunctionDecl, "operator"));
    assert!(Item::is_known_noise(CursorKind::FunctionDecl, "operator=="));
    assert!(Item::is_known_noise(CursorKind::Other, "operator new"));
    let ctx = Context::new(Options::new());
    assert_eq!(ctx.rust_mangle("loop"), "loop_");
    assert_eq!(ctx.rust_mangle("looped"), "looped");
}

#[test]
fn declarations_that_always_parse() {
    let mut b = Builder::new();
    let (record, record_ty) = b.record(ROOT, "S");
    let number = b.number();
    b.child(record, CursorKind::FieldDecl, "a", number);
    b.child(record, CursorKind::FieldDecl, "", number);
    b.child(record, CursorKind::CxxBaseSpecifier, "Base", number);
    let union_ty = b.ty(ClangTypeKind::Record, "U", Some(Layout::new(4, 4)));
    let union = b.child(ROOT, CursorKind::UnionDecl, "U", union_ty);
    b.tu.types[union_ty.0].declaration = Some(union);
    let function = b.function(ROOT, CursorKind::FunctionDecl, "f");
    b.child(function, CursorKind::ParmDecl, "x", number);
    b.child(function, CursorKind::ParmDecl, "y", number);
    let pointer = b.ty(ClangTypeKind::Pointer, "S *", Some(Layout::new(8, 8)));
    b.tu.types[pointer.0].inner = Some(record_ty);
    let var = b.child(ROOT, CursorKind::VarDecl, "v", pointer);
    b.tu.cursors[var.0].raw_comment = Some("// v".to_string());

    for collected in [false, true] {
        let mut ctx = Context::new(Options::new());
        if collected {
            ctx.resolve_typerefs(&b.tu, DEPTH);
        }
        let root = ctx.root_module();
        let m = ctx.module(&b.tu, ROOT);

        // A record becomes the next identifier, under the parent asked for.
        let next = ItemId(ctx.items.len());
        assert_eq!(Item::parse(&b.tu, record, Some(m), &mut ctx, DEPTH), Ok(next));
        let item = ctx.resolve_item(next);
        assert_eq!(item.parent_id(), m);
        assert_eq!(item.expect_type().name().map(|s| s.as_str()), Some("S"));
        assert_eq!(item.expect_type().layout(), Some(Layout::new(4, 4)));
        match item.expect_type().kind() {
            TypeKind::Comp(ci) => {
                let names: Vec<Option<&str>> =
                    ci.fields.iter().map(|f| f.name.as_ref().map(|n| n.as_str())).collect();
                assert_eq!(names, vec![Some("a"), None]);
                assert_eq!(ci.base_members.len(), 1);
                assert_eq!(ci.kind, bindgen_ir::ty::CompKind::Struct);
            }
            other => panic!("{:?}", other),
        }
        assert_eq!(ctx.get_resolved_type(record), Some(next));

        let next = ItemId(ctx.items.len());
        assert_eq!(Item::parse(&b.tu, union, None, &mut ctx, DEPTH), Ok(next));
        assert_eq!(ctx.resolve_item(next).parent_id(), root);
        assert!(matches!(
            kind_of(&ctx, next),
            TypeKind::Comp(ci) if ci.kind == bindgen_ir::ty::CompKind::Union
        ));

        // A function: its signature is the next identifier, the function the
        // one after everything that the signature needed.
        let signature = ItemId(ctx.items.len());
        let f = Item::parse(&b.tu, function, None, &mut ctx, DEPTH).unwrap();
        assert!(f.0 > signature.0);
        assert_eq!(ctx.resolve_item(f).expect_function().signature(), signature);
        assert_eq!(ctx.resolve_item(f).expect_function().name(), "f");
        match kind_of(&ctx, signature) {
            TypeKind::Function(sig) => assert_eq!(sig.argument_types.len(), 2),
            other => panic!("{:?}", other),
        }

        let ty = ItemId(ctx.items.len());
        let v = Item::parse(&b.tu, var, None, &mut ctx, DEPTH).unwrap();
        let item = ctx.resolve_item(v);
        assert_eq!(item.comment(), Some("// v"));
        match item.kind() {
            ItemKind::Var(var) => {
                assert_eq!(var.name(), "v");
                assert_eq!(var.ty(), ty);
            }
            other => panic!("{:?}", other),
        }
        assert!(matches!(kind_of(&ctx, ty), TypeKind::Pointer(_)));

        // The record is modelled now: a second parse gives a reference to it.
        let next = ItemId(ctx.items.len());
        assert_eq!(Item::parse(&b.tu, record, None, &mut ctx, DEPTH), Ok(next));
        assert!(matches!(kind_of(&ctx, next), TypeKind::ResolvedTypeRef(_)));
    }
}

#[test]
fn the_width_of_a_number() {
    assert_eq!(
        ClangTypeKind::integer(Some(Layout::new(4, 4)), 16, true),
        ClangTypeKind::Int { bits: 32, signed: true }
    );
    assert_eq!(
        ClangTypeKind::integer(None, 16, false),
        ClangTypeKind::Int { bits: 16, signed: false }
    );
    assert_eq!(
        ClangTypeKind::integer(Some(Layout::new(65, 1)), 8, false),
        ClangTypeKind::Int { bits: 8, signed: false }
    );
    assert_eq!(
        ClangTypeKind::integer(Some(Layout::new(64, 8)), 8, false),
        ClangTypeKind::Int { bits: 512, signed: false }
    );
    assert_eq!(ClangTypeKind::floating(Some(Layout::new(8, 8)), 32), ClangTypeKind::Float { bits: 64 });
    assert_eq!(ClangTypeKind::floating(None, 128), ClangTypeKind::Float { bits: 128 });
    assert!(bindgen_ir::clang::spells_associated_type("typename type-parameter-0-0::Inner"));
    assert!(!bindgen_ir::clang::spells_associated_type("typename T::Inner"));
    assert!(!bindgen_ir::clang::spells_associated_type("type-parameter-0-0"));
}

#[test]
fn a_unit_is_parsed_one_cursor_after_the_other() {
    // Nothing below the root: nothing changes.
    let b = Builder::new();
    let mut ctx = Context::new(Options::new());
    ctx.parse_unit(&b.tu, DEPTH);
    assert_eq!(ctx.items.len(), 1);
    assert!(ctx.modules.is_empty());

    // Every namespace below the root has its module afterwards, the first
    // at the next identifier, in the module that was current.
    let mut b = Builder::new();
    let first = b.child(ROOT, CursorKind::Namespace, "a", TypeId(0));
    b.record(first, "S");
    let second = b.child(ROOT, CursorKind::Namespace, "", TypeId(0));
    b.tu.cursors[second.0].is_inline_namespace = true;
    let again = b.child(ROOT, CursorKind::Namespace, "a", TypeId(0));
    b.tu.cursors[again.0].canonical = first;
    let mut ctx = Context::new(Options::new());
    ctx.parse_unit(&b.tu, DEPTH);
    let a = ctx.modules.iter().find(|(c, _)| *c == first).unwrap().1;
    assert_eq!(a, ItemId(1));
    assert_eq!(ctx.resolve_item(a).parent_id(), ctx.root_module());
    assert_eq!(ctx.resolve_item(a).as_module().unwrap().name().map(|s| s.as_str()), Some("a"));
    assert!(!ctx.resolve_item(a).as_module().unwrap().is_inline());
    let anonymous = ctx.modules.iter().find(|(c, _)| *c == second).unwrap().1;
    assert!(ctx.resolve_item(anonymous).as_module().unwrap().name().is_none());
    assert!(ctx.resolve_item(anonymous).as_module().unwrap().is_inline());
    assert_eq!(ctx.modules.len(), 2);

    // Without depth nothing is parsed.
    let mut ctx = Context::new(Options::new());
    ctx.parse_unit(&b.tu, 0);
    assert_eq!(ctx.items.len(), 1);
    assert_eq!(parse_one(&b.tu, &mut ctx, first, None, 0), ChildVisit::Continue);
    assert_eq!(ctx.items.len(), 1);
    // A cursor that is not valid is left alone.
    b.tu.cursors[first.0].is_valid = false;
    assert_eq!(parse_one(&b.tu, &mut ctx, first, None, DEPTH), ChildVisit::Continue);
    assert_eq!(ctx.items.len(), 1);
    // One cursor: the record at the next identifier, under the parent asked
    // for.
    let (record, _) = b.record(ROOT, "T");
    let m = ctx.module(&b.tu, second);
    let next = ItemId(ctx.items.len());
    assert_eq!(parse_one(&b.tu, &mut ctx, record, Some(m), DEPTH), ChildVisit::Continue);
    assert_eq!(ctx.resolve_item(next).parent_id(), m);
    assert_eq!(ctx.resolve_item(next).expect_type().name().map(|s| s.as_str()), Some("T"));
}

#[test]
fn placeholders_that_cannot_be_parsed_become_blobs() {
    let mut b = Builder::new();
    let odd = b.ty(ClangTypeKind::Other, "odd", Some(Layout::new(2, 2)));
    b.tu.types[odd.0].is_const = true;
    let field = b.child(ROOT, CursorKind::FieldDecl, "f", odd);
    let mut ctx = Context::new(Options::new());
    let root = ctx.root_module();
    let item = |ctx: &mut Context, ty: TypeId, at: CursorId, parent: Option<ItemId>| {
        let id = ctx.next_item_id();
        let kind = TypeKind::UnresolvedTypeRef(ty, at, parent);
        ctx.add_item(
            Item::new(id, None, None, root, ItemKind::Type(Type::new(None, None, kind, false))),
            None,
        );
        id
    };
    // A type that is not of the unit, and one that cannot be decoded.
    let dangling = item(&mut ctx, TypeId(99), field, None);
    let undecodable = item(&mut ctx, odd, field, None);
    ctx.resolve_typerefs(&b.tu, DEPTH);
    let target = |ctx: &Context, id: ItemId| match kind_of(ctx, id) {
        TypeKind::ResolvedTypeRef(t) => *t,
        other => panic!("{:?}", other),
    };
    let blob = ctx.resolve_item(target(&ctx, dangling));
    assert!(blob.expect_type().is_opaque());
    assert_eq!(blob.expect_type().layout(), Some(Layout::zero()));
    assert!(!blob.expect_type().is_const());
    assert_eq!(blob.parent_id(), root);
    // The first identifier that was free went to the blob.
    assert_eq!(blob.id(), ItemId(3));
    let blob = ctx.resolve_item(target(&ctx, undecodable));
    assert!(blob.expect_type().is_opaque());
    assert_eq!(blob.expect_type().layout(), Some(Layout::new(2, 2)));
    assert!(blob.expect_type().is_const());
    // An identifier was minted for the type before the blob stood in.
    assert_eq!(blob.id(), ItemId(5));
    assert!(ctx.resolve_item_fallible(ItemId(4)).is_none());
    assert!(ctx.begin_codegen());
}

#[test]
fn a_type_that_is_retried_below_its_location() {
    // An unexposed type at a location without children is a template type
    // parameter there, or nothing.
    let mut b = Builder::new();
    let t = b.ty(ClangTypeKind::Unexposed, "T", None);
    let elsewhere = b.ty(ClangTypeKind::Pointer, "T *", None);
    b.tu.types[elsewhere.0].inner = Some(t);
    let bare = b.child(ROOT, CursorKind::FieldDecl, "f", elsewhere);
    let mut ctx = Context::new(Options::new());
    let id = ctx.next_item_id();
    assert_eq!(
        Item::from_ty_with_id(&b.tu, id, t, bare, None, &mut ctx, DEPTH),
        Err(ParseError::Recurse)
    );
    assert_eq!(ctx.items.len(), 2);
    assert!(ctx.currently_parsed_types().is_empty());
    // With children but no depth below them, nothing is tried.
    let param = b.child(ROOT, CursorKind::TemplateTypeParameter, "T", t);
    let reference = b.child(bare, CursorKind::TypeRef, "T", t);
    b.tu.cursors[reference.0].referenced = Some(param);
    assert_eq!(
        Item::from_ty_with_id(&b.tu, id, t, bare, None, &mut ctx, 1),
        Err(ParseError::Continue)
    );
    assert_eq!(ctx.items.len(), 2);
    // The first child that names the parameter settles it.
    assert_eq!(Item::from_ty_with_id(&b.tu, id, t, bare, None, &mut ctx, DEPTH), Ok(id));
    assert!(matches!(kind_of(&ctx, id), TypeKind::Named));
    assert_eq!(ctx.get_named_type(param), Some(id));
    // A first child at which the type depends on a parameter gives a blob.
    let mut b = Builder::new();
    let t = b.ty(ClangTypeKind::Unexposed, "T::X", Some(Layout::new(8, 8)));
    let plain = b.ty(ClangTypeKind::Pointer, "p", None);
    let outer = b.child(ROOT, CursorKind::FieldDecl, "f", plain);
    let assoc = b.ty(ClangTypeKind::Unexposed, "typename T::X", None);
    b.tu.types[assoc.0].is_associated_type = true;
    b.child(outer, CursorKind::TypeRef, "X", assoc);
    let mut ctx = Context::new(Options::new());
    let id = ctx.next_item_id();
    assert_eq!(Item::from_ty_with_id(&b.tu, id, t, outer, None, &mut ctx, DEPTH), Ok(id));
    assert!(ctx.resolve_item(id).expect_type().is_opaque());
    assert_eq!(ctx.resolve_item(id).expect_type().layout(), Some(Layout::new(8, 8)));
}
