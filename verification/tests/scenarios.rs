#![allow(non_snake_case)]

use bindgen_ir::annotations::Annotations;
use bindgen_ir::canonical::{ItemCanonicalName, ItemCanonicalPath};
use bindgen_ir::clang::{
    ClangType, ClangTypeKind, Cursor, CursorId, CursorKind, TranslationUnit, TypeId,
};
use bindgen_ir::context::Context;
use bindgen_ir::item::Item;
use bindgen_ir::item_kind::ItemKind;
use bindgen_ir::layout::Layout;
use bindgen_ir::naming::NameOptions;
use bindgen_ir::options::Options;
use bindgen_ir::ty::{ItemId, TypeKind};

const DEPTH: usize = 64;

struct Builder {
    tu: TranslationUnit,
}

impl Builder {
    fn new() -> Builder {
        let mut b = Builder {
            tu: TranslationUnit { cursors: Vec::new(), types: Vec::new(), root: CursorId(0) },
        };
        let none = b.ty(ClangTypeKind::Invalid, "", None);
        assert_eq!(none, TypeId(0));
        let root = b.cursor(CursorKind::TranslationUnit, "", none);
        assert_eq!(root, CursorId(0));
        b
    }

    fn ty(&mut self, kind: ClangTypeKind, spelling: &str, layout: Option<Layout>) -> TypeId {
        self.tu.types.push(ClangType {
            kind,
            spelling: spelling.to_string(),
            is_const: false,
            is_associated_type: false,
            declaration: None,
            layout,
            inner: None,
            num_elements: 0,
            result: None,
            arguments: Vec::new(),
            is_variadic: false,
        });
        TypeId(self.tu.types.len() - 1)
    }

    fn cursor(&mut self, kind: CursorKind, spelling: &str, ty: TypeId) -> CursorId {
        let id = CursorId(self.tu.cursors.len());
        self.tu.cursors.push(Cursor {
            kind,
            is_valid: true,
            spelling: spelling.to_string(),
            raw_comment: None,
            annotations: None,
            definition: None,
            referenced: None,
            canonical: id,
            children: Vec::new(),
            ty,
            underlying: None,
            enum_value: 0,
            is_inline_namespace: false,
        });
        id
    }

    fn child(&mut self, parent: CursorId, kind: CursorKind, spelling: &str, ty: TypeId) -> CursorId {
        let id = self.cursor(kind, spelling, ty);
        self.tu.cursors[parent.0].children.push(id);
        id
    }

    fn int32(&mut self) -> TypeId {
        self.ty(ClangTypeKind::Int { bits: 32, signed: true }, "int", Some(Layout::new(4, 4)))
    }

    fn record(&mut self, parent: CursorId, name: &str, layout: Layout) -> (CursorId, TypeId) {
        let ty = self.ty(ClangTypeKind::Record, name, Some(layout));
        let decl = self.child(parent, CursorKind::StructDecl, name, ty);
        self.tu.types[ty.0].declaration = Some(decl);
        self.tu.cursors[decl.0].definition = Some(decl);
        (decl, ty)
    }

    fn pointer_to(&mut self, pointee: TypeId, spelling: &str) -> TypeId {
        let ty = self.ty(ClangTypeKind::Pointer, spelling, Some(Layout::new(8, 8)));
        self.tu.types[ty.0].inner = Some(pointee);
        ty
    }
}

fn parsed(tu: &TranslationUnit, options: Options) -> Context {
    assert!(tu.check());
    let mut ctx = Context::new(options);
    ctx.parse_unit(tu, DEPTH);
    ctx.resolve_typerefs(tu, DEPTH);
    assert!(ctx.begin_codegen());
    ctx
}

fn find(ctx: &Context, pred: &dyn Fn(&Item) -> bool) -> ItemId {
    let mut found = None;
    for slot in ctx.items.iter() {
        if let Some(item) = slot {
            if pred(item) {
                assert!(found.is_none(), "more than one item matches");
                found = Some(item.id());
            }
        }
    }
    found.expect("no item matches")
}

fn type_named(ctx: &Context, name: &str) -> ItemId {
    find(ctx, &|item: &Item| match item.kind() {
        ItemKind::Type(ty) => {
            ty.name().map(|n| n.as_str()) == Some(name)
                && !matches!(ty.kind(), TypeKind::ResolvedTypeRef(_))
        }
        _ => false,
    })
}

fn module_named(ctx: &Context, name: &str) -> ItemId {
    find(ctx, &|item: &Item| match item.as_module() {
        Some(m) => m.name().map(|n| n.as_str()) == Some(name),
        None => false,
    })
}

fn follow(ctx: &Context, mut id: ItemId) -> ItemId {
    loop {
        match ctx.resolve_item(id).expect_type().kind() {
            TypeKind::ResolvedTypeRef(inner) => id = *inner,
            _ => return id,
        }
    }
}

fn namespaces_on() -> Options {
    let mut options = Options::new();
    options.enable_cxx_namespaces = true;
    options
}

/// `namespace foo { struct Bar { int foo; bool baz; }; }
///  namespace bar { struct Foo { foo::Bar* ptr; }; }`
fn sibling_namespaces() -> TranslationUnit {
    let mut b = Builder::new();
    let none = TypeId(0);
    let root = CursorId(0);
    let foo = b.child(root, CursorKind::Namespace, "foo", none);
    let (bar_decl, bar_ty) = b.record(foo, "Bar", Layout::new(8, 4));
    let int_ty = b.int32();
    b.child(bar_decl, CursorKind::FieldDecl, "foo", int_ty);
    let boolean = b.ty(ClangTypeKind::Bool, "bool", Some(Layout::new(1, 1)));
    b.child(bar_decl, CursorKind::FieldDecl, "baz", boolean);
    let bar = b.child(root, CursorKind::Namespace, "bar", none);
    let (foo_decl, _) = b.record(bar, "Foo", Layout::new(8, 8));
    let ptr = b.pointer_to(bar_ty, "foo::Bar *");
    b.child(foo_decl, CursorKind::FieldDecl, "ptr", ptr);
    b.tu
}

#[test]
fn bindgen_test_layout_Bar() {
    let tu = sibling_namespaces();
    let ctx = parsed(&tu, namespaces_on());
    let bar = type_named(&ctx, "Bar");
    let layout = ctx.resolve_item(bar).expect_type().layout().unwrap();
    assert_eq!(layout.size, 8usize);
    assert_eq!(layout.align, 4usize);
}

#[test]
fn bindgen_test_layout_Foo() {
    let tu = sibling_namespaces();
    let ctx = parsed(&tu, namespaces_on());
    let foo = type_named(&ctx, "Foo");
    let layout = ctx.resolve_item(foo).expect_type().layout().unwrap();
    assert_eq!(layout.size, 8usize);
    assert_eq!(layout.align, 8usize);
}

#[test]
fn sibling_namespaces_with_cross_reference() {
    let tu = sibling_namespaces();
    let mut ctx = parsed(&tu, namespaces_on());
    let root = ctx.root_module();
    let foo_mod = module_named(&ctx, "foo");
    let bar_mod = module_named(&ctx, "bar");
    assert_eq!(ctx.resolve_item(foo_mod).parent_id(), root);
    assert_eq!(ctx.resolve_item(bar_mod).parent_id(), root);

    let bar = type_named(&ctx, "Bar");
    assert_eq!(ctx.resolve_item(bar).parent_id(), foo_mod);
    let fields: Vec<ItemId> = match ctx.resolve_item(bar).expect_type().kind() {
        TypeKind::Comp(ci) => ci.fields.iter().map(|f| f.ty).collect(),
        other => panic!("Bar is {:?}", other),
    };
    assert_eq!(fields.len(), 2);
    assert!(matches!(
        ctx.resolve_item(follow(&ctx, fields[0])).expect_type().kind(),
        TypeKind::Int { bits: 32, signed: true }
    ));
    assert!(matches!(
        ctx.resolve_item(follow(&ctx, fields[1])).expect_type().kind(),
        TypeKind::Bool
    ));

    let foo = type_named(&ctx, "Foo");
    assert_eq!(ctx.resolve_item(foo).parent_id(), bar_mod);
    let fields: Vec<ItemId> = match ctx.resolve_item(foo).expect_type().kind() {
        TypeKind::Comp(ci) => ci.fields.iter().map(|f| f.ty).collect(),
        other => panic!("Foo is {:?}", other),
    };
    assert_eq!(fields.len(), 1);
    let pointee = match ctx.resolve_item(follow(&ctx, fields[0])).expect_type().kind() {
        TypeKind::Pointer(inner) => *inner,
        other => panic!("the field is {:?}", other),
    };
    assert!(matches!(
        ctx.resolve_item(pointee).expect_type().kind(),
        TypeKind::ResolvedTypeRef(target) if *target == bar
    ));

    assert_eq!(foo.canonical_path(&mut ctx), vec!["root", "bar", "Foo"]);
    assert_eq!(foo.namespace_aware_canonical_path(&mut ctx), vec!["root", "bar", "Foo"]);
    assert_eq!(foo.canonical_name(&mut ctx), "Foo");
}

#[test]
fn names_without_namespaces_fold_the_scopes_in() {
    let tu = sibling_namespaces();
    let mut ctx = parsed(&tu, Options::new());
    let foo = type_named(&ctx, "Foo");
    assert_eq!(foo.canonical_name(&mut ctx), "bar_Foo");
    assert_eq!(foo.canonical_path(&mut ctx), vec!["root", "bar", "Foo"]);
    assert_eq!(foo.namespace_aware_canonical_path(&mut ctx), vec!["bar_Foo"]);

    let mut options = Options::new();
    options.disable_name_namespacing = true;
    let mut ctx = parsed(&tu, options);
    let foo = type_named(&ctx, "Foo");
    assert_eq!(foo.canonical_name(&mut ctx), "Foo");
    assert_eq!(foo.namespace_aware_canonical_path(&mut ctx), vec!["Foo"]);
}

#[test]
fn a_namespace_that_is_opened_twice_is_one_module() {
    let mut b = Builder::new();
    let none = TypeId(0);
    let root = CursorId(0);
    let first = b.child(root, CursorKind::Namespace, "foo", none);
    b.record(first, "A", Layout::new(1, 1));
    let second = b.child(root, CursorKind::Namespace, "foo", none);
    b.tu.cursors[second.0].canonical = first;
    b.record(second, "B", Layout::new(1, 1));
    let ctx = parsed(&b.tu, namespaces_on());
    let module = module_named(&ctx, "foo");
    assert_eq!(ctx.resolve_item(type_named(&ctx, "A")).parent_id(), module);
    assert_eq!(ctx.resolve_item(type_named(&ctx, "B")).parent_id(), module);
    let children = Item::module_edges(&ctx, module);
    assert_eq!(children.len(), 2);
}

/// `namespace n { struct { int x; } instance; }`
#[test]
fn anonymous_struct() {
    let mut b = Builder::new();
    let none = TypeId(0);
    let n = b.child(CursorId(0), CursorKind::Namespace, "n", none);
    let (decl, ty) = b.record(n, "", Layout::new(4, 4));
    let int_ty = b.int32();
    b.child(decl, CursorKind::FieldDecl, "x", int_ty);
    b.child(n, CursorKind::VarDecl, "instance", ty);
    let mut ctx = parsed(&b.tu, Options::new());

    let anonymous = find(&ctx, &|item: &Item| match item.kind() {
        ItemKind::Type(t) => matches!(t.kind(), TypeKind::Comp(_)),
        _ => false,
    });
    assert!(ctx.resolve_item(anonymous).expect_type().name().is_none());
    let name = Item::base_name(&mut ctx, anonymous);
    let local = Item::local_id(&mut ctx, anonymous);
    assert_eq!(local, 1);
    assert_eq!(name, format!("_bindgen_ty_{}", local));
    assert_eq!(Item::exposed_id(&mut ctx, anonymous), "1");

    let instance = find(&ctx, &|item: &Item| item.is_var());
    let canonical = instance.canonical_name(&mut ctx);
    assert!(canonical.starts_with("n_"));
    assert_eq!(canonical, "n_instance");
    assert_eq!(anonymous.canonical_name(&mut ctx), "n__bindgen_ty_1");
}

/// `template<class T> struct Vec { T* data; };`
#[test]
fn template_parameter() {
    let mut b = Builder::new();
    let none = TypeId(0);
    let vec = b.child(CursorId(0), CursorKind::ClassTemplate, "Vec", none);
    let t = b.ty(ClangTypeKind::Unexposed, "T", None);
    let param = b.child(vec, CursorKind::TemplateTypeParameter, "T", t);
    let t_use = b.ty(ClangTypeKind::Unexposed, "T", None);
    let ptr = b.pointer_to(t_use, "T *");
    let field = b.child(vec, CursorKind::FieldDecl, "data", ptr);
    let reference = b.child(field, CursorKind::TypeRef, "T", t_use);
    b.tu.cursors[reference.0].referenced = Some(param);
    let mut ctx = parsed(&b.tu, namespaces_on());

    let named = find(&ctx, &|item: &Item| match item.kind() {
        ItemKind::Type(t) => matches!(t.kind(), TypeKind::Named),
        _ => false,
    });
    assert_eq!(ctx.resolve_item(named).parent_id(), ctx.root_module());
    assert_eq!(Item::base_name(&mut ctx, named), "T");
    assert_eq!(named.canonical_name(&mut ctx), "T");
    assert_eq!(named.as_named(&ctx), Some(named));

    let vec_item = type_named(&ctx, "Vec");
    let (fields, params) = match ctx.resolve_item(vec_item).expect_type().kind() {
        TypeKind::Comp(ci) => (
            ci.fields.iter().map(|f| f.ty).collect::<Vec<ItemId>>(),
            ci.template_params.clone(),
        ),
        other => panic!("Vec is {:?}", other),
    };
    assert_eq!(params, vec![named]);
    assert_eq!(fields.len(), 1);
    let pointee = match ctx.resolve_item(follow(&ctx, fields[0])).expect_type().kind() {
        TypeKind::Pointer(inner) => *inner,
        other => panic!("the field is {:?}", other),
    };
    assert_eq!(follow(&ctx, pointee), named);
    assert_eq!(pointee.as_named(&ctx), Some(named));
}

/// `struct A; struct B { A* a; }; struct A { int x; };`
#[test]
fn forward_reference() {
    let mut b = Builder::new();
    let root = CursorId(0);
    let a_ty = b.ty(ClangTypeKind::Record, "A", Some(Layout::new(4, 4)));
    let forward = b.child(root, CursorKind::StructDecl, "A", a_ty);
    let (b_decl, _) = b.record(root, "B", Layout::new(8, 8));
    let ptr = b.pointer_to(a_ty, "A *");
    b.child(b_decl, CursorKind::FieldDecl, "a", ptr);
    let definition = b.child(root, CursorKind::StructDecl, "A", a_ty);
    let int_ty = b.int32();
    b.child(definition, CursorKind::FieldDecl, "x", int_ty);
    b.tu.cursors[forward.0].definition = Some(definition);
    b.tu.cursors[definition.0].definition = Some(definition);
    b.tu.cursors[definition.0].canonical = forward;
    b.tu.types[a_ty.0].declaration = Some(forward);
    assert!(b.tu.check());

    let mut ctx = Context::new(Options::new());
    ctx.parse_unit(&b.tu, DEPTH);
    let b_item = type_named(&ctx, "B");
    let field = match ctx.resolve_item(b_item).expect_type().kind() {
        TypeKind::Comp(ci) => ci.fields[0].ty,
        other => panic!("B is {:?}", other),
    };
    assert!(matches!(
        ctx.resolve_item(field).expect_type().kind(),
        TypeKind::UnresolvedTypeRef(..)
    ));
    assert!(ctx.resolve_item(field).is_type_ref());
    assert!(!ctx.begin_codegen());

    ctx.resolve_typerefs(&b.tu, DEPTH);
    assert!(ctx.collected_typerefs());
    for slot in ctx.items.iter() {
        if let Some(item) = slot {
            if let Some(ty) = item.as_type() {
                assert!(!ty.is_unresolved_ref());
            }
        }
    }
    let a_item = find(&ctx, &|item: &Item| match item.kind() {
        ItemKind::Type(t) => {
            matches!(t.kind(), TypeKind::Comp(_)) && t.name().map(|n| n.as_str()) == Some("A")
        }
        _ => false,
    });
    let a_fields = match ctx.resolve_item(a_item).expect_type().kind() {
        TypeKind::Comp(ci) => ci.fields.len(),
        _ => 0,
    };
    assert_eq!(a_fields, 1);
    assert!(matches!(
        ctx.resolve_item(field).expect_type().kind(),
        TypeKind::ResolvedTypeRef(_)
    ));
    let pointee = match ctx.resolve_item(follow(&ctx, field)).expect_type().kind() {
        TypeKind::Pointer(inner) => *inner,
        other => panic!("the field is {:?}", other),
    };
    assert_eq!(follow(&ctx, pointee), a_item);
    assert!(ctx.begin_codegen());
}

/// `struct C { void m(); void m(int); C(); C(int); };`
#[test]
fn overloaded_methods() {
    let mut b = Builder::new();
    let (c, _) = b.record(CursorId(0), "C", Layout::new(1, 1));
    let void = b.ty(ClangTypeKind::Void, "void", None);
    let int_ty = b.int32();
    let mut declare = |b: &mut Builder, kind: CursorKind, name: &str, args: &[TypeId]| {
        let sig = b.ty(ClangTypeKind::FunctionProto, "void ()", None);
        b.tu.types[sig.0].result = Some(void);
        b.tu.types[sig.0].arguments = args.to_vec();
        let f = b.child(c, kind, name, sig);
        for arg in args {
            b.child(f, CursorKind::ParmDecl, "", *arg);
        }
        f
    };
    declare(&mut b, CursorKind::CxxMethod, "m", &[]);
    declare(&mut b, CursorKind::CxxMethod, "m", &[int_ty]);
    declare(&mut b, CursorKind::Constructor, "C", &[]);
    declare(&mut b, CursorKind::Constructor, "C", &[int_ty]);
    let mut ctx = parsed(&b.tu, Options::new());

    let record = type_named(&ctx, "C");
    let (methods, constructors) = match ctx.resolve_item(record).expect_type().kind() {
        TypeKind::Comp(ci) => (
            ci.methods.iter().map(|m| m.signature).collect::<Vec<ItemId>>(),
            ci.constructors.clone(),
        ),
        other => panic!("C is {:?}", other),
    };
    assert_eq!(methods.len(), 2);
    assert_eq!(constructors.len(), 2);
    assert_eq!(Item::overload_index(&ctx, methods[0]), Some(0));
    assert_eq!(Item::overload_index(&ctx, methods[1]), Some(1));
    assert_eq!(Item::base_name(&mut ctx, methods[0]), "m");
    assert_eq!(Item::base_name(&mut ctx, methods[1]), "m1");
    assert_eq!(Item::base_name(&mut ctx, constructors[0]), "C");
    assert_eq!(Item::base_name(&mut ctx, constructors[1]), "C1");
    assert_eq!(ctx.resolve_item(methods[1]).func_name().map(|s| s.as_str()), Some("m"));
    assert_eq!(Item::overload_index(&ctx, record), None);
    assert_eq!(methods[1].canonical_name(&mut ctx), "C_m1");
    let args = match ctx
        .resolve_item(ctx.resolve_item(methods[1]).expect_function().signature())
        .expect_type()
        .kind()
    {
        TypeKind::Function(sig) => sig.argument_types.len(),
        other => panic!("the signature is {:?}", other),
    };
    assert_eq!(args, 1);
}

/// A declaration that replaces `n::Fake`.
#[test]
fn use_instead_of_override() {
    let build = || {
        let mut b = Builder::new();
        let n = b.child(CursorId(0), CursorKind::Namespace, "n", TypeId(0));
        let (decl, _) = b.record(n, "Real", Layout::new(1, 1));
        let mut annotations = Annotations::new();
        annotations.use_instead_of = Some(vec!["n".to_string(), "Fake".to_string()]);
        b.tu.cursors[decl.0].annotations = Some(annotations);
        b.tu
    };
    let tu = build();
    let mut ctx = parsed(&tu, namespaces_on());
    let real = type_named(&ctx, "Real");
    assert_eq!(real.canonical_name(&mut ctx), "Fake");
    assert_eq!(real.canonical_path(&mut ctx), vec!["root", "n", "Fake"]);
    assert_eq!(Item::base_name(&mut ctx, real), "Fake");
    assert_eq!(Item::name_target(&ctx, real), real);
    assert_eq!(ctx.replacements.len(), 1);
    assert_eq!(ctx.replacements[0].1, real);
    // It is the item that replaces, so it is not itself hidden by the
    // replacement.
    assert!(!Item::is_hidden(&mut ctx, real));

    let mut ctx = parsed(&tu, Options::new());
    let real = type_named(&ctx, "Real");
    assert_eq!(real.canonical_name(&mut ctx), "n_Fake");
    let mut opt = NameOptions::new(real);
    assert_eq!(opt.within_namespaces().get(&mut ctx), "n_Fake");
}

#[test]
fn the_replaced_declaration_is_hidden() {
    let mut b = Builder::new();
    let n = b.child(CursorId(0), CursorKind::Namespace, "n", TypeId(0));
    b.record(n, "Fake", Layout::new(1, 1));
    let (decl, _) = b.record(n, "Real", Layout::new(1, 1));
    let mut annotations = Annotations::new();
    annotations.use_instead_of = Some(vec!["root".to_string(), "n".to_string(), "Fake".to_string()]);
    b.tu.cursors[decl.0].annotations = Some(annotations);
    let mut ctx = parsed(&b.tu, namespaces_on());
    let fake = type_named(&ctx, "Fake");
    let real = type_named(&ctx, "Real");
    assert!(Item::is_hidden(&mut ctx, fake));
    assert!(!Item::is_hidden(&mut ctx, real));
    assert!(Item::trace(&mut ctx, fake).is_empty());
}

#[test]
fn queries_give_the_same_answer_again() {
    let mut b = Builder::new();
    let n = b.child(CursorId(0), CursorKind::Namespace, "n", TypeId(0));
    b.record(n, "", Layout::new(4, 4));
    b.record(n, "", Layout::new(8, 8));
    b.record(n, "Named", Layout::new(8, 8));
    let mut ctx = parsed(&b.tu, Options::new());
    let ids: Vec<ItemId> = ctx.items.iter().flatten().map(|item| item.id()).collect();
    let mut first = Vec::new();
    for id in ids.iter().rev() {
        if !Item::is_hidden(&mut ctx, *id) {
            first.push((*id, id.canonical_path(&mut ctx), id.canonical_name(&mut ctx)));
        }
    }
    for (id, path, name) in first.iter() {
        assert_eq!(&id.canonical_path(&mut ctx), path);
        assert_eq!(&id.canonical_name(&mut ctx), name);
        assert_eq!(ctx.canonical_names[id.0].as_ref(), Some(name));
    }
    let names: Vec<&String> = first.iter().map(|(_, _, name)| name).collect();
    assert!(names.contains(&&"n__bindgen_ty_1".to_string()));
    assert!(names.contains(&&"n__bindgen_ty_2".to_string()));
    assert!(names.contains(&&"n_Named".to_string()));
}
