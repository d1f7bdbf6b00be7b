//! Template type parameters: how a use of one is recognised, and the named
//! type that stands for it.

use vstd::prelude::*;
use crate::clang::{ClangTypeKind, CursorId, CursorKind, TranslationUnit};
use crate::context::{lookup, Context};
use crate::item::Item;
use crate::item_kind::ItemKind;
use crate::known::{added, appended, is_plain_type, is_wrapper};
use crate::parse::{extends, filled_with_type};
use crate::pattern::{regex_is_match, regex_match};
use crate::text::{replace, replace_spec, str_eq};
use crate::ty::{ItemId, Type, TypeKind};

verus! {

/// The pattern of the spelling that the front end gives a template type
/// parameter without a name.
pub open spec fn anonymous_parameter_pattern() -> Seq<char> {
    r"^type\-parameter\-\d+\-\d+$"@
}

/// Whether `refd` declares a template type parameter that is spelled
/// `spelling`, or one without a name while `spelling` is the spelling of an
/// anonymous parameter.
pub open spec fn is_template_with_spelling(
    tu: &TranslationUnit,
    refd: CursorId,
    spelling: Seq<char>,
) -> bool {
    let c = tu.cursor_at(refd);
    c.kind == CursorKind::TemplateTypeParameter
        && (c.spelling@ == spelling || (c.spelling@.len() == 0
        && regex_match(anonymous_parameter_pattern(), spelling) == Some(true)))
}

/// The parameter that the child `child` of a use refers to: `child` is a
/// type reference spelled `spelling` whose referent declares that parameter.
pub open spec fn child_definition(
    tu: &TranslationUnit,
    child: CursorId,
    spelling: Seq<char>,
) -> Option<CursorId> {
    let c = tu.cursor_at(child);
    if c.kind == CursorKind::TypeRef && c.spelling@ == spelling && c.referenced is Some
        && is_template_with_spelling(tu, c.referenced->0, spelling) {
        c.referenced
    } else {
        None
    }
}

/// The parameter that the first of `children` to refer to one refers to.
pub open spec fn first_child_definition(
    tu: &TranslationUnit,
    children: Seq<CursorId>,
    spelling: Seq<char>,
) -> Option<CursorId>
    decreases children.len(),
{
    if children.len() == 0 {
        None
    } else {
        match child_definition(tu, children[0], spelling) {
            Some(d) => Some(d),
            None => first_child_definition(tu, children.skip(1), spelling),
        }
    }
}

/// The declaration of the template type parameter that `location` is or
/// uses, if its type is unexposed and spelled as the parameter:
///
/// 1. `location` declares the parameter;
/// 2. `location` is a type reference to the declaration;
/// 3. `location` has a child that is such a type reference.
pub open spec fn named_definition(tu: &TranslationUnit, location: CursorId) -> Option<CursorId> {
    let loc = tu.cursor_at(location);
    let ty = tu.type_at(loc.ty);
    if ty.kind != ClangTypeKind::Unexposed {
        None
    } else if is_template_with_spelling(tu, location, ty.spelling@) {
        Some(location)
    } else if loc.kind == CursorKind::TypeRef {
        match loc.referenced {
            Some(refd) => if is_template_with_spelling(tu, refd, ty.spelling@) {
                Some(refd)
            } else {
                None
            },
            None => None,
        }
    } else {
        first_child_definition(tu, loc.children@, ty.spelling@)
    }
}

/// The name of a template type parameter spelled `spelling`: the spelling
/// without any `const ` and without dots.
pub open spec fn parameter_name(spelling: Seq<char>) -> Seq<char> {
    replace_spec(
        replace_spec(spelling, "const "@, Seq::empty()),
        seq!['.'],
        Seq::empty(),
    )
}

/// What recognising a template type parameter at `location` does.
///
/// - `location` neither is nor uses a parameter: nothing, and no item.
/// - The parameter is known and the caller gives no identifier: nothing, and
///   the known item.
/// - The parameter is known and the caller gives `w`: a new item `w` under
///   the root that refers to the known item.
/// - The parameter is new: a named type under the root, at the identifier
///   that the caller gives or else at a fresh one, named as the parameter is
///   spelled and registered under its declaration.
pub open spec fn named_type_post(
    old: &Context,
    new: &Context,
    tu: &TranslationUnit,
    with_id: Option<ItemId>,
    location: CursorId,
    r: Option<ItemId>,
) -> bool {
    let ty = tu.type_at(tu.cursor_at(location).ty);
    match named_definition(tu, location) {
        None => r is None && *new == *old,
        Some(definition) => match (lookup(old.named_types@, definition), with_id) {
            (Some(known), None) => r == Some(known) && *new == *old,
            (Some(known), Some(w)) => {
                &&& r == Some(w)
                &&& added(old, new, w)
                &&& is_wrapper(new.item(w), w, old.root_module, known, ty)
                &&& new.named_types == old.named_types
                &&& new.parsed_types == old.parsed_types
                &&& new.replacements == old.replacements
            },
            (None, _) => {
                &&& r is Some
                &&& match with_id {
                    Some(w) => r == Some(w) && added(old, new, w),
                    None => appended(old, new, r->0) && new.modules == old.modules,
                }
                &&& is_plain_type(
                    new.item(r->0),
                    r->0,
                    old.root_module,
                    TypeKind::Named,
                    None,
                    false,
                )
                &&& new.item(r->0).kind->Type_0.name is Some
                &&& new.item(r->0).kind->Type_0.name->0@ == parameter_name(ty.spelling@)
                &&& new.named_types@ == old.named_types@.push((definition, r->0))
                &&& new.parsed_types == old.parsed_types
                &&& new.replacements == old.replacements
            },
        },
    }
}

fn template_with_spelling(tu: &TranslationUnit, refd: CursorId, spelling: &str) -> (r: bool)
    requires
        tu.has_cursor(refd),
    ensures
        r == is_template_with_spelling(tu, refd, spelling@),
{
    let c = tu.cursor(refd);
    if c.kind != CursorKind::TemplateTypeParameter {
        return false;
    }
    if str_eq(c.spelling.as_str(), spelling) {
        return true;
    }
    if !c.spelling.as_str().is_empty() {
        return false;
    }
    match regex_is_match(r"^type\-parameter\-\d+\-\d+$", spelling) {
        Some(m) => m,
        None => false,
    }
}

fn find_named_definition(tu: &TranslationUnit, location: CursorId) -> (r: Option<CursorId>)
    requires
        tu.wf(),
        tu.has_cursor(location),
    ensures
        r == named_definition(tu, location),
        r is Some ==> tu.has_cursor(r->0),
{
    let loc = tu.cursor(location);
    let ty = tu.ty(loc.ty);
    if ty.kind != ClangTypeKind::Unexposed {
        return None;
    }
    let spelling = ty.spelling.as_str();
    if template_with_spelling(tu, location, spelling) {
        return Some(location);
    }
    if loc.kind == CursorKind::TypeRef {
        return match loc.referenced {
            Some(refd) => if template_with_spelling(tu, refd, spelling) {
                Some(refd)
            } else {
                None
            },
            None => None,
        };
    }
    let mut i: usize = 0;
    assert(loc.children@.skip(0) =~= loc.children@);
    while i < loc.children.len()
        invariant
            i <= loc.children@.len(),
            tu.wf(),
            tu.cursor_ok(*loc),
            *loc == tu.cursor_at(location),
            *ty == tu.type_at(loc.ty),
            ty.kind == ClangTypeKind::Unexposed,
            !is_template_with_spelling(tu, location, ty.spelling@),
            loc.kind != CursorKind::TypeRef,
            spelling@ == ty.spelling@,
            first_child_definition(tu, loc.children@, spelling@) == first_child_definition(
                tu,
                loc.children@.skip(i as int),
                spelling@,
            ),
        decreases loc.children@.len() - i,
    {
        let child = tu.cursor(loc.children[i]);
        assert(loc.children@.skip(i as int)[0] == loc.children@[i as int]);
        assert(loc.children@.skip(i as int).skip(1) =~= loc.children@.skip(i + 1));
        if child.kind == CursorKind::TypeRef && str_eq(
            child.spelling.as_str(),
            spelling,
        ) {
            match child.referenced {
                Some(refd) => {
                    if template_with_spelling(tu, refd, spelling) {
                        return Some(refd);
                    }
                },
                None => {},
            }
        }
        i += 1;
    }
    assert(loc.children@.skip(i as int).len() == 0);
    None
}

impl Item {
    /// The item of the template type parameter that `location` is or uses,
    /// if it is or uses one.
    ///
    /// - A parameter that is known is returned as it is; where the caller
    ///   gives an identifier, a new item `with_id` refers to it.
    /// - A parameter that is new gets an item under the root, at `with_id` or
    ///   at a fresh identifier, and is registered under its declaration.
    pub fn named_type(
        tu: &TranslationUnit,
        with_id: Option<ItemId>,
        location: CursorId,
        ctx: &mut Context,
    ) -> (r: Option<ItemId>)
        requires
            old(ctx).wf(),
            !old(ctx).codegen,
            tu.wf(),
            tu.has_cursor(location),
            with_id is Some ==> old(ctx).vacant(with_id->0),
        ensures
            final(ctx).wf(),
            extends(old(ctx), final(ctx), with_id),
            final(ctx).modules == old(ctx).modules,
            named_type_post(old(ctx), final(ctx), tu, with_id, location, r),
            with_id is Some ==> filled_with_type(old(ctx), final(ctx), with_id->0),
    {
        let definition = match find_named_definition(tu, location) {
            Some(d) => d,
            None => {
                return None;
            },
        };
        let ty = tu.ty(tu.cursor(location).ty);
        let parent = ctx.root_module;
        match ctx.get_named_type(definition) {
            Some(known) => {
                return match with_id {
                    Some(w) => Some(ctx.build_ty_wrapper(w, known, Some(parent), ty)),
                    None => Some(known),
                };
            },
            None => {},
        }
        proof {
            reveal_strlit("const ");
            reveal_strlit(".");
            reveal_strlit("");
        }
        assert("."@ =~= seq!['.']);
        assert(""@ =~= Seq::<char>::empty());
        let without_const = replace(ty.spelling.as_str(), "const ", "");
        let name = replace(without_const.as_str(), ".", "");
        let id = match with_id {
            Some(w) => w,
            None => ctx.next_item_id(),
        };
        let item = Item::new(id, None, None, parent, ItemKind::Type(Type::named(name)));
        ctx.add_named_type(item, definition);
        proof {
            if with_id is None {
                assert(ctx.items@ =~= old(ctx).items@.push(Some(item)));
            }
        }
        Some(id)
    }
}

} // verus!
