//! A plain-data snapshot of the declaration tree that the C/C++ front end
//! exposes: cursors, their types, and the links between them.

use vstd::prelude::*;
use crate::annotations::Annotations;
use crate::layout::Layout;

verus! {

/// Index of a cursor in a [`TranslationUnit`].
#[derive(Debug, Clone, Copy, PartialEq, Eq, Structural, Hash)]
pub struct CursorId(pub usize);

/// Index of a type in a [`TranslationUnit`].
#[derive(Debug, Clone, Copy, PartialEq, Eq, Structural, Hash)]
pub struct TypeId(pub usize);

/// What a cursor points at.
#[derive(Debug, Clone, Copy, PartialEq, Eq, Structural)]
pub enum CursorKind {
    TranslationUnit,
    Namespace,
    StructDecl,
    UnionDecl,
    ClassDecl,
    EnumDecl,
    FieldDecl,
    EnumConstantDecl,
    FunctionDecl,
    VarDecl,
    ParmDecl,
    TypedefDecl,
    CxxMethod,
    Constructor,
    Destructor,
    CxxBaseSpecifier,
    TemplateTypeParameter,
    ClassTemplate,
    TypeRef,
    UnexposedDecl,
    MacroDefinition,
    MacroExpansion,
    UsingDeclaration,
    UsingDirective,
    StaticAssert,
    InclusionDirective,
    NoDeclFound,
    Other,
}

/// What the front end says a type is.
#[derive(Debug, Clone, Copy, PartialEq, Eq, Structural)]
pub enum ClangTypeKind {
    Invalid,
    Unexposed,
    Void,
    NullPtr,
    Bool,
    Int { bits: u32, signed: bool },
    Float { bits: u32 },
    Pointer,
    Reference,
    Record,
    Enum,
    Typedef,
    ConstantArray,
    IncompleteArray,
    FunctionProto,
    Elaborated,
    Other,
}

/// One cursor: a declaration, a reference or a directive, with its links.
#[derive(Debug, Clone)]
pub struct Cursor {
    pub kind: CursorKind,
    pub is_valid: bool,
    pub spelling: String,
    pub raw_comment: Option<String>,
    /// The attributes that the documentation comment carries, if it has any.
    pub annotations: Option<Annotations>,
    /// The cursor that defines what this one declares.
    pub definition: Option<CursorId>,
    /// The cursor that this one refers to.
    pub referenced: Option<CursorId>,
    /// The one cursor that stands for all declarations of the same entity.
    pub canonical: CursorId,
    pub children: Vec<CursorId>,
    /// The type of what the cursor points at.
    pub ty: TypeId,
    /// Of a typedef the aliased type, of an enumeration its integer type.
    pub underlying: Option<TypeId>,
    /// Of an enumerator its value.
    pub enum_value: i64,
    /// Of a namespace: whether it is declared `inline`.
    pub is_inline_namespace: bool,
}

/// One type as the front end describes it.
#[derive(Debug, Clone)]
pub struct ClangType {
    pub kind: ClangTypeKind,
    pub spelling: String,
    pub is_const: bool,
    /// Whether this is a type that depends on a template parameter, such as
    /// `typename T::Inner`.
    pub is_associated_type: bool,
    /// The cursor that declares the type, if one was found.
    pub declaration: Option<CursorId>,
    pub layout: Option<Layout>,
    /// Of a pointer or reference the pointee, of an array the element, of an
    /// elaborated type the type that it names.
    pub inner: Option<TypeId>,
    pub num_elements: usize,
    /// Of a function type the result.
    pub result: Option<TypeId>,
    /// Of a function type the types of the parameters.
    pub arguments: Vec<TypeId>,
    pub is_variadic: bool,
}

/// The declarations of one translation unit.
#[derive(Debug, Clone)]
pub struct TranslationUnit {
    pub cursors: Vec<Cursor>,
    pub types: Vec<ClangType>,
    pub root: CursorId,
}

fn cursors_below(ids: &Vec<CursorId>, n: usize) -> (r: bool)
    ensures
        r == forall|k: int| 0 <= k < ids@.len() ==> (#[trigger] ids@[k]).0 < n,
{
    let mut k: usize = 0;
    while k < ids.len()
        invariant
            k <= ids@.len(),
            forall|j: int| 0 <= j < k ==> (#[trigger] ids@[j]).0 < n,
        decreases ids@.len() - k,
    {
        if ids[k].0 >= n {
            return false;
        }
        k += 1;
    }
    true
}

fn types_below(ids: &Vec<TypeId>, n: usize) -> (r: bool)
    ensures
        r == forall|k: int| 0 <= k < ids@.len() ==> (#[trigger] ids@[k]).0 < n,
{
    let mut k: usize = 0;
    while k < ids.len()
        invariant
            k <= ids@.len(),
            forall|j: int| 0 <= j < k ==> (#[trigger] ids@[j]).0 < n,
        decreases ids@.len() - k,
    {
        if ids[k].0 >= n {
            return false;
        }
        k += 1;
    }
    true
}

/// The pattern of the spelling of a type that depends on a template
/// parameter without a name, such as `typename type-parameter-0-0::Inner`.
pub open spec fn associated_type_pattern() -> Seq<char> {
    r"typename type\-parameter\-\d+\-\d+::.+"@
}

/// Whether `spelling` is the spelling of a type that depends on a template
/// parameter: whether the pattern matches somewhere in it.
pub fn spells_associated_type(spelling: &str) -> (r: bool)
    ensures
        r == (crate::pattern::regex_match(associated_type_pattern(), spelling@) == Some(true)),
{
    match crate::pattern::regex_is_match(r"typename type\-parameter\-\d+\-\d+::.+", spelling) {
        Some(m) => m,
        None => false,
    }
}

/// The width in bits of a number of the given layout: eight bits to the
/// byte; `default` where the layout is not known, or is that of no number.
pub open spec fn number_bits(layout: Option<Layout>, default: u32) -> u32 {
    match layout {
        Some(l) => if l.size <= 64 {
            (l.size * 8) as u32
        } else {
            default
        },
        None => default,
    }
}

impl ClangTypeKind {
    /// The kind of an integer of the given layout and signedness, `default`
    /// bits wide where the layout does not say.
    pub fn integer(layout: Option<Layout>, default: u32, signed: bool) -> (r: Self)
        ensures
            r == (ClangTypeKind::Int { bits: number_bits(layout, default), signed }),
    {
        ClangTypeKind::Int { bits: bits_of(layout, default), signed }
    }

    /// The kind of a floating-point number of the given layout, `default`
    /// bits wide where the layout does not say.
    pub fn floating(layout: Option<Layout>, default: u32) -> (r: Self)
        ensures
            r == (ClangTypeKind::Float { bits: number_bits(layout, default) }),
    {
        ClangTypeKind::Float { bits: bits_of(layout, default) }
    }
}

fn bits_of(layout: Option<Layout>, default: u32) -> (r: u32)
    ensures
        r == number_bits(layout, default),
{
    match layout {
        Some(l) => if l.size <= 64 {
            (l.size * 8) as u32
        } else {
            default
        },
        None => default,
    }
}

impl TranslationUnit {
    /// Whether `c` is a cursor of this unit.
    pub open spec fn has_cursor(&self, c: CursorId) -> bool {
        c.0 < self.cursors@.len()
    }

    /// Whether `t` is a type of this unit.
    pub open spec fn has_type(&self, t: TypeId) -> bool {
        t.0 < self.types@.len()
    }

    /// Whether the links of the cursor `c` stay inside the unit.
    pub open spec fn cursor_ok(&self, c: Cursor) -> bool {
        &&& c.definition is Some ==> self.has_cursor(c.definition->0)
        &&& c.referenced is Some ==> self.has_cursor(c.referenced->0)
        &&& self.has_cursor(c.canonical)
        &&& forall|k: int| 0 <= k < c.children@.len() ==> self.has_cursor(#[trigger] c.children@[k])
        &&& self.has_type(c.ty)
        &&& c.underlying is Some ==> self.has_type(c.underlying->0)
    }

    /// Whether the links of the type `t` stay inside the unit.
    pub open spec fn type_ok(&self, t: ClangType) -> bool {
        &&& t.declaration is Some ==> self.has_cursor(t.declaration->0)
        &&& t.inner is Some ==> self.has_type(t.inner->0)
        &&& t.result is Some ==> self.has_type(t.result->0)
        &&& forall|k: int| 0 <= k < t.arguments@.len() ==> self.has_type(#[trigger] t.arguments@[k])
    }

    /// Whether every link of the unit stays inside it.
    pub open spec fn wf(&self) -> bool {
        &&& self.has_cursor(self.root)
        &&& forall|i: int| 0 <= i < self.cursors@.len()
            ==> self.cursor_ok(#[trigger] self.cursors@[i])
        &&& forall|i: int| 0 <= i < self.types@.len() ==> self.type_ok(#[trigger] self.types@[i])
    }

    /// The cursor `c`.
    pub open spec fn cursor_at(&self, c: CursorId) -> Cursor {
        self.cursors@[c.0 as int]
    }

    /// The type `t`.
    pub open spec fn type_at(&self, t: TypeId) -> ClangType {
        self.types@[t.0 as int]
    }

    /// The cursor `c`.
    pub fn cursor(&self, c: CursorId) -> (r: &Cursor)
        requires
            self.has_cursor(c),
        ensures
            *r == self.cursor_at(c),
    {
        &self.cursors[c.0]
    }

    /// The type `t`.
    pub fn ty(&self, t: TypeId) -> (r: &ClangType)
        requires
            self.has_type(t),
        ensures
            *r == self.type_at(t),
    {
        &self.types[t.0]
    }

    fn check_cursor(&self, c: &Cursor) -> (r: bool)
        ensures
            r == self.cursor_ok(*c),
    {
        let nc = self.cursors.len();
        let nt = self.types.len();
        let definition_ok = match c.definition {
            Some(d) => d.0 < nc,
            None => true,
        };
        let referenced_ok = match c.referenced {
            Some(d) => d.0 < nc,
            None => true,
        };
        let underlying_ok = match c.underlying {
            Some(t) => t.0 < nt,
            None => true,
        };
        definition_ok && referenced_ok && underlying_ok && c.canonical.0 < nc && c.ty.0 < nt
            && cursors_below(&c.children, nc)
    }

    fn check_type(&self, t: &ClangType) -> (r: bool)
        ensures
            r == self.type_ok(*t),
    {
        let nc = self.cursors.len();
        let nt = self.types.len();
        let declaration_ok = match t.declaration {
            Some(d) => d.0 < nc,
            None => true,
        };
        let inner_ok = match t.inner {
            Some(i) => i.0 < nt,
            None => true,
        };
        let result_ok = match t.result {
            Some(i) => i.0 < nt,
            None => true,
        };
        declaration_ok && inner_ok && result_ok && types_below(&t.arguments, nt)
    }

    /// Whether every link of the unit stays inside it.
    pub fn check(&self) -> (r: bool)
        ensures
            r == self.wf(),
    {
        if self.root.0 >= self.cursors.len() {
            return false;
        }
        let mut i: usize = 0;
        while i < self.cursors.len()
            invariant
                i <= self.cursors@.len(),
                forall|j: int| 0 <= j < i ==> self.cursor_ok(#[trigger] self.cursors@[j]),
            decreases self.cursors@.len() - i,
        {
            if !self.check_cursor(&self.cursors[i]) {
                return false;
            }
            i += 1;
        }
        let mut i: usize = 0;
        while i < self.types.len()
            invariant
                i <= self.types@.len(),
                forall|j: int|
                    0 <= j < self.cursors@.len() ==> self.cursor_ok(#[trigger] self.cursors@[j]),
                forall|j: int| 0 <= j < i ==> self.type_ok(#[trigger] self.types@[j]),
            decreases self.types@.len() - i,
        {
            if !self.check_type(&self.types[i]) {
                return false;
            }
            i += 1;
        }
        true
    }
}

} // verus!
