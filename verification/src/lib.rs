//! The intermediate representation of a generator of foreign-function
//! bindings: a graph of items that mirrors the declarations of a C or C++
//! header, and what code generation asks of it.
//!
//! The graph is built in two steps and then read.
//!
//! 1. Parsing. A [`clang::TranslationUnit`] is a snapshot of what the front
//!    end exposes. [`context::Context::parse_unit`] turns its declarations
//!    into items: modules, types, functions and variables, each with an
//!    identifier and a parent. A type that is referred to before it is known
//!    becomes a placeholder.
//! 2. Resolution. [`context::Context::resolve_typerefs`] replaces every
//!    placeholder by a reference to the item that its type parses into.
//! 3. Code generation. [`context::Context::begin_codegen`] checks the graph
//!    once. From then on the graph does not change, and names, paths, edges
//!    and derivable traits can be asked for; the answers are cached in cells
//!    that the context keeps beside the items.
//!
//! Contracts speak of the graph as a sequence of items indexed by
//! identifier (see [`graph`]). What holds of every finished graph is stated
//! and proved in [`laws`], [`stable`] and [`siblings`].

pub mod ancestry;
pub mod annotations;
pub mod canonical;
pub mod clang;
pub mod codegen;
pub mod context;
pub mod decode;
pub mod derive;
pub mod from_ty;
pub mod graph;
pub mod item;
pub mod item_kind;
pub mod known;
pub mod laws;
pub mod layout;
pub mod mangle;
pub mod named;
pub mod naming;
pub mod options;
pub mod parse;
pub mod pattern;
pub mod policy;
pub mod resolve;
pub mod siblings;
pub mod stable;
pub mod template;
pub mod text;
pub mod trace;
pub mod traversal;
pub mod ty;
