//! The front end of a bytecode compiler, from the nodes of a syntax tree to
//! the compiled properties of a class.
//!
//! - [`syntax`] holds what every syntax tree is made of: tokens, spans,
//!   kinds of node. [`positioned_syntax`] and [`arena_syntax`] are the two
//!   representations of a tree, [`syntax_smart_constructors`] the one table
//!   of constructors that builds either, [`node`] the same constructors
//!   with the representation chosen when the program runs, and [`mirror`]
//!   the proof that the two representations agree.
//! - [`namespace_env`] holds the namespace environment and the resolution
//!   of names in it.
//! - [`flags`] and [`hhas_property`] hold the compiled form of a property,
//!   [`emit_property`] builds it from a declaration, and [`emit_unit`]
//!   compiles the declarations of a file in order.

pub mod arena_syntax;
pub mod emit_property;
pub mod emit_unit;
pub mod flags;
pub mod hhas_property;
pub mod mirror;
pub mod namespace_env;
pub mod node;
pub mod positioned_syntax;
pub mod syntax;
pub mod syntax_smart_constructors;
pub mod text;
