//! Build-time generator that composes independently written behavior modules
//! into one deployable object.
//!
//! Every pass is a pure function from a declaration to the declarations it
//! expands to. Declarations are plain data: names and type texts are strings,
//! and what a pass emits is a structured description of the generated items.

pub mod accessors;
pub mod behavior;
pub mod capped;
pub mod compose;
pub mod decl;
pub mod error;
pub mod fragment;
pub mod modifiers;
pub mod permit;
pub mod storage;
pub mod store;
pub mod trace;
