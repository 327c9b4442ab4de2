//! Class registration for user-defined structs.
//!
//! A struct declaration that carries a `#[godot(...)]` attribute and field
//! markers is checked and turned into a class descriptor: the metadata
//! binding of the class, an optional generated constructor, and the entry
//! that the class contributes to the class registry.

pub mod attributes;
pub mod derive_godot_class;
pub mod errors;
pub mod fields;
pub mod kv;
pub mod output;
pub mod registry;
pub mod source;
