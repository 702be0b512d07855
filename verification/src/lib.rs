//! Generation of `From` / `TryFrom` conversions between structs or enums,
//! driven by `#[bricke(..)]` and `#[bricke_field(..)]` attributes.
//!
//! The library works on plain values: attribute arguments arrive as a list of
//! tokens, items as a small model of their fields or variants, and the
//! generated conversion leaves as Rust source text.
pub mod text;
pub mod syntax;
pub mod token;
pub mod item;
pub mod attributes;
pub mod fields;
pub mod expand;
pub mod laws;
pub mod output_laws;
