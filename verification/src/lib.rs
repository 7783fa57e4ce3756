//! Constructor derivation (`#[derive(ctor)]`): the configuration grammar,
//! the per-field decisions and the code written for structs, enums and
//! unions, over a flat token model.

pub mod tokens;
pub mod outside;
pub mod error;
pub mod syntax;
pub mod ident;
pub mod attrs;
pub mod structs;
pub mod fields;
pub mod meta;
pub mod generate;
pub mod enums;
pub mod unions;
pub mod derive;
pub mod laws;
