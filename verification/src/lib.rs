//! A document model and reference-resolution library for the
//! OpenAutoComplete CLI-completion specification format: a JSON document
//! describing a program's options, arguments, subcommands, and the usage
//! grammar by which they combine.

pub mod conform;
pub mod error;
pub mod json;
pub mod codec;
pub mod model;
pub mod resolve;
pub mod text;

pub use error::Error;
pub use model::{Document, Reference, VERSION};
