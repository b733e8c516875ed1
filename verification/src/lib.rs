//! Renders a typed description of a configuration object (a schema) into a
//! fully commented TOML document, and overlays a concrete instance's values
//! onto the same document skeleton without losing documentation or structure.

pub mod block;
pub mod comment;
pub mod config;
pub mod content;
pub mod error;
pub mod raw;
pub mod schema;
pub mod section;
pub mod toml_input;
pub mod util;
pub mod value;

pub use crate::content::TomlContent;
pub use crate::error::Error;
pub use crate::raw::RawEntry;
pub use crate::raw::RawValue;
pub use crate::schema::Schema;
pub use crate::toml_input::TomlInput;
pub use crate::value::ArrayValue;
pub use crate::value::BlockValue;
pub use crate::value::FieldValue;
pub use crate::value::PrimValue;
pub use crate::value::TableValue;
pub use crate::value::Value;
