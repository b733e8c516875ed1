//! The typed errors a render call can surface. All are terminal for the
//! current call: nothing is retried and no partial document is produced.

use vstd::prelude::*;

verus! {

/// Why a render call failed.
#[derive(Debug, Clone)]
pub enum Error {
    /// A value could not be turned into its serialized representation.
    TomlSerError(String),
    /// An inner-default override string could not be parsed.
    FromStrError(String),
    /// Rendering a document requires a top-level record shape.
    RootMustStruct,
    /// A tagged union was declared with no variants.
    EnumEmpty,
    /// An expand or fold render was requested where its style does not apply.
    EnumStyleError(String),
}

} // verus!
