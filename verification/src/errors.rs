use vstd::prelude::*;
use vstd::string::StringExecFns;

verus! {

/// A failure of the hive resolver or of the store accessor.
///
/// Absence of a path, absence of a name under an existing path, and a value of
/// the wrong type are distinct states and get distinct variants, so a caller
/// can tell them apart.
#[derive(Debug, PartialEq, Eq)]
pub enum StoreError {
    /// The textual root identifier names none of the known roots; carries the
    /// offending text.
    UnknownRoot(String),
    /// The addressed path does not exist under the root.
    PathNotFound,
    /// The path exists but holds no value under the requested name.
    ValueNotFound,
    /// A value of the requested name exists but is not a 32-bit integer.
    TypeMismatch,
    /// The process lacks permission to write under the root.
    AccessDenied,
}

impl StoreError {
    /// The descriptive text reported across the command boundary for this
    /// failure; an unknown root preserves the offending identifier.
    pub open spec fn spec_message(self) -> Seq<char> {
        match self {
            StoreError::UnknownRoot(s) => "Unknown hive: "@ + s@,
            StoreError::PathNotFound => "path not found"@,
            StoreError::ValueNotFound => "value not found"@,
            StoreError::TypeMismatch => "value is not a 32-bit integer"@,
            StoreError::AccessDenied => "access denied"@,
        }
    }

    /// Renders the failure as its descriptive text.
    pub fn message(&self) -> (r: String)
        ensures
            r@ == self.spec_message(),
    {
        match self {
            StoreError::UnknownRoot(s) => String::from_str("Unknown hive: ").concat(s.as_str()),
            StoreError::PathNotFound => String::from_str("path not found"),
            StoreError::ValueNotFound => String::from_str("value not found"),
            StoreError::TypeMismatch => String::from_str("value is not a 32-bit integer"),
            StoreError::AccessDenied => String::from_str("access denied"),
        }
    }
}

} // verus!
