use vstd::prelude::*;

verus! {

/// The library's error taxonomy.
///
/// `XValueNotOfType` reports a dynamic value whose tag did not match
/// the expected kind during conversion; the payload names the kind
/// that was expected. `Surreal` wraps a failure reported by the store
/// itself (for example a malformed record reference), and `IO` an
/// underlying storage fault; both carry the stringified cause. The
/// four statement variants wrap a lower-level failure for one
/// operation kind when an operation is surfaced to a caller.
pub enum Error {
    XValueNotOfType(&'static str),
    Surreal(String),
    IO(String),
    SelectStatement { value: String },
    DeleteStatement { value: String },
    CreateStatement { value: String },
    UpdateStatement { value: String },
}

impl Error {
    /// A short description of the error, usable where a caller wants
    /// text rather than a variant.
    pub fn message(&self) -> (r: String)
        ensures
            r@.len() > 0,
    {
        proof {
            reveal_strlit("value not of expected type");
            reveal_strlit("store error: ");
            reveal_strlit("io error: ");
            reveal_strlit("cannot execute SELECT query using value ");
            reveal_strlit("cannot execute DELETE query using value ");
            reveal_strlit("cannot execute CREATE query using value ");
            reveal_strlit("cannot execute UPDATE query using value ");
        }
        match self {
            Error::XValueNotOfType(_) => String::from_str("value not of expected type"),
            Error::Surreal(s) => String::from_str("store error: ").concat(s.as_str()),
            Error::IO(s) => String::from_str("io error: ").concat(s.as_str()),
            Error::SelectStatement { value } => String::from_str(
                "cannot execute SELECT query using value ",
            ).concat(value.as_str()),
            Error::DeleteStatement { value } => String::from_str(
                "cannot execute DELETE query using value ",
            ).concat(value.as_str()),
            Error::CreateStatement { value } => String::from_str(
                "cannot execute CREATE query using value ",
            ).concat(value.as_str()),
            Error::UpdateStatement { value } => String::from_str(
                "cannot execute UPDATE query using value ",
            ).concat(value.as_str()),
        }
    }
}

} // verus!
