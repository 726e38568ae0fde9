//! The single error every mapping surfaces.
use vstd::prelude::*;

verus! {

/// The single error surfaced by every mapping. Layer error types convert
/// from it once, so call sites just bubble with `?`.
#[derive(Debug, Clone, PartialEq, Eq)]
pub enum MappingError {
    InvalidUuid { field: &'static str },
    OutOfRange { field: &'static str },
    Parse { field: &'static str },
    Missing { field: &'static str },
    Custom(String),
}

/// What a mapping error says.
pub open spec fn message_of(e: MappingError) -> Seq<char> {
    match e {
        MappingError::InvalidUuid { field } => "invalid uuid in `"@ + field@ + "`"@,
        MappingError::OutOfRange { field } => "value out of range in `"@ + field@ + "`"@,
        MappingError::Parse { field } => "parse error in `"@ + field@ + "`"@,
        MappingError::Missing { field } => "missing value for `"@ + field@ + "`"@,
        MappingError::Custom(m) => m@,
    }
}

impl MappingError {
    /// The human-readable message.
    pub fn message(&self) -> (r: String)
        ensures
            r@ == message_of(*self),
    {
        match self {
            MappingError::InvalidUuid { field } => String::from_str("invalid uuid in `").concat(field).concat("`"),
            MappingError::OutOfRange { field } => String::from_str("value out of range in `").concat(field).concat("`"),
            MappingError::Parse { field } => String::from_str("parse error in `").concat(field).concat("`"),
            MappingError::Missing { field } => String::from_str("missing value for `").concat(field).concat("`"),
            MappingError::Custom(m) => m.clone(),
        }
    }
}

} // verus!
