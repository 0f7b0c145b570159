use vstd::prelude::*;

verus! {

/// The library's error taxonomy.
#[derive(Clone, Copy, Debug, PartialEq, Eq, Structural)]
pub enum Error {
    Unknown,
    Serialization,
    Deserialization,
    InvalidConfig,
    FetchError,
}

impl Error {
    /// A short human-readable description of the error.
    pub fn message(&self) -> (r: &'static str)
        ensures
            *self is Unknown ==> r@ == "Unknown error"@,
            *self is Serialization ==> r@ == "Failed to serialize"@,
            *self is Deserialization ==> r@ == "Failed to deserialize"@,
            *self is InvalidConfig ==> r@ == "Invalid config"@,
            *self is FetchError ==> r@ == "Failed to fetch"@,
    {
        match self {
            Error::Unknown => "Unknown error",
            Error::Serialization => "Failed to serialize",
            Error::Deserialization => "Failed to deserialize",
            Error::InvalidConfig => "Invalid config",
            Error::FetchError => "Failed to fetch",
        }
    }
}

} // verus!
