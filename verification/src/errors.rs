use vstd::prelude::*;

verus! {

/// The closed set of failures this library reports: the backend command
/// could not be launched at all, the backend ran and reported failure
/// (carrying its diagnostic text), the backend's output was not the
/// expected JSON shape, or the cache file could not be created, written
/// or removed.
#[derive(Debug)]
pub enum SecretError {
    InvocationError,
    BackendError(String),
    ParseError,
    IoError,
}

impl SecretError {
    /// A human-readable description of the failure, for the program's top
    /// level to print.
    pub fn describe(&self) -> (r: String)
        ensures
            self is InvocationError ==> r@ == "could not launch the secret backend command"@,
            self matches SecretError::BackendError(m) ==> r@ == "backend error: "@ + m@,
            self is ParseError ==> r@ == "backend output was not a JSON object of secrets"@,
            self is IoError ==> r@ == "could not access the cache file"@,
    {
        match self {
            SecretError::InvocationError => "could not launch the secret backend command".to_owned(),
            SecretError::BackendError(m) => "backend error: ".to_owned().concat(m.as_str()),
            SecretError::ParseError => "backend output was not a JSON object of secrets".to_owned(),
            SecretError::IoError => "could not access the cache file".to_owned(),
        }
    }
}

} // verus!
