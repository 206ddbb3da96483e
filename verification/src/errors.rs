use vstd::prelude::*;

verus! {

#[verifier::external_type_specification]
#[verifier::external_body]
pub struct ExIoError(std::io::Error);

/// Failure of a controller operation.
///
/// Decoding the manager's output under the required legacy encoding fails
/// with `EncodingError`, which carries no further detail; any OS-level
/// failure to spawn or wait on the manager process is wrapped, with its
/// detail, in `RuntimeError`.
#[derive(Debug)]
pub enum LdError {
    EncodingError,
    RuntimeError(std::io::Error),
}

impl From<std::io::Error> for LdError {
    fn from(e: std::io::Error) -> (r: Self) {
        LdError::RuntimeError(e)
    }
}

impl vstd::std_specs::convert::FromSpecImpl<std::io::Error> for LdError {
    open spec fn obeys_from_spec() -> bool {
        true
    }

    open spec fn from_spec(e: std::io::Error) -> Self {
        LdError::RuntimeError(e)
    }
}

impl LdError {
    /// Human-readable description of the failure, one word per kind, with
    /// the wrapped OS failure appended for a runtime error.
    pub fn message(&self) -> (r: String)
        ensures
            self is EncodingError ==> r@ == "EncodingError"@,
    {
        match self {
            LdError::EncodingError => String::from_str("EncodingError"),
            LdError::RuntimeError(e) => String::from_str("RuntimeError ").concat(e.to_string().as_str()),
        }
    }
}

} // verus!
