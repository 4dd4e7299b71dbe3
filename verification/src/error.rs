use vstd::prelude::*;
use vstd::string::StringExecFns;

verus! {

/// The error taxonomy of the library.
///
/// `NotAFileCarrier` is user-fixable (the hierarchy is missing), `FirstUser`
/// is benign (there is no peer to contact yet), while the agent and IO
/// variants are fatal to the enclosing operation.  The agent and IO variants
/// carry no payload here: the unverified rim owns the underlying transport
/// and filesystem errors and maps them onto these variants.
#[derive(Debug, PartialEq)]
pub enum FileCarrierError {
    /// The conversation with the DTN node agent failed.
    Ud3tnError,
    /// A filesystem access failed.
    IOError,
    /// The folder does not hold the carrier hierarchy.
    NotAFileCarrier(String),
    /// Nobody else has used this carrier yet, so there is no peer to contact.
    FirstUser(String),
}

impl FileCarrierError {
    /// A human-readable description of the error, in place of `Display`.
    pub fn message(&self) -> (r: String)
        ensures
            self is Ud3tnError ==> r@ == "ud3tn Error"@,
            self is IOError ==> r@ == "io Error"@,
            (self matches FileCarrierError::NotAFileCarrier(p) ==> r@ == p@
                + " is not a file carrier"@),
            (self matches FileCarrierError::FirstUser(p) ==> r@ == "You are the first to use "@
                + p@ + " as a file carrier"@),
    {
        match self {
            FileCarrierError::Ud3tnError => "ud3tn Error".to_owned(),
            FileCarrierError::IOError => "io Error".to_owned(),
            FileCarrierError::NotAFileCarrier(p) => {
                let mut s = p.clone();
                s.append(" is not a file carrier");
                s
            },
            FileCarrierError::FirstUser(p) => {
                let mut s = "You are the first to use ".to_owned();
                s.append(p.as_str());
                s.append(" as a file carrier");
                s
            },
        }
    }
}

} // verus!
