//! The ways in which a run of either tool can fail.

use vstd::prelude::*;

verus! {

/// A failure, by kind.
#[derive(Debug, Clone)]
pub enum Error {
    /// The command line could not be understood.
    Usage { message: String },
    /// An input could not be opened.
    Open { path: String, cause: String },
    /// An input failed while it was being read.
    Read { cause: String },
}

impl Error {
    /// The text shown for this failure.
    pub open spec fn spec_message(self) -> Seq<char> {
        match self {
            Error::Usage { message } => message@,
            Error::Open { path, cause } => path@ + ": "@ + cause@,
            Error::Read { cause } => cause@,
        }
    }

    /// The text shown for this failure: the bare message or cause, and for
    /// an input that could not be opened its path, a colon and a space
    /// before the cause.
    pub fn message(&self) -> (r: String)
        ensures
            r@ == self.spec_message(),
    {
        match self {
            Error::Usage { message } => message.clone(),
            Error::Open { path, cause } => {
                let mut out = path.clone();
                out.append(": ");
                out.append(cause.as_str());
                out
            },
            Error::Read { cause } => cause.clone(),
        }
    }
}

} // verus!
