//! The reconciler's fatal error.

use vstd::prelude::*;
use vstd::string::StringExecFns;

verus! {

/// A path whose home-directory placeholder could not be resolved. This is a
/// configuration defect, so it aborts the whole operation rather than being
/// skipped. The payload is the path as it stood before expansion.
#[derive(Debug, Clone, PartialEq, Eq)]
pub enum Error {
    FailedToExpandTilde(String),
}

/// The value of an [`Error`].
pub enum ErrorModel {
    FailedToExpandTilde(Seq<char>),
}

impl View for Error {
    type V = ErrorModel;

    open spec fn view(&self) -> ErrorModel {
        match self {
            Error::FailedToExpandTilde(p) => ErrorModel::FailedToExpandTilde(p@),
        }
    }
}

impl DeepView for Error {
    type V = ErrorModel;

    open spec fn deep_view(&self) -> ErrorModel {
        self@
    }
}

impl Error {
    /// The message the program reports for this error.
    pub fn message(&self) -> (r: String)
        ensures
            self@ matches ErrorModel::FailedToExpandTilde(p) ==> r@ =~= "Failed to expand tilde in path: "@ + p,
    {
        match self {
            Error::FailedToExpandTilde(p) => {
                let mut r = String::from_str("Failed to expand tilde in path: ");
                r.append(p.as_str());
                r
            },
        }
    }
}

} // verus!
