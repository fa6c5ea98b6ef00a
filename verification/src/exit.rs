//! How the tool ends when it fails.

use vstd::prelude::*;

verus! {

/// What kind of failure it was.
#[derive(Clone, Copy, Debug, PartialEq, Eq, Structural)]
pub enum ExitCode {
    UnknownError,
    NotFound,
}

impl ExitCode {
    /// The status that the process exits with.
    pub open spec fn status_number(self) -> i32 {
        match self {
            ExitCode::UnknownError => 1,
            ExitCode::NotFound => 2,
        }
    }

    /// The status that the process exits with.
    pub fn status(self) -> (r: i32)
        ensures
            r == self.status_number(),
    {
        match self {
            ExitCode::UnknownError => 1,
            ExitCode::NotFound => 2,
        }
    }
}

/// A failure: what to tell the user, and its kind.
#[derive(Debug)]
pub struct ExitError(pub String, pub ExitCode);

/// What an [`ExitError`] holds.
#[verifier::ext_equal]
pub struct ExitErrorView {
    pub message: Seq<char>,
    pub code: ExitCode,
}

impl View for ExitError {
    type V = ExitErrorView;

    open spec fn view(&self) -> ExitErrorView {
        ExitErrorView { message: self.0@, code: self.1 }
    }
}

impl From<String> for ExitError {
    fn from(s: String) -> (r: ExitError) {
        ExitError(s, ExitCode::UnknownError)
    }
}

impl vstd::std_specs::convert::FromSpecImpl<String> for ExitError {
    open spec fn obeys_from_spec() -> bool {
        true
    }

    open spec fn from_spec(s: String) -> ExitError {
        ExitError(s, ExitCode::UnknownError)
    }
}

/// A process that fails never exits with the status of success, and the status
/// tells the kind of failure: two where something was not found, and one
/// otherwise.
pub proof fn law_status_tells_the_kind(a: ExitCode, b: ExitCode)
    ensures
        a.status_number() != 0,
        a is NotFound <==> a.status_number() == 2,
        a is UnknownError <==> a.status_number() == 1,
        a.status_number() == b.status_number() ==> a == b,
{
}

} // verus!
