//! The errors that gitpilot reports.
use vstd::prelude::*;
use crate::text::to_string;

verus! {

broadcast use vstd::string::group_string_axioms;

/// An error of gitpilot. Errors of Git and of the file system carry their message.
pub enum GitPilotError {
    NoRepository,
    NoBranch(String),
    NoCurrentBranch,
    Git(String),
    Io(String),
}

/// The message of an error.
pub open spec fn error_text(e: GitPilotError) -> Seq<char> {
    match e {
        GitPilotError::NoRepository => "Not inside a git repository"@,
        GitPilotError::NoBranch(b) => "Branch not found: "@ + b@,
        GitPilotError::NoCurrentBranch => "Could not determine current branch"@,
        GitPilotError::Git(m) => "Git error: "@ + m@,
        GitPilotError::Io(m) => "IO error: "@ + m@,
    }
}

impl GitPilotError {
    /// The message of the error.
    pub fn to_string(&self) -> (r: String)
        ensures
            r@ == error_text(*self),
    {
        match self {
            GitPilotError::NoRepository => to_string("Not inside a git repository"),
            GitPilotError::NoBranch(b) => {
                let mut r = to_string("Branch not found: ");
                r.append(b.as_str());
                r
            },
            GitPilotError::NoCurrentBranch => to_string("Could not determine current branch"),
            GitPilotError::Git(m) => {
                let mut r = to_string("Git error: ");
                r.append(m.as_str());
                r
            },
            GitPilotError::Io(m) => {
                let mut r = to_string("IO error: ");
                r.append(m.as_str());
                r
            },
        }
    }
}

} // verus!
