use vstd::prelude::*;

verus! {

/// The kinds of failure the core can report.
#[derive(Clone, Copy, Debug, PartialEq, Eq, Structural)]
pub enum ErrorKind {
    /// A pre-image could not be read: the file is not there.
    ReadFailure,
    /// The text to replace does not occur in the file.
    NoMatch,
    /// The text to replace occurs more than once in the file.
    AmbiguousMatch,
    /// A structural merge was given text that is not a coherent set of declarations.
    ParseError,
    /// A structural key matches more than one declaration of the file.
    AmbiguousTarget,
    /// A diff hunk's context could not be located in the file.
    HunkNotApplicable,
    /// Writing a file failed while a patch was committed.
    WriteFailure,
    /// The model provider failed.
    ModelFailure,
    /// No project root applies.
    WorkspaceNotFound,
    /// A check run on the project failed.
    ValidationFailure,
    /// The session has no step to act on.
    NoSteps,
}

/// An error of the core: its kind, the human-readable subject (a path, or a message), the
/// detail meant for the model, and the check that failed, for a validation failure.
#[derive(Clone, Debug, PartialEq, Eq)]
pub struct TenxError {
    pub kind: ErrorKind,
    pub subject: String,
    pub detail: String,
    pub check: Option<String>,
}

impl TenxError {
    /// An error whose detail for the model is its subject.
    pub fn new(kind: ErrorKind, subject: String) -> (r: TenxError)
        ensures
            r.kind == kind,
            r.subject@ == subject@,
            r.detail@ == subject@,
            r.check is None,
    {
        let detail = subject.clone();
        TenxError { kind, subject, detail, check: None }
    }

    /// A failed check: its name, the message for the user, and the detail for the model.
    pub fn validation(check: String, user: String, model: String) -> (r: TenxError)
        ensures
            r.kind == ErrorKind::ValidationFailure,
            r.subject@ == user@,
            r.detail@ == model@,
            r.check == Some(check),
    {
        TenxError { kind: ErrorKind::ValidationFailure, subject: user, detail: model, check: Some(check) }
    }

    /// A copy of the error.
    pub fn clone_error(&self) -> (r: TenxError)
        ensures
            r == *self,
    {
        let check = match &self.check {
            Some(c) => Some(c.clone()),
            None => None,
        };
        TenxError {
            kind: self.kind,
            subject: self.subject.clone(),
            detail: self.detail.clone(),
            check,
        }
    }

    /// A short name of the kind, as shown to a user.
    pub fn kind_name(&self) -> (r: &'static str)
        ensures
            r == self.kind_name_spec(),
    {
        match self.kind {
            ErrorKind::ReadFailure => "read failure",
            ErrorKind::NoMatch => "no match",
            ErrorKind::AmbiguousMatch => "ambiguous match",
            ErrorKind::ParseError => "parse error",
            ErrorKind::AmbiguousTarget => "ambiguous target",
            ErrorKind::HunkNotApplicable => "hunk not applicable",
            ErrorKind::WriteFailure => "write failure",
            ErrorKind::ModelFailure => "model failure",
            ErrorKind::WorkspaceNotFound => "workspace not found",
            ErrorKind::ValidationFailure => "validation failure",
            ErrorKind::NoSteps => "no steps",
        }
    }

    /// The human-readable message: the kind's name, a colon, and the subject.
    pub fn message(&self) -> (r: String)
        ensures
            r@ == self.kind_name_spec()@ + ": "@ + self.subject@,
    {
        let mut r = String::from_str(self.kind_name());
        r.append(": ");
        r.append(self.subject.as_str());
        r
    }

    pub open spec fn kind_name_spec(&self) -> &'static str {
        match self.kind {
            ErrorKind::ReadFailure => "read failure",
            ErrorKind::NoMatch => "no match",
            ErrorKind::AmbiguousMatch => "ambiguous match",
            ErrorKind::ParseError => "parse error",
            ErrorKind::AmbiguousTarget => "ambiguous target",
            ErrorKind::HunkNotApplicable => "hunk not applicable",
            ErrorKind::WriteFailure => "write failure",
            ErrorKind::ModelFailure => "model failure",
            ErrorKind::WorkspaceNotFound => "workspace not found",
            ErrorKind::ValidationFailure => "validation failure",
            ErrorKind::NoSteps => "no steps",
        }
    }
}

} // verus!
