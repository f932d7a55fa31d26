use vstd::prelude::*;
use vstd::std_specs::cmp::PartialEqSpecImpl;

verus! {

/// Whether a failure is the user's (bad input) or the run's (a tool or I/O failed).
#[derive(Debug, Clone, Copy, PartialEq, Eq, Structural)]
pub enum ErrorKind {
    User,
    Runtime,
}

/// The machine-readable form of an error: its kind, exit code and message.
#[derive(Debug, Clone)]
pub struct ErrorPayload {
    pub kind: ErrorKind,
    pub code: i32,
    pub message: String,
}

impl PartialEq for ErrorPayload {
    fn eq(&self, other: &Self) -> (res: bool) {
        self.kind == other.kind && self.code == other.code && self.message == other.message
    }
}

impl PartialEqSpecImpl for ErrorPayload {
    open spec fn obeys_eq_spec() -> bool {
        true
    }

    open spec fn eq_spec(&self, other: &Self) -> bool {
        self.kind == other.kind && self.code == other.code && self.message@ == other.message@
    }
}

/// The library's error: a user error or a runtime error, each with a message.
#[derive(Debug, Clone)]
pub enum VideoGenError {
    User { message: String },
    Runtime { message: String },
}

/// The exit code that belongs to an error kind: 2 for user errors, 1 for runtime errors.
pub open spec fn kind_exit_code(kind: ErrorKind) -> i32 {
    match kind {
        ErrorKind::User => 2,
        ErrorKind::Runtime => 1,
    }
}

impl VideoGenError {
    pub open spec fn spec_kind(&self) -> ErrorKind {
        match self {
            VideoGenError::User { .. } => ErrorKind::User,
            VideoGenError::Runtime { .. } => ErrorKind::Runtime,
        }
    }

    pub open spec fn spec_message(&self) -> Seq<char> {
        match self {
            VideoGenError::User { message } => message@,
            VideoGenError::Runtime { message } => message@,
        }
    }

    /// A user error with the given message.
    pub fn user(message: String) -> (e: Self)
        ensures
            e.spec_kind() == ErrorKind::User,
            e.spec_message() == message@,
    {
        VideoGenError::User { message }
    }

    /// A runtime error with the given message.
    pub fn runtime(message: String) -> (e: Self)
        ensures
            e.spec_kind() == ErrorKind::Runtime,
            e.spec_message() == message@,
    {
        VideoGenError::Runtime { message }
    }

    pub fn kind(&self) -> (k: ErrorKind)
        ensures
            k == self.spec_kind(),
    {
        match self {
            VideoGenError::User { .. } => ErrorKind::User,
            VideoGenError::Runtime { .. } => ErrorKind::Runtime,
        }
    }

    pub fn exit_code(&self) -> (code: i32)
        ensures
            code == kind_exit_code(self.spec_kind()),
    {
        match self.kind() {
            ErrorKind::User => 2,
            ErrorKind::Runtime => 1,
        }
    }

    pub fn message(&self) -> (m: &str)
        ensures
            m@ == self.spec_message(),
    {
        match self {
            VideoGenError::User { message } => message.as_str(),
            VideoGenError::Runtime { message } => message.as_str(),
        }
    }

    pub fn payload(&self) -> (p: ErrorPayload)
        ensures
            p.kind == self.spec_kind(),
            p.code == kind_exit_code(self.spec_kind()),
            p.message@ == self.spec_message(),
    {
        ErrorPayload {
            kind: self.kind(),
            code: self.exit_code(),
            message: self.message().to_string(),
        }
    }
}

} // verus!
