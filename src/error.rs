use vstd::prelude::*;
use vstd::string::*;

verus! {

/// The kinds of failure the runtime reports; callers branch on these.
#[derive(Clone, Copy, Debug, PartialEq, Eq, Structural)]
pub enum ErrorKind {
    NotFound,
    ConfigSyntax,
    ParseConfig,
    InvalidArgument,
    InvalidWorkingDirectory,
    InvalidEnvironmentVariable,
    SpawnFailed,
    WaitFailed,
    ContainerExists,
    ContainerNotFound,
    InvalidState,
    Storage,
}

pub open spec fn kind_text(k: ErrorKind) -> Seq<char> {
    match k {
        ErrorKind::NotFound => "not found"@,
        ErrorKind::ConfigSyntax => "config syntax error"@,
        ErrorKind::ParseConfig => "invalid config"@,
        ErrorKind::InvalidArgument => "invalid argument"@,
        ErrorKind::InvalidWorkingDirectory => "invalid working directory"@,
        ErrorKind::InvalidEnvironmentVariable => "invalid environment variable"@,
        ErrorKind::SpawnFailed => "spawn failed"@,
        ErrorKind::WaitFailed => "wait failed"@,
        ErrorKind::ContainerExists => "container exists"@,
        ErrorKind::ContainerNotFound => "container not found"@,
        ErrorKind::InvalidState => "invalid state"@,
        ErrorKind::Storage => "state store error"@,
    }
}

impl ErrorKind {
    /// A short human-readable description of the kind.
    pub fn description(&self) -> (r: &'static str)
        ensures
            r@ == kind_text(*self),
    {
        match self {
            ErrorKind::NotFound => "not found",
            ErrorKind::ConfigSyntax => "config syntax error",
            ErrorKind::ParseConfig => "invalid config",
            ErrorKind::InvalidArgument => "invalid argument",
            ErrorKind::InvalidWorkingDirectory => "invalid working directory",
            ErrorKind::InvalidEnvironmentVariable => "invalid environment variable",
            ErrorKind::SpawnFailed => "spawn failed",
            ErrorKind::WaitFailed => "wait failed",
            ErrorKind::ContainerExists => "container exists",
            ErrorKind::ContainerNotFound => "container not found",
            ErrorKind::InvalidState => "invalid state",
            ErrorKind::Storage => "state store error",
        }
    }
}

/// A classified failure together with the offending input (a path, an
/// environment entry, an OS message) as context.
#[derive(Clone, Debug, PartialEq, Eq)]
pub struct Error {
    pub kind: ErrorKind,
    pub context: String,
}

impl Error {
    pub fn new(kind: ErrorKind, context: &str) -> (r: Error)
        ensures
            r.kind == kind,
            r.context@ == context@,
    {
        Error { kind, context: String::from_str(context) }
    }

    pub fn kind(&self) -> (r: ErrorKind)
        ensures
            r == self.kind,
    {
        self.kind
    }

    pub fn context(&self) -> (r: &str)
        ensures
            r@ == self.context@,
    {
        self.context.as_str()
    }

    /// The text shown to an operator: the kind's description, a colon and
    /// the context.
    pub fn message(&self) -> (r: String)
        ensures
            r@ == kind_text(self.kind) + ": "@ + self.context@,
    {
        let mut s = String::from_str(self.kind.description());
        s.append(": ");
        s.append(self.context.as_str());
        s
    }
}

} // verus!
