//! The failures that the client tells apart.

use vstd::prelude::*;

verus! {

/// The closed set of failure kinds.
#[derive(Clone, Copy, Debug, PartialEq, Eq, Structural)]
pub enum ErrorKind {
    /// The service could not be reached, or answered with a failure.
    Transport,
    /// A response was not the expected JSON, or an archive was not gzip.
    Decode,
    /// An archive was malformed, or one of its entries would have left the
    /// destination directory.
    Archive,
    /// The file system refused a write while an archive was unpacked.
    Io,
    /// A query could not be turned into a URL.
    Url,
}

/// The step of the work at which a failure shows.
#[derive(Clone, Copy, Debug, PartialEq, Eq, Structural)]
pub enum Stage {
    Query,
    Transport,
    Decode,
    Extract,
}

/// A failure: its kind, what caused it, and for a decode failure the field
/// that was at fault, where one is known.
#[derive(Clone, Debug, PartialEq, Eq)]
pub struct Error {
    pub kind: ErrorKind,
    pub field: Option<String>,
    pub cause: String,
}

/// The step at which a failure of the given kind shows.
pub open spec fn stage_of(kind: ErrorKind) -> Stage {
    match kind {
        ErrorKind::Url => Stage::Query,
        ErrorKind::Transport => Stage::Transport,
        ErrorKind::Decode => Stage::Decode,
        ErrorKind::Archive => Stage::Extract,
        ErrorKind::Io => Stage::Extract,
    }
}

/// The word by which a step is named in messages.
pub open spec fn stage_text(stage: Stage) -> Seq<char> {
    match stage {
        Stage::Query => "query"@,
        Stage::Transport => "transport"@,
        Stage::Decode => "decode"@,
        Stage::Extract => "extract"@,
    }
}

/// The text of an optional string, or nothing.
pub open spec fn optional_text(text: Option<String>) -> Option<Seq<char>> {
    match text {
        Some(text) => Some(text@),
        None => None,
    }
}

/// The message for a failure at `stage`: the step, the package where one is
/// named, the field where one is known, and the cause.
pub open spec fn message_text(
    stage: Stage,
    package: Option<Seq<char>>,
    field: Option<Seq<char>>,
    cause: Seq<char>,
) -> Seq<char> {
    stage_text(stage) + " failed"@ + (match package {
        Some(name) => " for "@ + name,
        None => Seq::empty(),
    }) + (match field {
        Some(name) => " at "@ + name,
        None => Seq::empty(),
    }) + ": "@ + cause
}

impl ErrorKind {
    /// The step at which a failure of this kind shows.
    pub fn stage(self) -> (stage: Stage)
        ensures
            stage == stage_of(self),
    {
        match self {
            ErrorKind::Url => Stage::Query,
            ErrorKind::Transport => Stage::Transport,
            ErrorKind::Decode => Stage::Decode,
            ErrorKind::Archive => Stage::Extract,
            ErrorKind::Io => Stage::Extract,
        }
    }
}

impl Stage {
    /// The word by which this step is named in messages.
    pub fn name(self) -> (name: &'static str)
        ensures
            name@ == stage_text(self),
    {
        match self {
            Stage::Query => "query",
            Stage::Transport => "transport",
            Stage::Decode => "decode",
            Stage::Extract => "extract",
        }
    }
}

impl Error {
    /// A failure of the given kind with its cause.
    pub fn new(kind: ErrorKind, cause: &str) -> (error: Error)
        ensures
            error.kind == kind,
            error.field is None,
            error.cause@ == cause@,
    {
        Error { kind, field: None, cause: String::from_str(cause) }
    }

    /// A failure to reach the service.
    pub fn transport(cause: &str) -> (error: Error)
        ensures
            error.kind == ErrorKind::Transport,
            error.field is None,
            error.cause@ == cause@,
    {
        Error::new(ErrorKind::Transport, cause)
    }

    /// A decode failure with the name of the field at fault.
    pub fn decode_at(field: &str, cause: &str) -> (error: Error)
        ensures
            error.kind == ErrorKind::Decode,
            optional_text(error.field) == Some(field@),
            error.cause@ == cause@,
    {
        Error {
            kind: ErrorKind::Decode,
            field: Some(String::from_str(field)),
            cause: String::from_str(cause),
        }
    }

    /// The message shown for this failure; `package` names the package that
    /// was being worked on, where there is one.
    pub fn message(&self, package: Option<&str>) -> (text: String)
        ensures
            text@ == message_text(
                stage_of(self.kind),
                match package {
                    Some(name) => Some(name@),
                    None => None,
                },
                optional_text(self.field),
                self.cause@,
            ),
    {
        let mut text = String::from_str(self.kind.stage().name());
        text.append(" failed");
        match package {
            Some(name) => {
                text.append(" for ");
                text.append(name);
            },
            None => {},
        }
        match &self.field {
            Some(name) => {
                text.append(" at ");
                text.append(name.as_str());
            },
            None => {},
        }
        text.append(": ");
        text.append(self.cause.as_str());
        text
    }
}

} // verus!
