use crate::error::PaperError;
use vstd::prelude::*;

verus! {

/// What went wrong with a sheet.
#[derive(Debug, PartialEq, Eq, Clone, Copy, Structural)]
pub enum ErrorKind {
    Empty,
    InvalidStream,
    InvalidData,
}

/// An error about a sheet: its kind, and a message for a person.
#[derive(Debug)]
pub struct SheetError {
    kind: ErrorKind,
    message: String,
}

impl SheetError {
    /// The kind that the error was made with.
    pub closed spec fn error_kind(&self) -> ErrorKind {
        self.kind
    }

    pub fn new(kind: ErrorKind, message: &str) -> (error: Self)
        ensures
            error.error_kind() == kind,
            error.message_text() == message@,
    {
        SheetError { kind, message: message.to_owned() }
    }

    pub fn kind(&self) -> (kind: &ErrorKind)
        ensures
            *kind == self.error_kind(),
    {
        &self.kind
    }

    /// What the error prints as: its message.
    pub fn to_string(&self) -> (text: String)
        ensures
            text@ == self.message_text(),
    {
        self.message.clone()
    }
}

impl PaperError for SheetError {
    closed spec fn message_text(&self) -> Seq<char> {
        self.message@
    }

    fn message(&self) -> (message: &str) {
        self.message.as_str()
    }
}

} // verus!
