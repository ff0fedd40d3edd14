use vstd::prelude::*;
use vstd::string::StringExecFns;

verus! {

/// The kinds of error that concern the node as a whole.
#[derive(Copy, Clone, Debug, PartialEq, Eq, Structural)]
pub enum ErrorKind {
    InvalidConfiguration,
}

/// An error that concerns the node as a whole.
#[derive(Debug)]
pub struct PolluxError {
    message: String,
    error_kind: ErrorKind,
}

/// The name of an error kind.
pub open spec fn kind_name(kind: ErrorKind) -> Seq<char> {
    match kind {
        ErrorKind::InvalidConfiguration => "InvalidConfiguration"@,
    }
}

impl PolluxError {
    pub closed spec fn message(&self) -> Seq<char> {
        self.message@
    }

    pub closed spec fn kind(&self) -> ErrorKind {
        self.error_kind
    }

    pub fn new(error_kind: ErrorKind, message: String) -> (error: PolluxError)
        ensures
            error.kind() == error_kind,
            error.message() == message@,
    {
        PolluxError { message, error_kind }
    }

    pub fn error_kind(&self) -> (kind: ErrorKind)
        ensures
            kind == self.kind(),
    {
        self.error_kind
    }

    pub fn get_message(&self) -> (message: &String)
        ensures
            message@ == self.message(),
    {
        &self.message
    }

    /// The error as a line of text.
    pub fn describe(&self) -> (text: String)
        ensures
            text@ == "Data Frame Error occurred, ErrorKind: "@ + kind_name(self.kind())
                + ", message: "@ + self.message(),
    {
        let mut text = String::from_str("Data Frame Error occurred, ErrorKind: ");
        match self.error_kind {
            ErrorKind::InvalidConfiguration => text.append("InvalidConfiguration"),
        }
        text.append(", message: ");
        text.append(self.message.as_str());
        text
    }
}

} // verus!
