//! Error type shared across the crate.

use vstd::prelude::*;

verus! {

#[verifier::external_type_specification]
#[verifier::external_body]
pub struct ExIoError(std::io::Error);

/// Errors produced while loading property definitions or decoding an SPB file.
#[derive(Debug)]
pub enum Error {
    /// An underlying I/O failure (reading inputs, writing outputs).
    Io(std::io::Error),
    /// The property definition set could not be loaded.
    Propdefs(String),
    /// The SPB byte stream was malformed or used an unsupported feature.
    Format(String),
}

/// What an [`Error`] carries, with messages taken as character sequences.
pub enum ErrorView {
    Io,
    Propdefs(Seq<char>),
    Format(Seq<char>),
}

impl View for Error {
    type V = ErrorView;

    open spec fn view(&self) -> ErrorView {
        match self {
            Error::Io(_) => ErrorView::Io,
            Error::Propdefs(m) => ErrorView::Propdefs(m@),
            Error::Format(m) => ErrorView::Format(m@),
        }
    }
}

/// Text of an I/O error, as its `Display` implementation writes it.
#[verifier::external_body]
fn io_error_text(err: &std::io::Error) -> String {
    format!("{err}")
}

impl Error {
    /// The human readable message of this error.
    pub fn message(&self) -> (text: String)
        ensures
            self@ matches ErrorView::Propdefs(m) ==> text@ == m,
            self@ matches ErrorView::Format(m) ==> text@ == m,
    {
        match self {
            Error::Io(err) => io_error_text(err),
            Error::Propdefs(msg) => msg.clone(),
            Error::Format(msg) => msg.clone(),
        }
    }

    /// The underlying I/O error, when there is one.
    pub fn io_source(&self) -> (source: Option<&std::io::Error>)
        ensures
            source is Some <==> self@ is Io,
            source matches Some(e) ==> *self == Error::Io(*e),
    {
        match self {
            Error::Io(err) => Some(err),
            _ => None,
        }
    }
}

impl From<std::io::Error> for Error {
    fn from(err: std::io::Error) -> (e: Self) {
        Error::Io(err)
    }
}

impl vstd::std_specs::convert::FromSpecImpl<std::io::Error> for Error {
    open spec fn obeys_from_spec() -> bool {
        true
    }

    open spec fn from_spec(v: std::io::Error) -> Error {
        Error::Io(v)
    }
}

} // verus!
