//! The failures a reconciliation run can meet, and how severe each is.

use vstd::prelude::*;

verus! {

/// A failure, with the detail that the failing collaborator gave.
#[derive(Debug, PartialEq, Eq)]
pub enum Error {
    /// Data handed over by a collaborator could not be understood.
    ParseError(String),
    /// A call to the target catalog failed.
    LastFMError(String),
    /// The target catalog answered in a shape that could not be decoded.
    LastFMDeserializationError(String),
    /// The target catalog answered, but the answer allows no safe decision.
    LastFMUnexpectedResponse(String),
    /// A call to the source catalog failed.
    SpotifyError(String),
    /// The setup is missing or invalid.
    ConfigurationError(String),
    /// The persistent store could not be read or written.
    StorageError(String),
}

/// The four classes of failure, by what a run does about them.
#[derive(Clone, Copy, Debug, PartialEq, Eq, Structural)]
pub enum ErrorClass {
    /// Fatal: the run stops before any work is done.
    Configuration,
    /// A call to a catalog failed: one item fails, the others go on.
    Transport,
    /// A refusal to guess between candidates: one item is skipped.
    AmbiguousMatch,
    /// Fatal where it occurs: the store is the barrier between runs.
    Storage,
}

/// Which failure an `Error` is, apart from its detail.
#[derive(Clone, Copy, Debug, PartialEq, Eq, Structural)]
pub enum ErrorKind {
    Parse,
    LastFM,
    LastFMDeserialization,
    LastFMUnexpectedResponse,
    Spotify,
    Configuration,
    Storage,
}

impl View for Error {
    type V = (ErrorKind, Seq<char>);

    /// The kind of the failure and its detail.
    open spec fn view(&self) -> (ErrorKind, Seq<char>) {
        (self.kind_of(), self.detail())
    }
}

impl Clone for Error {
    fn clone(&self) -> (copy: Self)
        ensures
            copy == *self,
    {
        match self {
            Error::ParseError(d) => Error::ParseError(d.clone()),
            Error::LastFMError(d) => Error::LastFMError(d.clone()),
            Error::LastFMDeserializationError(d) => Error::LastFMDeserializationError(d.clone()),
            Error::LastFMUnexpectedResponse(d) => Error::LastFMUnexpectedResponse(d.clone()),
            Error::SpotifyError(d) => Error::SpotifyError(d.clone()),
            Error::ConfigurationError(d) => Error::ConfigurationError(d.clone()),
            Error::StorageError(d) => Error::StorageError(d.clone()),
        }
    }
}

impl Error {
    /// The detail carried by the failure.
    pub open spec fn detail(self) -> Seq<char> {
        match self {
            Error::ParseError(d) => d@,
            Error::LastFMError(d) => d@,
            Error::LastFMDeserializationError(d) => d@,
            Error::LastFMUnexpectedResponse(d) => d@,
            Error::SpotifyError(d) => d@,
            Error::ConfigurationError(d) => d@,
            Error::StorageError(d) => d@,
        }
    }

    /// Which failure this is.
    pub open spec fn kind_of(self) -> ErrorKind {
        match self {
            Error::ParseError(_) => ErrorKind::Parse,
            Error::LastFMError(_) => ErrorKind::LastFM,
            Error::LastFMDeserializationError(_) => ErrorKind::LastFMDeserialization,
            Error::LastFMUnexpectedResponse(_) => ErrorKind::LastFMUnexpectedResponse,
            Error::SpotifyError(_) => ErrorKind::Spotify,
            Error::ConfigurationError(_) => ErrorKind::Configuration,
            Error::StorageError(_) => ErrorKind::Storage,
        }
    }

    /// Which failure this is.
    pub fn kind(&self) -> (k: ErrorKind)
        ensures
            k == self.kind_of(),
    {
        match self {
            Error::ParseError(_) => ErrorKind::Parse,
            Error::LastFMError(_) => ErrorKind::LastFM,
            Error::LastFMDeserializationError(_) => ErrorKind::LastFMDeserialization,
            Error::LastFMUnexpectedResponse(_) => ErrorKind::LastFMUnexpectedResponse,
            Error::SpotifyError(_) => ErrorKind::Spotify,
            Error::ConfigurationError(_) => ErrorKind::Configuration,
            Error::StorageError(_) => ErrorKind::Storage,
        }
    }

    /// The words that introduce the detail in a message.
    pub open spec fn prefix(self) -> Seq<char> {
        match self {
            Error::ParseError(_) => "Failed to parse transmit data, error: "@,
            Error::LastFMError(_) => "LastFM error: "@,
            Error::LastFMDeserializationError(_) => "LastFM Deserialization error: "@,
            Error::LastFMUnexpectedResponse(_) => "LastFM API unexpected response: "@,
            Error::SpotifyError(_) => "Spotify error: "@,
            Error::ConfigurationError(_) => "Configuration error: "@,
            Error::StorageError(_) => "Storage error: "@,
        }
    }

    /// The class a failure belongs to.
    pub open spec fn class_of(self) -> ErrorClass {
        match self {
            Error::ParseError(_) => ErrorClass::Transport,
            Error::LastFMError(_) => ErrorClass::Transport,
            Error::LastFMDeserializationError(_) => ErrorClass::Transport,
            Error::LastFMUnexpectedResponse(_) => ErrorClass::AmbiguousMatch,
            Error::SpotifyError(_) => ErrorClass::Transport,
            Error::ConfigurationError(_) => ErrorClass::Configuration,
            Error::StorageError(_) => ErrorClass::Storage,
        }
    }

    /// The class of this failure.
    pub fn class(&self) -> (c: ErrorClass)
        ensures
            c == self.class_of(),
    {
        match self {
            Error::ParseError(_) => ErrorClass::Transport,
            Error::LastFMError(_) => ErrorClass::Transport,
            Error::LastFMDeserializationError(_) => ErrorClass::Transport,
            Error::LastFMUnexpectedResponse(_) => ErrorClass::AmbiguousMatch,
            Error::SpotifyError(_) => ErrorClass::Transport,
            Error::ConfigurationError(_) => ErrorClass::Configuration,
            Error::StorageError(_) => ErrorClass::Storage,
        }
    }

    /// Whether the failure ends the run: a failure of the setup or of the
    /// store does, a failure on one item does not.
    pub fn is_fatal(&self) -> (fatal: bool)
        ensures
            fatal <==> self.class_of() == ErrorClass::Configuration || self.class_of()
                == ErrorClass::Storage,
    {
        match self.class() {
            ErrorClass::Configuration => true,
            ErrorClass::Storage => true,
            ErrorClass::Transport => false,
            ErrorClass::AmbiguousMatch => false,
        }
    }

    /// The message for a reader: the class's words, then the detail.
    pub fn message(&self) -> (text: String)
        ensures
            text@ == self.prefix() + self.detail(),
    {
        match self {
            Error::ParseError(d) => String::from_str(
                "Failed to parse transmit data, error: ",
            ).concat(d.as_str()),
            Error::LastFMError(d) => String::from_str("LastFM error: ").concat(d.as_str()),
            Error::LastFMDeserializationError(d) => String::from_str(
                "LastFM Deserialization error: ",
            ).concat(d.as_str()),
            Error::LastFMUnexpectedResponse(d) => String::from_str(
                "LastFM API unexpected response: ",
            ).concat(d.as_str()),
            Error::SpotifyError(d) => String::from_str("Spotify error: ").concat(d.as_str()),
            Error::ConfigurationError(d) => String::from_str("Configuration error: ").concat(
                d.as_str(),
            ),
            Error::StorageError(d) => String::from_str("Storage error: ").concat(d.as_str()),
        }
    }
}

} // verus!
