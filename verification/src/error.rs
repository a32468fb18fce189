//! A small error type: either an error that came from elsewhere, carried as
//! it is, or a plain message.

use anyhow::Error as AnyhowError;
use vstd::prelude::*;

verus! {

/// `anyhow::Error`, carried as a value of which nothing is known.
#[verifier::external_type_specification]
#[verifier::external_body]
pub struct ExAnyhowError(AnyhowError);

/// What an [`Error`] holds.
pub enum ErrorKind {
    /// An error made elsewhere.
    Default(AnyhowError),
    /// A message.
    Msg(String),
}

/// An error that is either carried over from elsewhere or a message.
pub struct Error {
    kind: ErrorKind,
}

/// The text that `anyhow::Error`'s `Display` impl writes for `err`. Nothing
/// is claimed of it: the text is whatever the carried error prints.
#[verifier::external_body]
fn display_text(err: &AnyhowError) -> (text: String) {
    format!("{}", err)
}

/// The text that `anyhow::Error`'s `Debug` impl writes for `err`. Nothing is
/// claimed of it: the text is whatever the carried error prints.
#[verifier::external_body]
fn debug_text(err: &AnyhowError) -> (text: String) {
    format!("{:?}", err)
}

impl Error {
    /// What the error holds.
    pub closed spec fn kind(&self) -> ErrorKind {
        self.kind
    }

    /// Carries `err`, converted into an `anyhow::Error`.
    pub fn default<E: Into<AnyhowError>>(err: E) -> (error: Self)
        ensures
            error.kind() matches ErrorKind::Default(inner) && call_ensures(
                E::into,
                (err,),
                inner,
            ),
    {
        Self { kind: ErrorKind::Default(err.into()) }
    }

    /// An error that holds the message `msg`.
    pub fn msg(msg: &str) -> (error: Self)
        ensures
            error.kind() matches ErrorKind::Msg(text) && text@ == msg@,
    {
        Self { kind: ErrorKind::Msg(msg.to_owned()) }
    }

    /// The text of the error for a reader: the message, or what the carried
    /// error displays.
    pub fn to_string(&self) -> (text: String)
        ensures
            self.kind() matches ErrorKind::Msg(msg) ==> text@ == msg@,
    {
        match &self.kind {
            ErrorKind::Default(err) => display_text(err),
            ErrorKind::Msg(msg) => msg.clone(),
        }
    }

    /// The text of the error for a developer: the message, or the debug form
    /// of the carried error.
    pub fn to_debug_string(&self) -> (text: String)
        ensures
            self.kind() matches ErrorKind::Msg(msg) ==> text@ == msg@,
    {
        match &self.kind {
            ErrorKind::Default(err) => debug_text(err),
            ErrorKind::Msg(msg) => msg.clone(),
        }
    }
}

} // verus!
