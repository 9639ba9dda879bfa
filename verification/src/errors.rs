//! The error that this package reports.

use vstd::prelude::*;
use vstd::std_specs::convert::FromSpecImpl;
use vstd::string::{to_string_from_display_ensures, StringExecFns};

verus! {

/// The error of input and output.
#[verifier::external_type_specification]
#[verifier::external_body]
pub struct ExIoError(std::io::Error);

/// The error of reading a number from text.
#[verifier::external_type_specification]
#[verifier::external_body]
pub struct ExParseIntError(std::num::ParseIntError);

/// An error with the kind of thing that went wrong and a message.
#[derive(Debug)]
pub struct PkgError {
    kind: String,
    message: String,
}

/// What an error of the given kind and message shows to a reader: kind and
/// message where the kind is `pkg`, and an apology for any other kind.
pub open spec fn shown(kind: Seq<char>, message: Seq<char>) -> Seq<char> {
    if kind == "pkg"@ {
        "Packcage Error:{Kind: "@ + kind + ", Message: "@ + message + "}"@
    } else {
        "Sorry, something is wrong! Please Try Again!"@
    }
}

impl PkgError {
    /// The kind of the error.
    pub closed spec fn kind_spec(&self) -> Seq<char> {
        self.kind@
    }

    /// The message of the error.
    pub closed spec fn message_spec(&self) -> Seq<char> {
        self.message@
    }

    /// An error of the given kind with the given message.
    pub fn new(kind: String, message: String) -> (e: Self)
        ensures
            e.kind_spec() == kind@,
            e.message_spec() == message@,
    {
        PkgError { kind, message }
    }

    /// The kind of the error.
    pub fn kind(&self) -> (kind: &str)
        ensures
            kind@ == self.kind_spec(),
    {
        self.kind.as_str()
    }

    /// The message of the error.
    pub fn message(&self) -> (message: &str)
        ensures
            message@ == self.message_spec(),
    {
        self.message.as_str()
    }

    /// What the error shows to a reader.
    pub fn to_string(&self) -> (text: String)
        ensures
            text@ == shown(self.kind_spec(), self.message_spec()),
    {
        if self.kind == String::from_str("pkg") {
            let mut text: String = String::from_str("Packcage Error:{Kind: ");
            text.append(self.kind.as_str());
            text.append(", Message: ");
            text.append(self.message.as_str());
            text.append("}");
            text
        } else {
            String::from_str("Sorry, something is wrong! Please Try Again!")
        }
    }
}

/// The message of an error made from `error` is what `error` shows.
pub open spec fn shows<T: core::fmt::Display>(error: &T, message: Seq<char>) -> bool {
    exists|text: String| #[trigger]
        to_string_from_display_ensures::<T>(error, text) && text@ == message
}

impl From<std::io::Error> for PkgError {
    /// An error of the kind `io` whose message is what `error` shows.
    fn from(error: std::io::Error) -> (e: Self)
        ensures
            e.kind_spec() == "io"@,
            shows(&error, e.message_spec()),
    {
        let message: String = error.to_string();
        PkgError { kind: String::from_str("io"), message }
    }
}

impl FromSpecImpl<std::io::Error> for PkgError {
    open spec fn obeys_from_spec() -> bool {
        false
    }

    open spec fn from_spec(error: std::io::Error) -> Self {
        arbitrary()
    }
}

impl From<std::num::ParseIntError> for PkgError {
    /// An error of the kind `parse` whose message is what `error` shows.
    fn from(error: std::num::ParseIntError) -> (e: Self)
        ensures
            e.kind_spec() == "parse"@,
            shows(&error, e.message_spec()),
    {
        let message: String = error.to_string();
        PkgError { kind: String::from_str("parse"), message }
    }
}

impl FromSpecImpl<std::num::ParseIntError> for PkgError {
    open spec fn obeys_from_spec() -> bool {
        false
    }

    open spec fn from_spec(error: std::num::ParseIntError) -> Self {
        arbitrary()
    }
}

} // verus!
