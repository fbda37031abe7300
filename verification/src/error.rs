//! The errors of a build.

use vstd::prelude::*;
use vstd::string::*;
use crate::text::{owned, trim, trimmed};

verus! {

pub type Result<T> = core::result::Result<T, Error>;

/// What can go wrong while a site is built. Paths and causes are kept as text.
#[derive(Debug)]
pub enum Error {
    /// An input or output operation failed.
    Io(String),
    /// A document could not be read.
    Reader { path: String, cause: String },
    /// A document could not be rendered.
    Render { cause: String },
    /// A file could not be copied.
    Copy { from: String, to: String, cause: String },
    /// An output file could not be written.
    Output { dest: String, cause: String },
    /// The settings file could not be read.
    LoadSettings { path: String, cause: String },
    /// The settings are unusable.
    Settings { message: String },
    /// A date given by the user could not be parsed.
    InvalidDate { date: String },
    /// A document holds a metadata field that is not known.
    UnknownMetadataField { name: String },
}

impl Error {
    /// The text shown to the user for this error.
    pub open spec fn message(&self) -> Seq<char> {
        match self {
            Error::Io(cause) => "IO error: "@ + cause@,
            Error::Reader { path, cause } => "Error while reading "@ + path@ + ": "@ + cause@,
            Error::Copy { from, to, cause } => "Could not copy "@ + from@ + " to "@ + to@ + ": "@
                + cause@,
            Error::Output { dest, cause } => "Could not write output file "@ + dest@ + ": "@
                + cause@,
            Error::Render { cause } => "Rendering failed: "@ + cause@,
            Error::LoadSettings { path, cause } => "Could not read settings file "@ + path@ + ": "@
                + cause@,
            Error::InvalidDate { date } => "\""@ + trimmed(date@) + "\" is not a valid date."@,
            Error::UnknownMetadataField { name } => "Unknown metadata \""@ + name@ + "\"."@,
            Error::Settings { message } => message@,
        }
    }

    /// A short description: the cause where there is one, else the kind of error.
    pub open spec fn summary(&self) -> Seq<char> {
        match self {
            Error::Io(cause) => cause@,
            Error::Reader { cause, .. } => cause@,
            Error::Copy { cause, .. } => cause@,
            Error::Output { cause, .. } => cause@,
            Error::Render { cause } => cause@,
            Error::LoadSettings { cause, .. } => cause@,
            Error::InvalidDate { .. } => "Invalid date"@,
            Error::UnknownMetadataField { .. } => "Unknown metadata field"@,
            Error::Settings { .. } => "Invalid configuration"@,
        }
    }

    /// The underlying cause, for the errors that have one.
    pub open spec fn underlying(&self) -> Option<Seq<char>> {
        match self {
            Error::Io(cause) => Some(cause@),
            Error::Reader { cause, .. } => Some(cause@),
            Error::Copy { cause, .. } => Some(cause@),
            Error::Output { cause, .. } => Some(cause@),
            Error::Render { cause } => Some(cause@),
            Error::LoadSettings { cause, .. } => Some(cause@),
            _ => None,
        }
    }

    /// The text shown to the user for this error.
    pub fn to_string(&self) -> (text: String)
        ensures
            text@ == self.message(),
    {
        match self {
            Error::Io(cause) => owned("IO error: ").concat(cause.as_str()),
            Error::Reader { path, cause } => owned("Error while reading ").concat(
                path.as_str(),
            ).concat(": ").concat(cause.as_str()),
            Error::Copy { from, to, cause } => owned("Could not copy ").concat(
                from.as_str(),
            ).concat(" to ").concat(to.as_str()).concat(": ").concat(cause.as_str()),
            Error::Output { dest, cause } => owned("Could not write output file ").concat(
                dest.as_str(),
            ).concat(": ").concat(cause.as_str()),
            Error::Render { cause } => owned("Rendering failed: ").concat(cause.as_str()),
            Error::LoadSettings { path, cause } => owned(
                "Could not read settings file ",
            ).concat(path.as_str()).concat(": ").concat(cause.as_str()),
            Error::InvalidDate { date } => {
                let shown = trim(date.as_str());
                owned("\"").concat(shown.as_str()).concat("\" is not a valid date.")
            },
            Error::UnknownMetadataField { name } => owned("Unknown metadata \"").concat(
                name.as_str(),
            ).concat("\"."),
            Error::Settings { message } => message.clone(),
        }
    }

    /// A short description: the cause where there is one, else the kind of error.
    pub fn description(&self) -> (text: String)
        ensures
            text@ == self.summary(),
    {
        match self {
            Error::Io(cause) => cause.clone(),
            Error::Reader { cause, .. } => cause.clone(),
            Error::Copy { cause, .. } => cause.clone(),
            Error::Output { cause, .. } => cause.clone(),
            Error::Render { cause } => cause.clone(),
            Error::LoadSettings { cause, .. } => cause.clone(),
            Error::InvalidDate { .. } => owned("Invalid date"),
            Error::UnknownMetadataField { .. } => owned("Unknown metadata field"),
            Error::Settings { .. } => owned("Invalid configuration"),
        }
    }

    /// The underlying cause, for the errors that have one.
    pub fn cause(&self) -> (text: Option<&String>)
        ensures
            match text {
                Some(cause) => self.underlying() == Some(cause@),
                None => self.underlying() is None,
            },
    {
        match self {
            Error::Io(cause) => Some(cause),
            Error::Reader { cause, .. } => Some(cause),
            Error::Copy { cause, .. } => Some(cause),
            Error::Output { cause, .. } => Some(cause),
            Error::Render { cause } => Some(cause),
            Error::LoadSettings { cause, .. } => Some(cause),
            _ => None,
        }
    }
}

} // verus!
