//! The errors of storage and of actions, and the text each one reports.
//! An error that wraps an error of another library holds that error's text.

use vstd::prelude::*;

verus! {

/// What can go wrong while handling the project storage.
#[derive(Debug, PartialEq, Eq)]
pub enum StorageError {
    BadChoice,
    NoWorkingDir,
    ProjectFileExists,
    ProjectDirExists,
    ProjectDoesNotExist,
    StoragePathNotAbsolute,
    InvalidDirStructure,
    /// A project file could not be parsed; holds the parser's description.
    ParseError(String),
    TemplateNotFound,
    /// The repository failed; holds its description.
    Git(String),
    /// Reading or writing failed; holds its description.
    Io(String),
}

/// The description of each storage error.
pub open spec fn storage_description(e: StorageError) -> Seq<char> {
    match e {
        StorageError::BadChoice => "The directory you passed cannot be used in this context. You perhaps passed `Templates` instead of `Archive` or `Working`"@,
        StorageError::NoWorkingDir => "There is no working dir."@,
        StorageError::ProjectFileExists => "Conflicting Name, you tried to create a project already exists."@,
        StorageError::ProjectDirExists => "Conflicting Name, you tried to create a project for which the project dir already exists."@,
        StorageError::ProjectDoesNotExist => "No project was found matching this description."@,
        StorageError::StoragePathNotAbsolute => "Top Level storage path is not absolute."@,
        StorageError::InvalidDirStructure => "The filestructure under storage path does not correspond with the configuration."@,
        StorageError::ParseError(inner) => inner@,
        StorageError::TemplateNotFound => "The described template file does not exist."@,
        StorageError::Git(inner) => inner@,
        StorageError::Io(inner) => inner@,
    }
}

/// The error that a storage error wraps, by its description.
pub open spec fn storage_cause(e: StorageError) -> Option<Seq<char>> {
    match e {
        StorageError::ParseError(inner) => Some(inner@),
        StorageError::Git(inner) => Some(inner@),
        StorageError::Io(inner) => Some(inner@),
        _ => None,
    }
}

impl StorageError {
    /// A short description of the error.
    pub fn description(&self) -> (d: &str)
        ensures
            d@ == storage_description(*self),
    {
        match self {
            StorageError::BadChoice => "The directory you passed cannot be used in this context. You perhaps passed `Templates` instead of `Archive` or `Working`",
            StorageError::NoWorkingDir => "There is no working dir.",
            StorageError::ProjectFileExists => "Conflicting Name, you tried to create a project already exists.",
            StorageError::ProjectDirExists => "Conflicting Name, you tried to create a project for which the project dir already exists.",
            StorageError::ProjectDoesNotExist => "No project was found matching this description.",
            StorageError::StoragePathNotAbsolute => "Top Level storage path is not absolute.",
            StorageError::InvalidDirStructure => "The filestructure under storage path does not correspond with the configuration.",
            StorageError::ParseError(inner) => inner.as_str(),
            StorageError::TemplateNotFound => "The described template file does not exist.",
            StorageError::Git(inner) => inner.as_str(),
            StorageError::Io(inner) => inner.as_str(),
        }
    }

    /// The wrapped error, given by its description, for the errors that
    /// wrap one.
    pub fn cause(&self) -> (c: Option<&str>)
        ensures
            match c {
                Some(s) => storage_cause(*self) == Some(s@),
                None => storage_cause(*self) is None,
            },
    {
        match self {
            StorageError::ParseError(inner) => Some(inner.as_str()),
            StorageError::Git(inner) => Some(inner.as_str()),
            StorageError::Io(inner) => Some(inner.as_str()),
            _ => None,
        }
    }
}

/// An error that wraps another one describes itself as that other one does.
pub proof fn lemma_wrapped_error_description(e: StorageError)
    requires
        storage_cause(e) is Some,
    ensures
        storage_description(e) == storage_cause(e)->0,
{
}

/// What can go wrong while carrying out an action.
#[derive(Debug, PartialEq, Eq)]
pub enum Error {
    ActionError,
    AddingFailed,
    /// Holds the message of the I/O error.
    Io(String),
    /// Holds the message of the formatting error.
    Fmt(String),
    /// Holds the message of the clock error.
    Time(String),
    /// Holds the message of the TOML error.
    Toml(String),
    /// Holds the message of the project error.
    Project(String),
}

/// The message of each action error.
pub open spec fn error_message(e: Error) -> Seq<char> {
    match e {
        Error::ActionError => "unexpected response from service"@,
        Error::AddingFailed => "Adding Failed"@,
        Error::Io(m) => m@,
        Error::Fmt(m) => m@,
        Error::Time(m) => m@,
        Error::Toml(m) => m@,
        Error::Project(m) => m@,
    }
}

impl Error {
    /// The message that the error displays.
    pub fn message(&self) -> (m: &str)
        ensures
            m@ == error_message(*self),
    {
        match self {
            Error::ActionError => "unexpected response from service",
            Error::AddingFailed => "Adding Failed",
            Error::Io(m) => m.as_str(),
            Error::Fmt(m) => m.as_str(),
            Error::Time(m) => m.as_str(),
            Error::Toml(m) => m.as_str(),
            Error::Project(m) => m.as_str(),
        }
    }
}

} // verus!
