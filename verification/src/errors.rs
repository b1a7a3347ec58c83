//! The error that every command of the application reports.

use vstd::prelude::*;

verus! {

/// What went wrong, with a message for the user.
#[derive(Debug)]
pub enum AppError {
    /// Reading or writing failed.
    Io(String),
    /// An external command could not be run or failed.
    Command(String),
    /// Any other failure inside the application.
    Internal(String),
    /// Something that was asked for does not exist.
    NotFound(String),
}

impl AppError {
    /// The message carried by the error, whatever its kind.
    pub open spec fn detail(&self) -> Seq<char> {
        match self {
            AppError::Io(m) => m@,
            AppError::Command(m) => m@,
            AppError::Internal(m) => m@,
            AppError::NotFound(m) => m@,
        }
    }

    /// The words with which the error's kind is announced.
    pub open spec fn prefix(&self) -> Seq<char> {
        match self {
            AppError::Io(_) => "IO error: "@,
            AppError::Command(_) => "Command failed: "@,
            AppError::Internal(_) => "Internal error: "@,
            AppError::NotFound(_) => "NotFound: "@,
        }
    }

    /// The error as one line of text: the kind, then the message.
    pub fn message(&self) -> (text: String)
        ensures
            text@ == self.prefix() + self.detail(),
    {
        match self {
            AppError::Io(m) => String::from_str("IO error: ").concat(m.as_str()),
            AppError::Command(m) => String::from_str("Command failed: ").concat(m.as_str()),
            AppError::Internal(m) => String::from_str("Internal error: ").concat(m.as_str()),
            AppError::NotFound(m) => String::from_str("NotFound: ").concat(m.as_str()),
        }
    }
}

/// The ways in which producing icons can fail. Each carries the path or the
/// operation that failed.
#[derive(Debug)]
pub enum IconError {
    /// The source image does not exist.
    SourceNotFound(String),
    /// The source image is of an unsupported kind or corrupt.
    DecodeFailure(String),
    /// The output directory could not be created.
    DirectoryCreationFailure(String),
    /// A raster did not fit its entry, or the encoder gave up.
    ContainerEncodeFailure(String),
    /// A finished file could not be written.
    FileWriteFailure(String),
    /// The files to relocate were not as expected.
    MigrationFailure(String),
}

impl IconError {
    /// The path or operation attached to the error.
    pub open spec fn detail(&self) -> Seq<char> {
        match self {
            IconError::SourceNotFound(m) => m@,
            IconError::DecodeFailure(m) => m@,
            IconError::DirectoryCreationFailure(m) => m@,
            IconError::ContainerEncodeFailure(m) => m@,
            IconError::FileWriteFailure(m) => m@,
            IconError::MigrationFailure(m) => m@,
        }
    }

    /// The words that say which step failed.
    pub open spec fn lead(&self) -> Seq<char> {
        match self {
            IconError::SourceNotFound(_) => "Source file does not exist: "@,
            IconError::DecodeFailure(_) => "Failed to open image: "@,
            IconError::DirectoryCreationFailure(_) => "Failed to create target directory: "@,
            IconError::ContainerEncodeFailure(_) => "Failed to encode icons: "@,
            IconError::FileWriteFailure(_) => "Failed to write icons: "@,
            IconError::MigrationFailure(_) => "Failed to move icons: "@,
        }
    }

    /// The error as the application reports it: an internal error whose
    /// message names the step and what was attached.
    pub fn into_app_error(self) -> (e: AppError)
        ensures
            e matches AppError::Internal(text) && text@ == self.lead() + self.detail(),
    {
        let text = match self {
            IconError::SourceNotFound(m) => String::from_str("Source file does not exist: ").concat(
                m.as_str(),
            ),
            IconError::DecodeFailure(m) => String::from_str("Failed to open image: ").concat(
                m.as_str(),
            ),
            IconError::DirectoryCreationFailure(m) => String::from_str(
                "Failed to create target directory: ",
            ).concat(m.as_str()),
            IconError::ContainerEncodeFailure(m) => String::from_str(
                "Failed to encode icons: ",
            ).concat(m.as_str()),
            IconError::FileWriteFailure(m) => String::from_str("Failed to write icons: ").concat(
                m.as_str(),
            ),
            IconError::MigrationFailure(m) => String::from_str("Failed to move icons: ").concat(
                m.as_str(),
            ),
        };
        AppError::Internal(text)
    }
}

} // verus!
