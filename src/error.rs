//! The closed set of failures reported by the clipboard and the folder
//! registry, each with the text shown to the user.
use vstd::prelude::*;

verus! {

/// The broad class of a failure.
#[derive(Clone, Copy, Debug, PartialEq, Eq, Structural)]
pub enum ErrorKind {
    Validation,
    NotFound,
    Conflict,
    IoAllFailed,
}

/// A failure of a clipboard or folder operation.
#[derive(Clone, Copy, Debug, PartialEq, Eq, Structural)]
pub enum CoreError {
    EmptyName,
    NameTooLong,
    InvalidCharacters,
    DuplicateName,
    FolderNotFound,
    FileAlreadyInFolder,
    FileNotInFolder,
    NoFilesRead,
    NoReadableFiles,
}

pub open spec fn kind_of(e: CoreError) -> ErrorKind {
    match e {
        CoreError::EmptyName | CoreError::NameTooLong | CoreError::InvalidCharacters => {
            ErrorKind::Validation
        },
        CoreError::DuplicateName | CoreError::FileAlreadyInFolder => ErrorKind::Conflict,
        CoreError::FolderNotFound | CoreError::FileNotInFolder => ErrorKind::NotFound,
        CoreError::NoFilesRead | CoreError::NoReadableFiles => ErrorKind::IoAllFailed,
    }
}

pub open spec fn message_of(e: CoreError) -> Seq<char> {
    match e {
        CoreError::EmptyName => "Folder name cannot be empty"@,
        CoreError::NameTooLong => "Folder name is too long (max 100 characters)"@,
        CoreError::InvalidCharacters => "Folder name contains invalid characters"@,
        CoreError::DuplicateName => "Folder with this name already exists"@,
        CoreError::FolderNotFound => "Folder not found"@,
        CoreError::FileAlreadyInFolder => "File already exists in folder"@,
        CoreError::FileNotInFolder => "File not found in folder"@,
        CoreError::NoFilesRead => "No files could be read successfully"@,
        CoreError::NoReadableFiles => "No readable files found in folder"@,
    }
}

impl CoreError {
    /// The class of this failure, for callers that branch on it.
    pub fn kind(&self) -> (r: ErrorKind)
        ensures
            r == kind_of(*self),
    {
        match self {
            CoreError::EmptyName | CoreError::NameTooLong | CoreError::InvalidCharacters => {
                ErrorKind::Validation
            },
            CoreError::DuplicateName | CoreError::FileAlreadyInFolder => ErrorKind::Conflict,
            CoreError::FolderNotFound | CoreError::FileNotInFolder => ErrorKind::NotFound,
            CoreError::NoFilesRead | CoreError::NoReadableFiles => ErrorKind::IoAllFailed,
        }
    }

    /// The human-readable text of this failure.
    pub fn message(&self) -> (r: String)
        ensures
            r@ == message_of(*self),
    {
        let s = match self {
            CoreError::EmptyName => "Folder name cannot be empty",
            CoreError::NameTooLong => "Folder name is too long (max 100 characters)",
            CoreError::InvalidCharacters => "Folder name contains invalid characters",
            CoreError::DuplicateName => "Folder with this name already exists",
            CoreError::FolderNotFound => "Folder not found",
            CoreError::FileAlreadyInFolder => "File already exists in folder",
            CoreError::FileNotInFolder => "File not found in folder",
            CoreError::NoFilesRead => "No files could be read successfully",
            CoreError::NoReadableFiles => "No readable files found in folder",
        };
        String::from_str(s)
    }
}

} // verus!
