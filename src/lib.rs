//! An in-memory clipboard that gathers file text under its path, and a
//! registry of named folders of file paths, behind the command surface of an
//! editor plugin.
//!
//! The clipboard keeps one entry per source file and renders all entries as
//! one block of text. The registry keeps folders with distinct names and
//! ids, each listing distinct paths. Reading files is left to the caller,
//! which hands each path's text (or its absence) to the library.
pub mod clipboard;
pub mod error;
pub mod extension;
pub mod folders;
pub mod models;
pub mod text;

pub use clipboard::ClipboardManager;
pub use error::{CoreError, ErrorKind};
pub use extension::{Command, CommandError, CopyPathWithCodeExtension};
pub use folders::FolderManager;
pub use models::{CopiedFile, ExtensionState, FileSelection, Folder};
