//! The command surface of the editor plugin: a command name and its string
//! arguments are parsed into a `Command`, which is carried out on the
//! clipboard and the folder registry.
use vstd::prelude::*;
use crate::clipboard::{copied, status_text, ClipboardManager};
use crate::error::{message_of, CoreError};
use crate::folders::{
    add_file_post, create_post, delete_post, folder_copy_post, remove_file_post, rename_post,
    total_files, FolderManager,
};
use crate::models::{FileSelection, Folder};
use crate::text::{dec, decimal, parse_u32, parsed_u32, same_text};

verus! {

/// A request to the plugin, with its arguments in place.
#[derive(Debug)]
pub enum Command {
    CopyPathWithContent { file_path: String, content: String, selection: Option<FileSelection> },
    ClearClipboard,
    CreateFolder { name: String, initial_files: Vec<String> },
    DeleteFolder { folder_id: String },
    RenameFolder { folder_id: String, new_name: String },
    AddFileToFolder { folder_id: String, file_path: String },
    RemoveFileFromFolder { folder_id: String, file_path: String },
    CopyFolderContents { folder_id: String },
    ListFolders,
    Status,
}

/// Why a command could not be carried out.
#[derive(Debug)]
pub enum CommandError {
    Core(CoreError),
    MissingPathAndContent,
    MissingFolderName,
    MissingFolderId,
    MissingFolderIdAndName,
    MissingFolderIdAndPath,
    InvalidStartLine,
    InvalidEndLine,
    UnknownCommand(String),
}

pub open spec fn command_message(e: CommandError) -> Seq<char> {
    match e {
        CommandError::Core(c) => message_of(c),
        CommandError::MissingPathAndContent => "Missing arguments: file_path and content required"@,
        CommandError::MissingFolderName => "Missing argument: folder name required"@,
        CommandError::MissingFolderId => "Missing argument: folder_id required"@,
        CommandError::MissingFolderIdAndName => "Missing arguments: folder_id and new_name required"@,
        CommandError::MissingFolderIdAndPath => "Missing arguments: folder_id and file_path required"@,
        CommandError::InvalidStartLine => "Invalid start line"@,
        CommandError::InvalidEndLine => "Invalid end line"@,
        CommandError::UnknownCommand(name) => "Unknown command: "@ + name@,
    }
}

impl CommandError {
    /// The text shown to the user.
    pub fn message(&self) -> (r: String)
        ensures
            r@ == command_message(*self),
    {
        match self {
            CommandError::Core(c) => c.message(),
            CommandError::MissingPathAndContent => String::from_str(
                "Missing arguments: file_path and content required",
            ),
            CommandError::MissingFolderName => String::from_str(
                "Missing argument: folder name required",
            ),
            CommandError::MissingFolderId => String::from_str("Missing argument: folder_id required"),
            CommandError::MissingFolderIdAndName => String::from_str(
                "Missing arguments: folder_id and new_name required",
            ),
            CommandError::MissingFolderIdAndPath => String::from_str(
                "Missing arguments: folder_id and file_path required",
            ),
            CommandError::InvalidStartLine => String::from_str("Invalid start line"),
            CommandError::InvalidEndLine => String::from_str("Invalid end line"),
            CommandError::UnknownCommand(name) => {
                let mut m = String::from_str("Unknown command: ");
                m.append(name.as_str());
                m
            },
        }
    }
}

/// `r` is what parsing the command `name` with the arguments `args` gives.
pub open spec fn parses_to(name: Seq<char>, args: Seq<String>, r: Result<Command, CommandError>) -> bool {
    if name == "copy_path_with_content"@ {
        if args.len() < 2 {
            r == Err::<Command, CommandError>(CommandError::MissingPathAndContent)
        } else if args.len() < 4 {
            r == Ok::<Command, CommandError>(
                Command::CopyPathWithContent {
                    file_path: args[0],
                    content: args[1],
                    selection: None,
                },
            )
        } else if parsed_u32(args[2]@) is None {
            r == Err::<Command, CommandError>(CommandError::InvalidStartLine)
        } else if parsed_u32(args[3]@) is None {
            r == Err::<Command, CommandError>(CommandError::InvalidEndLine)
        } else {
            r == Ok::<Command, CommandError>(
                Command::CopyPathWithContent {
                    file_path: args[0],
                    content: args[1],
                    selection: Some(
                        FileSelection {
                            start_line: parsed_u32(args[2]@)->Some_0,
                            end_line: parsed_u32(args[3]@)->Some_0,
                            content: if args.len() >= 5 {
                                args[4]
                            } else {
                                args[1]
                            },
                        },
                    ),
                },
            )
        }
    } else if name == "clear_clipboard"@ {
        r == Ok::<Command, CommandError>(Command::ClearClipboard)
    } else if name == "create_folder"@ {
        if args.len() == 0 {
            r == Err::<Command, CommandError>(CommandError::MissingFolderName)
        } else {
            r matches Ok(Command::CreateFolder { name: n, initial_files: f }) && n == args[0]
                && f@ == args.drop_first()
        }
    } else if name == "delete_folder"@ {
        if args.len() == 0 {
            r == Err::<Command, CommandError>(CommandError::MissingFolderId)
        } else {
            r == Ok::<Command, CommandError>(Command::DeleteFolder { folder_id: args[0] })
        }
    } else if name == "rename_folder"@ {
        if args.len() < 2 {
            r == Err::<Command, CommandError>(CommandError::MissingFolderIdAndName)
        } else {
            r == Ok::<Command, CommandError>(
                Command::RenameFolder { folder_id: args[0], new_name: args[1] },
            )
        }
    } else if name == "add_file_to_folder"@ {
        if args.len() < 2 {
            r == Err::<Command, CommandError>(CommandError::MissingFolderIdAndPath)
        } else {
            r == Ok::<Command, CommandError>(
                Command::AddFileToFolder { folder_id: args[0], file_path: args[1] },
            )
        }
    } else if name == "remove_file_from_folder"@ {
        if args.len() < 2 {
            r == Err::<Command, CommandError>(CommandError::MissingFolderIdAndPath)
        } else {
            r == Ok::<Command, CommandError>(
                Command::RemoveFileFromFolder { folder_id: args[0], file_path: args[1] },
            )
        }
    } else if name == "copy_folder_contents"@ {
        if args.len() == 0 {
            r == Err::<Command, CommandError>(CommandError::MissingFolderId)
        } else {
            r == Ok::<Command, CommandError>(Command::CopyFolderContents { folder_id: args[0] })
        }
    } else if name == "list_folders"@ {
        r == Ok::<Command, CommandError>(Command::ListFolders)
    } else if name == "status"@ {
        r == Ok::<Command, CommandError>(Command::Status)
    } else {
        r matches Err(CommandError::UnknownCommand(n)) && n@ == name
    }
}

/// Parses a command name and its arguments.
pub fn parse_command(command: &str, args: Vec<String>) -> (r: Result<Command, CommandError>)
    ensures
        parses_to(command@, args@, r),
{
    if same_text(command, "copy_path_with_content") {
        if args.len() < 2 {
            return Err(CommandError::MissingPathAndContent);
        }
        let file_path = args[0].clone();
        let content = args[1].clone();
        let selection = if args.len() >= 4 {
            let start_line = match parse_u32(args[2].as_str()) {
                Some(n) => n,
                None => {
                    return Err(CommandError::InvalidStartLine);
                },
            };
            let end_line = match parse_u32(args[3].as_str()) {
                Some(n) => n,
                None => {
                    return Err(CommandError::InvalidEndLine);
                },
            };
            let selected_content = if args.len() >= 5 {
                args[4].clone()
            } else {
                content.clone()
            };
            Some(FileSelection::new(start_line, end_line, selected_content))
        } else {
            None
        };
        Ok(Command::CopyPathWithContent { file_path, content, selection })
    } else if same_text(command, "clear_clipboard") {
        Ok(Command::ClearClipboard)
    } else if same_text(command, "create_folder") {
        if args.len() == 0 {
            return Err(CommandError::MissingFolderName);
        }
        let name = args[0].clone();
        let mut initial_files: Vec<String> = Vec::new();
        let mut i: usize = 1;
        while i < args.len()
            invariant
                1 <= i <= args.len(),
                initial_files@ == args@.subrange(1, i as int),
            decreases args.len() - i,
        {
            initial_files.push(args[i].clone());
            assert(initial_files@ =~= args@.subrange(1, i + 1));
            i = i + 1;
        }
        assert(initial_files@ =~= args@.drop_first());
        Ok(Command::CreateFolder { name, initial_files })
    } else if same_text(command, "delete_folder") {
        if args.len() == 0 {
            return Err(CommandError::MissingFolderId);
        }
        Ok(Command::DeleteFolder { folder_id: args[0].clone() })
    } else if same_text(command, "rename_folder") {
        if args.len() < 2 {
            return Err(CommandError::MissingFolderIdAndName);
        }
        Ok(Command::RenameFolder { folder_id: args[0].clone(), new_name: args[1].clone() })
    } else if same_text(command, "add_file_to_folder") {
        if args.len() < 2 {
            return Err(CommandError::MissingFolderIdAndPath);
        }
        Ok(Command::AddFileToFolder { folder_id: args[0].clone(), file_path: args[1].clone() })
    } else if same_text(command, "remove_file_from_folder") {
        if args.len() < 2 {
            return Err(CommandError::MissingFolderIdAndPath);
        }
        Ok(Command::RemoveFileFromFolder { folder_id: args[0].clone(), file_path: args[1].clone() })
    } else if same_text(command, "copy_folder_contents") {
        if args.len() == 0 {
            return Err(CommandError::MissingFolderId);
        }
        Ok(Command::CopyFolderContents { folder_id: args[0].clone() })
    } else if same_text(command, "list_folders") {
        Ok(Command::ListFolders)
    } else if same_text(command, "status") {
        Ok(Command::Status)
    } else {
        Err(CommandError::UnknownCommand(String::from_str(command)))
    }
}

/// A line of the folder listing.
pub open spec fn folder_line(f: Folder) -> Seq<char> {
    f.id@ + ": "@ + f.name@ + " ("@ + dec(f.files@.len()) + " files)"@
}

/// Lines joined with newlines.
pub open spec fn joined(lines: Seq<Seq<char>>) -> Seq<char>
    decreases lines.len(),
{
    if lines.len() == 0 {
        Seq::empty()
    } else if lines.len() == 1 {
        lines[0]
    } else {
        joined(lines.drop_last()) + "\n"@ + lines.last()
    }
}

/// The answer to a successful copy, given how many files the clipboard holds.
pub open spec fn copied_message(n: nat) -> Seq<char> {
    "Copied "@ + dec(n) + " files to clipboard"@
}

/// `r` answers as the registry's result `q` does.
pub open spec fn answers(r: Result<String, CommandError>, q: Result<String, CoreError>) -> bool {
    match q {
        Ok(t) => r == Ok::<String, CommandError>(t),
        Err(e) => r matches Err(CommandError::Core(c)) && c == e,
    }
}

/// The plugin's state: its clipboard and its folders.
pub struct CopyPathWithCodeExtension {
    pub clipboard_manager: ClipboardManager,
    pub folder_manager: FolderManager,
}

impl CopyPathWithCodeExtension {
    /// The summary line for the current state.
    pub open spec fn status_view(&self) -> Seq<char> {
        "Clipboard: "@ + status_text(self.clipboard_manager.copied_files@.len()) + " | Folders: "@
            + dec(self.folder_manager.folders@.len()) + " | Total folder files: "@ + dec(
            total_files(self.folder_manager.folders@),
        )
    }

    /// What carrying out `cmd` leaves and returns; `contents` holds the text
    /// of each file of the folder that a `CopyFolderContents` names, where it
    /// could be read.
    pub open spec fn executes(
        old: Self,
        cmd: Command,
        contents: Seq<Option<String>>,
        new: Self,
        r: Result<String, CommandError>,
    ) -> bool {
        match cmd {
            Command::CopyPathWithContent { file_path, content, selection } => {
                &&& copied(
                    old.clipboard_manager.copied_files@,
                    file_path,
                    content,
                    selection,
                    new.clipboard_manager.copied_files@,
                )
                &&& new.folder_manager == old.folder_manager
                &&& r matches Ok(m) && m@ == copied_message(
                    new.clipboard_manager.copied_files@.len(),
                )
            },
            Command::ClearClipboard => {
                &&& new.clipboard_manager.copied_files@.len() == 0
                &&& new.folder_manager == old.folder_manager
                &&& r matches Ok(m) && m@ == "Clipboard cleared"@
            },
            Command::CreateFolder { name, initial_files } => {
                &&& new.clipboard_manager == old.clipboard_manager
                &&& exists|q: Result<String, CoreError>|
                    create_post(old.folder_manager, name, initial_files@, new.folder_manager, q)
                        && answers(r, q)
            },
            Command::DeleteFolder { folder_id } => {
                &&& new.clipboard_manager == old.clipboard_manager
                &&& exists|q: Result<String, CoreError>|
                    delete_post(old.folder_manager, folder_id@, new.folder_manager, q) && answers(
                        r,
                        q,
                    )
            },
            Command::RenameFolder { folder_id, new_name } => {
                &&& new.clipboard_manager == old.clipboard_manager
                &&& exists|q: Result<String, CoreError>|
                    rename_post(old.folder_manager, folder_id@, new_name, new.folder_manager, q)
                        && answers(r, q)
            },
            Command::AddFileToFolder { folder_id, file_path } => {
                &&& new.clipboard_manager == old.clipboard_manager
                &&& exists|q: Result<String, CoreError>|
                    add_file_post(old.folder_manager, folder_id@, file_path, new.folder_manager, q)
                        && answers(r, q)
            },
            Command::RemoveFileFromFolder { folder_id, file_path } => {
                &&& new.clipboard_manager == old.clipboard_manager
                &&& exists|q: Result<String, CoreError>|
                    remove_file_post(
                        old.folder_manager,
                        folder_id@,
                        file_path@,
                        new.folder_manager,
                        q,
                    ) && answers(r, q)
            },
            Command::CopyFolderContents { folder_id } => {
                &&& new == old
                &&& exists|q: Result<String, CoreError>|
                    folder_copy_post(old.folder_manager.folders@, folder_id@, contents, q) && match q {
                        Ok(_) => r matches Ok(m) && m@ == "Copied folder contents to clipboard"@,
                        Err(e) => r matches Err(CommandError::Core(c)) && c == e,
                    }
            },
            Command::ListFolders => {
                &&& new == old
                &&& r matches Ok(m) && m@ == joined(
                    old.folder_manager.folders@.map_values(|f: Folder| folder_line(f)),
                )
            },
            Command::Status => {
                &&& new == old
                &&& r matches Ok(m) && m@ == old.status_view()
            },
        }
    }

    /// Handling the command `name` with `args` parsed it as `p`, which gave
    /// `q` (the parse error, or what carrying it out gave), shown as `r`.
    pub open spec fn handled(
        old: Self,
        name: Seq<char>,
        args: Seq<String>,
        contents: Seq<Option<String>>,
        new: Self,
        p: Result<Command, CommandError>,
        q: Result<String, CommandError>,
        r: Result<String, String>,
    ) -> bool {
        &&& parses_to(name, args, p)
        &&& match p {
            Err(e) => new == old && q == Err::<String, CommandError>(e),
            Ok(cmd) => Self::executes(old, cmd, contents, new, q),
        }
        &&& match q {
            Ok(m) => r == Ok::<String, String>(m),
            Err(e) => r matches Err(t) && t@ == command_message(e),
        }
    }

    pub fn new() -> (r: Self)
        ensures
            r.clipboard_manager.copied_files@.len() == 0,
            r.folder_manager.folders@.len() == 0,
            r.folder_manager.next_id == 1,
            r.clipboard_manager.wf(),
            r.folder_manager.wf(),
    {
        CopyPathWithCodeExtension {
            clipboard_manager: ClipboardManager::new(),
            folder_manager: FolderManager::new(),
        }
    }

    /// Copies a file, or a selection of it, to the clipboard and reports how
    /// many files it now holds.
    pub fn copy_current_file(
        &mut self,
        file_path: String,
        content: String,
        selection: Option<FileSelection>,
    ) -> (r: Result<String, CoreError>)
        ensures
            copied(
                old(self).clipboard_manager.copied_files@,
                file_path,
                content,
                selection,
                final(self).clipboard_manager.copied_files@,
            ),
            final(self).folder_manager == old(self).folder_manager,
            r matches Ok(m) && m@ == copied_message(
                final(self).clipboard_manager.copied_files@.len(),
            ),
    {
        let _ = self.clipboard_manager.copy_file_with_content(file_path, content, selection);
        let n = self.clipboard_manager.get_file_count();
        let mut m = String::from_str("Copied ");
        let count = decimal(n as u64);
        m.append(count.as_str());
        m.append(" files to clipboard");
        Ok(m)
    }

    pub fn clear_clipboard(&mut self) -> (r: String)
        ensures
            final(self).clipboard_manager.copied_files@.len() == 0,
            final(self).folder_manager == old(self).folder_manager,
            r@ == "Clipboard cleared"@,
    {
        self.clipboard_manager.clear();
        String::from_str("Clipboard cleared")
    }

    pub fn create_folder(&mut self, name: String, initial_files: Vec<String>) -> (r: Result<
        String,
        CoreError,
    >)
        requires
            old(self).folder_manager.next_id < u64::MAX,
        ensures
            create_post(
                old(self).folder_manager,
                name,
                initial_files@,
                final(self).folder_manager,
                r,
            ),
            final(self).clipboard_manager == old(self).clipboard_manager,
    {
        self.folder_manager.create_folder(name, initial_files)
    }

    pub fn delete_folder(&mut self, folder_id: String) -> (r: Result<String, CoreError>)
        ensures
            delete_post(old(self).folder_manager, folder_id@, final(self).folder_manager, r),
            final(self).clipboard_manager == old(self).clipboard_manager,
    {
        self.folder_manager.delete_folder(folder_id.as_str())
    }

    pub fn rename_folder(&mut self, folder_id: String, new_name: String) -> (r: Result<
        String,
        CoreError,
    >)
        ensures
            rename_post(
                old(self).folder_manager,
                folder_id@,
                new_name,
                final(self).folder_manager,
                r,
            ),
            final(self).clipboard_manager == old(self).clipboard_manager,
    {
        self.folder_manager.rename_folder(folder_id.as_str(), new_name)
    }

    pub fn add_file_to_folder(&mut self, folder_id: String, file_path: String) -> (r: Result<
        String,
        CoreError,
    >)
        ensures
            add_file_post(
                old(self).folder_manager,
                folder_id@,
                file_path,
                final(self).folder_manager,
                r,
            ),
            final(self).clipboard_manager == old(self).clipboard_manager,
    {
        self.folder_manager.add_file_to_folder(folder_id.as_str(), file_path)
    }

    pub fn remove_file_from_folder(&mut self, folder_id: String, file_path: String) -> (r: Result<
        String,
        CoreError,
    >)
        ensures
            remove_file_post(
                old(self).folder_manager,
                folder_id@,
                file_path@,
                final(self).folder_manager,
                r,
            ),
            final(self).clipboard_manager == old(self).clipboard_manager,
    {
        self.folder_manager.remove_file_from_folder(folder_id.as_str(), file_path.as_str())
    }

    /// Renders the readable files of a folder (`contents[i]` holds the text
    /// of its `i`-th file, where it could be read) and reports the copy.
    pub fn copy_folder_contents(&self, folder_id: String, contents: &Vec<Option<String>>) -> (r:
        Result<String, CoreError>)
        ensures
            exists|q: Result<String, CoreError>|
                folder_copy_post(self.folder_manager.folders@, folder_id@, contents@, q) && match q {
                    Ok(_) => r matches Ok(m) && m@ == "Copied folder contents to clipboard"@,
                    Err(e) => r == Err::<String, CoreError>(e),
                },
    {
        match self.folder_manager.copy_folder_contents(folder_id.as_str(), contents) {
            Ok(_) => Ok(String::from_str("Copied folder contents to clipboard")),
            Err(e) => Err(e),
        }
    }

    /// One line per folder: its id, its name and how many files it holds.
    pub fn list_folders(&self) -> (r: Vec<String>)
        ensures
            r@.len() == self.folder_manager.folders@.len(),
            forall|i: int|
                0 <= i < r@.len() ==> (#[trigger] r@[i])@ == folder_line(
                    self.folder_manager.folders@[i],
                ),
    {
        let folders = self.folder_manager.list_folders();
        let mut lines: Vec<String> = Vec::new();
        let mut i: usize = 0;
        while i < folders.len()
            invariant
                folders == &self.folder_manager.folders,
                i <= folders.len(),
                lines@.len() == i,
                forall|j: int| 0 <= j < i ==> (#[trigger] lines@[j])@ == folder_line(folders@[j]),
            decreases folders.len() - i,
        {
            let f = &folders[i];
            let mut line = f.id.clone();
            line.append(": ");
            line.append(f.name.as_str());
            line.append(" (");
            let n = decimal(f.file_count() as u64);
            line.append(n.as_str());
            line.append(" files)");
            lines.push(line);
            i = i + 1;
        }
        lines
    }

    /// The clipboard summary, the number of folders and the number of files
    /// over all folders, on one line.
    pub fn get_status(&self) -> (r: String)
        requires
            total_files(self.folder_manager.folders@) <= usize::MAX,
        ensures
            r@ == self.status_view(),
    {
        let mut s = String::from_str("Clipboard: ");
        let clip = self.clipboard_manager.get_status_message();
        s.append(clip.as_str());
        s.append(" | Folders: ");
        let count = decimal(self.folder_manager.get_folder_count() as u64);
        s.append(count.as_str());
        s.append(" | Total folder files: ");
        let total = decimal(self.folder_manager.get_total_files_count() as u64);
        s.append(total.as_str());
        s
    }

    /// Carries out `cmd`; `contents` holds the text of each file of the
    /// folder that a `CopyFolderContents` names, where it could be read.
    pub fn execute(&mut self, cmd: Command, contents: &Vec<Option<String>>) -> (r: Result<
        String,
        CommandError,
    >)
        requires
            old(self).folder_manager.next_id < u64::MAX,
            total_files(old(self).folder_manager.folders@) <= usize::MAX,
        ensures
            Self::executes(*old(self), cmd, contents@, *final(self), r),
    {
        let ghost before = *self;
        match cmd {
            Command::CopyPathWithContent { file_path, content, selection } => {
                match self.copy_current_file(file_path, content, selection) {
                    Ok(m) => Ok(m),
                    Err(e) => Err(CommandError::Core(e)),
                }
            },
            Command::ClearClipboard => Ok(self.clear_clipboard()),
            Command::CreateFolder { name, initial_files } => {
                let ghost files = initial_files@;
                let ghost n = name;
                let q = self.create_folder(name, initial_files);
                let ghost qg = q;
                let r = match q {
                    Ok(m) => Ok(m),
                    Err(e) => Err(CommandError::Core(e)),
                };
                assert(create_post(before.folder_manager, n, files, self.folder_manager, qg) && answers(r, qg));
                r
            },
            Command::DeleteFolder { folder_id } => {
                let ghost id = folder_id@;
                let q = self.delete_folder(folder_id);
                let ghost qg = q;
                let r = match q {
                    Ok(m) => Ok(m),
                    Err(e) => Err(CommandError::Core(e)),
                };
                assert(delete_post(before.folder_manager, id, self.folder_manager, qg) && answers(r, qg));
                r
            },
            Command::RenameFolder { folder_id, new_name } => {
                let ghost id = folder_id@;
                let ghost n = new_name;
                let q = self.rename_folder(folder_id, new_name);
                let ghost qg = q;
                let r = match q {
                    Ok(m) => Ok(m),
                    Err(e) => Err(CommandError::Core(e)),
                };
                assert(rename_post(before.folder_manager, id, n, self.folder_manager, qg) && answers(r, qg));
                r
            },
            Command::AddFileToFolder { folder_id, file_path } => {
                let ghost id = folder_id@;
                let ghost fp = file_path;
                let q = self.add_file_to_folder(folder_id, file_path);
                let ghost qg = q;
                let r = match q {
                    Ok(m) => Ok(m),
                    Err(e) => Err(CommandError::Core(e)),
                };
                assert(add_file_post(before.folder_manager, id, fp, self.folder_manager, qg) && answers(r, qg));
                r
            },
            Command::RemoveFileFromFolder { folder_id, file_path } => {
                let ghost id = folder_id@;
                let ghost fp = file_path@;
                let q = self.remove_file_from_folder(folder_id, file_path);
                let ghost qg = q;
                let r = match q {
                    Ok(m) => Ok(m),
                    Err(e) => Err(CommandError::Core(e)),
                };
                assert(remove_file_post(before.folder_manager, id, fp, self.folder_manager, qg) && answers(r, qg));
                r
            },
            Command::CopyFolderContents { folder_id } => {
                match self.folder_manager.copy_folder_contents(folder_id.as_str(), contents) {
                    Ok(_) => Ok(String::from_str("Copied folder contents to clipboard")),
                    Err(e) => Err(CommandError::Core(e)),
                }
            },
            Command::ListFolders => {
                let lines = self.list_folders();
                proof {
                    assert(lines@.map_values(|l: String| l@) =~= self.folder_manager.folders@.map_values(
                        |f: Folder| folder_line(f),
                    ));
                }
                Ok(join_lines(&lines))
            },
            Command::Status => Ok(self.get_status()),
        }
    }

    /// Parses and carries out a command, answering with the text to show;
    /// `contents` holds the text of each file of the folder that a
    /// `copy_folder_contents` command names, where it could be read.
    pub fn handle_command(
        &mut self,
        command: &str,
        args: Vec<String>,
        contents: &Vec<Option<String>>,
    ) -> (r: Result<String, String>)
        requires
            old(self).folder_manager.next_id < u64::MAX,
            total_files(old(self).folder_manager.folders@) <= usize::MAX,
        ensures
            exists|p: Result<Command, CommandError>, q: Result<String, CommandError>|
                #[trigger] Self::handled(*old(self), command@, args@, contents@, *final(self), p, q, r),
    {
        let ghost arg_views = args@;
        let p = parse_command(command, args);
        let ghost pg = p;
        let q = match p {
            Ok(cmd) => self.execute(cmd, contents),
            Err(e) => Err(e),
        };
        let ghost qg = q;
        let r = match q {
            Ok(m) => Ok(m),
            Err(e) => Err(e.message()),
        };
        assert(Self::handled(*old(self), command@, arg_views, contents@, *self, pg, qg, r));
        r
    }
}

/// The text shown for a handled command: the answer, or the failure
/// prefixed with `Error: `.
pub fn response_text(r: Result<String, String>) -> (t: String)
    ensures
        t@ == match r {
            Ok(m) => m@,
            Err(e) => "Error: "@ + e@,
        },
{
    match r {
        Ok(m) => m,
        Err(e) => {
            let mut t = String::from_str("Error: ");
            t.append(e.as_str());
            t
        },
    }
}

/// Joins lines with newlines.
pub fn join_lines(lines: &Vec<String>) -> (r: String)
    ensures
        r@ == joined(lines@.map_values(|l: String| l@)),
{
    let ghost views = lines@.map_values(|l: String| l@);
    let mut out = String::new();
    let mut i: usize = 0;
    while i < lines.len()
        invariant
            i <= lines.len(),
            views == lines@.map_values(|l: String| l@),
            out@ == joined(views.subrange(0, i as int)),
        decreases lines.len() - i,
    {
        if i > 0 {
            out.append("\n");
        }
        out.append(lines[i].as_str());
        proof {
            let s = views.subrange(0, i + 1);
            assert(s.drop_last() =~= views.subrange(0, i as int));
            assert(s.last() == lines@[i as int]@);
        }
        i = i + 1;
    }
    assert(views.subrange(0, lines@.len() as int) =~= views);
    out
}

} // verus!
