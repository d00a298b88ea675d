use copy_path_with_code::extension::{
    join_lines, parse_command, response_text, Command, CommandError, CopyPathWithCodeExtension,
};
use copy_path_with_code::text::{decimal, parse_u32, same_text, text_is_blank};

fn args(v: &[&str]) -> Vec<String> {
    v.iter().map(|s| s.to_string()).collect()
}

fn run(ext: &mut CopyPathWithCodeExtension, cmd: &str, a: &[&str]) -> Result<String, String> {
    ext.handle_command(cmd, args(a), &vec![])
}

#[test]
fn copy_command_reports_count() {
    let mut ext = CopyPathWithCodeExtension::new();
    assert_eq!(
        run(&mut ext, "copy_path_with_content", &["a.rs", "fn a() {}"]),
        Ok("Copied 1 files to clipboard".to_string())
    );
    assert_eq!(
        run(&mut ext, "copy_path_with_content", &["b.rs", "full", "3", "4", "sel"]),
        Ok("Copied 2 files to clipboard".to_string())
    );
    let files = ext.clipboard_manager.get_files();
    assert_eq!(files[1].display_path, "b.rs:3-4");
    assert_eq!(files[1].content, "sel");
    run(&mut ext, "copy_path_with_content", &["c.rs", "whole", "9", "9"]).unwrap();
    assert_eq!(ext.clipboard_manager.get_files()[2].display_path, "c.rs:9");
    assert_eq!(ext.clipboard_manager.get_files()[2].content, "whole");
}

#[test]
fn copy_command_argument_errors() {
    let mut ext = CopyPathWithCodeExtension::new();
    assert_eq!(
        run(&mut ext, "copy_path_with_content", &["a.rs"]),
        Err("Missing arguments: file_path and content required".to_string())
    );
    assert_eq!(
        run(&mut ext, "copy_path_with_content", &["a.rs", "x", "one", "2"]),
        Err("Invalid start line".to_string())
    );
    assert_eq!(
        run(&mut ext, "copy_path_with_content", &["a.rs", "x", "1", "-2"]),
        Err("Invalid end line".to_string())
    );
    assert_eq!(ext.clipboard_manager.get_file_count(), 0);
}

#[test]
fn unknown_and_missing_argument_commands() {
    let mut ext = CopyPathWithCodeExtension::new();
    assert_eq!(run(&mut ext, "frobnicate", &[]), Err("Unknown command: frobnicate".to_string()));
    assert_eq!(
        run(&mut ext, "create_folder", &[]),
        Err("Missing argument: folder name required".to_string())
    );
    assert_eq!(
        run(&mut ext, "delete_folder", &[]),
        Err("Missing argument: folder_id required".to_string())
    );
    assert_eq!(
        run(&mut ext, "rename_folder", &["x"]),
        Err("Missing arguments: folder_id and new_name required".to_string())
    );
    assert_eq!(
        run(&mut ext, "add_file_to_folder", &["x"]),
        Err("Missing arguments: folder_id and file_path required".to_string())
    );
    assert_eq!(
        run(&mut ext, "remove_file_from_folder", &[]),
        Err("Missing arguments: folder_id and file_path required".to_string())
    );
    assert_eq!(
        run(&mut ext, "copy_folder_contents", &[]),
        Err("Missing argument: folder_id required".to_string())
    );
}

#[test]
fn folder_commands_and_status() {
    let mut ext = CopyPathWithCodeExtension::new();
    assert_eq!(run(&mut ext, "status", &[]), Ok("Clipboard: No files copied | Folders: 0 | Total folder files: 0".to_string()));
    assert_eq!(
        run(&mut ext, "create_folder", &["Docs", "a.md", "b.md", "a.md"]),
        Ok("Folder 'Docs' created successfully".to_string())
    );
    assert_eq!(
        run(&mut ext, "create_folder", &["Docs"]),
        Err("Folder with this name already exists".to_string())
    );
    assert_eq!(
        run(&mut ext, "add_file_to_folder", &["folder_1", "c.md"]),
        Ok("File 'c.md' added to folder 'Docs'".to_string())
    );
    assert_eq!(
        run(&mut ext, "remove_file_from_folder", &["folder_1", "a.md"]),
        Ok("File 'a.md' removed from folder 'Docs'".to_string())
    );
    assert_eq!(
        run(&mut ext, "rename_folder", &["folder_1", "Notes"]),
        Ok("Folder renamed from 'Docs' to 'Notes'".to_string())
    );
    run(&mut ext, "create_folder", &["Empty"]).unwrap();
    assert_eq!(
        run(&mut ext, "list_folders", &[]),
        Ok("folder_1: Notes (2 files)\nfolder_2: Empty (0 files)".to_string())
    );
    run(&mut ext, "copy_path_with_content", &["x", "y"]).unwrap();
    assert_eq!(
        run(&mut ext, "status", &[]),
        Ok("Clipboard: 1 file copied | Folders: 2 | Total folder files: 2".to_string())
    );
    assert_eq!(run(&mut ext, "clear_clipboard", &[]), Ok("Clipboard cleared".to_string()));
    assert_eq!(
        run(&mut ext, "delete_folder", &["folder_2"]),
        Ok("Folder 'Empty' deleted successfully".to_string())
    );
    assert_eq!(run(&mut ext, "delete_folder", &["folder_2"]), Err("Folder not found".to_string()));
}

#[test]
fn copy_folder_contents_command() {
    let mut ext = CopyPathWithCodeExtension::new();
    run(&mut ext, "create_folder", &["F", "a", "b"]).unwrap();
    assert_eq!(
        ext.handle_command("copy_folder_contents", args(&["folder_1"]), &vec![None, Some("B".to_string())]),
        Ok("Copied folder contents to clipboard".to_string())
    );
    assert_eq!(
        ext.handle_command("copy_folder_contents", args(&["folder_1"]), &vec![None, None]),
        Err("No readable files found in folder".to_string())
    );
    assert_eq!(ext.clipboard_manager.get_file_count(), 0);
    assert_eq!(
        ext.copy_folder_contents("folder_1".to_string(), &vec![Some("A".to_string())]),
        Ok("Copied folder contents to clipboard".to_string())
    );
}

#[test]
fn parse_command_variants() {
    match parse_command("create_folder", args(&["N", "x", "y"])) {
        Ok(Command::CreateFolder { name, initial_files }) => {
            assert_eq!(name, "N");
            assert_eq!(initial_files, args(&["x", "y"]));
        }
        other => panic!("unexpected {:?}", other),
    }
    match parse_command("copy_path_with_content", args(&["p", "c", "+7", "8"])) {
        Ok(Command::CopyPathWithContent { file_path, content, selection: Some(sel) }) => {
            assert_eq!(file_path, "p");
            assert_eq!(content, "c");
            assert_eq!(sel.start_line, 7);
            assert_eq!(sel.end_line, 8);
            assert_eq!(sel.content, "c");
        }
        other => panic!("unexpected {:?}", other),
    }
    assert!(matches!(parse_command("status", vec![]), Ok(Command::Status)));
    assert!(matches!(parse_command("list_folders", vec![]), Ok(Command::ListFolders)));
    match parse_command("Status", vec![]) {
        Err(e) => {
            assert!(matches!(e, CommandError::UnknownCommand(_)));
            assert_eq!(e.message(), "Unknown command: Status");
        }
        other => panic!("unexpected {:?}", other),
    }
}

#[test]
fn list_and_join_helpers() {
    let mut ext = CopyPathWithCodeExtension::new();
    assert_eq!(ext.list_folders(), Vec::<String>::new());
    ext.create_folder("A".to_string(), args(&["1", "2", "3"])).unwrap();
    assert_eq!(ext.list_folders(), args(&["folder_1: A (3 files)"]));
    assert_eq!(join_lines(&args(&[])), "");
    assert_eq!(join_lines(&args(&["a", "b", "c"])), "a\nb\nc");
    assert_eq!(ext.get_status(), "Clipboard: No files copied | Folders: 1 | Total folder files: 3");
    assert_eq!(ext.clear_clipboard(), "Clipboard cleared");
}

#[test]
fn u32_parsing_follows_std() {
    for s in ["0", "7", "+7", "0042", "4294967295", "", "+", "-1", "-0", "4294967296", "1 ", " 1", "12a", "99999999999999999999"] {
        assert_eq!(parse_u32(s), s.parse::<u32>().ok(), "{:?}", s);
    }
}

#[test]
fn text_helpers() {
    assert_eq!(decimal(0), "0");
    assert_eq!(decimal(1234567890), "1234567890");
    assert_eq!(decimal(u64::MAX), u64::MAX.to_string());
    assert!(text_is_blank(""));
    assert!(text_is_blank(" \t\n\u{3000}\u{a0}"));
    assert!(!text_is_blank(" a "));
    for s in ["", " ", "\u{85}", "\u{2007}x", "\u{200b}"] {
        assert_eq!(text_is_blank(s), s.trim().is_empty(), "{:?}", s);
    }
    assert!(same_text("abc", "abc"));
    assert!(!same_text("abc", "abd"));
}

#[test]
fn response_text_prefixes_failures() {
    assert_eq!(response_text(Ok("done".to_string())), "done");
    assert_eq!(response_text(Err("Folder not found".to_string())), "Error: Folder not found");
}
