use copy_path_with_code::clipboard::ClipboardManager;
use copy_path_with_code::error::{CoreError, ErrorKind};
use copy_path_with_code::models::{render_entries, CopiedFile, ExtensionState, FileSelection};

#[test]
fn test_copy_file_with_content() {
    let mut clipboard = ClipboardManager::new();
    let result = clipboard.copy_file_with_content(
        "test.rs".to_string(),
        "fn main() {}".to_string(),
        None,
    );

    assert!(result.is_ok());
    assert_eq!(clipboard.get_file_count(), 1);
}

#[test]
fn test_copy_with_selection() {
    let mut clipboard = ClipboardManager::new();
    let selection = FileSelection::new(10, 20, "selected content".to_string());

    let result = clipboard.copy_file_with_content(
        "test.rs".to_string(),
        "full content".to_string(),
        Some(selection),
    );

    assert!(result.is_ok());
    assert_eq!(clipboard.get_file_count(), 1);

    let files = clipboard.get_files();
    assert_eq!(files[0].display_path, "test.rs:10-20");
    assert_eq!(files[0].content, "selected content");
}

#[test]
fn test_clear_clipboard() {
    let mut clipboard = ClipboardManager::new();
    clipboard
        .copy_file_with_content("test.rs".to_string(), "content".to_string(), None)
        .unwrap();

    assert_eq!(clipboard.get_file_count(), 1);

    clipboard.clear();
    assert_eq!(clipboard.get_file_count(), 0);
}

#[test]
fn test_duplicate_file_replacement() {
    let mut clipboard = ClipboardManager::new();

    clipboard
        .copy_file_with_content("test.rs".to_string(), "old content".to_string(), None)
        .unwrap();

    clipboard
        .copy_file_with_content("test.rs".to_string(), "new content".to_string(), None)
        .unwrap();

    assert_eq!(clipboard.get_file_count(), 1);
    let files = clipboard.get_files();
    assert_eq!(files[0].content, "new content");
}

#[test]
fn repeated_copies_keep_one_entry_with_latest_text() {
    let mut clipboard = ClipboardManager::new();
    for text in ["one", "two", "three"] {
        clipboard
            .copy_file_with_content("a.rs".to_string(), text.to_string(), None)
            .unwrap();
        clipboard
            .copy_file_with_content("b.rs".to_string(), format!("b {}", text), None)
            .unwrap();
    }
    assert_eq!(clipboard.get_file_count(), 2);
    let files = clipboard.get_files();
    let a: Vec<&CopiedFile> = files.iter().filter(|f| f.base_path == "a.rs").collect();
    assert_eq!(a.len(), 1);
    assert_eq!(a[0].content, "three");
}

#[test]
fn repeated_copy_moves_entry_to_the_end() {
    let mut clipboard = ClipboardManager::new();
    clipboard.copy_file_with_content("a.rs".to_string(), "A".to_string(), None).unwrap();
    clipboard.copy_file_with_content("b.rs".to_string(), "B".to_string(), None).unwrap();
    let out = clipboard
        .copy_file_with_content("a.rs".to_string(), "A2".to_string(), None)
        .unwrap();
    assert_eq!(out, "b.rs\n\nB\n\n---\n\na.rs\n\nA2");
}

#[test]
fn single_line_selection_shows_one_line_number() {
    let mut clipboard = ClipboardManager::new();
    let out = clipboard
        .copy_file_with_content(
            "test.rs".to_string(),
            "full".to_string(),
            Some(FileSelection::new(5, 5, "x".to_string())),
        )
        .unwrap();
    assert_eq!(clipboard.get_files()[0].display_path, "test.rs:5");
    assert_eq!(clipboard.get_files()[0].content, "x");
    assert_eq!(clipboard.get_files()[0].base_path, "test.rs");
    assert_eq!(out, "test.rs:5\n\nx");
}

#[test]
fn range_selection_keeps_selected_text() {
    let mut clipboard = ClipboardManager::new();
    clipboard
        .copy_file_with_content(
            "test.rs".to_string(),
            "full".to_string(),
            Some(FileSelection::new(10, 20, "sel".to_string())),
        )
        .unwrap();
    assert_eq!(clipboard.get_files()[0].display_path, "test.rs:10-20");
    assert_eq!(clipboard.get_files()[0].content, "sel");
}

#[test]
fn format_path_with_lines_exact() {
    let sel = FileSelection::new(7, 123, String::new());
    assert_eq!(sel.format_path_with_lines("src/x.rs"), "src/x.rs:7-123");
    let one = FileSelection::new(0, 0, String::new());
    assert_eq!(one.format_path_with_lines("p"), "p:0");
    let big = FileSelection::new(u32::MAX, 1, String::new());
    assert_eq!(big.format_path_with_lines("p"), "p:4294967295-1");
}

#[test]
fn render_of_empty_and_single() {
    let clipboard = ClipboardManager::new();
    assert_eq!(clipboard.generate_combined_content(), "");
    let mut clipboard = ClipboardManager::new();
    clipboard.copy_file_with_content("x.rs".to_string(), "body".to_string(), None).unwrap();
    assert_eq!(clipboard.generate_combined_content(), "x.rs\n\nbody");
}

#[test]
fn render_entries_joins_with_rule() {
    let files = vec![
        CopiedFile::new("a".to_string(), "a".to_string(), "1".to_string()),
        CopiedFile::new("b:2".to_string(), "b".to_string(), "2".to_string()),
        CopiedFile::new("c".to_string(), "c".to_string(), "".to_string()),
    ];
    assert_eq!(render_entries(&files), "a\n\n1\n\n---\n\nb:2\n\n2\n\n---\n\nc\n\n");
}

#[test]
fn status_message_counts() {
    let mut clipboard = ClipboardManager::new();
    assert_eq!(clipboard.get_status_message(), "No files copied");
    clipboard.copy_file_with_content("1".to_string(), "x".to_string(), None).unwrap();
    assert_eq!(clipboard.get_status_message(), "1 file copied");
    clipboard.copy_file_with_content("2".to_string(), "x".to_string(), None).unwrap();
    assert_eq!(clipboard.get_status_message(), "2 files copied");
    for i in 3..=12 {
        clipboard.copy_file_with_content(i.to_string(), "x".to_string(), None).unwrap();
    }
    assert_eq!(clipboard.get_status_message(), "12 files copied");
}

#[test]
fn remove_and_contains() {
    let mut clipboard = ClipboardManager::new();
    clipboard.copy_file_with_content("a".to_string(), "x".to_string(), None).unwrap();
    clipboard.copy_file_with_content("b".to_string(), "y".to_string(), None).unwrap();
    assert!(clipboard.contains_file("a"));
    assert!(!clipboard.contains_file("c"));
    assert!(clipboard.remove_file("a"));
    assert!(!clipboard.remove_file("a"));
    assert!(!clipboard.contains_file("a"));
    assert_eq!(clipboard.get_file_count(), 1);
    assert!(clipboard.has_files());
    clipboard.clear();
    assert!(!clipboard.has_files());
}

#[test]
fn copy_multiple_files_skips_unreadable() {
    let mut clipboard = ClipboardManager::new();
    clipboard.copy_file_with_content("old".to_string(), "o".to_string(), None).unwrap();
    let out = clipboard
        .copy_multiple_files(vec![
            ("a".to_string(), Some("A".to_string())),
            ("missing".to_string(), None),
            ("old".to_string(), Some("new".to_string())),
        ])
        .unwrap();
    assert_eq!(out, "a\n\nA\n\n---\n\nold\n\nnew");
    assert_eq!(clipboard.get_file_count(), 2);
}

#[test]
fn copy_multiple_files_all_unreadable_leaves_state() {
    let mut clipboard = ClipboardManager::new();
    clipboard.copy_file_with_content("keep".to_string(), "k".to_string(), None).unwrap();
    let r = clipboard.copy_multiple_files(vec![
        ("x".to_string(), None),
        ("y".to_string(), None),
    ]);
    assert_eq!(r, Err(CoreError::NoFilesRead));
    let e = r.as_ref().unwrap_err();
    assert_eq!(e.message(), "No files could be read successfully");
    assert_eq!(e.kind(), ErrorKind::IoAllFailed);
    assert_eq!(clipboard.get_file_count(), 1);
    assert_eq!(clipboard.generate_combined_content(), "keep\n\nk");
    assert_eq!(clipboard.copy_multiple_files(vec![]), Err(CoreError::NoFilesRead));
}

#[test]
fn extension_state_operations() {
    let mut state = ExtensionState::new();
    state.add_copied_file(CopiedFile::new("a".to_string(), "a".to_string(), "1".to_string()));
    state.add_copied_file(CopiedFile::new("a:3".to_string(), "a".to_string(), "2".to_string()));
    assert_eq!(state.copied_files_count(), 1);
    assert_eq!(state.generate_combined_content(), "a:3\n\n2");
    state.clear_copied_files();
    assert_eq!(state.copied_files_count(), 0);
}
