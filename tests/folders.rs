use copy_path_with_code::error::{CoreError, ErrorKind};
use copy_path_with_code::folders::FolderManager;
use copy_path_with_code::models::{ExtensionState, Folder};

#[test]
fn test_create_folder() {
    let mut manager = FolderManager::new();
    let result = manager.create_folder("Test Folder".to_string(), vec!["test.rs".to_string()]);

    assert!(result.is_ok());
    assert_eq!(manager.get_folder_count(), 1);

    let folder = &manager.folders[0];
    assert_eq!(folder.name, "Test Folder");
    assert_eq!(folder.files.len(), 1);
    assert_eq!(folder.files[0], "test.rs");
}

#[test]
fn test_create_duplicate_folder() {
    let mut manager = FolderManager::new();
    manager.create_folder("Test Folder".to_string(), vec![]).unwrap();

    let result = manager.create_folder("Test Folder".to_string(), vec![]);
    assert!(result.is_err());
    assert!(result.unwrap_err().message().contains("already exists"));
}

#[test]
fn test_delete_folder() {
    let mut manager = FolderManager::new();
    manager.create_folder("Test Folder".to_string(), vec![]).unwrap();

    let folder_id = manager.folders[0].id.clone();
    let result = manager.delete_folder(&folder_id);

    assert!(result.is_ok());
    assert_eq!(manager.get_folder_count(), 0);
}

#[test]
fn test_rename_folder() {
    let mut manager = FolderManager::new();
    manager.create_folder("Old Name".to_string(), vec![]).unwrap();

    let folder_id = manager.folders[0].id.clone();
    let result = manager.rename_folder(&folder_id, "New Name".to_string());

    assert!(result.is_ok());
    assert_eq!(manager.folders[0].name, "New Name");
}

#[test]
fn test_add_file_to_folder() {
    let mut manager = FolderManager::new();
    manager.create_folder("Test Folder".to_string(), vec![]).unwrap();

    let folder_id = manager.folders[0].id.clone();
    let result = manager.add_file_to_folder(&folder_id, "new_file.rs".to_string());

    assert!(result.is_ok());
    assert_eq!(manager.folders[0].files.len(), 1);
    assert_eq!(manager.folders[0].files[0], "new_file.rs");
}

#[test]
fn test_remove_file_from_folder() {
    let mut manager = FolderManager::new();
    manager
        .create_folder("Test Folder".to_string(), vec!["test.rs".to_string()])
        .unwrap();

    let folder_id = manager.folders[0].id.clone();
    let result = manager.remove_file_from_folder(&folder_id, "test.rs");

    assert!(result.is_ok());
    assert_eq!(manager.folders[0].files.len(), 0);
}

#[test]
fn test_validate_folder_name() {
    let manager = FolderManager::new();

    assert!(manager.validate_folder_name("Valid Name", None).is_ok());

    assert!(manager.validate_folder_name("", None).is_err());
    assert!(manager.validate_folder_name("   ", None).is_err());

    assert!(manager.validate_folder_name("Invalid/Name", None).is_err());
    assert!(manager.validate_folder_name("Invalid\\Name", None).is_err());
    assert!(manager.validate_folder_name("Invalid:Name", None).is_err());
}

#[test]
fn test_find_folders_containing_file() {
    let mut manager = FolderManager::new();
    manager.create_folder("Folder 1".to_string(), vec!["test.rs".to_string()]).unwrap();
    manager
        .create_folder(
            "Folder 2".to_string(),
            vec!["test.rs".to_string(), "other.rs".to_string()],
        )
        .unwrap();
    manager.create_folder("Folder 3".to_string(), vec!["different.rs".to_string()]).unwrap();

    let folders_with_test_rs = manager.find_folders_containing_file("test.rs");
    assert_eq!(folders_with_test_rs.len(), 2);

    let folders_with_different_rs = manager.find_folders_containing_file("different.rs");
    assert_eq!(folders_with_different_rs.len(), 1);

    let folders_with_nonexistent = manager.find_folders_containing_file("nonexistent.rs");
    assert_eq!(folders_with_nonexistent.len(), 0);
}

#[test]
fn create_same_name_twice_is_conflict() {
    let mut manager = FolderManager::new();
    assert_eq!(
        manager.create_folder("A".to_string(), vec![]),
        Ok("Folder 'A' created successfully".to_string())
    );
    let r = manager.create_folder("A".to_string(), vec!["x".to_string()]);
    assert_eq!(r, Err(CoreError::DuplicateName));
    assert_eq!(CoreError::DuplicateName.kind(), ErrorKind::Conflict);
    assert_eq!(manager.get_folder_count(), 1);
    assert_eq!(manager.folders[0].files.len(), 0);
}

#[test]
fn create_blank_name_is_rejected() {
    let mut manager = FolderManager::new();
    assert_eq!(manager.create_folder(" \t".to_string(), vec![]), Err(CoreError::EmptyName));
    assert_eq!(manager.create_folder("".to_string(), vec![]), Err(CoreError::EmptyName));
    assert_eq!(CoreError::EmptyName.message(), "Folder name cannot be empty");
    assert_eq!(CoreError::EmptyName.kind(), ErrorKind::Validation);
    assert_eq!(manager.get_folder_count(), 0);
}

#[test]
fn created_folders_get_distinct_ids_and_drop_repeats() {
    let mut manager = FolderManager::new();
    manager
        .create_folder(
            "One".to_string(),
            vec!["a".to_string(), "b".to_string(), "a".to_string()],
        )
        .unwrap();
    manager.create_folder("Two".to_string(), vec![]).unwrap();
    assert_eq!(manager.folders[0].id, "folder_1");
    assert_eq!(manager.folders[1].id, "folder_2");
    assert_eq!(manager.folders[0].files, vec!["a".to_string(), "b".to_string()]);
    assert!(manager.folders[0].color.is_none());
}

#[test]
fn validate_rejects_each_forbidden_char() {
    let manager = FolderManager::new();
    for c in ['/', '\\', ':', '*', '?', '"', '<', '>', '|'] {
        let name = format!("ab{}cd", c);
        assert_eq!(
            manager.validate_folder_name(&name, None),
            Err(CoreError::InvalidCharacters),
            "{}",
            name
        );
    }
    assert_eq!(
        CoreError::InvalidCharacters.message(),
        "Folder name contains invalid characters"
    );
}

#[test]
fn validate_length_limit_and_collisions() {
    let mut manager = FolderManager::new();
    let hundred = "x".repeat(100);
    assert_eq!(manager.validate_folder_name(&hundred, None), Ok(()));
    let long = "x".repeat(101);
    assert_eq!(manager.validate_folder_name(&long, None), Err(CoreError::NameTooLong));
    assert_eq!(
        CoreError::NameTooLong.message(),
        "Folder name is too long (max 100 characters)"
    );
    manager.create_folder("Taken".to_string(), vec![]).unwrap();
    let id = manager.folders[0].id.clone();
    assert_eq!(manager.validate_folder_name("Taken", None), Err(CoreError::DuplicateName));
    assert_eq!(manager.validate_folder_name("Taken", Some(&id)), Ok(()));
    assert_eq!(
        manager.validate_folder_name("Taken", Some("other")),
        Err(CoreError::DuplicateName)
    );
}

#[test]
fn add_same_file_twice_fails_second_time() {
    let mut manager = FolderManager::new();
    manager.create_folder("F".to_string(), vec![]).unwrap();
    let id = manager.folders[0].id.clone();
    assert_eq!(
        manager.add_file_to_folder(&id, "p.rs".to_string()),
        Ok("File 'p.rs' added to folder 'F'".to_string())
    );
    let r = manager.add_file_to_folder(&id, "p.rs".to_string());
    assert_eq!(r, Err(CoreError::FileAlreadyInFolder));
    assert_eq!(CoreError::FileAlreadyInFolder.message(), "File already exists in folder");
    assert_eq!(manager.folders[0].files.len(), 1);
}

#[test]
fn folder_not_found_errors() {
    let mut manager = FolderManager::new();
    assert_eq!(manager.delete_folder("nope"), Err(CoreError::FolderNotFound));
    assert_eq!(
        manager.rename_folder("nope", "X".to_string()),
        Err(CoreError::FolderNotFound)
    );
    assert_eq!(
        manager.add_file_to_folder("nope", "a".to_string()),
        Err(CoreError::FolderNotFound)
    );
    assert_eq!(manager.remove_file_from_folder("nope", "a"), Err(CoreError::FolderNotFound));
    assert_eq!(manager.set_folder_color("nope", None), Err(CoreError::FolderNotFound));
    assert_eq!(manager.copy_folder_contents("nope", &vec![]), Err(CoreError::FolderNotFound));
    assert_eq!(CoreError::FolderNotFound.message(), "Folder not found");
    assert_eq!(CoreError::FolderNotFound.kind(), ErrorKind::NotFound);
    assert!(manager.get_folder("nope").is_none());
}

#[test]
fn remove_missing_file_is_not_found() {
    let mut manager = FolderManager::new();
    manager.create_folder("F".to_string(), vec!["a".to_string()]).unwrap();
    let id = manager.folders[0].id.clone();
    assert_eq!(manager.remove_file_from_folder(&id, "b"), Err(CoreError::FileNotInFolder));
    assert_eq!(CoreError::FileNotInFolder.message(), "File not found in folder");
    assert_eq!(
        manager.remove_file_from_folder(&id, "a"),
        Ok("File 'a' removed from folder 'F'".to_string())
    );
}

#[test]
fn rename_and_delete_messages() {
    let mut manager = FolderManager::new();
    manager.create_folder("A".to_string(), vec![]).unwrap();
    manager.create_folder("B".to_string(), vec![]).unwrap();
    let a = manager.folders[0].id.clone();
    let b = manager.folders[1].id.clone();
    assert_eq!(manager.rename_folder(&a, "B".to_string()), Err(CoreError::DuplicateName));
    assert_eq!(manager.rename_folder(&a, "  ".to_string()), Err(CoreError::EmptyName));
    assert_eq!(
        manager.rename_folder(&b, "B".to_string()),
        Ok("Folder renamed from 'B' to 'B'".to_string())
    );
    assert_eq!(
        manager.rename_folder(&a, "C".to_string()),
        Ok("Folder renamed from 'A' to 'C'".to_string())
    );
    assert_eq!(manager.get_folder_by_name("C").unwrap().id, a);
    assert!(manager.get_folder_by_name("A").is_none());
    assert_eq!(
        manager.delete_folder(&a),
        Ok("Folder 'C' deleted successfully".to_string())
    );
    assert_eq!(manager.list_folders().len(), 1);
}

#[test]
fn set_color_messages() {
    let mut manager = FolderManager::new();
    manager.create_folder("F".to_string(), vec![]).unwrap();
    let id = manager.folders[0].id.clone();
    assert_eq!(
        manager.set_folder_color(&id, Some("red".to_string())),
        Ok("Color 'red' set for folder 'F'".to_string())
    );
    assert_eq!(manager.folders[0].color, Some("red".to_string()));
    assert_eq!(
        manager.set_folder_color(&id, None),
        Ok("Color removed from folder 'F'".to_string())
    );
    assert_eq!(manager.folders[0].color, None);
}

#[test]
fn containing_preserves_registry_order() {
    let mut manager = FolderManager::new();
    manager.create_folder("Z".to_string(), vec!["p".to_string()]).unwrap();
    manager.create_folder("Y".to_string(), vec!["q".to_string()]).unwrap();
    manager.create_folder("X".to_string(), vec!["q".to_string(), "p".to_string()]).unwrap();
    let found = manager.find_folders_containing_file("p");
    let names: Vec<&str> = found.iter().map(|f| f.name.as_str()).collect();
    assert_eq!(names, vec!["Z", "X"]);
    assert_eq!(manager.get_total_files_count(), 4);
    assert!(manager.total_files_fit());
}

#[test]
fn copy_folder_contents_reads() {
    let mut manager = FolderManager::new();
    manager
        .create_folder(
            "F".to_string(),
            vec!["a".to_string(), "b".to_string(), "c".to_string()],
        )
        .unwrap();
    let id = manager.folders[0].id.clone();
    assert_eq!(
        manager.copy_folder_contents(&id, &vec![Some("A".to_string()), None, Some("C".to_string())]),
        Ok("a\n\nA\n\n---\n\nc\n\nC".to_string())
    );
    assert_eq!(
        manager.copy_folder_contents(&id, &vec![Some("A".to_string())]),
        Ok("a\n\nA".to_string())
    );
    assert_eq!(
        manager.copy_folder_contents(&id, &vec![None, None, None]),
        Err(CoreError::NoReadableFiles)
    );
    assert_eq!(CoreError::NoReadableFiles.message(), "No readable files found in folder");
    assert_eq!(manager.folders[0].files.len(), 3);
}

#[test]
fn get_folder_mut_edits_in_place() {
    let mut manager = FolderManager::new();
    manager.create_folder("F".to_string(), vec![]).unwrap();
    let id = manager.folders[0].id.clone();
    {
        let f = manager.get_folder_mut(&id).unwrap();
        assert!(f.add_file("z".to_string()));
    }
    assert_eq!(manager.get_folder(&id).unwrap().file_count(), 1);
    assert!(manager.get_folder_mut("missing").is_none());
}

#[test]
fn folder_file_operations() {
    let mut folder = Folder::new("id".to_string(), "n".to_string());
    assert!(folder.add_file("a".to_string()));
    assert!(!folder.add_file("a".to_string()));
    assert!(folder.add_file("b".to_string()));
    assert!(folder.has_file("b"));
    assert!(folder.remove_file("a"));
    assert!(!folder.remove_file("a"));
    assert_eq!(folder.file_count(), 1);
    assert_eq!(folder.files, vec!["b".to_string()]);
}

#[test]
fn extension_state_folders() {
    let mut state = ExtensionState::new();
    state.add_folder(Folder::new("f1".to_string(), "One".to_string()));
    state.add_folder(Folder::new("f2".to_string(), "Two".to_string()));
    assert_eq!(state.folders_count(), 2);
    assert_eq!(state.find_folder("f2").unwrap().name, "Two");
    state.find_folder_mut("f1").unwrap().name = "Uno".to_string();
    assert_eq!(state.folders[0].name, "Uno");
    assert!(state.remove_folder("f1"));
    assert!(!state.remove_folder("f1"));
    assert!(state.find_folder("f1").is_none());
    assert_eq!(state.folders_count(), 1);
}
