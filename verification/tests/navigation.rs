//! What opening a native path does: folders are opened, files only selected.

use fwdslash::navigation::{NavigationAction, NavigationError};

#[test]
fn files_including_executables_and_shortcuts_are_only_selected() {
    assert_eq!(
        NavigationAction::for_path(r"C:\folder", true, Some(true)),
        Ok(NavigationAction::OpenDirectory(r"C:\folder".to_string()))
    );
    for name in [
        "payload.exe",
        "payload.cmd",
        "payload.ps1",
        "payload.lnk",
        "slash.html",
        "space # percent %.txt",
    ] {
        let path = format!(r"C:\folder\{name}");
        let action = NavigationAction::for_path(&path, true, Some(false));
        assert_eq!(action, Ok(NavigationAction::SelectFile(path.clone())));
        let action = action.expect("a file is selected");
        assert_eq!(
            action.folder_and_item(Some(r"C:\folder")),
            Ok((r"C:\folder", Some(path.as_str())))
        );
        assert_eq!(
            action.folder_and_item(None),
            Err(NavigationError::NoParent)
        );
    }
    let action = NavigationAction::OpenDirectory(r"C:\folder".to_string());
    assert_eq!(action.folder_and_item(None), Ok((r"C:\folder", None)));
    assert_eq!(action.navigate_if(true, false), Err(NavigationError::Cancelled));
    assert_eq!(action.navigate_if(true, true), Ok(()));
}

#[test]
fn relative_and_shell_namespace_inputs_are_rejected() {
    for path in [
        "payload.exe",
        "shell:AppsFolder",
        "::{00000000-0000-0000-0000-000000000000}",
        "bad\0path",
    ] {
        assert!(NavigationAction::for_path(path, false, None).is_err());
    }
    // A control character is refused also in an absolute path.
    assert_eq!(
        NavigationAction::for_path("C:\\bad\0path", true, Some(false)),
        Err(NavigationError::NotAbsolute)
    );
    assert_eq!(
        NavigationAction::for_path(r"C:\gone", true, None),
        Err(NavigationError::Unreadable)
    );
}
