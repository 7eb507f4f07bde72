//! Filesystem navigation shared by the broker and CLI. No action invokes a shell
//! verb or a file association: files are selected in their parent.

use crate::path::text_in;
use crate::text::{chars_of, has_char, same_ignoring_case, same_text_ignoring_case};
use vstd::prelude::*;

verus! {

#[derive(Debug, Clone, PartialEq, Eq)]
pub enum NavigationAction {
    OpenDirectory(String),
    SelectFile(String),
}

/// Why a navigation did not happen.
#[derive(Debug, Clone, Copy, PartialEq, Eq, Structural)]
pub enum NavigationError {
    /// An absolute filesystem path is required.
    NotAbsolute,
    /// The path's metadata could not be read.
    Unreadable,
    /// The file has no parent directory.
    NoParent,
    /// Windows could not select the file.
    NotSelectable,
    /// Navigation was cancelled because the foreground changed.
    Cancelled,
}

/// An action as plain text.
pub enum ActionText {
    OpenDirectory(Seq<char>),
    SelectFile(Seq<char>),
}

impl View for NavigationAction {
    type V = ActionText;

    open spec fn view(&self) -> ActionText {
        match self {
            NavigationAction::OpenDirectory(path) => ActionText::OpenDirectory(path@),
            NavigationAction::SelectFile(path) => ActionText::SelectFile(path@),
        }
    }
}

/// The provider roots: they enumerate distributions but have no ordinary
/// filesystem metadata.
pub open spec fn is_provider_path(path: Seq<char>) -> bool {
    same_ignoring_case(path, r"\\wsl.localhost"@) || same_ignoring_case(path, r"\\wsl$"@)
}

/// The action for a path, given whether it is absolute and whether its target is a
/// directory (`None` where the metadata could not be read).
pub open spec fn action_for(path: Seq<char>, absolute: bool, directory: Option<bool>) -> Result<
    ActionText,
    NavigationError,
> {
    if path.contains('\0') {
        Err(NavigationError::NotAbsolute)
    } else if is_provider_path(path) {
        Ok(ActionText::OpenDirectory(path))
    } else if !absolute {
        Err(NavigationError::NotAbsolute)
    } else {
        match directory {
            None => Err(NavigationError::Unreadable),
            Some(true) => Ok(ActionText::OpenDirectory(path)),
            Some(false) => Ok(ActionText::SelectFile(path)),
        }
    }
}

/// Whether a path is one of the provider roots, which Win32 path parsing does not
/// consider absolute.
pub fn is_provider_root(path: &str) -> (r: bool)
    ensures
        r == is_provider_path(path@),
{
    same_text_ignoring_case(path, r"\\wsl.localhost") || same_text_ignoring_case(path, r"\\wsl$")
}

/// Whether a path may be handed to the shell's path parser.
pub fn is_navigable(path: &str, absolute: bool) -> (r: bool)
    ensures
        r == (!path@.contains('\0') && (absolute || is_provider_path(path@))),
{
    !has_char(chars_of(path).as_slice(), '\0') && (absolute || is_provider_root(path))
}

impl NavigationAction {
    /// Classifies an absolute filesystem path according to its resolved target.
    ///
    /// Directory links and junctions stay navigable directories. Links resolving to
    /// files are selected in their parent, so no file association is invoked.
    pub fn for_path(path: &str, absolute: bool, directory: Option<bool>) -> (r: Result<
        NavigationAction,
        NavigationError,
    >)
        ensures
            match r {
                Ok(action) => action_for(path@, absolute, directory) == Ok::<
                    ActionText,
                    NavigationError,
                >(action@),
                Err(error) => action_for(path@, absolute, directory) == Err::<
                    ActionText,
                    NavigationError,
                >(error),
            },
    {
        if has_char(chars_of(path).as_slice(), '\0') {
            return Err(NavigationError::NotAbsolute);
        }
        if is_provider_root(path) {
            return Ok(NavigationAction::OpenDirectory(path.to_owned()));
        }
        if !absolute {
            return Err(NavigationError::NotAbsolute);
        }
        match directory {
            None => Err(NavigationError::Unreadable),
            Some(true) => Ok(NavigationAction::OpenDirectory(path.to_owned())),
            Some(false) => Ok(NavigationAction::SelectFile(path.to_owned())),
        }
    }

    /// The folder to open and the item to select in it, given the path's parent.
    pub fn folder_and_item<'a>(&'a self, parent: Option<&'a str>) -> (r: Result<
        (&'a str, Option<&'a str>),
        NavigationError,
    >)
        ensures
            match (self@, parent) {
                (ActionText::OpenDirectory(path), _) => r is Ok && r->Ok_0.0@ == path
                    && r->Ok_0.1 is None,
                (ActionText::SelectFile(path), Some(folder)) => r is Ok && r->Ok_0.0@ == folder@
                    && text_in(r->Ok_0.1) == Some(path),
                (ActionText::SelectFile(_), None) => r == Err::<
                    (&'a str, Option<&'a str>),
                    NavigationError,
                >(NavigationError::NoParent),
            },
    {
        match self {
            NavigationAction::OpenDirectory(path) => Ok((path.as_str(), None)),
            NavigationAction::SelectFile(path) => match parent {
                Some(folder) => Ok((folder, Some(path.as_str()))),
                None => Err(NavigationError::NoParent),
            },
        }
    }

    /// The last decision before Explorer is asked: a file to select must have been
    /// found, and the caller's authorization must still be current. It is asked
    /// for after the slow path resolution, immediately before the navigation.
    pub fn navigate_if(&self, item_found: bool, authorized: bool) -> (r: Result<
        (),
        NavigationError,
    >)
        ensures
            r == if self@ is SelectFile && !item_found {
                Err::<(), NavigationError>(NavigationError::NotSelectable)
            } else if !authorized {
                Err::<(), NavigationError>(NavigationError::Cancelled)
            } else {
                Ok(())
            },
    {
        if let NavigationAction::SelectFile(_) = self {
            if !item_found {
                return Err(NavigationError::NotSelectable);
            }
        }
        if authorized {
            Ok(())
        } else {
            Err(NavigationError::Cancelled)
        }
    }
}

impl NavigationError {
    /// The sentence for a failure.
    pub open spec fn message_text(self) -> Seq<char> {
        match self {
            NavigationError::NotAbsolute => "An absolute filesystem path is required."@,
            NavigationError::Unreadable => "The path could not be read."@,
            NavigationError::NoParent => "The file has no parent directory."@,
            NavigationError::NotSelectable => "Windows could not select the file."@,
            NavigationError::Cancelled => {
                "Navigation was cancelled because the foreground changed."@
            },
        }
    }

    /// The sentence for a failure.
    pub fn message(self) -> (r: &'static str)
        ensures
            r@ == self.message_text(),
    {
        match self {
            NavigationError::NotAbsolute => "An absolute filesystem path is required.",
            NavigationError::Unreadable => "The path could not be read.",
            NavigationError::NoParent => "The file has no parent directory.",
            NavigationError::NotSelectable => "Windows could not select the file.",
            NavigationError::Cancelled => {
                "Navigation was cancelled because the foreground changed."
            },
        }
    }
}

/// A file is never opened, only selected: an action opens a path exactly when the
/// path is a provider root or its target is a directory.
pub proof fn law_files_are_only_selected(path: Seq<char>, absolute: bool, directory: Option<bool>)
    ensures
        match action_for(path, absolute, directory) {
            Ok(ActionText::OpenDirectory(opened)) => opened == path && (is_provider_path(path)
                || directory == Some(true)),
            Ok(ActionText::SelectFile(selected)) => selected == path && directory == Some(false),
            Err(_) => true,
        },
        directory == Some(false) && !is_provider_path(path) ==> !(action_for(
            path,
            absolute,
            directory,
        ) is Ok && action_for(path, absolute, directory)->Ok_0 is OpenDirectory),
{
}

}
