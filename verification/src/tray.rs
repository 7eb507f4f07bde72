//! The window messages behind a notification-area icon: what each one does.

use vstd::prelude::*;

verus! {

pub const WM_DESTROY: u32 = 0x0002;

pub const WM_SIZE: u32 = 0x0005;

pub const WM_CLOSE: u32 = 0x0010;

pub const WM_ENDSESSION: u32 = 0x0016;

pub const WM_NCDESTROY: u32 = 0x0082;

pub const WM_COMMAND: u32 = 0x0111;

pub const WM_LBUTTONUP: u32 = 0x0202;

pub const WM_RBUTTONUP: u32 = 0x0205;

/// The icon's callback message.
pub const TRAY_MESSAGE: u32 = 0x8000 + 1;

pub const SIZE_MINIMIZED: u32 = 1;

pub const MENU_SHOW: u32 = 1;

pub const MENU_EXIT: u32 = 2;

/// The icon's tooltip, distinct from the broker's.
pub const TRAY_TIP: &'static str = "fwdslash settings";

/// What a window message does.
#[derive(Debug, Clone, Copy, PartialEq, Eq, Structural)]
pub enum TrayAction {
    Nothing,
    /// Hide the window: the icon is how it comes back.
    Hide,
    Restore,
    ShowMenu,
    /// Close for real: force the next close, and ask for it.
    Exit,
    RemoveIcon,
    /// The shell restarted: add the icon again.
    ReaddIcon,
    /// The window is gone: note that the program means to exit, and quit.
    Quit,
    /// Remove the icon and stop watching the window's messages.
    Detach,
}

/// What a chosen menu item does.
pub open spec fn menu_action(item: u32) -> TrayAction {
    if item == MENU_SHOW {
        TrayAction::Restore
    } else if item == MENU_EXIT {
        TrayAction::Exit
    } else {
        TrayAction::Nothing
    }
}

/// What a message does, and whether it ends there instead of going on to the
/// window's own handler.
pub open spec fn message_action(
    message: u32,
    wparam: u32,
    lparam: u32,
    force_close: bool,
    taskbar_created: u32,
) -> (TrayAction, bool) {
    if message == WM_CLOSE {
        if force_close {
            (TrayAction::RemoveIcon, false)
        } else {
            (TrayAction::Hide, true)
        }
    } else if message == WM_SIZE {
        if wparam == SIZE_MINIMIZED {
            (TrayAction::Hide, true)
        } else {
            (TrayAction::Nothing, false)
        }
    } else if message == WM_COMMAND {
        (menu_action(wparam % 0x1_0000), true)
    } else if message == WM_DESTROY {
        (TrayAction::Quit, false)
    } else if message == WM_NCDESTROY {
        (TrayAction::Detach, false)
    } else if message == WM_ENDSESSION && wparam != 0 {
        (TrayAction::RemoveIcon, false)
    } else if message == taskbar_created {
        (TrayAction::ReaddIcon, false)
    } else if message == TRAY_MESSAGE {
        (
            if lparam == WM_LBUTTONUP {
                TrayAction::Restore
            } else if lparam == WM_RBUTTONUP {
                TrayAction::ShowMenu
            } else {
                TrayAction::Nothing
            },
            true,
        )
    } else {
        (TrayAction::Nothing, false)
    }
}

/// What a chosen menu item does.
pub fn menu_choice(item: u32) -> (r: TrayAction)
    ensures
        r == menu_action(item),
{
    if item == MENU_SHOW {
        TrayAction::Restore
    } else if item == MENU_EXIT {
        TrayAction::Exit
    } else {
        TrayAction::Nothing
    }
}

/// What a window message does, and whether it ends there. Closing and minimizing
/// hide the window; the menu's Exit forces the next close to be real.
pub fn tray_action(
    message: u32,
    wparam: u32,
    lparam: u32,
    force_close: bool,
    taskbar_created: u32,
) -> (r: (TrayAction, bool))
    ensures
        r == message_action(message, wparam, lparam, force_close, taskbar_created),
{
    if message == WM_CLOSE {
        if force_close {
            (TrayAction::RemoveIcon, false)
        } else {
            (TrayAction::Hide, true)
        }
    } else if message == WM_SIZE {
        if wparam == SIZE_MINIMIZED {
            (TrayAction::Hide, true)
        } else {
            (TrayAction::Nothing, false)
        }
    } else if message == WM_COMMAND {
        (menu_choice(wparam % 0x1_0000), true)
    } else if message == WM_DESTROY {
        (TrayAction::Quit, false)
    } else if message == WM_NCDESTROY {
        (TrayAction::Detach, false)
    } else if message == WM_ENDSESSION && wparam != 0 {
        (TrayAction::RemoveIcon, false)
    } else if message == taskbar_created {
        (TrayAction::ReaddIcon, false)
    } else if message == TRAY_MESSAGE {
        let action = if lparam == WM_LBUTTONUP {
            TrayAction::Restore
        } else if lparam == WM_RBUTTONUP {
            TrayAction::ShowMenu
        } else {
            TrayAction::Nothing
        };
        (action, true)
    } else {
        (TrayAction::Nothing, false)
    }
}

/// Whether the icon is added to a window: not a second time to the same one.
pub fn install_needed(installed: isize, window: isize) -> (r: bool)
    ensures
        r == (installed != window),
{
    installed != window
}

/// An unforced close never reaches the window's own handler, and so never ends the
/// process; a forced one always does.
pub proof fn law_only_a_forced_close_closes(wparam: u32, lparam: u32, taskbar_created: u32)
    ensures
        message_action(WM_CLOSE, wparam, lparam, false, taskbar_created) == (
            TrayAction::Hide,
            true,
        ),
        !message_action(WM_CLOSE, wparam, lparam, true, taskbar_created).1,
{
}

}
