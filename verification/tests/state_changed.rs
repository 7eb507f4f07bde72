//! The name of the message that announces a change: separately updated programs agree
//! on it.

use fwdslash::system::FSW_STATE_CHANGED_MESSAGE;

#[test]
fn state_changed_message_name_is_stable() {
    assert_eq!(
        FSW_STATE_CHANGED_MESSAGE, "ForwardSlashWindows.StateChanged",
        "the registered message name is a cross-version contract; \
         changing it must be a deliberate, coordinated change"
    );
}

/// The name shares the product's `ForwardSlashWindows.` prefix with the broker
/// window class, and carries no user data: it is a global atom, readable by
/// anything on the desktop (PRIVACY.md).
#[test]
fn state_changed_message_name_is_product_scoped() {
    assert!(FSW_STATE_CHANGED_MESSAGE.starts_with("ForwardSlashWindows."));
    assert!(!FSW_STATE_CHANGED_MESSAGE.contains(char::is_whitespace));
}
