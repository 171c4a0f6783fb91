//! What the application says of the clipboard.

use threadhop_tui::clipboard::{map_arboard_err, ClipboardError};

#[test]
fn unavailable_display_is_stable() {
    assert_eq!(ClipboardError::Unavailable.to_string(), "clipboard unavailable");
}

#[test]
fn a_backend_error_says_what_the_backend_said() {
    let error = map_arboard_err(false, "no pasteboard".to_string());
    assert!(matches!(&error, ClipboardError::Backend(m) if m == "no pasteboard"));
    assert_eq!(error.to_string(), "clipboard backend error: no pasteboard");
}

#[test]
fn a_missing_clipboard_is_unavailable_whatever_it_says() {
    let error = map_arboard_err(true, "not supported".to_string());
    assert!(matches!(error, ClipboardError::Unavailable));
}
