//! What the application says of the system clipboard.

use vstd::prelude::*;
use vstd::string::*;

use crate::text;

verus! {

/// Why a text did not reach the clipboard.
#[derive(Debug)]
pub enum ClipboardError {
    /// There is no clipboard to write to.
    Unavailable,
    /// The clipboard reported this.
    Backend(String),
}

pub enum ClipboardFailure {
    Unavailable,
    Backend(Seq<char>),
}

impl View for ClipboardError {
    type V = ClipboardFailure;

    open spec fn view(&self) -> ClipboardFailure {
        match *self {
            ClipboardError::Unavailable => ClipboardFailure::Unavailable,
            ClipboardError::Backend(s) => ClipboardFailure::Backend(s@),
        }
    }
}

impl ClipboardError {
    /// The error in words.
    pub open spec fn words(self) -> Seq<char> {
        match self {
            ClipboardError::Unavailable => "clipboard unavailable"@,
            ClipboardError::Backend(s) => "clipboard backend error: "@ + s@,
        }
    }

    /// The error in words.
    pub fn to_string(&self) -> (out: String)
        ensures
            out@ == self.words(),
    {
        match self {
            ClipboardError::Unavailable => "clipboard unavailable".to_owned(),
            ClipboardError::Backend(s) => {
                let mut out = "clipboard backend error: ".to_owned();
                out.append(s.as_str());
                out
            },
        }
    }
}

/// The error for a clipboard that is not supported here, or that reported
/// `message`.
pub fn map_arboard_err(not_supported: bool, message: String) -> (error: ClipboardError)
    ensures
        error@ == if not_supported {
            ClipboardFailure::Unavailable
        } else {
            ClipboardFailure::Backend(message@)
        },
{
    if not_supported {
        ClipboardError::Unavailable
    } else {
        ClipboardError::Backend(message)
    }
}

/// An error of the clipboard is told in its own words.
pub proof fn backend_errors_are_told(s: String)
    ensures
        text::in_order(ClipboardError::Backend(s).words(), seq![s@]),
{
    let none = Seq::<char>::empty();
    text::holds_one("clipboard backend error: "@, s@, none);
    assert("clipboard backend error: "@ + s@ + none =~= "clipboard backend error: "@ + s@);
}

} // verus!
