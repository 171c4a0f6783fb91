//! The prompt in which the note of a bookmark is edited.

use vstd::prelude::*;
use vstd::string::*;

use crate::text;

verus! {

/// The note being edited, and the bookmark it belongs to. A bookmark of zero
/// stands for none.
#[derive(Debug, Clone)]
pub struct State {
    pub bookmark_id: i64,
    pub text: String,
}

impl State {
    pub fn new(bookmark_id: i64, text: String) -> (state: State)
        ensures
            state.bookmark_id == bookmark_id,
            state.text@ == text@,
    {
        State { bookmark_id, text }
    }
}

impl Default for State {
    fn default() -> (state: State)
        ensures
            state.bookmark_id == 0,
            state.text@ == Seq::<char>::empty(),
    {
        State { bookmark_id: 0, text: String::new() }
    }
}

/// The title of the prompt.
pub fn title(state: &State) -> (out: String)
    ensures
        out@ == " edit note (bookmark #"@ + text::signed_decimal(state.bookmark_id as int) + ") "@,
        text::in_order(out@, seq![text::signed_decimal(state.bookmark_id as int)]),
{
    proof {
        let n = text::signed_decimal(state.bookmark_id as int);
        text::holds_one(" edit note (bookmark #"@, n, ") "@);
    }
    let mut out = " edit note (bookmark #".to_owned();
    text::push_signed(&mut out, state.bookmark_id);
    out.append(") ");
    out
}

} // verus!
