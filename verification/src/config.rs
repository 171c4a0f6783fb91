//! Which colour theme the configuration asks for.

use vstd::prelude::*;
use vstd::string::*;

use crate::text;

verus! {

/// The text that the JSON object written in `bytes` holds under `key`. `None`
/// where `bytes` is not JSON, is not an object, or holds no text there.
pub uninterp spec fn json_text(bytes: Seq<u8>, key: Seq<char>) -> Option<Seq<char>>;

/// Looks `key` up in a JSON document with `serde_json::from_slice`,
/// `Value::get` and `Value::as_str`. The contract claims that the answer
/// depends on the bytes and the key alone.
#[verifier::external_body]
fn json_text_of(bytes: &[u8], key: &str) -> (value: Option<String>)
    ensures
        text::opt_view(value) == json_text(bytes@, key@),
{
    let document: serde_json::Value = serde_json::from_slice(bytes).ok()?;
    document.get(key)?.as_str().map(|s| s.to_string())
}

/// The theme to load: the first of the three that is there.
pub open spec fn first_name(
    chosen: Option<Seq<char>>,
    theme: Option<Seq<char>>,
    theme_name: Option<Seq<char>>,
) -> Option<Seq<char>> {
    if chosen is Some {
        chosen
    } else if theme is Some {
        theme
    } else {
        theme_name
    }
}

/// The theme to load: the one that was asked for, else the one under `theme`,
/// else the one under `theme_name`, else the built-in one (`None`).
pub fn pick_theme_name(
    chosen: Option<String>,
    theme: Option<String>,
    theme_name: Option<String>,
) -> (name: Option<String>)
    ensures
        text::opt_view(name) == first_name(
            text::opt_view(chosen),
            text::opt_view(theme),
            text::opt_view(theme_name),
        ),
{
    match chosen {
        Some(name) => Some(name),
        None => match theme {
            Some(name) => Some(name),
            None => theme_name,
        },
    }
}

/// The theme to load, given the one that was asked for and the bytes of the
/// configuration file.
pub open spec fn theme_of(chosen: Option<Seq<char>>, config: Option<Vec<u8>>) -> Option<Seq<char>> {
    match config {
        Some(bytes) => first_name(
            chosen,
            json_text(bytes@, "theme"@),
            json_text(bytes@, "theme_name"@),
        ),
        None => chosen,
    }
}

/// The theme to load, given the one that was asked for and the bytes of the
/// configuration file (`None` where it could not be read).
pub fn resolve_theme_name(chosen: Option<String>, config: &Option<Vec<u8>>) -> (name: Option<
    String,
>)
    ensures
        text::opt_view(name) == theme_of(text::opt_view(chosen), *config),
{
    match config {
        Some(bytes) => {
            let theme = json_text_of(bytes.as_slice(), "theme");
            let theme_name = json_text_of(bytes.as_slice(), "theme_name");
            pick_theme_name(chosen, theme, theme_name)
        },
        None => chosen,
    }
}

/// The theme that was asked for comes first, then the one under `theme`, then
/// the one under `theme_name`; without any of them it is the built-in one. A
/// configuration that could not be read has none.
pub proof fn the_first_theme_is_loaded(chosen: Option<Seq<char>>, bytes: Vec<u8>)
    ensures
        chosen is Some ==> theme_of(chosen, Some(bytes)) == chosen,
        chosen is None && json_text(bytes@, "theme"@) is Some ==> theme_of(chosen, Some(bytes))
            == json_text(bytes@, "theme"@),
        chosen is None && json_text(bytes@, "theme"@) is None ==> theme_of(chosen, Some(bytes))
            == json_text(bytes@, "theme_name"@),
        theme_of(chosen, None) == chosen,
{
}

} // verus!
