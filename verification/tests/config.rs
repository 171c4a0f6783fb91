//! The theme that the configuration asks for.

use threadhop_tui::config::{pick_theme_name, resolve_theme_name};

fn resolve(chosen: Option<&str>, config: Option<&str>) -> Option<String> {
    resolve_theme_name(
        chosen.map(|s| s.to_string()),
        &config.map(|s| s.as_bytes().to_vec()),
    )
}

#[test]
fn the_configured_theme_is_found_under_either_key() {
    assert_eq!(resolve(None, Some("{\"theme\": \"nord\"}")).as_deref(), Some("nord"));
    assert_eq!(resolve(None, Some("{\"theme_name\": \"nord\"}")).as_deref(), Some("nord"));
    let both = "{\"theme_name\": \"old\", \"theme\": \"new\"}";
    assert_eq!(resolve(None, Some(both)).as_deref(), Some("new"));
}

#[test]
fn a_theme_that_is_no_text_is_passed_over() {
    let config = "{\"theme\": 3, \"theme_name\": \"nord\"}";
    assert_eq!(resolve(None, Some(config)).as_deref(), Some("nord"));
}

#[test]
fn escapes_in_the_name_are_read() {
    assert_eq!(resolve(None, Some("{\"theme\": \"a\\u0062\\n\"}")).as_deref(), Some("ab\n"));
}

#[test]
fn a_broken_or_missing_configuration_asks_for_nothing() {
    for config in ["", "{", "[\"theme\"]", "\"theme\"", "{\"themes\": \"x\"}", "{} trailing"] {
        assert_eq!(resolve(None, Some(config)), None, "{config}");
    }
    assert_eq!(resolve(None, None), None);
}

#[test]
fn the_theme_that_was_asked_for_wins() {
    assert_eq!(resolve(Some("mine"), Some("{\"theme\": \"nord\"}")).as_deref(), Some("mine"));
    assert_eq!(resolve(Some("mine"), None).as_deref(), Some("mine"));
    assert_eq!(
        pick_theme_name(None, None, Some("last".to_string())).as_deref(),
        Some("last")
    );
}
