use polyp_cli_client::errors::SessionError;
use polyp_cli_client::render::{format_ui, UiDescription};

fn text_field(text: &str, cursor_index: usize) -> UiDescription {
    UiDescription::TextField { text: String::from(text), cursor_index }
}

#[test]
fn marker_at_end() {
    assert_eq!(format_ui(&text_field("hi", 2)), Ok(String::from("hi|")));
}

#[test]
fn marker_in_middle() {
    assert_eq!(format_ui(&text_field("hi", 1)), Ok(String::from("h|i")));
}

#[test]
fn marker_at_start() {
    assert_eq!(format_ui(&text_field("hi", 0)), Ok(String::from("|hi")));
}

#[test]
fn empty_text_renders_bare_marker() {
    assert_eq!(format_ui(&text_field("", 0)), Ok(String::from("|")));
}

#[test]
fn multibyte_text_is_split_between_code_points() {
    assert_eq!(format_ui(&text_field("héllo", 2)), Ok(String::from("hé|llo")));
}

#[test]
fn rendered_line_is_one_longer_with_marker_at_cursor() {
    let line = format_ui(&text_field("héllo", 2)).unwrap();
    assert_eq!(line.chars().count(), 6);
    assert_eq!(line.chars().nth(2), Some('|'));
}

#[test]
fn cursor_past_end_is_an_error() {
    assert_eq!(format_ui(&text_field("hi", 3)), Err(SessionError::CursorOutOfRange));
}

#[test]
fn value_variant_is_an_error() {
    assert_eq!(format_ui(&UiDescription::Value), Err(SessionError::UnhandledUiVariant));
}
