//! Rendering of a backend UI description as one terminal line: the text with
//! a cursor marker glyph inserted at the cursor index. Index arithmetic is
//! done in code-point units throughout, so a marker never splits a
//! multi-byte character.

use vstd::prelude::*;
use vstd::string::*;

use crate::errors::SessionError;

verus! {

/// What the backend returns: either an opaque value, or a text buffer with a
/// cursor position. The `Value` payload is opaque to this core — nothing
/// here ever reads it — so it is not carried.
///
/// A well-formed `TextField` keeps `cursor_index <= text@.len()` (in
/// code-point units); the renderer checks this rather than assuming it,
/// because the value arrives from outside.
#[derive(Clone, Debug, PartialEq, Eq)]
pub enum UiDescription {
    Value,
    TextField { text: String, cursor_index: usize },
}

/// The mathematical shape of a `UiDescription`: its text as a sequence of
/// code points and its cursor as an integer.
#[verifier::ext_equal]
pub enum UiSpec {
    Value,
    TextField { text: Seq<char>, cursor_index: int },
}

impl View for UiDescription {
    type V = UiSpec;

    open spec fn view(&self) -> UiSpec {
        match self {
            UiDescription::Value => UiSpec::Value,
            UiDescription::TextField { text, cursor_index } => UiSpec::TextField {
                text: text@,
                cursor_index: *cursor_index as int,
            },
        }
    }
}

/// The cursor marker glyph inserted into the rendered line.
pub open spec fn cursor_marker() -> char {
    '|'
}

/// The rendered form of a text field: the text with the marker glyph
/// inserted at the cursor index. Inserting at an index equal to the text
/// length appends the marker at the end.
pub open spec fn rendered_line(text: Seq<char>, cursor_index: int) -> Seq<char>
    recommends
        0 <= cursor_index <= text.len(),
{
    text.subrange(0, cursor_index) + seq![cursor_marker()] + text.subrange(
        cursor_index,
        text.len() as int,
    )
}

/// The rendered line is one code point longer than the text, carries the
/// marker exactly at the cursor index, and keeps every character of the
/// text, in order, around it.
pub proof fn lemma_rendered_line_shape(text: Seq<char>, cursor_index: int)
    requires
        0 <= cursor_index <= text.len(),
    ensures
        rendered_line(text, cursor_index).len() == text.len() + 1,
        rendered_line(text, cursor_index)[cursor_index] == cursor_marker(),
        forall|i: int|
            0 <= i < cursor_index ==> rendered_line(text, cursor_index)[i] == text[i],
        forall|i: int|
            cursor_index < i <= text.len() ==> rendered_line(text, cursor_index)[i] == text[i - 1],
{
}

/// Produces the single line to draw for one UI description.
///
/// A `TextField` whose cursor lies within the text renders as the text with
/// the marker inserted at the cursor. The two abnormal shapes are reported
/// as explicit errors: a cursor past the end of the text, and the `Value`
/// variant, which has no defined rendering in this design.
pub fn format_ui(ui: &UiDescription) -> (r: Result<String, SessionError>)
    ensures
        match ui@ {
            UiSpec::TextField { text, cursor_index } => {
                if cursor_index <= text.len() {
                    r matches Ok(line) && line@ == rendered_line(text, cursor_index)
                } else {
                    r matches Err(e) && e == SessionError::CursorOutOfRange
                }
            },
            UiSpec::Value => r matches Err(e) && e == SessionError::UnhandledUiVariant,
        },
{
    match ui {
        UiDescription::Value => Err(SessionError::UnhandledUiVariant),
        UiDescription::TextField { text, cursor_index } => {
            let n = text.as_str().unicode_len();
            if *cursor_index > n {
                Err(SessionError::CursorOutOfRange)
            } else {
                let head = text.as_str().substring_char(0, *cursor_index);
                let tail = text.as_str().substring_char(*cursor_index, n);
                let mut line = String::from_str(head);
                line.append("|");
                line.append(tail);
                proof {
                    reveal_strlit("|");
                    assert("|"@ =~= seq![cursor_marker()]);
                    assert(line@ =~= rendered_line(text@, *cursor_index as int));
                }
                Ok(line)
            }
        },
    }
}

} // verus!
