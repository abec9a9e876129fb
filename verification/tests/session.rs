use polyp_cli_client::errors::SessionError;
use polyp_cli_client::input::{
    LogicalKey, TermEvent, TermKeyCode, TermModifiers, UserInputMessage,
};
use polyp_cli_client::protocol::{run_session, ReplyOutcome, SessionEnd};
use polyp_cli_client::render::UiDescription;

fn no_mods() -> TermModifiers {
    TermModifiers { ctrl: false, shift: false, alt: false, other: false }
}

fn press(c: char) -> TermEvent {
    TermEvent::Key { code: TermKeyCode::Char(c), mods: no_mods() }
}

fn interrupt() -> TermEvent {
    TermEvent::Key {
        code: TermKeyCode::Char('c'),
        mods: TermModifiers { ctrl: true, shift: false, alt: false, other: false },
    }
}

fn echo(text: &str, cursor_index: usize) -> ReplyOutcome {
    ReplyOutcome::Reply(UiDescription::TextField { text: String::from(text), cursor_index })
}

#[test]
fn echoing_backend_renders_each_keystroke() {
    let events = vec![press('h'), press('i')];
    let replies = vec![echo("h", 1), echo("hi", 2)];
    let log = run_session(&events, &replies);
    assert_eq!(log.renders, vec![String::from("h|"), String::from("hi|")]);
    assert_eq!(
        log.sent,
        vec![
            UserInputMessage::PressedKey(LogicalKey::Character('h')),
            UserInputMessage::PressedKey(LogicalKey::Character('i')),
        ]
    );
    assert_eq!(log.end, SessionEnd::EventsExhausted);
    assert_eq!(log.events_consumed, 2);
    assert_eq!(log.replies_consumed, 2);
}

#[test]
fn backspace_round_trip() {
    let events = vec![TermEvent::Key { code: TermKeyCode::Backspace, mods: no_mods() }];
    let replies = vec![echo("h", 1)];
    let log = run_session(&events, &replies);
    assert_eq!(log.sent, vec![UserInputMessage::PressedKey(LogicalKey::Backspace)]);
    assert_eq!(log.renders, vec![String::from("h|")]);
    assert_eq!(log.end, SessionEnd::EventsExhausted);
}

#[test]
fn decode_failure_on_second_exchange_ends_after_one_render() {
    let events = vec![press('h'), press('i')];
    let replies = vec![echo("h", 1), ReplyOutcome::ReceiveFailed];
    let log = run_session(&events, &replies);
    assert_eq!(log.renders, vec![String::from("h|")]);
    assert_eq!(log.sent.len(), 2);
    assert_eq!(log.end, SessionEnd::Failed(SessionError::ChannelReceive));
    assert_eq!(log.replies_consumed, 2);
}

#[test]
fn interrupt_sends_nothing() {
    let events = vec![interrupt(), press('h')];
    let replies = vec![echo("h", 1)];
    let log = run_session(&events, &replies);
    assert_eq!(log.end, SessionEnd::Interrupted);
    assert!(log.sent.is_empty());
    assert!(log.renders.is_empty());
    assert_eq!(log.events_consumed, 1);
    assert_eq!(log.replies_consumed, 0);
}

#[test]
fn interrupt_after_one_exchange() {
    let events = vec![press('h'), interrupt(), press('i')];
    let replies = vec![echo("h", 1), echo("hi", 2)];
    let log = run_session(&events, &replies);
    assert_eq!(log.end, SessionEnd::Interrupted);
    assert_eq!(log.sent, vec![UserInputMessage::PressedKey(LogicalKey::Character('h'))]);
    assert_eq!(log.renders, vec![String::from("h|")]);
    assert_eq!(log.events_consumed, 2);
    assert_eq!(log.replies_consumed, 1);
}

#[test]
fn ignored_events_produce_no_messages_and_no_renders() {
    let events = vec![
        TermEvent::Other,
        TermEvent::Key { code: TermKeyCode::Other, mods: no_mods() },
        TermEvent::Key {
            code: TermKeyCode::Other,
            mods: TermModifiers { ctrl: true, shift: false, alt: false, other: false },
        },
    ];
    let replies = vec![echo("h", 1)];
    let log = run_session(&events, &replies);
    assert!(log.sent.is_empty());
    assert!(log.renders.is_empty());
    assert_eq!(log.end, SessionEnd::EventsExhausted);
    assert_eq!(log.events_consumed, 3);
    assert_eq!(log.replies_consumed, 0);
}

#[test]
fn ignored_events_between_keys_leave_the_cadence_alone() {
    let events = vec![TermEvent::Other, press('a'), TermEvent::Other, press('b')];
    let replies = vec![echo("a", 1), echo("ab", 2)];
    let log = run_session(&events, &replies);
    assert_eq!(
        log.sent,
        vec![
            UserInputMessage::PressedKey(LogicalKey::Character('a')),
            UserInputMessage::PressedKey(LogicalKey::Character('b')),
        ]
    );
    assert_eq!(log.renders, vec![String::from("a|"), String::from("ab|")]);
    assert_eq!(log.replies_consumed, 2);
}

#[test]
fn closed_reply_stream_is_a_receive_failure() {
    let events = vec![press('h')];
    let replies = vec![];
    let log = run_session(&events, &replies);
    assert_eq!(log.sent.len(), 1);
    assert_eq!(log.end, SessionEnd::Failed(SessionError::ChannelReceive));
    assert_eq!(log.replies_consumed, 0);
    assert!(log.renders.is_empty());
}

#[test]
fn value_reply_is_fatal() {
    let events = vec![press('h'), press('i')];
    let replies = vec![ReplyOutcome::Reply(UiDescription::Value), echo("hi", 2)];
    let log = run_session(&events, &replies);
    assert_eq!(log.end, SessionEnd::Failed(SessionError::UnhandledUiVariant));
    assert_eq!(log.sent.len(), 1);
    assert!(log.renders.is_empty());
    assert_eq!(log.replies_consumed, 1);
}

#[test]
fn out_of_range_cursor_reply_is_fatal() {
    let events = vec![press('h')];
    let replies = vec![echo("h", 5)];
    let log = run_session(&events, &replies);
    assert_eq!(log.end, SessionEnd::Failed(SessionError::CursorOutOfRange));
    assert!(log.renders.is_empty());
    assert_eq!(log.replies_consumed, 1);
}
