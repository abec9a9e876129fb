//! The protocol loop: one full request/response exchange per recognized key,
//! in strict send order, with every failure session-fatal.
//!
//! The loop is modeled as a function of the sequence of terminal events and
//! the sequence of exchange outcomes the backend channel would deliver, so
//! its cadence and ordering guarantees are stated and proved over plain
//! sequences; the binary that owns the real channel replays the very same
//! per-event decisions.

use vstd::prelude::*;

use crate::errors::SessionError;
use crate::input::{
    build_message, classify_event, spec_classify, EventAction, TermEvent, UserInputMessage,
};
use crate::render::{format_ui, rendered_line, UiDescription, UiSpec};

verus! {

/// What one receive on the backend channel yields: a decoded UI description,
/// or a fatal channel failure (closed pipe or undecodable bytes).
#[derive(Clone, Debug, PartialEq, Eq)]
pub enum ReplyOutcome {
    Reply(UiDescription),
    ReceiveFailed,
}

/// The mathematical shape of a `ReplyOutcome`.
#[verifier::ext_equal]
pub enum ReplyOutcomeSpec {
    Reply(UiSpec),
    ReceiveFailed,
}

impl View for ReplyOutcome {
    type V = ReplyOutcomeSpec;

    open spec fn view(&self) -> ReplyOutcomeSpec {
        match self {
            ReplyOutcome::Reply(ui) => ReplyOutcomeSpec::Reply(ui@),
            ReplyOutcome::ReceiveFailed => ReplyOutcomeSpec::ReceiveFailed,
        }
    }
}

/// How a session ends: on the interrupt chord, on running out of input
/// events, or on the first fatal error.
#[derive(Clone, Copy, Debug, PartialEq, Eq, Structural)]
pub enum SessionEnd {
    Interrupted,
    EventsExhausted,
    Failed(SessionError),
}

/// Everything observable a session produced: the messages sent to the
/// backend, the lines rendered, how it ended, and how many events and
/// replies it consumed.
#[derive(Clone, Debug, PartialEq, Eq)]
pub struct SessionLog {
    pub sent: Vec<UserInputMessage>,
    pub renders: Vec<String>,
    pub end: SessionEnd,
    pub events_consumed: usize,
    pub replies_consumed: usize,
}

/// The mathematical shape of a `SessionLog`.
#[verifier::ext_equal]
pub struct SessionLogSpec {
    pub sent: Seq<UserInputMessage>,
    pub renders: Seq<Seq<char>>,
    pub end: SessionEnd,
    pub events_consumed: int,
    pub replies_consumed: int,
}

impl View for SessionLog {
    type V = SessionLogSpec;

    open spec fn view(&self) -> SessionLogSpec {
        SessionLogSpec {
            sent: self.sent@,
            renders: self.renders@.map_values(|line: String| line@),
            end: self.end,
            events_consumed: self.events_consumed as int,
            replies_consumed: self.replies_consumed as int,
        }
    }
}

/// The protocol loop as a function of its inputs. Events are consumed one
/// at a time; the interrupt chord ends the session at once with nothing
/// sent for it; an ignored event consumes nothing else; a forwarded key
/// sends exactly one message and then consumes exactly one reply outcome —
/// a missing or failed reply, a `Value` reply and an out-of-range cursor
/// are each session-fatal, and a well-formed text field is rendered before
/// the next event is read.
pub open spec fn spec_session(events: Seq<TermEvent>, replies: Seq<ReplyOutcomeSpec>) -> SessionLogSpec
    decreases events.len(),
{
    if events.len() == 0 {
        SessionLogSpec {
            sent: Seq::empty(),
            renders: Seq::empty(),
            end: SessionEnd::EventsExhausted,
            events_consumed: 0,
            replies_consumed: 0,
        }
    } else {
        match spec_classify(events[0]) {
            EventAction::Interrupt => SessionLogSpec {
                sent: Seq::empty(),
                renders: Seq::empty(),
                end: SessionEnd::Interrupted,
                events_consumed: 1,
                replies_consumed: 0,
            },
            EventAction::Ignore => {
                let rest = spec_session(events.drop_first(), replies);
                SessionLogSpec {
                    sent: rest.sent,
                    renders: rest.renders,
                    end: rest.end,
                    events_consumed: rest.events_consumed + 1,
                    replies_consumed: rest.replies_consumed,
                }
            },
            EventAction::Forward(key) => {
                let msg = UserInputMessage::PressedKey(key);
                if replies.len() == 0 {
                    SessionLogSpec {
                        sent: seq![msg],
                        renders: Seq::empty(),
                        end: SessionEnd::Failed(SessionError::ChannelReceive),
                        events_consumed: 1,
                        replies_consumed: 0,
                    }
                } else {
                    match replies[0] {
                        ReplyOutcomeSpec::ReceiveFailed => SessionLogSpec {
                            sent: seq![msg],
                            renders: Seq::empty(),
                            end: SessionEnd::Failed(SessionError::ChannelReceive),
                            events_consumed: 1,
                            replies_consumed: 1,
                        },
                        ReplyOutcomeSpec::Reply(ui) => match ui {
                            UiSpec::Value => SessionLogSpec {
                                sent: seq![msg],
                                renders: Seq::empty(),
                                end: SessionEnd::Failed(SessionError::UnhandledUiVariant),
                                events_consumed: 1,
                                replies_consumed: 1,
                            },
                            UiSpec::TextField { text, cursor_index } => {
                                if 0 <= cursor_index <= text.len() {
                                    let rest = spec_session(
                                        events.drop_first(),
                                        replies.drop_first(),
                                    );
                                    SessionLogSpec {
                                        sent: seq![msg] + rest.sent,
                                        renders: seq![rendered_line(text, cursor_index)]
                                            + rest.renders,
                                        end: rest.end,
                                        events_consumed: rest.events_consumed + 1,
                                        replies_consumed: rest.replies_consumed + 1,
                                    }
                                } else {
                                    SessionLogSpec {
                                        sent: seq![msg],
                                        renders: Seq::empty(),
                                        end: SessionEnd::Failed(SessionError::CursorOutOfRange),
                                        events_consumed: 1,
                                        replies_consumed: 1,
                                    }
                                }
                            },
                        },
                    }
                }
            },
        }
    }
}

/// The messages a sequence of events gives rise to: one `PressedKey` per
/// event that classifies as `Forward`, in event order; interrupt and ignored
/// events contribute nothing.
pub open spec fn forwarded_messages(events: Seq<TermEvent>) -> Seq<UserInputMessage>
    decreases events.len(),
{
    if events.len() == 0 {
        Seq::empty()
    } else {
        let rest = forwarded_messages(events.drop_first());
        match spec_classify(events[0]) {
            EventAction::Forward(key) => seq![UserInputMessage::PressedKey(key)] + rest,
            _ => rest,
        }
    }
}

/// One rendered line answers one reply: the reply is a text field whose
/// cursor lies within its text, and the line is that field's rendering.
pub open spec fn render_matches_reply(reply: ReplyOutcomeSpec, line: Seq<char>) -> bool {
    reply matches ReplyOutcomeSpec::Reply(UiSpec::TextField { text, cursor_index })
        && 0 <= cursor_index <= text.len() && line == rendered_line(text, cursor_index)
}

/// The 1:1 request/response cadence and the ordering of the session.
///
/// Of every session: the messages sent are exactly one `PressedKey` per
/// consumed event that classifies as `Forward`, in event order — ignored
/// events and the interrupt chord send nothing; one reply is consumed per
/// sent message, in send order, except that the last message may find the
/// reply stream already closed; and the Nth rendered line is the rendering
/// of the Nth reply, which answers the Nth sent message.
pub proof fn lemma_session_cadence(events: Seq<TermEvent>, replies: Seq<ReplyOutcomeSpec>)
    ensures
        ({
            let log = spec_session(events, replies);
            &&& 0 <= log.events_consumed <= events.len()
            &&& 0 <= log.replies_consumed <= replies.len()
            &&& log.sent == forwarded_messages(events.take(log.events_consumed))
            &&& log.replies_consumed == if log.sent.len() <= replies.len() {
                log.sent.len() as int
            } else {
                replies.len() as int
            }
            &&& log.sent.len() <= replies.len() + 1
            &&& log.replies_consumed - 1 <= log.renders.len() <= log.replies_consumed
            &&& (log.end == SessionEnd::Interrupted || log.end == SessionEnd::EventsExhausted)
                ==> log.renders.len() == log.replies_consumed
            &&& log.renders.len() < log.replies_consumed ==> (log.end matches
                SessionEnd::Failed(_))
            &&& forall|j: int|
                0 <= j < log.renders.len() ==> #[trigger] render_matches_reply(
                    replies[j],
                    log.renders[j],
                )
        }),
    decreases events.len(),
{
    let log = spec_session(events, replies);
    reveal_with_fuel(forwarded_messages, 2);
    if events.len() == 0 {
        assert(events.take(0) =~= Seq::<TermEvent>::empty());
    } else {
        match spec_classify(events[0]) {
            EventAction::Interrupt => {
                assert(events.take(1)[0] == events[0]);
                assert(events.take(1).drop_first() =~= Seq::<TermEvent>::empty());
                assert(log.sent == forwarded_messages(events.take(log.events_consumed)));
            },
            EventAction::Ignore => {
                lemma_session_cadence(events.drop_first(), replies);
                let rest = spec_session(events.drop_first(), replies);
                assert(events.take(log.events_consumed)[0] == events[0]);
                assert(events.take(log.events_consumed).drop_first() =~= events.drop_first()
                    .take(rest.events_consumed));
                assert(log.sent == forwarded_messages(events.take(log.events_consumed)));
            },
            EventAction::Forward(key) => {
                let msg = UserInputMessage::PressedKey(key);
                if replies.len() == 0 {
                    assert(events.take(1)[0] == events[0]);
                    assert(events.take(1).drop_first() =~= Seq::<TermEvent>::empty());
                    assert(log.sent =~= seq![msg] + forwarded_messages(Seq::empty()));
                    assert(log.sent == forwarded_messages(events.take(log.events_consumed)));
                } else {
                    match replies[0] {
                        ReplyOutcomeSpec::Reply(
                            UiSpec::TextField { text, cursor_index },
                        ) if 0 <= cursor_index <= text.len() => {
                            lemma_session_cadence(events.drop_first(), replies.drop_first());
                            let rest = spec_session(events.drop_first(), replies.drop_first());
                            assert(events.take(log.events_consumed)[0] == events[0]);
                            assert(events.take(log.events_consumed).drop_first() =~= events
                                .drop_first().take(rest.events_consumed));
                            assert(log.sent =~= seq![msg] + forwarded_messages(
                                events.drop_first().take(rest.events_consumed),
                            ));
                            assert(log.sent == forwarded_messages(events.take(log.events_consumed)));
                            assert(render_matches_reply(replies[0], log.renders[0]));
                            assert forall|j: int| 0 < j < log.renders.len() implies
                                #[trigger] render_matches_reply(
                                    replies[j],
                                    log.renders[j],
                                ) by {
                                assert(log.renders[j] == rest.renders[j - 1]);
                                assert(replies[j] == replies.drop_first()[j - 1]);
                                assert(render_matches_reply(
                                    replies.drop_first()[j - 1],
                                    rest.renders[j - 1],
                                ));
                            }
                        },
                        _ => {
                            assert(events.take(1)[0] == events[0]);
                            assert(events.take(1).drop_first() =~= Seq::<TermEvent>::empty());
                            assert(log.sent =~= seq![msg] + forwarded_messages(Seq::empty()));
                            assert(log.sent == forwarded_messages(events.take(log.events_consumed)));
                        },
                    }
                }
            },
        }
    }
}

/// The interrupt shutdown.
///
/// If a session ends interrupted, the last event it consumed was the
/// interrupt chord, that event sent nothing — the messages sent are exactly
/// those of the events before it — and every exchange before it completed:
/// one reply consumed and one line rendered per sent message. Conversely, a
/// session whose first event is the interrupt chord ends at once, with
/// nothing sent, nothing consumed from the reply stream and nothing
/// rendered.
pub proof fn lemma_interrupt_shutdown(events: Seq<TermEvent>, replies: Seq<ReplyOutcomeSpec>)
    ensures
        ({
            let log = spec_session(events, replies);
            &&& log.end == SessionEnd::Interrupted ==> {
                &&& 1 <= log.events_consumed <= events.len()
                &&& spec_classify(events[log.events_consumed - 1]) == EventAction::Interrupt
                &&& log.sent == forwarded_messages(events.take(log.events_consumed - 1))
                &&& log.replies_consumed == log.sent.len()
                &&& log.renders.len() == log.sent.len()
            }
            &&& (events.len() > 0 && spec_classify(events[0]) == EventAction::Interrupt) ==> {
                &&& log.sent == Seq::<UserInputMessage>::empty()
                &&& log.renders == Seq::<Seq<char>>::empty()
                &&& log.end == SessionEnd::Interrupted
                &&& log.events_consumed == 1
                &&& log.replies_consumed == 0
            }
        }),
    decreases events.len(),
{
    let log = spec_session(events, replies);
    if events.len() == 0 {
    } else {
        match spec_classify(events[0]) {
            EventAction::Interrupt => {
                assert(events.take(0) =~= Seq::<TermEvent>::empty());
            },
            EventAction::Ignore => {
                lemma_interrupt_shutdown(events.drop_first(), replies);
                let rest = spec_session(events.drop_first(), replies);
                if rest.end == SessionEnd::Interrupted {
                    assert(events[log.events_consumed - 1] == events.drop_first()[rest.events_consumed - 1]);
                    assert(events.take(log.events_consumed - 1)[0] == events[0]);
                    assert(events.take(log.events_consumed - 1).drop_first() =~= events
                        .drop_first().take(rest.events_consumed - 1));
                }
            },
            EventAction::Forward(key) => {
                let msg = UserInputMessage::PressedKey(key);
                if replies.len() > 0 {
                    match replies[0] {
                        ReplyOutcomeSpec::Reply(
                            UiSpec::TextField { text, cursor_index },
                        ) if 0 <= cursor_index <= text.len() => {
                            lemma_interrupt_shutdown(events.drop_first(), replies.drop_first());
                            let rest = spec_session(events.drop_first(), replies.drop_first());
                            if rest.end == SessionEnd::Interrupted {
                                assert(events[log.events_consumed - 1] == events.drop_first()[rest.events_consumed - 1]);
                                assert(events.take(log.events_consumed - 1)[0] == events[0]);
                                assert(events.take(log.events_consumed - 1).drop_first()
                                    =~= events.drop_first().take(rest.events_consumed - 1));
                                assert(log.sent =~= seq![msg] + forwarded_messages(
                                    events.drop_first().take(rest.events_consumed - 1),
                                ));
                            }
                        },
                        _ => {},
                    }
                }
            },
        }
    }
}

/// The ignore-set: a session whose events all classify as `Ignore` sends
/// nothing, consumes nothing from the reply stream and renders nothing; it
/// simply runs out of events.
pub proof fn lemma_ignored_events(events: Seq<TermEvent>, replies: Seq<ReplyOutcomeSpec>)
    requires
        forall|j: int|
            0 <= j < events.len() ==> #[trigger] spec_classify(events[j]) == EventAction::Ignore,
    ensures
        ({
            let log = spec_session(events, replies);
            &&& log.sent == Seq::<UserInputMessage>::empty()
            &&& log.renders == Seq::<Seq<char>>::empty()
            &&& log.end == SessionEnd::EventsExhausted
            &&& log.events_consumed == events.len()
            &&& log.replies_consumed == 0
        }),
    decreases events.len(),
{
    if events.len() > 0 {
        assert(spec_classify(events[0]) == EventAction::Ignore);
        assert forall|j: int| 0 <= j < events.drop_first().len() implies #[trigger] spec_classify(
            events.drop_first()[j],
        ) == EventAction::Ignore by {
            assert(events.drop_first()[j] == events[j + 1]);
        }
        lemma_ignored_events(events.drop_first(), replies);
    }
}

/// Runs one whole session against a given event sequence and a scripted
/// backend: the in-memory stand-in for the real channel. The log it returns
/// is exactly the session function of its inputs.
pub fn run_session(events: &Vec<TermEvent>, replies: &Vec<ReplyOutcome>) -> (log: SessionLog)
    ensures
        log@ == spec_session(events@, replies@.map_values(|ro: ReplyOutcome| ro@)),
{
    let ghost repliesv = replies@.map_values(|ro: ReplyOutcome| ro@);
    let ghost full = spec_session(events@, repliesv);
    let mut sent: Vec<UserInputMessage> = Vec::new();
    let mut renders: Vec<String> = Vec::new();
    let mut i: usize = 0;
    let mut r: usize = 0;
    proof {
        assert(events@.skip(0) =~= events@);
        assert(repliesv.skip(0) =~= repliesv);
        assert(full.sent =~= sent@ + full.sent);
        assert(full.renders =~= renders@.map_values(|line: String| line@) + full.renders);
    }
    loop
        invariant
            i <= events@.len(),
            r <= replies@.len(),
            repliesv == replies@.map_values(|ro: ReplyOutcome| ro@),
            full == spec_session(events@, repliesv),
            ({
                let tail = spec_session(events@.skip(i as int), repliesv.skip(r as int));
                &&& full.sent == sent@ + tail.sent
                &&& full.renders == renders@.map_values(|line: String| line@) + tail.renders
                &&& full.end == tail.end
                &&& full.events_consumed == i + tail.events_consumed
                &&& full.replies_consumed == r + tail.replies_consumed
            }),
        decreases events@.len() - i,
    {
        if i == events.len() {
            let log = SessionLog {
                sent,
                renders,
                end: SessionEnd::EventsExhausted,
                events_consumed: i,
                replies_consumed: r,
            };
            proof {
                assert(events@.skip(i as int) =~= Seq::<TermEvent>::empty());
                assert(log@.sent =~= full.sent);
                assert(log@.renders =~= full.renders);
                assert(log@ =~= full);
            }
            return log;
        }
        let ev = events[i];
        i = i + 1;
        proof {
            assert(events@.skip((i - 1) as int)[0] == events@[(i - 1) as int]);
            assert(events@.skip((i - 1) as int).drop_first() =~= events@.skip(i as int));
        }
        match classify_event(&ev) {
            EventAction::Interrupt => {
                let log = SessionLog {
                    sent,
                    renders,
                    end: SessionEnd::Interrupted,
                    events_consumed: i,
                    replies_consumed: r,
                };
                proof {
                    assert(log@.sent =~= full.sent);
                    assert(log@.renders =~= full.renders);
                    assert(log@ =~= full);
                }
                return log;
            },
            EventAction::Ignore => {},
            EventAction::Forward(key) => {
                let msg = build_message(key);
                let ghost sent_pre = sent@;
                sent.push(msg);
                proof {
                    assert(sent@ =~= sent_pre + seq![msg]);
                }
                if r == replies.len() {
                    let log = SessionLog {
                        sent,
                        renders,
                        end: SessionEnd::Failed(SessionError::ChannelReceive),
                        events_consumed: i,
                        replies_consumed: r,
                    };
                    proof {
                        assert(repliesv.skip(r as int) =~= Seq::<ReplyOutcomeSpec>::empty());
                        assert(log@.sent =~= full.sent);
                        assert(log@.renders =~= full.renders);
                        assert(log@ =~= full);
                    }
                    return log;
                }
                let reply = &replies[r];
                r = r + 1;
                proof {
                    assert(repliesv.skip((r - 1) as int)[0] == repliesv[(r - 1) as int]);
                    assert(repliesv.skip((r - 1) as int).drop_first() =~= repliesv.skip(
                        r as int,
                    ));
                    assert(repliesv[(r - 1) as int] == reply@);
                }
                match reply {
                    ReplyOutcome::ReceiveFailed => {
                        let log = SessionLog {
                            sent,
                            renders,
                            end: SessionEnd::Failed(SessionError::ChannelReceive),
                            events_consumed: i,
                            replies_consumed: r,
                        };
                        proof {
                            assert(log@.sent =~= full.sent);
                            assert(log@.renders =~= full.renders);
                            assert(log@ =~= full);
                        }
                        return log;
                    },
                    ReplyOutcome::Reply(ui) => {
                        match format_ui(ui) {
                            Ok(line) => {
                                let ghost renders_pre = renders@;
                                renders.push(line);
                                proof {
                                    let tail = spec_session(
                                        events@.skip(i as int),
                                        repliesv.skip(r as int),
                                    );
                                    assert(renders@.map_values(|line: String| line@)
                                        =~= renders_pre.map_values(|line: String| line@)
                                        + seq![line@]);
                                    assert(sent_pre + (seq![msg] + tail.sent) =~= sent@
                                        + tail.sent);
                                    assert(renders_pre.map_values(|line: String| line@)
                                        + (seq![line@] + tail.renders) =~= renders@.map_values(
                                        |line: String| line@,
                                    ) + tail.renders);
                                }
                            },
                            Err(e) => {
                                let log = SessionLog {
                                    sent,
                                    renders,
                                    end: SessionEnd::Failed(e),
                                    events_consumed: i,
                                    replies_consumed: r,
                                };
                                proof {
                                    assert(log@.sent =~= full.sent);
                                    assert(log@.renders =~= full.renders);
                                    assert(log@ =~= full);
                                }
                                return log;
                            },
                        }
                    },
                }
            },
        }
    }
}

} // verus!
