//! Laws of what the bridge does not keep: two runs of messages that differ in
//! the text of prompts and answers, and in when the messages pass, give records
//! that differ in clock readings alone.

use crate::bridge::{
    after_agent_message_delta, after_model_rerouted, after_notification, after_response,
    after_thread_closed, after_token_usage, after_turn_completed, after_turn_started, report_of,
    turns_without, PendingView, StateView, TurnView,
};
use crate::bridge_laws::{
    after_passage, record_at, same_notification, same_request, same_result, state_after, Passage,
};
use crate::clock::Moment;
use crate::json::{natural_in, text_in, JsonView};
use crate::record::{RecordView, TimingRecordView, UsageRecordView};
use vstd::prelude::*;

verus! {

/// Two open requests agree but for when they were made.
pub open spec fn same_pending(a: PendingView, b: PendingView) -> bool {
    match (a, b) {
        (
            PendingView::Turn { thread_id: s, model_override: m, started_at: _ },
            PendingView::Turn { thread_id: t, model_override: n, started_at: _ },
        ) => s == t && m == n,
        _ => a == b,
    }
}

/// Two turns agree but for when they started and how long the first text took.
pub open spec fn same_turn(a: TurnView, b: TurnView) -> bool {
    &&& a == (TurnView { started_at: a.started_at, first_token_ms: a.first_token_ms, ..b })
    &&& a.first_token_ms is Some <==> b.first_token_ms is Some
}

/// Two states agree but for clock readings.
pub open spec fn same_state(a: StateView, b: StateView) -> bool {
    &&& a.threads == b.threads
    &&& forall|key: Seq<char>| #[trigger]
        a.pending.contains_key(key) <==> b.pending.contains_key(key)
    &&& forall|key: Seq<char>| #[trigger]
        a.pending.contains_key(key) ==> same_pending(a.pending[key], b.pending[key])
    &&& forall|turn_id: Seq<char>| #[trigger]
        a.turns.contains_key(turn_id) <==> b.turns.contains_key(turn_id)
    &&& forall|turn_id: Seq<char>| #[trigger]
        a.turns.contains_key(turn_id) ==> same_turn(a.turns[turn_id], b.turns[turn_id])
}

/// Two usage records agree, but for the time where it was read from the clock:
/// where the message does not give it.
pub open spec fn same_usage(a: UsageRecordView, b: UsageRecordView, message: JsonView) -> bool {
    &&& a == (UsageRecordView { completed_at_ms: a.completed_at_ms, ..b })
    &&& (natural_in(message.get("emittedAtMs"@)) matches Some(millis) && millis <= i64::MAX)
        ==> a == b
}

/// Two timing records agree, but for the times that were read from the clock:
/// those that the message does not give, and how long the first text took.
pub open spec fn same_timing(a: TimingRecordView, b: TimingRecordView, message: JsonView) -> bool {
    &&& a == (TimingRecordView {
        completed_at_ms: a.completed_at_ms,
        duration_ms: a.duration_ms,
        first_token_ms: a.first_token_ms,
        ..b
    })
    &&& a.first_token_ms is Some <==> b.first_token_ms is Some
    &&& (natural_in(message.get3("params"@, "turn"@, "completedAt"@)) matches Some(seconds)
        && seconds * 1000 <= i64::MAX) ==> a.completed_at_ms == b.completed_at_ms
    &&& natural_in(message.get3("params"@, "turn"@, "durationMs"@)) is Some ==> a.duration_ms
        == b.duration_ms
}

/// Both messages give no record, or both give records that agree but for clock
/// readings.
pub open spec fn same_record(
    a: Option<RecordView>,
    b: Option<RecordView>,
    message: JsonView,
) -> bool {
    match (a, b) {
        (None, None) => true,
        (Some(RecordView::Usage(a)), Some(RecordView::Usage(b))) => same_usage(a, b, message),
        (Some(RecordView::Timing(a)), Some(RecordView::Timing(b))) => same_timing(a, b, message),
        _ => false,
    }
}

/// Everything that the bridge reads of a response agrees in two messages.
pub open spec fn same_response(a: JsonView, b: JsonView) -> bool {
    match (a.get("result"@), b.get("result"@)) {
        (Some(x), Some(y)) => same_result(x, y),
        (None, None) => true,
        _ => false,
    }
}

/// Two messages go the same way, with the same id, and agree in everything that
/// the bridge reads. When they pass may differ, and so may every other member:
/// prompts, answers, tool calls, credentials.
pub open spec fn same_passage(a: Passage, b: Passage) -> bool {
    match (a, b) {
        (
            Passage::Client { message: m, key: k, now: _ },
            Passage::Client { message: n, key: l, now: _ },
        ) => k == l && same_request(m, n),
        (
            Passage::Server { message: m, key: k, now: _ },
            Passage::Server { message: n, key: l, now: _ },
        ) => k == l && if k is Some {
            same_response(m, n)
        } else {
            same_notification(m, n)
        },
        _ => false,
    }
}

/// The message that passes.
pub open spec fn message_in(passage: Passage) -> JsonView {
    match passage {
        Passage::Client { message, key, now } => message,
        Passage::Server { message, key, now } => message,
    }
}

proof fn lemma_same_response(a: StateView, b: StateView, key: Seq<char>, m: JsonView, n: JsonView)
    requires
        same_state(a, b),
        same_response(m, n),
    ensures
        same_state(after_response(a, key, m), after_response(b, key, n)),
{
    assert(a.pending.contains_key(key) <==> b.pending.contains_key(key));
    if a.pending.contains_key(key) {
        assert(same_pending(a.pending[key], b.pending[key]));
    }
}

/// A turn that one state knows, the other knows as well.
proof fn lemma_known_in_both(a: StateView, b: StateView, turn_id: Seq<char>)
    requires
        same_state(a, b),
    ensures
        a.turns.contains_key(turn_id) <==> b.turns.contains_key(turn_id),
        a.turns.contains_key(turn_id) ==> same_turn(a.turns[turn_id], b.turns[turn_id]),
{
}

/// Agreeing turns put in leave the states agreeing.
proof fn lemma_same_insert(a: StateView, b: StateView, turn_id: Seq<char>, x: TurnView, y: TurnView)
    requires
        same_state(a, b),
        same_turn(x, y),
    ensures
        same_state(
            a.with_turns(a.turns.insert(turn_id, x)),
            b.with_turns(b.turns.insert(turn_id, y)),
        ),
{
}

proof fn lemma_same_turn_started(
    a: StateView,
    b: StateView,
    m: JsonView,
    n: JsonView,
    s: Moment,
    t: Moment,
)
    requires
        same_state(a, b),
        same_notification(m, n),
    ensures
        same_state(after_turn_started(a, m, s), after_turn_started(b, n, t)),
{
    match text_in(m.get3("params"@, "turn"@, "id"@)) {
        Some(turn_id) => {
            lemma_known_in_both(a, b, turn_id);
            let x = after_turn_started(a, m, s);
            let y = after_turn_started(b, n, t);
            if text_in(m.get2("params"@, "threadId"@)) is Some {
                lemma_same_insert(a, b, turn_id, x.turns[turn_id], y.turns[turn_id]);
            }
        },
        None => {},
    }
}

proof fn lemma_same_delta(
    a: StateView,
    b: StateView,
    m: JsonView,
    n: JsonView,
    s: Moment,
    t: Moment,
)
    requires
        same_state(a, b),
        same_notification(m, n),
    ensures
        same_state(after_agent_message_delta(a, m, s), after_agent_message_delta(b, n, t)),
{
    match text_in(m.get2("params"@, "turnId"@)) {
        Some(turn_id) => {
            lemma_known_in_both(a, b, turn_id);
        },
        None => {},
    }
}

proof fn lemma_same_rerouted(a: StateView, b: StateView, m: JsonView, n: JsonView)
    requires
        same_state(a, b),
        same_notification(m, n),
    ensures
        same_state(after_model_rerouted(a, m), after_model_rerouted(b, n)),
{
    match text_in(m.get2("params"@, "turnId"@)) {
        Some(turn_id) => {
            lemma_known_in_both(a, b, turn_id);
        },
        None => {},
    }
}

proof fn lemma_same_closed(a: StateView, b: StateView, m: JsonView, n: JsonView)
    requires
        same_state(a, b),
        same_notification(m, n),
    ensures
        same_state(after_thread_closed(a, m), after_thread_closed(b, n)),
{
    match text_in(m.get2("params"@, "threadId"@)) {
        Some(thread_id) => {
            let x = turns_without(a.turns, thread_id);
            let y = turns_without(b.turns, thread_id);
            assert forall|turn_id: Seq<char>|
                #[trigger] x.contains_key(turn_id) <==> y.contains_key(turn_id) by {
                lemma_known_in_both(a, b, turn_id);
            }
            assert forall|turn_id: Seq<char>| #[trigger] x.contains_key(turn_id) implies same_turn(
                x[turn_id],
                y[turn_id],
            ) by {
                lemma_known_in_both(a, b, turn_id);
            }
        },
        None => {},
    }
}

proof fn lemma_same_completed(
    a: StateView,
    b: StateView,
    m: JsonView,
    n: JsonView,
    s: Moment,
    t: Moment,
)
    requires
        same_state(a, b),
        same_notification(m, n),
    ensures
        same_state(after_turn_completed(a, m, s).0, after_turn_completed(b, n, t).0),
        match (after_turn_completed(a, m, s).1, after_turn_completed(b, n, t).1) {
            (Some(x), Some(y)) => same_timing(x, y, m),
            (None, None) => true,
            _ => false,
        },
{
    match text_in(m.get3("params"@, "turn"@, "id"@)) {
        Some(turn_id) => {
            lemma_known_in_both(a, b, turn_id);
        },
        None => {},
    }
}

proof fn lemma_same_usage(
    a: StateView,
    b: StateView,
    m: JsonView,
    n: JsonView,
    s: Moment,
    t: Moment,
)
    requires
        same_state(a, b),
        same_notification(m, n),
    ensures
        same_state(after_token_usage(a, m, s).0, after_token_usage(b, n, t).0),
        match (after_token_usage(a, m, s).1, after_token_usage(b, n, t).1) {
            (Some(x), Some(y)) => same_usage(x, y, m),
            (None, None) => true,
            _ => false,
        },
{
    match report_of(m) {
        Some(report) => {
            lemma_known_in_both(a, b, report.turn_id);
        },
        None => {},
    }
}

proof fn lemma_same_notification(
    a: StateView,
    b: StateView,
    m: JsonView,
    n: JsonView,
    s: Moment,
    t: Moment,
)
    requires
        same_state(a, b),
        same_notification(m, n),
    ensures
        same_state(after_notification(a, m, s).0, after_notification(b, n, t).0),
        same_record(after_notification(a, m, s).1, after_notification(b, n, t).1, m),
{
    lemma_same_turn_started(a, b, m, n, s, t);
    lemma_same_delta(a, b, m, n, s, t);
    lemma_same_rerouted(a, b, m, n);
    lemma_same_closed(a, b, m, n);
    lemma_same_completed(a, b, m, n, s, t);
    lemma_same_usage(a, b, m, n, s, t);
}

/// One message leaves states that agree agreeing.
proof fn lemma_same_step(a: StateView, b: StateView, p: Passage, q: Passage)
    requires
        same_state(a, b),
        same_passage(p, q),
    ensures
        same_state(after_passage(a, p).0, after_passage(b, q).0),
        same_record(after_passage(a, p).1, after_passage(b, q).1, message_in(p)),
{
    match (p, q) {
        (
            Passage::Server { message: m, key: Some(key), now: _ },
            Passage::Server { message: n, key: _, now: _ },
        ) => {
            lemma_same_response(a, b, key, m, n);
        },
        (
            Passage::Server { message: m, key: None, now: s },
            Passage::Server { message: n, key: _, now: t },
        ) => {
            lemma_same_notification(a, b, m, n, s, t);
        },
        _ => {},
    }
}

/// No prompt, answer, credential or tool payload reaches a record or the state:
/// two runs of messages that agree in what the bridge reads, from states that
/// agree, give records at the same places, and states and records agree but for
/// clock readings.
pub proof fn law_runs_differ_in_clock_readings_alone(
    a: StateView,
    b: StateView,
    first: Seq<Passage>,
    second: Seq<Passage>,
    count: nat,
)
    requires
        same_state(a, b),
        first.len() == second.len(),
        count <= first.len(),
        forall|i: int| 0 <= i < first.len() ==> same_passage(#[trigger] first[i], second[i]),
    ensures
        same_state(state_after(a, first, count), state_after(b, second, count)),
        forall|i: nat|
            i < count ==> same_record(
                #[trigger] record_at(a, first, i),
                record_at(b, second, i),
                message_in(first[i as int]),
            ),
    decreases count,
{
    if count > 0 {
        let before = (count - 1) as nat;
        law_runs_differ_in_clock_readings_alone(a, b, first, second, before);
        assert(same_passage(first[before as int], second[before as int]));
        lemma_same_step(
            state_after(a, first, before),
            state_after(b, second, before),
            first[before as int],
            second[before as int],
        );
    }
}

} // verus!
