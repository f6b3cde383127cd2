//! Laws of single messages: what each does to what the bridge knows, over the
//! message's own members.

use crate::bridge::{
    after_client_message, after_server_message, message_key_of, report_of, PendingView, StateView,
    TurnView, UsageReport,
};
use crate::bridge_laws::lemma_methods_differ;
use crate::clock::{unix_millis, Moment};
use crate::json::JsonView;
use crate::reading_laws::{
    holds_count, holds_counts, law_counts_are_read_by_name, law_elapsed_time_is_whole_millis,
    law_the_clock_is_read_in_whole_units, nothing_used, reads_millis, same_counts, whole_millis,
};
use crate::record::{RecordView, TimingRecordView, UsageBreakdown, UsageRecordView};
use crate::text::decimal;
use crate::wire::compact_text;
use vstd::prelude::*;

verus! {

/// The message's method is `method`.
pub open spec fn says(message: JsonView, method: Seq<char>) -> bool {
    message.get("method"@) == Some(JsonView::Text(method))
}

/// The value is a text.
pub open spec fn is_text(value: Option<JsonView>) -> bool {
    value matches Some(JsonView::Text(_))
}

/// The value is a boolean.
pub open spec fn is_flag(value: Option<JsonView>) -> bool {
    value matches Some(JsonView::Bool(_))
}

/// All entries but that of `key` are as they were.
pub open spec fn others_stay<V>(
    before: Map<Seq<char>, V>,
    after: Map<Seq<char>, V>,
    key: Seq<char>,
) -> bool {
    &&& forall|other: Seq<char>|
        other != key ==> (#[trigger] after.contains_key(other) <==> before.contains_key(other))
    &&& forall|other: Seq<char>|
        other != key && #[trigger] before.contains_key(other) ==> after[other] == before[other]
}

/// A message goes by the compact text of its id, where it has one.
pub proof fn law_messages_go_by_their_id(message: JsonView, id: JsonView)
    ensures
        message.get("id"@) == Some(id) ==> message_key_of(message) == Some(compact_text(id)),
        message.get("id"@) is None ==> message_key_of(message) is None,
{
}

/// A request to start or to fork a thread is kept with what it says of the
/// thread: it is taken for ephemeral exactly where `params.ephemeral` is true,
/// and its model is the text of `params.model`.
pub proof fn law_requests_for_threads_are_kept(
    state: StateView,
    message: JsonView,
    key: Seq<char>,
    now: Moment,
    model: Seq<char>,
)
    requires
        says(message, "thread/start"@) || says(message, "thread/fork"@),
    ensures
        ({
            let after = after_client_message(state, message, Some(key), now);
            &&& after.pending.contains_key(key)
            &&& after.pending[key] matches PendingView::Thread { ephemeral_hint, model_hint } && (
            ephemeral_hint <==> message.get2("params"@, "ephemeral"@) == Some(JsonView::Bool(true)))
                && (model_hint == Some(model) <==> message.get2("params"@, "model"@) == Some(
                JsonView::Text(model),
            ))
            &&& others_stay(state.pending, after.pending, key)
            &&& after.threads == state.threads
            &&& after.turns == state.turns
        }),
{
}

/// A request to start a turn is kept with the thread that it names, the model
/// that it names, and the time at which it was made.
pub proof fn law_requests_for_turns_are_kept(
    state: StateView,
    message: JsonView,
    key: Seq<char>,
    now: Moment,
    thread: Seq<char>,
    model: Seq<char>,
)
    requires
        says(message, "turn/start"@),
        message.get2("params"@, "threadId"@) == Some(JsonView::Text(thread)),
    ensures
        ({
            let after = after_client_message(state, message, Some(key), now);
            &&& after.pending.contains_key(key)
            &&& after.pending[key] matches PendingView::Turn {
                thread_id,
                model_override,
                started_at,
            } && thread_id == thread && started_at == now.running && (model_override == Some(model)
                <==> message.get2("params"@, "model"@) == Some(JsonView::Text(model)))
            &&& others_stay(state.pending, after.pending, key)
            &&& after.threads == state.threads
            &&& after.turns == state.turns
        }),
{
    lemma_requests_differ();
}

proof fn lemma_requests_differ()
    ensures
        "turn/start"@ != "thread/start"@,
        "turn/start"@ != "thread/fork"@,
{
    reveal_strlit("turn/start");
    reveal_strlit("thread/start");
    reveal_strlit("thread/fork");
    assert("turn/start"@.len() == 10);
    assert("thread/start"@.len() == 12);
    assert("thread/fork"@.len() == 11);
}

/// Any other message of the client is passed over: one without an id, one with
/// another method or none, and a request for a turn that names no thread.
pub proof fn law_other_client_messages_are_passed_over(
    state: StateView,
    message: JsonView,
    key: Option<Seq<char>>,
    now: Moment,
)
    requires
        ({
            ||| key is None
            ||| !says(message, "thread/start"@) && !says(message, "thread/fork"@) && !says(
                message,
                "turn/start"@,
            )
            ||| says(message, "turn/start"@) && !is_text(message.get2("params"@, "threadId"@))
        }),
    ensures
        after_client_message(state, message, key, now) == state,
{
    lemma_requests_differ();
}

/// The answer to a request for a thread makes the thread known. What the answer
/// says of it counts, and where it says nothing, what the request said.
pub proof fn law_answers_make_threads_known(
    state: StateView,
    message: JsonView,
    key: Seq<char>,
    now: Moment,
    hint: bool,
    asked: Option<Seq<char>>,
    thread: Seq<char>,
)
    requires
        state.pending.contains_key(key),
        state.pending[key] == (PendingView::Thread { ephemeral_hint: hint, model_hint: asked }),
        message.get3("result"@, "thread"@, "id"@) == Some(JsonView::Text(thread)),
    ensures
        ({
            let (after, record) = after_server_message(state, message, Some(key), now);
            let ephemeral = message.get3("result"@, "thread"@, "ephemeral"@);
            let model = message.get2("result"@, "model"@);
            &&& record is None
            &&& !after.pending.contains_key(key) && others_stay(state.pending, after.pending, key)
            &&& after.turns == state.turns
            &&& others_stay(state.threads, after.threads, thread)
            &&& after.threads.contains_key(thread)
            &&& is_flag(ephemeral) ==> ephemeral == Some(
                JsonView::Bool(after.threads[thread].ephemeral),
            )
            &&& !is_flag(ephemeral) ==> after.threads[thread].ephemeral == hint
            &&& is_text(model) ==> model == Some(JsonView::Text(after.threads[thread].model))
            &&& !is_text(model) && asked is Some ==> after.threads[thread].model == asked->0
            &&& !is_text(model) && asked is None ==> after.threads[thread].model == "unknown"@
        }),
{
}

/// What is known of a turn's course is as it was: its number, its totals, its
/// times and its timing record.
pub open spec fn same_course(a: TurnView, b: TurnView) -> bool {
    &&& a.sequence == b.sequence
    &&& a.last_total == b.last_total
    &&& a.first_token_ms == b.first_token_ms
    &&& a.timing_emitted == b.timing_emitted
}

/// Nothing has happened in the turn yet.
pub open spec fn is_fresh(turn: TurnView) -> bool {
    &&& turn.sequence == 0
    &&& turn.last_total is None
    &&& turn.first_token_ms is None
    &&& !turn.timing_emitted
}

/// The answer to a request for a turn makes the turn known as one of the thread
/// that was asked. Its model is the one that the request named, or else the
/// thread's, or else unknown. A turn that is known already keeps its course.
pub proof fn law_answers_make_turns_known(
    state: StateView,
    message: JsonView,
    key: Seq<char>,
    now: Moment,
    thread: Seq<char>,
    asked: Option<Seq<char>>,
    start: u128,
    turn: Seq<char>,
)
    requires
        state.pending.contains_key(key),
        state.pending[key] == (PendingView::Turn {
            thread_id: thread,
            model_override: asked,
            started_at: start,
        }),
        message.get3("result"@, "turn"@, "id"@) == Some(JsonView::Text(turn)),
    ensures
        ({
            let (after, record) = after_server_message(state, message, Some(key), now);
            &&& record is None
            &&& !after.pending.contains_key(key) && others_stay(state.pending, after.pending, key)
            &&& after.threads == state.threads
            &&& others_stay(state.turns, after.turns, turn)
            &&& after.turns.contains_key(turn)
            &&& after.turns[turn].thread_id == thread
            &&& asked is Some ==> after.turns[turn].model == asked->0
            &&& asked is None && state.threads.contains_key(thread) ==> after.turns[turn].model
                == state.threads[thread].model
            &&& asked is None && !state.threads.contains_key(thread) ==> after.turns[turn].model
                == "unknown"@
            &&& state.turns.contains_key(turn) ==> same_course(
                after.turns[turn],
                state.turns[turn],
            ) && after.turns[turn].started_at == state.turns[turn].started_at
            &&& !state.turns.contains_key(turn) ==> is_fresh(after.turns[turn])
                && after.turns[turn].started_at == start
        }),
{
}

/// A response without a result, or whose result does not name what was asked
/// for, closes the request and does nothing else; one that nobody waits for does
/// nothing at all.
pub proof fn law_other_responses_only_close_the_request(
    state: StateView,
    message: JsonView,
    key: Seq<char>,
    now: Moment,
)
    requires
        ({
            ||| !state.pending.contains_key(key)
            ||| state.pending[key] is Thread && !is_text(
                message.get3("result"@, "thread"@, "id"@),
            )
            ||| state.pending[key] is Turn && !is_text(message.get3("result"@, "turn"@, "id"@))
        }),
    ensures
        ({
            let (after, record) = after_server_message(state, message, Some(key), now);
            &&& record is None
            &&& !after.pending.contains_key(key) && others_stay(state.pending, after.pending, key)
            &&& after.threads == state.threads
            &&& after.turns == state.turns
        }),
{
}

/// The news that a thread has started makes it known: it is ephemeral exactly
/// where `params.thread.ephemeral` is true, and it keeps the model that it was
/// known with.
pub proof fn law_started_threads_are_known(
    state: StateView,
    message: JsonView,
    now: Moment,
    thread: Seq<char>,
)
    requires
        says(message, "thread/started"@),
        message.get3("params"@, "thread"@, "id"@) == Some(JsonView::Text(thread)),
    ensures
        ({
            let (after, record) = after_server_message(state, message, None, now);
            &&& record is None
            &&& after.pending == state.pending
            &&& after.turns == state.turns
            &&& others_stay(state.threads, after.threads, thread)
            &&& after.threads.contains_key(thread)
            &&& after.threads[thread].ephemeral <==> message.get3(
                "params"@,
                "thread"@,
                "ephemeral"@,
            ) == Some(JsonView::Bool(true))
            &&& state.threads.contains_key(thread) ==> after.threads[thread].model
                == state.threads[thread].model
            &&& !state.threads.contains_key(thread) ==> after.threads[thread].model == "unknown"@
        }),
{
}

/// The thread that a record names is known as ephemeral, and the turn that it
/// names is known as one of that thread's.
pub proof fn law_records_are_of_ephemeral_threads(
    state: StateView,
    message: JsonView,
    key: Option<Seq<char>>,
    now: Moment,
)
    ensures
        match after_server_message(state, message, key, now).1 {
            Some(RecordView::Usage(record)) => {
                &&& state.threads.contains_key(record.thread_id)
                &&& state.threads[record.thread_id].ephemeral
                &&& state.turns.contains_key(record.turn_id)
                &&& state.turns[record.turn_id].thread_id == record.thread_id
            },
            Some(RecordView::Timing(record)) => {
                &&& state.threads.contains_key(record.thread_id)
                &&& state.threads[record.thread_id].ephemeral
                &&& state.turns.contains_key(record.turn_id)
                &&& state.turns[record.turn_id].thread_id == record.thread_id
            },
            None => true,
        },
{
}

/// A thread that is announced as not ephemeral, or without the flag, gives no
/// record with the next message, whatever that is.
pub proof fn law_ordinary_threads_give_no_record(
    state: StateView,
    message: JsonView,
    first: Moment,
    thread: Seq<char>,
    next: JsonView,
    key: Option<Seq<char>>,
    second: Moment,
)
    requires
        says(message, "thread/started"@),
        message.get3("params"@, "thread"@, "id"@) == Some(JsonView::Text(thread)),
        message.get3("params"@, "thread"@, "ephemeral"@) != Some(JsonView::Bool(true)),
    ensures
        ({
            let after = after_server_message(state, message, None, first).0;
            match after_server_message(after, next, key, second).1 {
                Some(RecordView::Usage(record)) => record.thread_id != thread,
                Some(RecordView::Timing(record)) => record.thread_id != thread,
                None => true,
            }
        }),
{
    law_started_threads_are_known(state, message, first, thread);
    let after = after_server_message(state, message, None, first).0;
    law_records_are_of_ephemeral_threads(after, next, key, second);
}

/// The news of other settings gives a known thread the model of
/// `params.threadSettings.model`, and changes nothing else.
pub proof fn law_settings_name_the_model(
    state: StateView,
    message: JsonView,
    now: Moment,
    thread: Seq<char>,
    model: Seq<char>,
)
    requires
        says(message, "thread/settings/updated"@),
        message.get2("params"@, "threadId"@) == Some(JsonView::Text(thread)),
        message.get3("params"@, "threadSettings"@, "model"@) == Some(JsonView::Text(model)),
    ensures
        ({
            let (after, record) = after_server_message(state, message, None, now);
            &&& record is None
            &&& after.pending == state.pending
            &&& after.turns == state.turns
            &&& others_stay(state.threads, after.threads, thread)
            &&& after.threads.contains_key(thread) <==> state.threads.contains_key(thread)
            &&& state.threads.contains_key(thread) ==> after.threads[thread].model == model
                && after.threads[thread].ephemeral == state.threads[thread].ephemeral
        }),
{
    lemma_methods_differ();
}

/// The news that a thread is gone takes it and its turns away, and leaves every
/// other thread and turn as it was.
pub proof fn law_gone_threads_take_their_turns_along(
    state: StateView,
    message: JsonView,
    now: Moment,
    thread: Seq<char>,
    turn: Seq<char>,
)
    requires
        says(message, "thread/closed"@) || says(message, "thread/deleted"@),
        message.get2("params"@, "threadId"@) == Some(JsonView::Text(thread)),
    ensures
        ({
            let (after, record) = after_server_message(state, message, None, now);
            &&& record is None
            &&& after.pending == state.pending
            &&& !after.threads.contains_key(thread)
            &&& others_stay(state.threads, after.threads, thread)
            &&& after.turns.contains_key(turn) <==> state.turns.contains_key(turn)
                && state.turns[turn].thread_id != thread
            &&& after.turns.contains_key(turn) ==> after.turns[turn] == state.turns[turn]
        }),
{
    lemma_methods_differ();
}

/// The news that a turn has started makes it known as one of the thread that the
/// message names, under that thread's model, or as unknown where the thread is
/// not known. The turn starts now, unless it is known and has had usage or text;
/// a known turn keeps its course.
pub proof fn law_started_turns_have_their_threads_model(
    state: StateView,
    message: JsonView,
    now: Moment,
    thread: Seq<char>,
    turn: Seq<char>,
)
    requires
        says(message, "turn/started"@),
        message.get2("params"@, "threadId"@) == Some(JsonView::Text(thread)),
        message.get3("params"@, "turn"@, "id"@) == Some(JsonView::Text(turn)),
    ensures
        ({
            let (after, record) = after_server_message(state, message, None, now);
            let known = state.turns.contains_key(turn);
            &&& record is None
            &&& after.pending == state.pending
            &&& after.threads == state.threads
            &&& others_stay(state.turns, after.turns, turn)
            &&& after.turns.contains_key(turn)
            &&& after.turns[turn].thread_id == thread
            &&& state.threads.contains_key(thread) ==> after.turns[turn].model
                == state.threads[thread].model
            &&& !state.threads.contains_key(thread) ==> after.turns[turn].model == "unknown"@
            &&& known ==> same_course(after.turns[turn], state.turns[turn])
            &&& !known ==> is_fresh(after.turns[turn])
            &&& known && (state.turns[turn].sequence > 0 || state.turns[turn].first_token_ms is Some)
                ==> after.turns[turn].started_at == state.turns[turn].started_at
            &&& !known || (state.turns[turn].sequence == 0
                && state.turns[turn].first_token_ms is None) ==> after.turns[turn].started_at
                == now.running
        }),
{
    lemma_methods_differ();
}

/// Usage of a turn that has just started is recorded under its thread's model.
pub proof fn law_usage_is_recorded_under_the_threads_model(
    state: StateView,
    message: JsonView,
    first: Moment,
    thread: Seq<char>,
    turn: Seq<char>,
    report: JsonView,
    second: Moment,
    record: UsageRecordView,
)
    requires
        says(message, "turn/started"@),
        message.get2("params"@, "threadId"@) == Some(JsonView::Text(thread)),
        message.get3("params"@, "turn"@, "id"@) == Some(JsonView::Text(turn)),
        after_server_message(
            after_server_message(state, message, None, first).0,
            report,
            None,
            second,
        ).1 == Some(RecordView::Usage(record)),
        record.turn_id == turn,
    ensures
        record.thread_id == thread,
        state.threads.contains_key(thread),
        record.model == state.threads[thread].model,
{
    law_started_turns_have_their_threads_model(state, message, first, thread, turn);
    let after = after_server_message(state, message, None, first).0;
    law_records_are_of_ephemeral_threads(after, report, None, second);
    law_usage_records_come_from_reports(after, report, None, second, record);
}

/// The first text of an answer in a known turn fixes how long it took, in whole
/// milliseconds since the turn started, and changes nothing else.
pub proof fn law_the_first_text_is_timed(
    state: StateView,
    message: JsonView,
    now: Moment,
    turn: Seq<char>,
    text: Seq<char>,
)
    requires
        says(message, "item/agentMessage/delta"@),
        message.get2("params"@, "turnId"@) == Some(JsonView::Text(turn)),
        message.get2("params"@, "delta"@) == Some(JsonView::Text(text)),
        text.len() > 0,
        state.turns.contains_key(turn),
        state.turns[turn].first_token_ms is None,
    ensures
        ({
            let (after, record) = after_server_message(state, message, None, now);
            let known = state.turns[turn];
            &&& record is None
            &&& after.pending == state.pending
            &&& after.threads == state.threads
            &&& others_stay(state.turns, after.turns, turn)
            &&& after.turns.contains_key(turn)
            &&& after.turns[turn] == (TurnView {
                first_token_ms: after.turns[turn].first_token_ms,
                ..known
            })
            &&& after.turns[turn].first_token_ms matches Some(millis) && whole_millis(
                known.started_at,
                now.running,
                millis,
            )
        }),
{
    lemma_methods_differ();
    law_elapsed_time_is_whole_millis(state.turns[turn].started_at, now.running);
}

/// The news that another model answers gives a known turn that model, and
/// changes nothing else.
pub proof fn law_reroutings_name_the_model(
    state: StateView,
    message: JsonView,
    now: Moment,
    turn: Seq<char>,
    model: Seq<char>,
)
    requires
        says(message, "model/rerouted"@),
        message.get2("params"@, "turnId"@) == Some(JsonView::Text(turn)),
        message.get2("params"@, "toModel"@) == Some(JsonView::Text(model)),
    ensures
        ({
            let (after, record) = after_server_message(state, message, None, now);
            &&& record is None
            &&& after.pending == state.pending
            &&& after.threads == state.threads
            &&& others_stay(state.turns, after.turns, turn)
            &&& after.turns.contains_key(turn) <==> state.turns.contains_key(turn)
            &&& state.turns.contains_key(turn) ==> after.turns[turn] == (TurnView {
                model,
                ..state.turns[turn]
            })
        }),
{
    lemma_methods_differ();
}

/// Some member that the method needs is missing, is no text, or is empty where
/// it must not be; or there is nothing new in it.
pub open spec fn says_nothing(state: StateView, message: JsonView) -> bool {
    let thread_id = message.get2("params"@, "threadId"@);
    let turn_id = message.get2("params"@, "turnId"@);
    ||| says(message, "thread/started"@) && !is_text(message.get3("params"@, "thread"@, "id"@))
    ||| says(message, "thread/settings/updated"@) && (!is_text(thread_id) || !is_text(
        message.get3("params"@, "threadSettings"@, "model"@),
    ))
    ||| says(message, "thread/closed"@) && !is_text(thread_id)
    ||| says(message, "thread/deleted"@) && !is_text(thread_id)
    ||| says(message, "turn/started"@) && (!is_text(thread_id) || !is_text(
        message.get3("params"@, "turn"@, "id"@),
    ))
    ||| says(message, "item/agentMessage/delta"@) && {
        ||| !is_text(turn_id)
        ||| !is_text(message.get2("params"@, "delta"@))
        ||| message.get2("params"@, "delta"@) == Some(JsonView::Text(Seq::empty()))
        ||| turn_id matches Some(JsonView::Text(turn)) && (!state.turns.contains_key(turn)
            || state.turns[turn].first_token_ms is Some)
    }
    ||| says(message, "model/rerouted"@) && (!is_text(turn_id) || !is_text(
        message.get2("params"@, "toModel"@),
    ))
    ||| says(message, "turn/completed"@) && (!is_text(thread_id) || !is_text(
        message.get3("params"@, "turn"@, "id"@),
    ))
    ||| says(message, "thread/tokenUsage/updated"@) && (!is_text(thread_id) || !is_text(turn_id))
}

/// The method is none that the bridge follows.
pub open spec fn is_foreign(message: JsonView) -> bool {
    &&& !says(message, "thread/started"@)
    &&& !says(message, "thread/settings/updated"@)
    &&& !says(message, "thread/closed"@)
    &&& !says(message, "thread/deleted"@)
    &&& !says(message, "turn/started"@)
    &&& !says(message, "item/agentMessage/delta"@)
    &&& !says(message, "turn/completed"@)
    &&& !says(message, "model/rerouted"@)
    &&& !says(message, "thread/tokenUsage/updated"@)
}

/// A notification that says nothing to the bridge, or that is none of those that
/// it follows, changes nothing and gives no record.
pub proof fn law_other_notifications_are_passed_over(
    state: StateView,
    message: JsonView,
    now: Moment,
)
    requires
        says_nothing(state, message) || is_foreign(message),
    ensures
        after_server_message(state, message, None, now) == (state, None::<RecordView>),
{
    lemma_methods_differ();
    if let Some(JsonView::Text(text)) = message.get2("params"@, "delta"@) {
        if text.len() == 0 {
            assert(text =~= Seq::empty());
        }
    }
}

/// The turn that a completed turn's message names has had usage, belongs to an
/// ephemeral thread, which the message names too, and has had no timing record.
pub open spec fn awaits_timing(
    state: StateView,
    message: JsonView,
    thread: Seq<char>,
    turn: Seq<char>,
) -> bool {
    &&& message.get2("params"@, "threadId"@) == Some(JsonView::Text(thread))
    &&& message.get3("params"@, "turn"@, "id"@) == Some(JsonView::Text(turn))
    &&& state.threads.contains_key(thread)
    &&& state.threads[thread].ephemeral
    &&& state.turns.contains_key(turn)
    &&& state.turns[turn].thread_id == thread
    &&& state.turns[turn].sequence > 0
    &&& !state.turns[turn].timing_emitted
}

/// A completed turn that awaits its timing record gets it. The record names the
/// turn's last usage record, takes the times that the message gives, and the
/// clock's where it gives none that can be used; the turn is marked.
pub proof fn law_completed_turns_are_timed(
    state: StateView,
    message: JsonView,
    now: Moment,
    thread: Seq<char>,
    turn: Seq<char>,
)
    requires
        says(message, "turn/completed"@),
        awaits_timing(state, message, thread, turn),
    ensures
        ({
            let (after, record) = after_server_message(state, message, None, now);
            let known = state.turns[turn];
            let duration = message.get3("params"@, "turn"@, "durationMs"@);
            let completed = message.get3("params"@, "turn"@, "completedAt"@);
            &&& after.pending == state.pending
            &&& after.threads == state.threads
            &&& others_stay(state.turns, after.turns, turn)
            &&& after.turns.contains_key(turn)
            &&& after.turns[turn] == (TurnView { timing_emitted: true, ..known })
            &&& record matches Some(RecordView::Timing(timing)) && {
                &&& timing.schema_version == 1
                &&& timing.event_id == "codex_sidebar:timing-v1:"@ + thread + ":"@ + turn
                &&& timing.target_event_id == "codex_sidebar:usage-v1:"@ + thread + ":"@ + turn
                    + ":"@ + decimal(known.sequence as nat)
                &&& timing.thread_id == thread
                &&& timing.turn_id == turn
                &&& timing.first_token_ms == known.first_token_ms
                &&& if duration matches Some(JsonView::Integer(n)) && 0 <= n <= u64::MAX {
                    duration == Some(JsonView::Integer(timing.duration_ms as int))
                } else {
                    whole_millis(known.started_at, now.running, timing.duration_ms)
                }
                &&& if completed matches Some(JsonView::Integer(n)) && 0 <= n && n * 1000
                    <= i64::MAX {
                    completed == Some(JsonView::Integer(timing.completed_at_ms as int / 1000))
                        && timing.completed_at_ms % 1000 == 0
                } else {
                    reads_millis(now.unix, timing.completed_at_ms)
                }
            }
        }),
{
    lemma_methods_differ();
    law_elapsed_time_is_whole_millis(state.turns[turn].started_at, now.running);
    lemma_clock(now);
}

proof fn lemma_clock(now: Moment)
    ensures
        reads_millis(now.unix, unix_millis(now.unix)),
{
    match now.unix {
        Some(nanos) => {
            law_the_clock_is_read_in_whole_units(nanos);
        },
        None => {},
    }
}

/// A completed turn that awaits no timing record changes nothing.
pub proof fn law_other_completions_are_passed_over(
    state: StateView,
    message: JsonView,
    now: Moment,
    thread: Seq<char>,
    turn: Seq<char>,
)
    requires
        says(message, "turn/completed"@),
        message.get2("params"@, "threadId"@) == Some(JsonView::Text(thread)),
        message.get3("params"@, "turn"@, "id"@) == Some(JsonView::Text(turn)),
        !awaits_timing(state, message, thread, turn),
    ensures
        after_server_message(state, message, None, now) == (state, None::<RecordView>),
{
    lemma_methods_differ();
}

/// A timing record comes from the news of a completed turn that awaits it.
pub proof fn law_timing_records_come_from_completions(
    state: StateView,
    message: JsonView,
    key: Option<Seq<char>>,
    now: Moment,
    record: TimingRecordView,
)
    requires
        after_server_message(state, message, key, now).1 == Some(RecordView::Timing(record)),
    ensures
        key is None,
        says(message, "turn/completed"@),
        awaits_timing(state, message, record.thread_id, record.turn_id),
{
}

/// The message reports usage of a known turn of an ephemeral thread: the totals
/// `total` and the last request's counts `last`, each under its own name.
pub open spec fn reports(
    state: StateView,
    message: JsonView,
    thread: Seq<char>,
    turn: Seq<char>,
    total: UsageBreakdown,
    last: UsageBreakdown,
) -> bool {
    &&& message.get2("params"@, "threadId"@) == Some(JsonView::Text(thread))
    &&& message.get2("params"@, "turnId"@) == Some(JsonView::Text(turn))
    &&& message.get3("params"@, "tokenUsage"@, "total"@) matches Some(value) && holds_counts(
        value,
        total,
    )
    &&& message.get3("params"@, "tokenUsage"@, "last"@) matches Some(value) && holds_counts(
        value,
        last,
    )
    &&& state.threads.contains_key(thread)
    &&& state.threads[thread].ephemeral
    &&& state.turns.contains_key(turn)
    &&& state.turns[turn].thread_id == thread
}

/// The turn's last report had the same totals.
pub open spec fn is_repeated(state: StateView, turn: Seq<char>, total: UsageBreakdown) -> bool {
    state.turns[turn].last_total matches Some(signature) && same_counts(signature, total)
}

proof fn lemma_reported(
    state: StateView,
    message: JsonView,
    thread: Seq<char>,
    turn: Seq<char>,
    total: UsageBreakdown,
    last: UsageBreakdown,
)
    requires
        reports(state, message, thread, turn, total, last),
    ensures
        report_of(message) == Some(
            UsageReport { thread_id: thread, turn_id: turn, total, last },
        ),
{
    law_counts_are_read_by_name(
        message.get3("params"@, "tokenUsage"@, "total"@)->0,
        total,
    );
    law_counts_are_read_by_name(message.get3("params"@, "tokenUsage"@, "last"@)->0, last);
}

/// A report whose totals are new, and whose last request used something, gives
/// a usage record: with the last request's counts, under the turn's model, with
/// the next number, and at the time that the message gives, or else the clock's.
/// The turn keeps the totals and the number.
pub proof fn law_new_usage_is_recorded(
    state: StateView,
    message: JsonView,
    now: Moment,
    thread: Seq<char>,
    turn: Seq<char>,
    total: UsageBreakdown,
    last: UsageBreakdown,
)
    requires
        says(message, "thread/tokenUsage/updated"@),
        reports(state, message, thread, turn, total, last),
        !is_repeated(state, turn, total),
        !nothing_used(last),
    ensures
        ({
            let (after, record) = after_server_message(state, message, None, now);
            let known = state.turns[turn];
            let emitted = message.get("emittedAtMs"@);
            &&& after.pending == state.pending
            &&& after.threads == state.threads
            &&& others_stay(state.turns, after.turns, turn)
            &&& after.turns.contains_key(turn)
            &&& after.turns[turn] == (TurnView {
                sequence: after.turns[turn].sequence,
                last_total: after.turns[turn].last_total,
                ..known
            })
            &&& is_repeated(after, turn, total)
            &&& after.turns[turn].sequence == known.sequence + 1 || known.sequence == u64::MAX
                && after.turns[turn].sequence == u64::MAX
            &&& record matches Some(RecordView::Usage(usage)) && {
                &&& usage.schema_version == 1
                &&& usage.event_id == "codex_sidebar:usage-v1:"@ + thread + ":"@ + turn + ":"@
                    + decimal(after.turns[turn].sequence as nat)
                &&& usage.thread_id == thread
                &&& usage.turn_id == turn
                &&& usage.model == known.model
                &&& usage.usage == last
                &&& if emitted matches Some(JsonView::Integer(n)) && 0 <= n <= i64::MAX {
                    emitted == Some(JsonView::Integer(usage.completed_at_ms as int))
                } else {
                    reads_millis(now.unix, usage.completed_at_ms)
                }
            }
        }),
{
    lemma_methods_differ();
    lemma_reported(state, message, thread, turn, total, last);
    lemma_clock(now);
}

/// A report whose totals are new, and whose last request used nothing, gives no
/// record; the turn keeps the totals.
pub proof fn law_empty_usage_is_not_recorded(
    state: StateView,
    message: JsonView,
    now: Moment,
    thread: Seq<char>,
    turn: Seq<char>,
    total: UsageBreakdown,
    last: UsageBreakdown,
)
    requires
        says(message, "thread/tokenUsage/updated"@),
        reports(state, message, thread, turn, total, last),
        !is_repeated(state, turn, total),
        nothing_used(last),
    ensures
        ({
            let (after, record) = after_server_message(state, message, None, now);
            &&& record is None
            &&& after.pending == state.pending
            &&& after.threads == state.threads
            &&& others_stay(state.turns, after.turns, turn)
            &&& after.turns.contains_key(turn)
            &&& after.turns[turn] == (TurnView {
                last_total: after.turns[turn].last_total,
                ..state.turns[turn]
            })
            &&& is_repeated(after, turn, total)
        }),
{
    lemma_methods_differ();
    lemma_reported(state, message, thread, turn, total, last);
}

/// A report with the totals of the one before changes nothing.
pub proof fn law_repeated_usage_is_not_recorded(
    state: StateView,
    message: JsonView,
    now: Moment,
    thread: Seq<char>,
    turn: Seq<char>,
    total: UsageBreakdown,
    last: UsageBreakdown,
)
    requires
        says(message, "thread/tokenUsage/updated"@),
        reports(state, message, thread, turn, total, last),
        is_repeated(state, turn, total),
    ensures
        after_server_message(state, message, None, now) == (state, None::<RecordView>),
{
    lemma_methods_differ();
    lemma_reported(state, message, thread, turn, total, last);
}

/// A usage record comes from a report, and holds what the report says of the
/// last request: each of its counts is the integer under its own name in the
/// message, and cache writes are counted wherever the message counts them.
pub proof fn law_usage_records_come_from_reports(
    state: StateView,
    message: JsonView,
    key: Option<Seq<char>>,
    now: Moment,
    record: UsageRecordView,
)
    requires
        after_server_message(state, message, key, now).1 == Some(RecordView::Usage(record)),
    ensures
        key is None,
        says(message, "thread/tokenUsage/updated"@),
        exists|total: UsageBreakdown| #[trigger]
            reports(state, message, record.thread_id, record.turn_id, total, record.usage)
                && !is_repeated(state, record.turn_id, total),
        !nothing_used(record.usage),
        record.model == state.turns[record.turn_id].model,
        message.get3("params"@, "tokenUsage"@, "last"@) matches Some(counts) && {
            &&& holds_count(counts, "inputTokens"@, record.usage.input_tokens)
            &&& holds_count(counts, "cachedInputTokens"@, record.usage.cached_input_tokens)
            &&& holds_count(counts, "outputTokens"@, record.usage.output_tokens)
            &&& holds_count(counts, "reasoningOutputTokens"@, record.usage.reasoning_output_tokens)
            &&& holds_count(counts, "totalTokens"@, record.usage.total_tokens)
            &&& forall|written: u64| #[trigger]
                holds_count(counts, "cacheWriteInputTokens"@, written)
                    ==> record.usage.cache_write_input_tokens == written
        },
{
    let report = report_of(message)->0;
    law_counts_are_read_by_name(
        message.get3("params"@, "tokenUsage"@, "total"@)->0,
        report.total,
    );
    law_counts_are_read_by_name(message.get3("params"@, "tokenUsage"@, "last"@)->0, report.last);
    assert(reports(
        state,
        message,
        record.thread_id,
        record.turn_id,
        report.total,
        record.usage,
    ));
}

/// A report that is none for the bridge changes nothing: of a thread that is not
/// known as ephemeral, of a turn that is not known as one of the thread's, or
/// without the counts.
pub proof fn law_other_reports_are_passed_over(
    state: StateView,
    message: JsonView,
    now: Moment,
    thread: Seq<char>,
    turn: Seq<char>,
)
    requires
        says(message, "thread/tokenUsage/updated"@),
        message.get2("params"@, "threadId"@) == Some(JsonView::Text(thread)),
        message.get2("params"@, "turnId"@) == Some(JsonView::Text(turn)),
        forall|total: UsageBreakdown, last: UsageBreakdown|
            !#[trigger] reports(state, message, thread, turn, total, last),
    ensures
        after_server_message(state, message, None, now) == (state, None::<RecordView>),
{
    lemma_methods_differ();
    if let Some(report) = report_of(message) {
        law_counts_are_read_by_name(
            message.get3("params"@, "tokenUsage"@, "total"@)->0,
            report.total,
        );
        law_counts_are_read_by_name(
            message.get3("params"@, "tokenUsage"@, "last"@)->0,
            report.last,
        );
        assert(!reports(state, message, thread, turn, report.total, report.last));
    }
}

} // verus!
