//! Laws of the bridge: what holds of every message, and of messages one after
//! another.

use crate::bridge::{
    after_client_message, after_notification, after_response, after_server_message,
    after_token_usage, either, fresh_turn, is_news, message_key_of, method_of, next_number,
    or_default, report_of, request_of, StateView, TurnView, UsageReport,
};
use crate::clock::Moment;
use crate::json::{flag_in, natural_in, text_in, JsonView};
use crate::record::{usage_event_id_of, RecordView, TimingRecordView, UsageRecordView};
use crate::text::{decimal, lemma_decimal_injective};
use crate::wire::compact_text;
use vstd::prelude::*;

verus! {

/// The thread that a record names.
pub open spec fn record_thread(record: RecordView) -> Seq<char> {
    match record {
        RecordView::Usage(record) => record.thread_id,
        RecordView::Timing(record) => record.thread_id,
    }
}

/// The turn that a record names.
pub open spec fn record_turn(record: RecordView) -> Seq<char> {
    match record {
        RecordView::Usage(record) => record.turn_id,
        RecordView::Timing(record) => record.turn_id,
    }
}

/// Only an ephemeral thread gives records, and only for a turn that the bridge
/// knows as one of that thread's.
pub proof fn law_only_ephemeral_threads_give_records(
    state: StateView,
    message: JsonView,
    key: Option<Seq<char>>,
    now: Moment,
)
    ensures
        match after_server_message(state, message, key, now).1 {
            Some(record) => {
                &&& state.is_ephemeral(record_thread(record))
                &&& state.turns.contains_key(record_turn(record))
                &&& state.turns[record_turn(record)].thread_id == record_thread(record)
            },
            None => true,
        },
{
}

/// A report about a turn that the bridge does not know, such as one that a
/// forked thread inherits, gives no record and changes nothing.
pub proof fn law_inherited_usage_is_ignored(state: StateView, message: JsonView, now: Moment)
    requires
        report_of(message) matches Some(report) ==> !state.turns.contains_key(report.turn_id),
    ensures
        after_token_usage(state, message, now) == (state, None::<UsageRecordView>),
{
}

/// A usage record holds the counts of the last request, and some count of it
/// is above zero.
pub proof fn law_usage_records_are_billable(
    state: StateView,
    message: JsonView,
    key: Option<Seq<char>>,
    now: Moment,
)
    ensures
        after_server_message(state, message, key, now).1 matches Some(
            RecordView::Usage(record),
        ) ==> record.usage.is_billable() && (report_of(message) matches Some(report)
            && record.usage == report.last),
{
}

/// The same usage report twice in a row: the second gives no record and
/// changes nothing.
pub proof fn law_repeated_report_is_ignored(
    state: StateView,
    message: JsonView,
    first: Moment,
    second: Moment,
)
    requires
        method_of(message) == Some("thread/tokenUsage/updated"@),
    ensures
        ({
            let after = after_server_message(state, message, None, first).0;
            after_server_message(after, message, None, second) == (after, None::<RecordView>)
        }),
{
    lemma_methods_differ();
}

/// The methods of notifications are different texts.
pub(crate) proof fn lemma_methods_differ()
    ensures
        "thread/settings/updated"@ != "thread/started"@,
        "thread/closed"@ != "thread/started"@,
        "thread/closed"@ != "thread/settings/updated"@,
        "thread/deleted"@ != "thread/started"@,
        "thread/deleted"@ != "thread/settings/updated"@,
        "turn/started"@ != "thread/started"@,
        "turn/started"@ != "thread/settings/updated"@,
        "turn/started"@ != "thread/closed"@,
        "turn/started"@ != "thread/deleted"@,
        "item/agentMessage/delta"@ != "thread/started"@,
        "item/agentMessage/delta"@ != "thread/settings/updated"@,
        "item/agentMessage/delta"@ != "thread/closed"@,
        "item/agentMessage/delta"@ != "thread/deleted"@,
        "item/agentMessage/delta"@ != "turn/started"@,
        "turn/completed"@ != "thread/started"@,
        "turn/completed"@ != "thread/settings/updated"@,
        "turn/completed"@ != "thread/closed"@,
        "turn/completed"@ != "thread/deleted"@,
        "turn/completed"@ != "turn/started"@,
        "turn/completed"@ != "item/agentMessage/delta"@,
        "model/rerouted"@ != "thread/started"@,
        "model/rerouted"@ != "thread/settings/updated"@,
        "model/rerouted"@ != "thread/closed"@,
        "model/rerouted"@ != "thread/deleted"@,
        "model/rerouted"@ != "turn/started"@,
        "model/rerouted"@ != "item/agentMessage/delta"@,
        "model/rerouted"@ != "turn/completed"@,
        "thread/tokenUsage/updated"@ != "thread/started"@,
        "thread/tokenUsage/updated"@ != "thread/settings/updated"@,
        "thread/tokenUsage/updated"@ != "thread/closed"@,
        "thread/tokenUsage/updated"@ != "thread/deleted"@,
        "thread/tokenUsage/updated"@ != "turn/started"@,
        "thread/tokenUsage/updated"@ != "item/agentMessage/delta"@,
        "thread/tokenUsage/updated"@ != "turn/completed"@,
        "thread/tokenUsage/updated"@ != "model/rerouted"@,
{
    reveal_strlit("thread/started");
    reveal_strlit("thread/settings/updated");
    reveal_strlit("thread/closed");
    reveal_strlit("thread/deleted");
    reveal_strlit("turn/started");
    reveal_strlit("item/agentMessage/delta");
    reveal_strlit("turn/completed");
    reveal_strlit("model/rerouted");
    reveal_strlit("thread/tokenUsage/updated");
    assert("thread/started"@.len() == 14 && "thread/started"@[1] == 'h' && "thread/started"@[7]
        == 's');
    assert("thread/settings/updated"@.len() == 23 && "thread/settings/updated"@[0] == 't');
    assert("thread/closed"@.len() == 13);
    assert("thread/deleted"@.len() == 14 && "thread/deleted"@[1] == 'h' && "thread/deleted"@[7]
        == 'd');
    assert("turn/started"@.len() == 12);
    assert("item/agentMessage/delta"@.len() == 23 && "item/agentMessage/delta"@[0] == 'i');
    assert("turn/completed"@.len() == 14 && "turn/completed"@[1] == 'u');
    assert("model/rerouted"@.len() == 14 && "model/rerouted"@[1] == 'o');
    assert("thread/tokenUsage/updated"@.len() == 25);
}

/// Every new sampling event is recorded: a report that is news, with a count
/// above zero, gives a usage record with the last request's counts, under the
/// turn's model and next number.
pub proof fn law_new_sampling_events_are_recorded(
    state: StateView,
    message: JsonView,
    report: UsageReport,
    now: Moment,
)
    requires
        method_of(message) == Some("thread/tokenUsage/updated"@),
        report_of(message) == Some(report),
        is_news(state, report),
        report.last.is_billable(),
    ensures
        after_server_message(state, message, None, now).1 matches Some(RecordView::Usage(record))
            && record.usage == report.last && record.thread_id == report.thread_id
            && record.turn_id == report.turn_id && record.model
            == state.turns[report.turn_id].model && record.event_id == usage_event_id_of(
            report.thread_id,
            report.turn_id,
            next_number(state.turns[report.turn_id].sequence) as nat,
        ),
{
    lemma_methods_differ();
}

/// A usage record names the model that the turn was rerouted to.
pub proof fn law_rerouted_model_is_recorded(
    state: StateView,
    rerouting: JsonView,
    first: Moment,
    turn_id: Seq<char>,
    model: Seq<char>,
    message: JsonView,
    second: Moment,
    record: UsageRecordView,
)
    requires
        method_of(rerouting) == Some("model/rerouted"@),
        text_in(rerouting.get2("params"@, "turnId"@)) == Some(turn_id),
        text_in(rerouting.get2("params"@, "toModel"@)) == Some(model),
        state.turns.contains_key(turn_id),
        after_server_message(
            after_server_message(state, rerouting, None, first).0,
            message,
            None,
            second,
        ).1 == Some(RecordView::Usage(record)),
        record.turn_id == turn_id,
    ensures
        record.model == model,
{
    lemma_methods_differ();
}

/// A request for a thread and its answer make the thread known. The answer says
/// whether it is ephemeral and which model it has; where it does not, the
/// request does.
pub proof fn law_an_answered_request_opens_the_thread(
    state: StateView,
    request: JsonView,
    asked: Moment,
    answer: JsonView,
    answered: Moment,
    key: Seq<char>,
    thread_id: Seq<char>,
)
    requires
        method_of(request) == Some("thread/start"@) || method_of(request) == Some("thread/fork"@),
        text_in(answer.get3("result"@, "thread"@, "id"@)) == Some(thread_id),
    ensures
        ({
            let open = after_client_message(state, request, Some(key), asked);
            let after = after_server_message(open, answer, Some(key), answered).0;
            &&& after.threads.contains_key(thread_id)
            &&& after.threads[thread_id].ephemeral == or_default(
                flag_in(answer.get3("result"@, "thread"@, "ephemeral"@)),
                or_default(flag_in(request.get2("params"@, "ephemeral"@)), false),
            )
            &&& after.threads[thread_id].model == or_default(
                either(
                    text_in(answer.get2("result"@, "model"@)),
                    text_in(request.get2("params"@, "model"@)),
                ),
                "unknown"@,
            )
            &&& after.pending == state.pending.remove(key)
        }),
{
    let open = after_client_message(state, request, Some(key), asked);
    assert(open.pending.remove(key) =~= state.pending.remove(key));
}

/// A request for a turn and its answer make the turn known as one of the
/// thread's. The model that the request names wins over the thread's.
pub proof fn law_an_answered_request_opens_the_turn(
    state: StateView,
    request: JsonView,
    asked: Moment,
    answer: JsonView,
    answered: Moment,
    key: Seq<char>,
    thread_id: Seq<char>,
    turn_id: Seq<char>,
)
    requires
        method_of(request) == Some("turn/start"@),
        text_in(request.get2("params"@, "threadId"@)) == Some(thread_id),
        text_in(answer.get3("result"@, "turn"@, "id"@)) == Some(turn_id),
    ensures
        ({
            let open = after_client_message(state, request, Some(key), asked);
            let after = after_server_message(open, answer, Some(key), answered).0;
            let model = or_default(
                either(
                    text_in(request.get2("params"@, "model"@)),
                    state.thread_model(thread_id),
                ),
                "unknown"@,
            );
            &&& after.turns.contains_key(turn_id)
            &&& after.turns[turn_id].thread_id == thread_id
            &&& after.turns[turn_id].model == model
            &&& !state.turns.contains_key(turn_id) ==> after.turns[turn_id] == fresh_turn(
                thread_id,
                model,
                asked.running,
            )
            &&& after.pending == state.pending.remove(key)
        }),
{
    reveal_strlit("turn/start");
    reveal_strlit("thread/start");
    reveal_strlit("thread/fork");
    assert("turn/start"@.len() == 10);
    assert("thread/start"@.len() == 12);
    assert("thread/fork"@.len() == 11);
    let open = after_client_message(state, request, Some(key), asked);
    assert(open.pending.remove(key) =~= state.pending.remove(key));
}

/// What holds of every turn: it has had its timing record only after a usage
/// record, and a usage record only after a usage report.
pub open spec fn turn_in_order(turn: TurnView) -> bool {
    &&& turn.timing_emitted ==> turn.sequence > 0
    &&& turn.sequence > 0 ==> turn.last_total is Some
}

/// Every turn of a state is in order.
pub open spec fn in_order(state: StateView) -> bool {
    forall|turn_id: Seq<char>| #[trigger]
        state.turns.contains_key(turn_id) ==> turn_in_order(state.turns[turn_id])
}

/// In the state that the bridge starts with, every turn is in order.
pub proof fn law_order_holds_at_the_start()
    ensures
        in_order(StateView::empty()),
{
}

/// A client's message leaves every turn in order.
pub proof fn law_client_messages_keep_the_order(
    state: StateView,
    message: JsonView,
    key: Option<Seq<char>>,
    now: Moment,
)
    requires
        in_order(state),
    ensures
        in_order(after_client_message(state, message, key, now)),
{
}

/// A server's message leaves every turn in order.
pub proof fn law_server_messages_keep_the_order(
    state: StateView,
    message: JsonView,
    key: Option<Seq<char>>,
    now: Moment,
)
    requires
        in_order(state),
    ensures
        in_order(after_server_message(state, message, key, now).0),
{
}

/// What a server's message may do to a turn that it leaves known. The number of
/// usage records grows by one with a usage record of the turn and not
/// otherwise; the timing record is due once; the time to the first text stays
/// as it was first found; and the start stays once there is a usage record or
/// any text.
pub open spec fn turn_moves_on(
    before: TurnView,
    after: TurnView,
    turn_id: Seq<char>,
    record: Option<RecordView>,
) -> bool {
    &&& after.sequence == (match record {
        Some(RecordView::Usage(usage)) if usage.turn_id == turn_id => next_number(before.sequence),
        _ => before.sequence,
    })
    &&& after.timing_emitted == (before.timing_emitted || match record {
        Some(RecordView::Timing(timing)) => timing.turn_id == turn_id,
        _ => false,
    })
    &&& before.first_token_ms is Some ==> after.first_token_ms == before.first_token_ms
    &&& before.sequence > 0 || before.first_token_ms is Some ==> after.started_at
        == before.started_at
}

/// Every server's message moves every turn on that it leaves known.
pub proof fn law_turns_move_on(
    state: StateView,
    message: JsonView,
    key: Option<Seq<char>>,
    now: Moment,
    turn_id: Seq<char>,
)
    requires
        state.turns.contains_key(turn_id),
        after_server_message(state, message, key, now).0.turns.contains_key(turn_id),
    ensures
        turn_moves_on(
            state.turns[turn_id],
            after_server_message(state, message, key, now).0.turns[turn_id],
            turn_id,
            after_server_message(state, message, key, now).1,
        ),
{
}

/// A client's message changes neither threads nor turns.
pub proof fn law_client_messages_only_open_requests(
    state: StateView,
    message: JsonView,
    key: Option<Seq<char>>,
    now: Moment,
)
    ensures
        after_client_message(state, message, key, now).threads == state.threads,
        after_client_message(state, message, key, now).turns == state.turns,
{
}

/// A turn that has had its timing record gets no other.
pub proof fn law_timing_comes_once(
    state: StateView,
    message: JsonView,
    key: Option<Seq<char>>,
    now: Moment,
)
    ensures
        after_server_message(state, message, key, now).1 matches Some(
            RecordView::Timing(record),
        ) ==> !state.turns[record.turn_id].timing_emitted,
{
}

/// The news that a turn is complete, given twice: the second gives no record
/// and changes nothing.
pub proof fn law_repeated_completion_is_ignored(
    state: StateView,
    message: JsonView,
    first: Moment,
    second: Moment,
)
    requires
        method_of(message) == Some("turn/completed"@),
    ensures
        ({
            let after = after_server_message(state, message, None, first).0;
            after_server_message(after, message, None, second) == (after, None::<RecordView>)
        }),
{
    lemma_methods_differ();
}

/// A message that passes the bridge.
pub enum Passage {
    Client { message: JsonView, key: Option<Seq<char>>, now: Moment },
    Server { message: JsonView, key: Option<Seq<char>>, now: Moment },
}

/// The state after a message, and the record that it gives.
pub open spec fn after_passage(state: StateView, passage: Passage) -> (
    StateView,
    Option<RecordView>,
) {
    match passage {
        Passage::Client { message, key, now } => (
            after_client_message(state, message, key, now),
            None,
        ),
        Passage::Server { message, key, now } => after_server_message(state, message, key, now),
    }
}

/// The state after the first `count` messages.
pub open spec fn state_after(state: StateView, passages: Seq<Passage>, count: nat) -> StateView
    decreases count,
{
    if count == 0 {
        state
    } else {
        after_passage(
            state_after(state, passages, (count - 1) as nat),
            passages[count - 1],
        ).0
    }
}

/// The record that message number `index` gives.
pub open spec fn record_at(state: StateView, passages: Seq<Passage>, index: nat) -> Option<
    RecordView,
> {
    after_passage(state_after(state, passages, index), passages[index as int]).1
}

/// The turn stays known from message number `from` to message number `to`.
pub open spec fn stays_known(
    state: StateView,
    passages: Seq<Passage>,
    turn_id: Seq<char>,
    from: nat,
    to: nat,
) -> bool {
    forall|count: nat|
        from <= count <= to ==> (#[trigger] state_after(
            state,
            passages,
            count,
        )).turns.contains_key(turn_id)
}

/// While a turn stays known, its usage records are numbered upwards and its
/// timing record stays given.
proof fn lemma_turn_over_time(
    state: StateView,
    passages: Seq<Passage>,
    turn_id: Seq<char>,
    from: nat,
    to: nat,
)
    requires
        from <= to <= passages.len(),
        stays_known(state, passages, turn_id, from, to),
    ensures
        ({
            let early = state_after(state, passages, from).turns[turn_id];
            let late = state_after(state, passages, to).turns[turn_id];
            &&& early.sequence <= late.sequence
            &&& early.timing_emitted ==> late.timing_emitted
        }),
    decreases to - from,
{
    if from < to {
        let before = (to - 1) as nat;
        assert(stays_known(state, passages, turn_id, from, before));
        lemma_turn_over_time(state, passages, turn_id, from, before);
        assert(state_after(state, passages, before).turns.contains_key(turn_id));
        assert(state_after(state, passages, to).turns.contains_key(turn_id));
        lemma_step(state_after(state, passages, before), passages[to - 1], turn_id);
    }
}

/// One message moves a turn on that it leaves known.
proof fn lemma_step(state: StateView, passage: Passage, turn_id: Seq<char>)
    requires
        state.turns.contains_key(turn_id),
        after_passage(state, passage).0.turns.contains_key(turn_id),
    ensures
        turn_moves_on(
            state.turns[turn_id],
            after_passage(state, passage).0.turns[turn_id],
            turn_id,
            after_passage(state, passage).1,
        ),
{
    match passage {
        Passage::Client { message, key, now } => {
            law_client_messages_only_open_requests(state, message, key, now);
        },
        Passage::Server { message, key, now } => {
            law_turns_move_on(state, message, key, now, turn_id);
        },
    }
}

/// Over any run of messages, a turn that stays known has at most one timing
/// record.
pub proof fn law_at_most_one_timing_record(
    state: StateView,
    passages: Seq<Passage>,
    turn_id: Seq<char>,
    first: nat,
    second: nat,
)
    requires
        first < second < passages.len(),
        stays_known(state, passages, turn_id, first, second),
        record_at(state, passages, first) matches Some(RecordView::Timing(record))
            && record.turn_id == turn_id,
    ensures
        !(record_at(state, passages, second) matches Some(RecordView::Timing(record))
            && record.turn_id == turn_id),
{
    let next = first + 1;
    assert(state_after(state, passages, first).turns.contains_key(turn_id));
    assert(state_after(state, passages, next).turns.contains_key(turn_id));
    lemma_step(state_after(state, passages, first), passages[first as int], turn_id);
    assert(stays_known(state, passages, turn_id, next, second));
    lemma_turn_over_time(state, passages, turn_id, next, second);
}

/// Over any run of messages, two usage records of a turn that stays known, and
/// of one thread, have different ids. (A turn's records are numbered in 64
/// bits: the law ends where the numbers do.)
pub proof fn law_usage_ids_differ(
    state: StateView,
    passages: Seq<Passage>,
    first: nat,
    second: nat,
    early: UsageRecordView,
    late: UsageRecordView,
)
    requires
        first < second < passages.len(),
        record_at(state, passages, first) == Some(RecordView::Usage(early)),
        record_at(state, passages, second) == Some(RecordView::Usage(late)),
        early.thread_id == late.thread_id,
        early.turn_id == late.turn_id,
        stays_known(state, passages, early.turn_id, first, second),
        state_after(state, passages, second).turns[early.turn_id].sequence < u64::MAX,
    ensures
        early.event_id != late.event_id,
{
    let turn_id = early.turn_id;
    let next = first + 1;
    assert(state_after(state, passages, first).turns.contains_key(turn_id));
    assert(state_after(state, passages, next).turns.contains_key(turn_id));
    lemma_step(state_after(state, passages, first), passages[first as int], turn_id);
    assert(stays_known(state, passages, turn_id, next, second));
    lemma_turn_over_time(state, passages, turn_id, next, second);
    let n = next_number(state_after(state, passages, first).turns[turn_id].sequence);
    let m = next_number(state_after(state, passages, second).turns[turn_id].sequence);
    assert(early.event_id == usage_event_id_of(early.thread_id, turn_id, n as nat));
    assert(late.event_id == usage_event_id_of(early.thread_id, turn_id, m as nat));
    if early.event_id == late.event_id {
        lemma_event_number(early.thread_id, turn_id, n as nat, m as nat);
    }
}

/// Message number `index` gives a usage record of the turn.
pub open spec fn gives_usage(
    state: StateView,
    passages: Seq<Passage>,
    turn_id: Seq<char>,
    index: nat,
) -> bool {
    record_at(state, passages, index) matches Some(RecordView::Usage(record)) && record.turn_id
        == turn_id
}

/// How many messages, from number `from` to before number `to`, give a usage
/// record of the turn.
pub open spec fn usage_count(
    state: StateView,
    passages: Seq<Passage>,
    turn_id: Seq<char>,
    from: nat,
    to: nat,
) -> nat
    decreases to,
{
    if to <= from {
        0
    } else {
        let before = (to - 1) as nat;
        let one: nat = if gives_usage(state, passages, turn_id, before) {
            1
        } else {
            0
        };
        usage_count(state, passages, turn_id, from, before) + one
    }
}

/// The turn becomes known with message number `index`.
pub open spec fn becomes_known(
    state: StateView,
    passages: Seq<Passage>,
    turn_id: Seq<char>,
    index: nat,
) -> bool {
    &&& !state_after(state, passages, index).turns.contains_key(turn_id)
    &&& state_after(state, passages, index + 1).turns.contains_key(turn_id)
}

/// A turn's number is the number of its usage records since it became known.
proof fn lemma_number_is_count(
    state: StateView,
    passages: Seq<Passage>,
    turn_id: Seq<char>,
    created: nat,
    to: nat,
)
    requires
        created < to <= passages.len(),
        becomes_known(state, passages, turn_id, created),
        stays_known(state, passages, turn_id, created + 1, to),
        usage_count(state, passages, turn_id, created, to) <= u64::MAX,
    ensures
        state_after(state, passages, to).turns[turn_id].sequence == usage_count(
            state,
            passages,
            turn_id,
            created,
            to,
        ),
    decreases to,
{
    let before = (to - 1) as nat;
    if before == created {
        assert(usage_count(state, passages, turn_id, created, created) == 0);
        lemma_new_turns_are_fresh(
            state_after(state, passages, created),
            passages[created as int],
            turn_id,
        );
    } else {
        assert(stays_known(state, passages, turn_id, created + 1, before));
        lemma_number_is_count(state, passages, turn_id, created, before);
        assert(state_after(state, passages, before).turns.contains_key(turn_id));
        assert(state_after(state, passages, to).turns.contains_key(turn_id));
        lemma_step(state_after(state, passages, before), passages[to - 1], turn_id);
    }
}

/// A turn that becomes known has had no usage record, and the message that
/// makes it known gives it none.
proof fn lemma_new_turns_are_fresh(state: StateView, passage: Passage, turn_id: Seq<char>)
    requires
        !state.turns.contains_key(turn_id),
        after_passage(state, passage).0.turns.contains_key(turn_id),
    ensures
        after_passage(state, passage).0.turns[turn_id].sequence == 0,
        !(after_passage(state, passage).1 matches Some(RecordView::Usage(record))
            && record.turn_id == turn_id),
{
    match passage {
        Passage::Server { message, key, now } => {
            law_only_ephemeral_threads_give_records(state, message, key, now);
        },
        _ => {},
    }
}

/// The usage records of a turn are numbered from one upwards without gaps:
/// while the turn stays known, its k-th usage record since it became known
/// carries the number k, whatever else passes between. (The numbers have 64
/// bits: the law ends where they do.)
pub proof fn law_usage_records_are_numbered(
    state: StateView,
    passages: Seq<Passage>,
    created: nat,
    index: nat,
    record: UsageRecordView,
)
    requires
        created < index < passages.len(),
        record_at(state, passages, index) == Some(RecordView::Usage(record)),
        becomes_known(state, passages, record.turn_id, created),
        stays_known(state, passages, record.turn_id, created + 1, index),
        usage_count(state, passages, record.turn_id, created, index) < u64::MAX,
    ensures
        record.event_id == usage_event_id_of(
            record.thread_id,
            record.turn_id,
            usage_count(state, passages, record.turn_id, created, index + 1),
        ),
{
    lemma_number_is_count(state, passages, record.turn_id, created, index);
    assert(gives_usage(state, passages, record.turn_id, index));
}

/// While a turn stays with its thread, every usage record of the turn names
/// that thread.
pub proof fn law_usage_records_name_the_turns_thread(
    state: StateView,
    passages: Seq<Passage>,
    thread_id: Seq<char>,
    index: nat,
    record: UsageRecordView,
)
    requires
        index < passages.len(),
        record_at(state, passages, index) == Some(RecordView::Usage(record)),
        state_after(state, passages, index).turns[record.turn_id].thread_id == thread_id,
    ensures
        record.thread_id == thread_id,
{
    match passages[index as int] {
        Passage::Server { message, key, now } => {
            law_only_ephemeral_threads_give_records(
                state_after(state, passages, index),
                message,
                key,
                now,
            );
        },
        _ => {},
    }
}

/// The number of a usage record can be read off its id.
proof fn lemma_event_number(thread_id: Seq<char>, turn_id: Seq<char>, a: nat, b: nat)
    requires
        usage_event_id_of(thread_id, turn_id, a) == usage_event_id_of(thread_id, turn_id, b),
    ensures
        a == b,
{
    let start = crate::record::EVENT_ID_PREFIX@ + thread_id + ":"@ + turn_id + ":"@;
    let x = start + decimal(a);
    let y = start + decimal(b);
    assert(x == y);
    assert(decimal(a) =~= x.subrange(start.len() as int, x.len() as int));
    assert(decimal(b) =~= y.subrange(start.len() as int, y.len() as int));
    lemma_decimal_injective(a, b);
}

/// A timing record completes the turn's last usage record: where no usage
/// record of the turn comes between the two, and the turn stays with its
/// thread, the timing record points at the usage record's id.
pub proof fn law_timing_targets_the_last_usage_record(
    state: StateView,
    passages: Seq<Passage>,
    first: nat,
    second: nat,
    usage: UsageRecordView,
    timing: TimingRecordView,
)
    requires
        first < second < passages.len(),
        record_at(state, passages, first) == Some(RecordView::Usage(usage)),
        record_at(state, passages, second) == Some(RecordView::Timing(timing)),
        usage.turn_id == timing.turn_id,
        usage.thread_id == timing.thread_id,
        stays_known(state, passages, usage.turn_id, first, second),
        forall|index: nat|
            first < index < second ==> !(#[trigger] record_at(state, passages, index) matches Some(
                RecordView::Usage(other),
            ) && other.turn_id == usage.turn_id),
    ensures
        timing.target_event_id == usage.event_id,
{
    let turn_id = usage.turn_id;
    let next = first + 1;
    assert(state_after(state, passages, first).turns.contains_key(turn_id));
    assert(state_after(state, passages, next).turns.contains_key(turn_id));
    lemma_step(state_after(state, passages, first), passages[first as int], turn_id);
    assert(stays_known(state, passages, turn_id, next, second));
    lemma_same_number(state, passages, turn_id, next, second);
}

/// Without a usage record of the turn, the number of its usage records stays.
proof fn lemma_same_number(
    state: StateView,
    passages: Seq<Passage>,
    turn_id: Seq<char>,
    from: nat,
    to: nat,
)
    requires
        from <= to <= passages.len(),
        stays_known(state, passages, turn_id, from, to),
        forall|index: nat|
            from <= index < to ==> !(#[trigger] record_at(state, passages, index) matches Some(
                RecordView::Usage(other),
            ) && other.turn_id == turn_id),
    ensures
        state_after(state, passages, from).turns[turn_id].sequence == state_after(
            state,
            passages,
            to,
        ).turns[turn_id].sequence,
    decreases to - from,
{
    if from < to {
        let before = (to - 1) as nat;
        assert(stays_known(state, passages, turn_id, from, before));
        lemma_same_number(state, passages, turn_id, from, before);
        assert(state_after(state, passages, before).turns.contains_key(turn_id));
        assert(state_after(state, passages, to).turns.contains_key(turn_id));
        lemma_step(state_after(state, passages, before), passages[to - 1], turn_id);
        assert(!(record_at(state, passages, before) matches Some(RecordView::Usage(other))
            && other.turn_id == turn_id));
    }
}

/// A thread that is gone leaves no turn behind, and the next message gives no
/// record of it.
pub proof fn law_closed_threads_are_forgotten(
    state: StateView,
    message: JsonView,
    first: Moment,
    thread_id: Seq<char>,
    next: JsonView,
    key: Option<Seq<char>>,
    second: Moment,
)
    requires
        method_of(message) == Some("thread/closed"@) || method_of(message) == Some(
            "thread/deleted"@,
        ),
        text_in(message.get2("params"@, "threadId"@)) == Some(thread_id),
    ensures
        ({
            let after = after_server_message(state, message, None, first).0;
            &&& !after.threads.contains_key(thread_id)
            &&& forall|turn_id: Seq<char>| #[trigger]
                after.turns.contains_key(turn_id) ==> after.turns[turn_id].thread_id != thread_id
            &&& after_server_message(after, next, key, second).1 matches Some(record)
                ==> record_thread(record) != thread_id
        }),
{
    lemma_methods_differ();
    let after = after_server_message(state, message, None, first).0;
    law_only_ephemeral_threads_give_records(after, next, key, second);
}

/// A response answers a request once: it is open no longer, and a second
/// response changes nothing.
pub proof fn law_requests_are_answered_once(
    state: StateView,
    key: Seq<char>,
    first: JsonView,
    second: JsonView,
)
    ensures
        !after_response(state, key, first).pending.contains_key(key),
        after_response(after_response(state, key, first), key, second) == after_response(
            state,
            key,
            first,
        ),
{
}

/// A response closes its own request and leaves the others open. Without an
/// open request, or without a result, it changes neither threads nor turns.
pub proof fn law_responses_close_their_own_request(
    state: StateView,
    key: Seq<char>,
    message: JsonView,
)
    ensures
        after_response(state, key, message).pending == state.pending.remove(key),
        !state.pending.contains_key(key) || message.get("result"@) is None ==> {
            &&& after_response(state, key, message).threads == state.threads
            &&& after_response(state, key, message).turns == state.turns
        },
{
    if !state.pending.contains_key(key) {
        assert(state.pending.remove(key) =~= state.pending);
    }
}

/// A server's message that has an id is a response, whatever else it says: it
/// gives no record.
pub proof fn law_messages_with_an_id_are_responses(state: StateView, message: JsonView, now: Moment)
    requires
        message.get("id"@) is Some,
    ensures
        after_server_message(state, message, message_key_of(message), now) == (
            after_response(state, compact_text(message.get("id"@)->0), message),
            None::<RecordView>,
        ),
{
}

/// Everything that the bridge reads of a client's message agrees in two
/// messages.
pub open spec fn same_request(a: JsonView, b: JsonView) -> bool {
    &&& method_of(a) == method_of(b)
    &&& flag_in(a.get2("params"@, "ephemeral"@)) == flag_in(b.get2("params"@, "ephemeral"@))
    &&& text_in(a.get2("params"@, "model"@)) == text_in(b.get2("params"@, "model"@))
    &&& text_in(a.get2("params"@, "threadId"@)) == text_in(b.get2("params"@, "threadId"@))
}

/// Of a client's message the bridge keeps nothing but the method's kind, two
/// hints and a thread id: messages that agree in those, whatever prompt they
/// carry, leave the same state.
pub proof fn law_prompts_are_not_kept(
    state: StateView,
    a: JsonView,
    b: JsonView,
    key: Option<Seq<char>>,
    now: Moment,
)
    requires
        same_request(a, b),
    ensures
        after_client_message(state, a, key, now) == after_client_message(state, b, key, now),
{
    assert(request_of(a, now) == request_of(b, now));
}

/// Two texts are both there and not empty, or neither is.
pub open spec fn both_or_neither(a: Option<Seq<char>>, b: Option<Seq<char>>) -> bool {
    (a matches Some(text) && text.len() > 0) == (b matches Some(text) && text.len() > 0)
}

/// Everything that the bridge reads of a server's notification agrees in two
/// messages: ids, models, flags, counts and times, and of an answer's text only
/// whether there is any.
pub open spec fn same_notification(a: JsonView, b: JsonView) -> bool {
    &&& method_of(a) == method_of(b)
    &&& text_in(a.get2("params"@, "threadId"@)) == text_in(b.get2("params"@, "threadId"@))
    &&& text_in(a.get2("params"@, "turnId"@)) == text_in(b.get2("params"@, "turnId"@))
    &&& text_in(a.get2("params"@, "toModel"@)) == text_in(b.get2("params"@, "toModel"@))
    &&& both_or_neither(
        text_in(a.get2("params"@, "delta"@)),
        text_in(b.get2("params"@, "delta"@)),
    )
    &&& text_in(a.get3("params"@, "thread"@, "id"@)) == text_in(
        b.get3("params"@, "thread"@, "id"@),
    )
    &&& flag_in(a.get3("params"@, "thread"@, "ephemeral"@)) == flag_in(
        b.get3("params"@, "thread"@, "ephemeral"@),
    )
    &&& text_in(a.get3("params"@, "threadSettings"@, "model"@)) == text_in(
        b.get3("params"@, "threadSettings"@, "model"@),
    )
    &&& text_in(a.get3("params"@, "turn"@, "id"@)) == text_in(b.get3("params"@, "turn"@, "id"@))
    &&& natural_in(a.get3("params"@, "turn"@, "durationMs"@)) == natural_in(
        b.get3("params"@, "turn"@, "durationMs"@),
    )
    &&& natural_in(a.get3("params"@, "turn"@, "completedAt"@)) == natural_in(
        b.get3("params"@, "turn"@, "completedAt"@),
    )
    &&& report_of(a) == report_of(b)
    &&& natural_in(a.get("emittedAtMs"@)) == natural_in(b.get("emittedAtMs"@))
}

/// Of a server's notification the bridge keeps nothing but ids, models, flags,
/// counts and times: messages that agree in those, whatever text they carry,
/// leave the same state and give the same record.
pub proof fn law_answers_are_not_kept(state: StateView, a: JsonView, b: JsonView, now: Moment)
    requires
        same_notification(a, b),
    ensures
        after_notification(state, a, now) == after_notification(state, b, now),
{
}

/// Everything that the bridge reads of a response agrees in two results.
pub open spec fn same_result(a: JsonView, b: JsonView) -> bool {
    &&& text_in(a.get2("thread"@, "id"@)) == text_in(b.get2("thread"@, "id"@))
    &&& flag_in(a.get2("thread"@, "ephemeral"@)) == flag_in(b.get2("thread"@, "ephemeral"@))
    &&& text_in(a.get("model"@)) == text_in(b.get("model"@))
    &&& text_in(a.get2("turn"@, "id"@)) == text_in(b.get2("turn"@, "id"@))
}

/// Of a response the bridge keeps nothing but ids, a flag and a model.
pub proof fn law_results_are_not_kept(state: StateView, key: Seq<char>, a: JsonView, b: JsonView)
    requires
        match (a.get("result"@), b.get("result"@)) {
            (Some(x), Some(y)) => same_result(x, y),
            (None, None) => true,
            _ => false,
        },
    ensures
        after_response(state, key, a) == after_response(state, key, b),
{
}

} // verus!
