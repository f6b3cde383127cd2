//! What the bridge knows of the app-server's threads and turns, and the records
//! that it takes from the messages that pass by.

use crate::clock::{elapsed_millis, millis_between, millis_since_epoch, unix_millis, Moment};
use crate::json::{bool_in, flag_in, natural_in, str_in, text_in, u64_in, Json, JsonView};
use crate::record::{
    breakdown_in, record_view, timing_event_id, timing_event_id_of, usage_event_id,
    usage_event_id_of, BridgeRecord, RecordView, TimingRecord, TimingRecordView, UsageBreakdown,
    UsageRecord, UsageRecordView, UsageSignature,
};
use crate::spool::{line_content, trim_line_ending};
use crate::table::Table;
use crate::text::{owned, string_view};
use crate::wire::{compact_text, json_document, read_json, request_key};
use std::time::Instant;
use vstd::prelude::*;

verus! {

/// A request that the server has not answered yet.
#[derive(Debug)]
pub enum PendingRequest {
    Thread { ephemeral_hint: bool, model_hint: Option<String> },
    Turn { thread_id: String, model_override: Option<String>, started_at: u128 },
}

/// What is known of a thread.
#[derive(Debug)]
pub struct ThreadInfo {
    pub ephemeral: bool,
    pub model: String,
}

/// What is known of a turn.
#[derive(Debug)]
pub struct TurnInfo {
    pub thread_id: String,
    pub model: String,
    /// How many usage records the turn has had.
    pub sequence: u64,
    /// The totals of the last usage report.
    pub last_total: Option<UsageSignature>,
    /// When the turn started, in nanoseconds of running time.
    pub started_at: u128,
    /// Milliseconds from the start to the first text of the answer.
    pub first_token_ms: Option<u64>,
    /// Whether the turn has had its timing record.
    pub timing_emitted: bool,
}

/// A request that the server has not answered yet, text as characters.
pub enum PendingView {
    Thread { ephemeral_hint: bool, model_hint: Option<Seq<char>> },
    Turn { thread_id: Seq<char>, model_override: Option<Seq<char>>, started_at: u128 },
}

/// What is known of a thread, text as characters.
pub struct ThreadView {
    pub ephemeral: bool,
    pub model: Seq<char>,
}

/// What is known of a turn, text as characters.
pub struct TurnView {
    pub thread_id: Seq<char>,
    pub model: Seq<char>,
    pub sequence: u64,
    pub last_total: Option<UsageSignature>,
    pub started_at: u128,
    pub first_token_ms: Option<u64>,
    pub timing_emitted: bool,
}

impl View for PendingRequest {
    type V = PendingView;

    open spec fn view(&self) -> PendingView {
        match self {
            PendingRequest::Thread { ephemeral_hint, model_hint } => PendingView::Thread {
                ephemeral_hint: *ephemeral_hint,
                model_hint: string_view(*model_hint),
            },
            PendingRequest::Turn { thread_id, model_override, started_at } => PendingView::Turn {
                thread_id: thread_id@,
                model_override: string_view(*model_override),
                started_at: *started_at,
            },
        }
    }
}

impl View for ThreadInfo {
    type V = ThreadView;

    open spec fn view(&self) -> ThreadView {
        ThreadView { ephemeral: self.ephemeral, model: self.model@ }
    }
}

impl View for TurnInfo {
    type V = TurnView;

    open spec fn view(&self) -> TurnView {
        TurnView {
            thread_id: self.thread_id@,
            model: self.model@,
            sequence: self.sequence,
            last_total: self.last_total,
            started_at: self.started_at,
            first_token_ms: self.first_token_ms,
            timing_emitted: self.timing_emitted,
        }
    }
}

/// Everything that the bridge knows: the open requests by key, the threads and
/// the turns by id.
pub struct StateView {
    pub pending: Map<Seq<char>, PendingView>,
    pub threads: Map<Seq<char>, ThreadView>,
    pub turns: Map<Seq<char>, TurnView>,
}

/// The first option, or else the second.
pub open spec fn either<T>(first: Option<T>, second: Option<T>) -> Option<T> {
    match first {
        Some(value) => Some(value),
        None => second,
    }
}

/// What an option holds, or else a default.
pub open spec fn or_default<T>(option: Option<T>, default: T) -> T {
    match option {
        Some(value) => value,
        None => default,
    }
}

impl StateView {
    /// Nothing is known.
    pub open spec fn empty() -> StateView {
        StateView { pending: Map::empty(), threads: Map::empty(), turns: Map::empty() }
    }

    /// The state with other open requests.
    pub open spec fn with_pending(self, pending: Map<Seq<char>, PendingView>) -> StateView {
        StateView { pending, threads: self.threads, turns: self.turns }
    }

    /// The state with other threads.
    pub open spec fn with_threads(self, threads: Map<Seq<char>, ThreadView>) -> StateView {
        StateView { pending: self.pending, threads, turns: self.turns }
    }

    /// The state with other turns.
    pub open spec fn with_turns(self, turns: Map<Seq<char>, TurnView>) -> StateView {
        StateView { pending: self.pending, threads: self.threads, turns }
    }

    /// The model of a thread, where the thread is known.
    pub open spec fn thread_model(self, thread_id: Seq<char>) -> Option<Seq<char>> {
        if self.threads.contains_key(thread_id) {
            Some(self.threads[thread_id].model)
        } else {
            None
        }
    }

    /// The thread is known and ephemeral.
    pub open spec fn is_ephemeral(self, thread_id: Seq<char>) -> bool {
        self.threads.contains_key(thread_id) && self.threads[thread_id].ephemeral
    }
}

/// A turn that has had no usage report, no answer and no timing record yet.
pub open spec fn fresh_turn(thread_id: Seq<char>, model: Seq<char>, started_at: u128) -> TurnView {
    TurnView {
        thread_id,
        model,
        sequence: 0,
        last_total: None,
        started_at,
        first_token_ms: None,
        timing_emitted: false,
    }
}

/// The key of a message's id, where it has an id.
pub open spec fn message_key_of(message: JsonView) -> Option<Seq<char>> {
    match message.get("id"@) {
        Some(id) => Some(compact_text(id)),
        None => None,
    }
}

/// The method of a message.
pub open spec fn method_of(message: JsonView) -> Option<Seq<char>> {
    text_in(message.get("method"@))
}

/// The open request that a client's message makes, where it makes one.
pub open spec fn request_of(message: JsonView, now: Moment) -> Option<PendingView> {
    match method_of(message) {
        Some(method) => if method == "thread/start"@ || method == "thread/fork"@ {
            Some(
                PendingView::Thread {
                    ephemeral_hint: or_default(
                        flag_in(message.get2("params"@, "ephemeral"@)),
                        false,
                    ),
                    model_hint: text_in(message.get2("params"@, "model"@)),
                },
            )
        } else if method == "turn/start"@ {
            match text_in(message.get2("params"@, "threadId"@)) {
                Some(thread_id) => Some(
                    PendingView::Turn {
                        thread_id,
                        model_override: text_in(message.get2("params"@, "model"@)),
                        started_at: now.running,
                    },
                ),
                None => None,
            }
        } else {
            None
        },
        None => None,
    }
}

/// The state after a client's message whose id has the key `key`.
pub open spec fn after_client_message(
    state: StateView,
    message: JsonView,
    key: Option<Seq<char>>,
    now: Moment,
) -> StateView {
    match (key, request_of(message, now)) {
        (Some(key), Some(request)) => state.with_pending(state.pending.insert(key, request)),
        _ => state,
    }
}

/// The state after the answer `result` to a request for a thread.
pub open spec fn after_thread_response(
    state: StateView,
    ephemeral_hint: bool,
    model_hint: Option<Seq<char>>,
    result: JsonView,
) -> StateView {
    match text_in(result.get2("thread"@, "id"@)) {
        Some(thread_id) => state.with_threads(
            state.threads.insert(
                thread_id,
                ThreadView {
                    ephemeral: or_default(
                        flag_in(result.get2("thread"@, "ephemeral"@)),
                        ephemeral_hint,
                    ),
                    model: or_default(
                        either(text_in(result.get("model"@)), model_hint),
                        "unknown"@,
                    ),
                },
            ),
        ),
        None => state,
    }
}

/// The state after the answer `result` to a request for a turn.
pub open spec fn after_turn_response(
    state: StateView,
    thread_id: Seq<char>,
    model_override: Option<Seq<char>>,
    started_at: u128,
    result: JsonView,
) -> StateView {
    match text_in(result.get2("turn"@, "id"@)) {
        Some(turn_id) => {
            let model = or_default(either(model_override, state.thread_model(thread_id)), "unknown"@);
            let turn = if state.turns.contains_key(turn_id) {
                TurnView { thread_id, model, ..state.turns[turn_id] }
            } else {
                fresh_turn(thread_id, model, started_at)
            };
            state.with_turns(state.turns.insert(turn_id, turn))
        },
        None => state,
    }
}

/// The state after a response to the request `key`. The request is open no
/// longer, whatever the response says.
pub open spec fn after_response(state: StateView, key: Seq<char>, message: JsonView) -> StateView {
    if state.pending.contains_key(key) {
        let answered = state.with_pending(state.pending.remove(key));
        match message.get("result"@) {
            Some(result) => match state.pending[key] {
                PendingView::Thread { ephemeral_hint, model_hint } => after_thread_response(
                    answered,
                    ephemeral_hint,
                    model_hint,
                    result,
                ),
                PendingView::Turn { thread_id, model_override, started_at } => after_turn_response(
                    answered,
                    thread_id,
                    model_override,
                    started_at,
                    result,
                ),
            },
            None => answered,
        }
    } else {
        state
    }
}

/// The state after the news that a thread has started.
pub open spec fn after_thread_started(state: StateView, message: JsonView) -> StateView {
    match text_in(message.get3("params"@, "thread"@, "id"@)) {
        Some(thread_id) => {
            let ephemeral = or_default(
                flag_in(message.get3("params"@, "thread"@, "ephemeral"@)),
                false,
            );
            let model = or_default(state.thread_model(thread_id), "unknown"@);
            state.with_threads(state.threads.insert(thread_id, ThreadView { ephemeral, model }))
        },
        None => state,
    }
}

/// The state after the news that a thread has other settings.
pub open spec fn after_thread_settings(state: StateView, message: JsonView) -> StateView {
    match (
        text_in(message.get2("params"@, "threadId"@)),
        text_in(message.get3("params"@, "threadSettings"@, "model"@)),
    ) {
        (Some(thread_id), Some(model)) if state.threads.contains_key(thread_id) => {
            let thread = ThreadView { model, ..state.threads[thread_id] };
            state.with_threads(state.threads.insert(thread_id, thread))
        },
        _ => state,
    }
}

/// The turns that do not belong to a thread.
pub open spec fn turns_without(turns: Map<Seq<char>, TurnView>, thread_id: Seq<char>) -> Map<
    Seq<char>,
    TurnView,
> {
    turns.restrict(
        Set::new(
            |turn_id: Seq<char>|
                turns.contains_key(turn_id) && turns[turn_id].thread_id != thread_id,
        ),
    )
}

/// The state after the news that a thread is gone: it and its turns are
/// forgotten.
pub open spec fn after_thread_closed(state: StateView, message: JsonView) -> StateView {
    match text_in(message.get2("params"@, "threadId"@)) {
        Some(thread_id) => StateView {
            pending: state.pending,
            threads: state.threads.remove(thread_id),
            turns: turns_without(state.turns, thread_id),
        },
        None => state,
    }
}

/// The state after the news that a turn has started. The start of a turn that
/// is known already moves only until its first usage record or answer.
pub open spec fn after_turn_started(state: StateView, message: JsonView, now: Moment) -> StateView {
    match (
        text_in(message.get2("params"@, "threadId"@)),
        text_in(message.get3("params"@, "turn"@, "id"@)),
    ) {
        (Some(thread_id), Some(turn_id)) => {
            let model = or_default(state.thread_model(thread_id), "unknown"@);
            let turn = if state.turns.contains_key(turn_id) {
                let known = state.turns[turn_id];
                let untouched = known.sequence == 0 && known.first_token_ms is None;
                TurnView {
                    thread_id,
                    model,
                    started_at: if untouched {
                        now.running
                    } else {
                        known.started_at
                    },
                    ..known
                }
            } else {
                fresh_turn(thread_id, model, now.running)
            };
            state.with_turns(state.turns.insert(turn_id, turn))
        },
        _ => state,
    }
}

/// The state after a piece of an answer. Of its text only that there is any
/// counts, and only the first piece does.
pub open spec fn after_agent_message_delta(
    state: StateView,
    message: JsonView,
    now: Moment,
) -> StateView {
    match (
        text_in(message.get2("params"@, "turnId"@)),
        text_in(message.get2("params"@, "delta"@)),
    ) {
        (Some(turn_id), Some(delta)) if delta.len() > 0 && state.turns.contains_key(turn_id)
            && state.turns[turn_id].first_token_ms is None => {
            let known = state.turns[turn_id];
            let turn = TurnView {
                first_token_ms: Some(millis_between(known.started_at, now.running)),
                ..known
            };
            state.with_turns(state.turns.insert(turn_id, turn))
        },
        _ => state,
    }
}

/// The state after the news that another model answers a turn.
pub open spec fn after_model_rerouted(state: StateView, message: JsonView) -> StateView {
    match (
        text_in(message.get2("params"@, "turnId"@)),
        text_in(message.get2("params"@, "toModel"@)),
    ) {
        (Some(turn_id), Some(model)) if state.turns.contains_key(turn_id) => {
            let turn = TurnView { model, ..state.turns[turn_id] };
            state.with_turns(state.turns.insert(turn_id, turn))
        },
        _ => state,
    }
}

/// The thread and the turn that a completed turn names, where a timing record
/// is due: the thread is ephemeral, the turn is known, belongs to the thread,
/// has had usage, and has had no timing record.
pub open spec fn timing_due(state: StateView, message: JsonView) -> Option<(Seq<char>, Seq<char>)> {
    match (
        text_in(message.get2("params"@, "threadId"@)),
        text_in(message.get3("params"@, "turn"@, "id"@)),
    ) {
        (Some(thread_id), Some(turn_id)) if state.is_ephemeral(thread_id)
            && state.turns.contains_key(turn_id) && state.turns[turn_id].thread_id == thread_id
            && state.turns[turn_id].sequence != 0 && !state.turns[turn_id].timing_emitted => Some(
            (thread_id, turn_id),
        ),
        _ => None,
    }
}

/// When a turn was completed, in milliseconds: the time in seconds that the
/// server gives, or else the clock's.
pub open spec fn completion_millis(completed_at: Option<u64>, now: Moment) -> i64 {
    match completed_at {
        Some(seconds) if seconds * 1000 <= i64::MAX => (seconds * 1000) as i64,
        _ => unix_millis(now.unix),
    }
}

/// When usage was reported, in milliseconds: the time that the server gives, or
/// else the clock's.
pub open spec fn emission_millis(emitted_at: Option<u64>, now: Moment) -> i64 {
    match emitted_at {
        Some(millis) if millis <= i64::MAX => millis as i64,
        _ => unix_millis(now.unix),
    }
}

/// The state after the news that a turn is complete, and its timing record.
pub open spec fn after_turn_completed(state: StateView, message: JsonView, now: Moment) -> (
    StateView,
    Option<TimingRecordView>,
) {
    match timing_due(state, message) {
        Some((thread_id, turn_id)) => {
            let known = state.turns[turn_id];
            let turn = TurnView { timing_emitted: true, ..known };
            let record = TimingRecordView {
                schema_version: 1,
                event_id: timing_event_id_of(thread_id, turn_id),
                target_event_id: usage_event_id_of(thread_id, turn_id, known.sequence as nat),
                thread_id,
                turn_id,
                completed_at_ms: completion_millis(
                    natural_in(message.get3("params"@, "turn"@, "completedAt"@)),
                    now,
                ),
                duration_ms: or_default(
                    natural_in(message.get3("params"@, "turn"@, "durationMs"@)),
                    millis_between(known.started_at, now.running),
                ),
                first_token_ms: known.first_token_ms,
            };
            (state.with_turns(state.turns.insert(turn_id, turn)), Some(record))
        },
        None => (state, None),
    }
}

/// A report of token usage: the thread, the turn, the totals and the last
/// request's counts.
pub struct UsageReport {
    pub thread_id: Seq<char>,
    pub turn_id: Seq<char>,
    pub total: UsageBreakdown,
    pub last: UsageBreakdown,
}

/// The token counts that an optional value holds.
pub open spec fn counts_in(value: Option<JsonView>) -> Option<UsageBreakdown> {
    match value {
        Some(value) => breakdown_in(value),
        None => None,
    }
}

/// The usage report that a message makes, where it is complete.
pub open spec fn report_of(message: JsonView) -> Option<UsageReport> {
    match (
        text_in(message.get2("params"@, "threadId"@)),
        text_in(message.get2("params"@, "turnId"@)),
        counts_in(message.get3("params"@, "tokenUsage"@, "total"@)),
        counts_in(message.get3("params"@, "tokenUsage"@, "last"@)),
    ) {
        (Some(thread_id), Some(turn_id), Some(total), Some(last)) => Some(
            UsageReport { thread_id, turn_id, total, last },
        ),
        _ => None,
    }
}

/// The report is news: its thread is ephemeral, its turn is known and belongs
/// to the thread, and its totals are not those of the report before.
pub open spec fn is_news(state: StateView, report: UsageReport) -> bool {
    &&& state.is_ephemeral(report.thread_id)
    &&& state.turns.contains_key(report.turn_id)
    &&& state.turns[report.turn_id].thread_id == report.thread_id
    &&& state.turns[report.turn_id].last_total != Some(report.total.signature_spec())
}

/// The number after `number`, as far as 64 bits go.
pub open spec fn next_number(number: u64) -> u64 {
    if number < u64::MAX {
        (number + 1) as u64
    } else {
        u64::MAX
    }
}

/// The state after a report of token usage, and the usage record.
pub open spec fn after_token_usage(state: StateView, message: JsonView, now: Moment) -> (
    StateView,
    Option<UsageRecordView>,
) {
    match report_of(message) {
        Some(report) if is_news(state, report) => {
            let known = state.turns[report.turn_id];
            let last_total = Some(report.total.signature_spec());
            if report.last.is_billable() {
                let sequence = next_number(known.sequence);
                let turn = TurnView { last_total, sequence, ..known };
                let record = UsageRecordView {
                    schema_version: 1,
                    event_id: usage_event_id_of(report.thread_id, report.turn_id, sequence as nat),
                    thread_id: report.thread_id,
                    turn_id: report.turn_id,
                    model: known.model,
                    completed_at_ms: emission_millis(
                        natural_in(message.get("emittedAtMs"@)),
                        now,
                    ),
                    usage: report.last,
                };
                (state.with_turns(state.turns.insert(report.turn_id, turn)), Some(record))
            } else {
                let turn = TurnView { last_total, ..known };
                (state.with_turns(state.turns.insert(report.turn_id, turn)), None)
            }
        },
        _ => (state, None),
    }
}

/// The state after a server's message that is no response, and the record that
/// it gives.
pub open spec fn after_notification(state: StateView, message: JsonView, now: Moment) -> (
    StateView,
    Option<RecordView>,
) {
    match method_of(message) {
        Some(method) => if method == "thread/started"@ {
            (after_thread_started(state, message), None)
        } else if method == "thread/settings/updated"@ {
            (after_thread_settings(state, message), None)
        } else if method == "thread/closed"@ || method == "thread/deleted"@ {
            (after_thread_closed(state, message), None)
        } else if method == "turn/started"@ {
            (after_turn_started(state, message, now), None)
        } else if method == "item/agentMessage/delta"@ {
            (after_agent_message_delta(state, message, now), None)
        } else if method == "turn/completed"@ {
            match after_turn_completed(state, message, now) {
                (after, Some(record)) => (after, Some(RecordView::Timing(record))),
                (after, None) => (after, None),
            }
        } else if method == "model/rerouted"@ {
            (after_model_rerouted(state, message), None)
        } else if method == "thread/tokenUsage/updated"@ {
            match after_token_usage(state, message, now) {
                (after, Some(record)) => (after, Some(RecordView::Usage(record))),
                (after, None) => (after, None),
            }
        } else {
            (state, None)
        },
        None => (state, None),
    }
}

/// The state after a server's message whose id has the key `key`, and the
/// record that it gives. A message with an id is a response.
pub open spec fn after_server_message(
    state: StateView,
    message: JsonView,
    key: Option<Seq<char>>,
    now: Moment,
) -> (StateView, Option<RecordView>) {
    match key {
        Some(key) => (after_response(state, key, message), None),
        None => after_notification(state, message, now),
    }
}

/// The running knowledge of the app-server's threads and turns.
#[derive(Debug)]
pub struct BridgeState {
    pending: Table<PendingRequest>,
    threads: Table<ThreadInfo>,
    turns: Table<TurnInfo>,
    /// The instant that running time is counted from.
    origin: Instant,
}

impl View for BridgeState {
    type V = StateView;

    closed spec fn view(&self) -> StateView {
        StateView { pending: self.pending@, threads: self.threads@, turns: self.turns@ }
    }
}

impl Default for BridgeState {
    fn default() -> (state: Self)
        ensures
            state@ == StateView::empty(),
    {
        BridgeState {
            pending: Table::new(),
            threads: Table::new(),
            turns: Table::new(),
            origin: Instant::now(),
        }
    }
}

/// The model of no known name.
fn unknown_model() -> (model: String)
    ensures
        model@ == "unknown"@,
{
    "unknown".to_owned()
}

/// The key of a message's id, where it has an id.
pub fn message_key(value: &Json) -> (key: Option<String>)
    ensures
        string_view(key) == message_key_of(value@),
{
    match value.get("id") {
        Some(id) => request_key(id),
        None => None,
    }
}

impl BridgeState {
    /// The instant that running time is counted from.
    pub closed spec fn origin(self) -> Instant {
        self.origin
    }

    /// What the clocks show.
    fn moment(&self) -> Moment {
        Moment::now(&self.origin)
    }

    /// The model of a thread, where the thread is known.
    fn thread_model(&self, thread_id: &str) -> (model: Option<String>)
        ensures
            string_view(model) == self@.thread_model(thread_id@),
    {
        match self.threads.get(thread_id) {
            Some(thread) => Some(thread.model.clone()),
            None => None,
        }
    }

    /// Whether a thread is known and ephemeral.
    fn is_ephemeral(&self, thread_id: &str) -> (ephemeral: bool)
        ensures
            ephemeral == self@.is_ephemeral(thread_id@),
    {
        match self.threads.get(thread_id) {
            Some(thread) => thread.ephemeral,
            None => false,
        }
    }

    /// Takes note of a line that the client sends.
    pub fn observe_client_line(&mut self, bytes: &[u8])
        ensures
            final(self).origin() == old(self).origin(),
            match json_document(line_content(bytes@)) {
                Some(message) => exists|now: Moment| final(self)@ == #[trigger] after_client_message(
                    old(self)@,
                    message,
                    message_key_of(message),
                    now,
                ),
                None => final(self)@ == old(self)@,
            },
    {
        if let Some(value) = read_json(trim_line_ending(bytes)) {
            self.observe_client_message(&value);
        }
    }

    /// Takes note of a line that the server sends, and returns the record that
    /// it gives.
    pub fn observe_server_line(&mut self, bytes: &[u8]) -> (record: Option<BridgeRecord>)
        ensures
            final(self).origin() == old(self).origin(),
            match json_document(line_content(bytes@)) {
                Some(message) => exists|now: Moment|
                    (final(self)@, record_view(record)) == #[trigger] after_server_message(
                        old(self)@,
                        message,
                        message_key_of(message),
                        now,
                    ),
                None => final(self)@ == old(self)@ && record is None,
            },
    {
        match read_json(trim_line_ending(bytes)) {
            Some(value) => self.observe_server_message(&value),
            None => None,
        }
    }

    /// Takes note of a message that the client sends.
    pub fn observe_client_message(&mut self, value: &Json)
        ensures
            final(self).origin() == old(self).origin(),
            exists|now: Moment| final(self)@ == #[trigger] after_client_message(
                old(self)@,
                value@,
                message_key_of(value@),
                now,
            ),
    {
        let key = message_key(value);
        let now = self.moment();
        self.observe_client_request(value, key, now);
    }

    /// Takes note of a message that the client sends at `now`, where `key` is
    /// the key of its id.
    pub fn observe_client_request(&mut self, value: &Json, key: Option<String>, now: Moment)
        ensures
            final(self).origin() == old(self).origin(),
            final(self)@ == after_client_message(old(self)@, value@, string_view(key), now),
    {
        let method = match str_in(value.get("method")) {
            Some(method) => method,
            None => {
                return ;
            },
        };
        let id = match key {
            Some(id) => id,
            None => {
                return ;
            },
        };
        if method.eq("thread/start") || method.eq("thread/fork") {
            let ephemeral_hint = match bool_in(value.get2("params", "ephemeral")) {
                Some(flag) => flag,
                None => false,
            };
            let model_hint = owned(str_in(value.get2("params", "model")));
            self.pending.insert(id, PendingRequest::Thread { ephemeral_hint, model_hint });
        } else if method.eq("turn/start") {
            let thread_id = match str_in(value.get2("params", "threadId")) {
                Some(thread_id) => thread_id.to_owned(),
                None => {
                    return ;
                },
            };
            let model_override = owned(str_in(value.get2("params", "model")));
            self.pending.insert(
                id,
                PendingRequest::Turn { thread_id, model_override, started_at: now.running },
            );
        }
    }

    /// Takes note of a message that the server sends, and returns the record
    /// that it gives.
    pub fn observe_server_message(&mut self, value: &Json) -> (record: Option<BridgeRecord>)
        ensures
            final(self).origin() == old(self).origin(),
            exists|now: Moment|
                (final(self)@, record_view(record)) == #[trigger] after_server_message(
                    old(self)@,
                    value@,
                    message_key_of(value@),
                    now,
                ),
    {
        let key = message_key(value);
        let now = self.moment();
        self.observe_server_message_at(value, key, now)
    }

    /// Takes note of a message that the server sends at `now`, where `key` is
    /// the key of its id, and returns the record that it gives.
    pub fn observe_server_message_at(
        &mut self,
        value: &Json,
        key: Option<String>,
        now: Moment,
    ) -> (record: Option<BridgeRecord>)
        ensures
            final(self).origin() == old(self).origin(),
            (final(self)@, record_view(record)) == after_server_message(
                old(self)@,
                value@,
                string_view(key),
                now,
            ),
    {
        if let Some(id) = key {
            self.observe_response(id.as_str(), value);
            return None;
        }
        let method = str_in(value.get("method"))?;
        if method.eq("thread/started") {
            self.observe_thread_started(value);
        } else if method.eq("thread/settings/updated") {
            self.observe_thread_settings(value);
        } else if method.eq("thread/closed") || method.eq("thread/deleted") {
            self.observe_thread_closed(value);
        } else if method.eq("turn/started") {
            self.observe_turn_started(value, now);
        } else if method.eq("item/agentMessage/delta") {
            self.observe_agent_message_delta(value, now);
        } else if method.eq("turn/completed") {
            return match self.capture_timing(value, now) {
                Some(record) => Some(BridgeRecord::Timing(record)),
                None => None,
            };
        } else if method.eq("model/rerouted") {
            self.observe_model_rerouted(value);
        } else if method.eq("thread/tokenUsage/updated") {
            return match self.capture_usage(value, now) {
                Some(record) => Some(BridgeRecord::Usage(record)),
                None => None,
            };
        }
        None
    }

    /// Takes note of a response to the request `id`.
    pub fn observe_response(&mut self, id: &str, value: &Json)
        ensures
            final(self).origin() == old(self).origin(),
            final(self)@ == after_response(old(self)@, id@, value@),
    {
        let ghost before = self@;
        let pending = match self.pending.remove(id) {
            Some(pending) => pending,
            None => {
                assert(before.pending.remove(id@) =~= before.pending);
                return ;
            },
        };
        let result = match value.get("result") {
            Some(result) => result,
            None => {
                return ;
            },
        };
        match pending {
            PendingRequest::Thread { ephemeral_hint, model_hint } => {
                let thread_id = match str_in(result.get2("thread", "id")) {
                    Some(thread_id) => thread_id.to_owned(),
                    None => {
                        return ;
                    },
                };
                let ephemeral = match bool_in(result.get2("thread", "ephemeral")) {
                    Some(flag) => flag,
                    None => ephemeral_hint,
                };
                let model = match owned(str_in(result.get("model"))) {
                    Some(model) => model,
                    None => match model_hint {
                        Some(model) => model,
                        None => unknown_model(),
                    },
                };
                self.threads.insert(thread_id, ThreadInfo { ephemeral, model });
            },
            PendingRequest::Turn { thread_id, model_override, started_at } => {
                let turn_id = match str_in(result.get2("turn", "id")) {
                    Some(turn_id) => turn_id.to_owned(),
                    None => {
                        return ;
                    },
                };
                let model = match model_override {
                    Some(model) => model,
                    None => match self.thread_model(thread_id.as_str()) {
                        Some(model) => model,
                        None => unknown_model(),
                    },
                };
                let ghost turns = self.turns@;
                let turn = match self.turns.remove(turn_id.as_str()) {
                    Some(mut turn) => {
                        turn.thread_id = thread_id;
                        turn.model = model;
                        turn
                    },
                    None => TurnInfo {
                        thread_id,
                        model,
                        sequence: 0,
                        last_total: None,
                        started_at,
                        first_token_ms: None,
                        timing_emitted: false,
                    },
                };
                assert(turns.remove(turn_id@).insert(turn_id@, turn@) =~= turns.insert(
                    turn_id@,
                    turn@,
                ));
                self.turns.insert(turn_id, turn);
            },
        }
    }

    /// Takes note of the news that a thread has started.
    fn observe_thread_started(&mut self, value: &Json)
        ensures
            final(self).origin() == old(self).origin(),
            final(self)@ == after_thread_started(old(self)@, value@),
    {
        let thread_id = match str_in(value.get3("params", "thread", "id")) {
            Some(thread_id) => thread_id,
            None => {
                return ;
            },
        };
        let ephemeral = match bool_in(value.get3("params", "thread", "ephemeral")) {
            Some(flag) => flag,
            None => false,
        };
        let model = match self.thread_model(thread_id) {
            Some(model) => model,
            None => unknown_model(),
        };
        self.threads.insert(thread_id.to_owned(), ThreadInfo { ephemeral, model });
    }

    /// Takes note of the news that a thread has other settings.
    fn observe_thread_settings(&mut self, value: &Json)
        ensures
            final(self).origin() == old(self).origin(),
            final(self)@ == after_thread_settings(old(self)@, value@),
    {
        let thread_id = match str_in(value.get2("params", "threadId")) {
            Some(thread_id) => thread_id,
            None => {
                return ;
            },
        };
        let model = match str_in(value.get3("params", "threadSettings", "model")) {
            Some(model) => model,
            None => {
                return ;
            },
        };
        let ghost threads = self.threads@;
        if let Some(mut thread) = self.threads.remove(thread_id) {
            thread.model = model.to_owned();
            assert(threads.remove(thread_id@).insert(thread_id@, thread@) =~= threads.insert(
                thread_id@,
                thread@,
            ));
            self.threads.insert(thread_id.to_owned(), thread);
        } else {
            assert(threads.remove(thread_id@) =~= threads);
        }
    }

    /// Takes note of the news that a thread is gone.
    fn observe_thread_closed(&mut self, value: &Json)
        ensures
            final(self).origin() == old(self).origin(),
            final(self)@ == after_thread_closed(old(self)@, value@),
    {
        let thread_id = match str_in(value.get2("params", "threadId")) {
            Some(thread_id) => thread_id,
            None => {
                return ;
            },
        };
        let _ = self.threads.remove(thread_id);
        let ghost turns = self.turns@;
        let mut rest: Table<TurnInfo> = Table::new();
        std::mem::swap(&mut rest, &mut self.turns);
        loop
            invariant
                self.origin == old(self).origin,
                self.pending@ == old(self).pending@,
                self.threads@ == old(self).threads@.remove(thread_id@),
                rest@ == turns.restrict(rest@.dom()),
                rest@.dom().disjoint(self.turns@.dom()),
                self.turns@ == turns_without(turns, thread_id@).restrict(
                    turns.dom().difference(rest@.dom()),
                ),
            ensures
                self.origin == old(self).origin,
                self.pending@ == old(self).pending@,
                self.threads@ == old(self).threads@.remove(thread_id@),
                self.turns@ == turns_without(turns, thread_id@),
            decreases rest.size(),
        {
            match rest.pop() {
                Some((turn_id, turn)) => {
                    if !turn.thread_id.as_str().eq(thread_id) {
                        self.turns.insert(turn_id, turn);
                    }
                },
                None => {
                    break ;
                },
            }
        }
    }

    /// Takes note of the news that a turn has started.
    fn observe_turn_started(&mut self, value: &Json, now: Moment)
        ensures
            final(self).origin() == old(self).origin(),
            final(self)@ == after_turn_started(old(self)@, value@, now),
    {
        let thread_id = match str_in(value.get2("params", "threadId")) {
            Some(thread_id) => thread_id,
            None => {
                return ;
            },
        };
        let turn_id = match str_in(value.get3("params", "turn", "id")) {
            Some(turn_id) => turn_id,
            None => {
                return ;
            },
        };
        let model = match self.thread_model(thread_id) {
            Some(model) => model,
            None => unknown_model(),
        };
        let ghost turns = self.turns@;
        let turn = match self.turns.remove(turn_id) {
            Some(mut turn) => {
                if turn.sequence == 0 && turn.first_token_ms.is_none() {
                    turn.started_at = now.running;
                }
                turn.thread_id = thread_id.to_owned();
                turn.model = model;
                turn
            },
            None => TurnInfo {
                thread_id: thread_id.to_owned(),
                model,
                sequence: 0,
                last_total: None,
                started_at: now.running,
                first_token_ms: None,
                timing_emitted: false,
            },
        };
        assert(turns.remove(turn_id@).insert(turn_id@, turn@) =~= turns.insert(turn_id@, turn@));
        self.turns.insert(turn_id.to_owned(), turn);
    }

    /// Takes note of a piece of an answer.
    fn observe_agent_message_delta(&mut self, value: &Json, now: Moment)
        ensures
            final(self).origin() == old(self).origin(),
            final(self)@ == after_agent_message_delta(old(self)@, value@, now),
    {
        let turn_id = match str_in(value.get2("params", "turnId")) {
            Some(turn_id) => turn_id,
            None => {
                return ;
            },
        };
        let delta = match str_in(value.get2("params", "delta")) {
            Some(delta) => delta,
            None => {
                return ;
            },
        };
        if delta.is_empty() {
            return ;
        }
        let ghost turns = self.turns@;
        if let Some(mut turn) = self.turns.remove(turn_id) {
            if turn.first_token_ms.is_none() {
                turn.first_token_ms = Some(elapsed_millis(turn.started_at, now.running));
            }
            assert(turns.remove(turn_id@).insert(turn_id@, turn@) =~= turns.insert(
                turn_id@,
                turn@,
            ));
            assert(turn@ == turns[turn_id@] ==> turns.insert(turn_id@, turn@) =~= turns);
            self.turns.insert(turn_id.to_owned(), turn);
        } else {
            assert(turns.remove(turn_id@) =~= turns);
        }
    }

    /// Takes the timing record from the news that a turn is complete.
    fn capture_timing(&mut self, value: &Json, now: Moment) -> (record: Option<TimingRecord>)
        ensures
            final(self).origin() == old(self).origin(),
            final(self)@ == after_turn_completed(old(self)@, value@, now).0,
            match record {
                Some(record) => after_turn_completed(old(self)@, value@, now).1 == Some(record@),
                None => after_turn_completed(old(self)@, value@, now).1 is None,
            },
    {
        let thread_id = str_in(value.get2("params", "threadId"))?;
        let turn_id = str_in(value.get3("params", "turn", "id"))?;
        if !self.is_ephemeral(thread_id) {
            return None;
        }
        let due = match self.turns.get(turn_id) {
            Some(turn) => turn.thread_id.as_str().eq(thread_id) && turn.sequence != 0
                && !turn.timing_emitted,
            None => false,
        };
        if !due {
            return None;
        }
        let ghost turns = self.turns@;
        let mut turn = self.turns.remove(turn_id)?;
        let duration_ms: u64 = match u64_in(value.get3("params", "turn", "durationMs")) {
            Some(millis) => millis,
            None => elapsed_millis(turn.started_at, now.running),
        };
        let completed_at_ms: i64 = match u64_in(value.get3("params", "turn", "completedAt")) {
            Some(seconds) => if seconds <= i64::MAX as u64 / 1000 {
                (seconds * 1000) as i64
            } else {
                millis_since_epoch(now.unix)
            },
            None => millis_since_epoch(now.unix),
        };
        turn.timing_emitted = true;
        let record = TimingRecord {
            schema_version: 1,
            event_id: timing_event_id(thread_id, turn_id),
            target_event_id: usage_event_id(thread_id, turn_id, turn.sequence),
            thread_id: thread_id.to_owned(),
            turn_id: turn_id.to_owned(),
            completed_at_ms,
            duration_ms,
            first_token_ms: turn.first_token_ms,
        };
        assert(turns.remove(turn_id@).insert(turn_id@, turn@) =~= turns.insert(turn_id@, turn@));
        self.turns.insert(turn_id.to_owned(), turn);
        Some(record)
    }

    /// Takes note of the news that another model answers a turn.
    fn observe_model_rerouted(&mut self, value: &Json)
        ensures
            final(self).origin() == old(self).origin(),
            final(self)@ == after_model_rerouted(old(self)@, value@),
    {
        let turn_id = match str_in(value.get2("params", "turnId")) {
            Some(turn_id) => turn_id,
            None => {
                return ;
            },
        };
        let model = match str_in(value.get2("params", "toModel")) {
            Some(model) => model,
            None => {
                return ;
            },
        };
        let ghost turns = self.turns@;
        if let Some(mut turn) = self.turns.remove(turn_id) {
            turn.model = model.to_owned();
            assert(turns.remove(turn_id@).insert(turn_id@, turn@) =~= turns.insert(
                turn_id@,
                turn@,
            ));
            self.turns.insert(turn_id.to_owned(), turn);
        } else {
            assert(turns.remove(turn_id@) =~= turns);
        }
    }

    /// Takes the usage record from a report of token usage.
    fn capture_usage(&mut self, value: &Json, now: Moment) -> (record: Option<UsageRecord>)
        ensures
            final(self).origin() == old(self).origin(),
            final(self)@ == after_token_usage(old(self)@, value@, now).0,
            match record {
                Some(record) => after_token_usage(old(self)@, value@, now).1 == Some(record@),
                None => after_token_usage(old(self)@, value@, now).1 is None,
            },
    {
        let thread_id = str_in(value.get2("params", "threadId"))?;
        let turn_id = str_in(value.get2("params", "turnId"))?;
        if !self.is_ephemeral(thread_id) {
            return None;
        }
        let total = UsageBreakdown::from_value(value.get3("params", "tokenUsage", "total")?)?;
        let last = UsageBreakdown::from_value(value.get3("params", "tokenUsage", "last")?)?;
        let signature = total.signature();
        let news = match self.turns.get(turn_id) {
            Some(turn) => turn.thread_id.as_str().eq(thread_id) && match turn.last_total {
                Some(known) => known != signature,
                None => true,
            },
            None => false,
        };
        if !news {
            return None;
        }
        let ghost turns = self.turns@;
        let mut turn = self.turns.remove(turn_id)?;
        turn.last_total = Some(signature);
        let mut record: Option<UsageRecord> = None;
        if last.has_billable_tokens() {
            turn.sequence = turn.sequence.saturating_add(1);
            let completed_at_ms: i64 = match u64_in(value.get("emittedAtMs")) {
                Some(millis) => if millis <= i64::MAX as u64 {
                    millis as i64
                } else {
                    millis_since_epoch(now.unix)
                },
                None => millis_since_epoch(now.unix),
            };
            record = Some(
                UsageRecord {
                    schema_version: 1,
                    event_id: usage_event_id(thread_id, turn_id, turn.sequence),
                    thread_id: thread_id.to_owned(),
                    turn_id: turn_id.to_owned(),
                    model: turn.model.clone(),
                    completed_at_ms,
                    usage: last,
                },
            );
        }
        assert(turns.remove(turn_id@).insert(turn_id@, turn@) =~= turns.insert(turn_id@, turn@));
        self.turns.insert(turn_id.to_owned(), turn);
        record
    }
}

} // verus!
