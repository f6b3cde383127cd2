//! Laws of whole imports: what comes of a pass over the spool, given what the
//! application answers.
//!
//! The application is a [`Host`]: what it answers to each action, and what
//! becomes of the request log, as functions of the log.

use crate::cost::{cost_texts_of, CostTextsView};
use crate::event::{event_fault, EventView, TokenUsageView};
use crate::import::{
    dedup_key_of, is_nearest, log_row_of, prepared, row_views, DedupView, ErrorView, ItemView,
    LogRowView, PreparedView, RowView,
};
use crate::spool::{complete_lines, record_lines, LineView};
use crate::sync::{
    is_sound, next_event, parsed_view, sync_after, with_parsed, BatchView, PhaseView, ResultView,
    StepView, SyncOptions, SyncReply, SyncView,
};
use crate::sync_laws::{batch_of, phase_fits};
use crate::text::signed_decimal;
use vstd::prelude::*;

verus! {

/// What an application answers, where `L` is what its request log may be and
/// `E` are its own errors. Prices are fixed: they do not depend on the log.
#[verifier::reject_recursive_types(L)]
#[verifier::reject_recursive_types(E)]
pub struct Host<L, E> {
    /// The event that a line holds, or why it holds none.
    pub parse: spec_fn(Seq<u8>) -> Result<EventView, Seq<char>>,
    /// Whether a proxy's request is the event's; the log is then completed.
    pub merge_proxy: spec_fn(L, DedupView) -> (L, Result<bool, E>),
    /// The requests that the log has of a thread.
    pub sessions: spec_fn(L, Seq<char>) -> Result<Seq<RowView>, Seq<char>>,
    /// The log with a request's count of reasoning tokens raised.
    pub complete: spec_fn(L, Seq<char>, u32) -> (L, Result<(), Seq<char>>),
    /// Whether the log has the event already.
    pub duplicate: spec_fn(L, Seq<char>, DedupView) -> Result<bool, E>,
    /// The texts of what a model's tokens cost.
    pub costs: spec_fn(Seq<char>, TokenUsageView) -> CostTextsView,
    /// The log with a row put in, and how many rows were.
    pub insert: spec_fn(L, LogRowView) -> (L, Result<u64, Seq<char>>),
    /// What an error is called.
    pub render: spec_fn(ErrorView<E>) -> Seq<char>,
}

/// What becomes of an event.
pub enum Outcome {
    Imported,
    Skipped,
    Failed(Seq<char>),
}

/// What is said of a line that is left out, where it is.
pub open spec fn refusal(line: LineView, event: Result<EventView, Seq<char>>) -> Option<Seq<char>> {
    match event {
        Ok(event) => match event_fault(event) {
            Some(fault) => Some(
                "Codex sidebar usage event "@ + event.event_id + " skipped: "@ + fault,
            ),
            None => None,
        },
        Err(error) => Some(
            "Codex sidebar usage JSON parse failed at byte "@ + signed_decimal(line.offset as int)
                + ": "@ + error,
        ),
    }
}

/// The events that are taken up out of lines.
pub open spec fn taken<L, E>(host: Host<L, E>, lines: Seq<LineView>) -> Seq<EventView>
    decreases lines.len(),
{
    if lines.len() == 0 {
        Seq::empty()
    } else {
        let parsed = (host.parse)(lines.first().content);
        let rest = taken(host, lines.drop_first());
        if refusal(lines.first(), parsed) is Some {
            rest
        } else {
            seq![parsed->Ok_0] + rest
        }
    }
}

/// What is said of the lines that are left out.
pub open spec fn refused<L, E>(host: Host<L, E>, lines: Seq<LineView>) -> Seq<Seq<char>>
    decreases lines.len(),
{
    if lines.len() == 0 {
        Seq::empty()
    } else {
        let rest = refused(host, lines.drop_first());
        match refusal(lines.first(), (host.parse)(lines.first().content)) {
            Some(text) => seq![text] + rest,
            None => rest,
        }
    }
}

/// A result after lines were left out.
pub open spec fn with_refusals(result: ResultView, texts: Seq<Seq<char>>) -> ResultView
    decreases texts.len(),
{
    if texts.len() == 0 {
        result
    } else {
        with_refusals(result.with_error(texts.first()), texts.drop_first())
    }
}

/// What comes of putting an event's row into the log.
pub open spec fn insert_settled<L, E>(
    host: Host<L, E>,
    log: L,
    item: ItemView,
    costs: CostTextsView,
    options: SyncOptions,
) -> (L, Outcome) {
    match (host.insert)(log, log_row_of(item, costs, options.input_token_semantics_total)) {
        (after, Ok(count)) => (
            after,
            if count > 0 {
                Outcome::Imported
            } else {
                Outcome::Skipped
            },
        ),
        (after, Err(error)) => (
            after,
            Outcome::Failed(
                (host.render)(ErrorView::Database("insert Codex sidebar usage failed: "@ + error)),
            ),
        ),
    }
}

/// What comes of an event that neither a proxy's nor a session's request
/// stands for.
pub open spec fn duplicate_settled<L, E>(
    host: Host<L, E>,
    log: L,
    item: ItemView,
    options: SyncOptions,
) -> (L, Outcome) {
    match (host.duplicate)(log, item.event_id, dedup_key_of(item)) {
        Ok(true) => (log, Outcome::Skipped),
        Ok(false) => insert_settled(
            host,
            log,
            item,
            (host.costs)(item.model, item.usage),
            options,
        ),
        Err(error) => (log, Outcome::Failed((host.render)(ErrorView::Host(error)))),
    }
}

/// What comes of completing a session's request.
pub open spec fn complete_settled<L, E>(
    host: Host<L, E>,
    log: L,
    item: ItemView,
    request_id: Seq<char>,
) -> (L, Outcome) {
    match (host.complete)(log, request_id, item.usage.reasoning_output_tokens) {
        (after, Ok(_)) => (after, Outcome::Skipped),
        (after, Err(error)) => (
            after,
            Outcome::Failed(
                (host.render)(
                    ErrorView::Database(
                        "complete matching Codex session reasoning tokens failed: "@ + error,
                    ),
                ),
            ),
        ),
    }
}

/// What comes of an event that no proxy's request stands for.
pub open spec fn session_settled<L, E>(
    host: Host<L, E>,
    log: L,
    item: ItemView,
    options: SyncOptions,
) -> (L, Outcome) {
    let window = options.dedup_window_seconds;
    match (host.sessions)(log, item.thread_id) {
        Ok(rows) => if exists|index: int| is_nearest(rows, item, window, index) {
            let row = rows[choose|index: int| is_nearest(rows, item, window, index)];
            if item.usage.reasoning_output_tokens > row.reasoning_output_tokens
                && item.usage.reasoning_output_tokens > 0 {
                complete_settled(host, log, item, row.request_id)
            } else {
                (log, Outcome::Skipped)
            }
        } else {
            duplicate_settled(host, log, item, options)
        },
        Err(error) => (
            log,
            Outcome::Failed(
                (host.render)(
                    ErrorView::Database(
                        "query matching Codex session for sidebar usage failed: "@ + error,
                    ),
                ),
            ),
        ),
    }
}

/// What comes of an event whose counts fit the log.
pub open spec fn item_settled<L, E>(
    host: Host<L, E>,
    log: L,
    item: ItemView,
    options: SyncOptions,
) -> (L, Outcome) {
    match (host.merge_proxy)(log, dedup_key_of(item)) {
        (after, Ok(true)) => (after, Outcome::Skipped),
        (after, Ok(false)) => session_settled(host, after, item, options),
        (after, Err(error)) => (after, Outcome::Failed((host.render)(ErrorView::Host(error)))),
    }
}

/// What comes of an event, where `unix` is what the system clock shows.
pub open spec fn event_settled<L, E>(
    host: Host<L, E>,
    log: L,
    event: EventView,
    options: SyncOptions,
    unix: Option<u128>,
) -> (L, Outcome) {
    match prepared(event, unix) {
        PreparedView::Invalid(text) => (
            log,
            Outcome::Failed((host.render)(ErrorView::Config(text))),
        ),
        PreparedView::NotBillable => (log, Outcome::Skipped),
        PreparedView::Ready(item) => item_settled(host, log, item, options),
    }
}

/// What comes of events one after another.
pub open spec fn events_settled<L, E>(
    host: Host<L, E>,
    log: L,
    events: Seq<EventView>,
    options: SyncOptions,
    unix: Option<u128>,
) -> (L, Seq<Outcome>)
    decreases events.len(),
{
    if events.len() == 0 {
        (log, Seq::empty())
    } else {
        let (after, outcome) = event_settled(host, log, events.first(), options, unix);
        let (last, outcomes) = events_settled(host, after, events.drop_first(), options, unix);
        (last, seq![outcome] + outcomes)
    }
}

/// A result after an event.
pub open spec fn with_outcome(
    result: ResultView,
    event: EventView,
    outcome: Outcome,
) -> ResultView {
    match outcome {
        Outcome::Imported => result.with_import(),
        Outcome::Skipped => result.with_skip(),
        Outcome::Failed(text) => result.with_error(
            "Codex sidebar event "@ + event.event_id + ": "@ + text,
        ),
    }
}

/// A result after events one after another.
pub open spec fn with_outcomes(
    result: ResultView,
    events: Seq<EventView>,
    outcomes: Seq<Outcome>,
) -> ResultView
    decreases events.len(),
{
    if events.len() == 0 || outcomes.len() == 0 {
        result
    } else {
        with_outcomes(
            with_outcome(result, events.first(), outcomes.first()),
            events.drop_first(),
            outcomes.drop_first(),
        )
    }
}

/// The log and the result after events one after another.
pub open spec fn settle<L, E>(
    host: Host<L, E>,
    log: L,
    events: Seq<EventView>,
    result: ResultView,
    options: SyncOptions,
    unix: Option<u128>,
) -> (L, ResultView) {
    let (after, outcomes) = events_settled(host, log, events, options, unix);
    (after, with_outcomes(result, events, outcomes))
}

/// The log and the result after a pass over what the spool holds from `start`
/// on.
pub open spec fn passed<L, E>(
    host: Host<L, E>,
    log: L,
    bytes: Seq<u8>,
    start: i64,
    options: SyncOptions,
    unix: Option<u128>,
) -> (L, ResultView) {
    let lines = record_lines(complete_lines(bytes), start);
    settle(
        host,
        log,
        taken(host, lines),
        with_refusals(ResultView::scanned(1), refused(host, lines)),
        options,
        unix,
    )
}

/// What comes of a step of the next event's import.
pub open spec fn step_settled<L, E>(
    host: Host<L, E>,
    log: L,
    batch: BatchView,
    step: StepView<E>,
    options: SyncOptions,
) -> (L, Outcome) {
    match step {
        StepView::MergeProxy { item } => item_settled(host, log, item, options),
        StepView::FindSession { item } => session_settled(host, log, item, options),
        StepView::CompleteReasoning { item, request_id } => complete_settled(
            host,
            log,
            item,
            request_id,
        ),
        StepView::CheckDuplicate { item } => duplicate_settled(host, log, item, options),
        StepView::FindPricing { item } => insert_settled(
            host,
            log,
            item,
            (host.costs)(item.model, item.usage),
            options,
        ),
        StepView::CalculateCost { item, slot } => insert_settled(
            host,
            log,
            item,
            (host.costs)(batch.priced[slot as int], item.usage),
            options,
        ),
        StepView::Insert { item, costs } => insert_settled(host, log, item, costs, options),
        StepView::RenderError { error } => (log, Outcome::Failed((host.render)(error))),
    }
}

/// The log and the result that an import comes to from a phase on, from the
/// reading of the spool to its good end.
pub open spec fn comes_to<L, E>(
    host: Host<L, E>,
    log: L,
    phase: PhaseView<E>,
    options: SyncOptions,
    unix: Option<u128>,
) -> Option<(L, ResultView)> {
    match phase {
        PhaseView::Parse { batch, lines, line } => {
            let left = lines.skip(line as int);
            Some(
                settle(
                    host,
                    log,
                    batch.events + taken(host, left),
                    with_refusals(batch.result, refused(host, left)),
                    options,
                    unix,
                ),
            )
        },
        PhaseView::Begin { batch } => Some(
            settle(host, log, batch.events, batch.result, options, unix),
        ),
        PhaseView::Import { batch, step } => {
            let (after, outcome) = step_settled(host, log, batch, step, options);
            Some(
                settle(
                    host,
                    after,
                    batch.events.skip(batch.next as int + 1),
                    with_outcome(batch.result, batch.events[batch.next as int], outcome),
                    options,
                    unix,
                ),
            )
        },
        PhaseView::SaveCursor { batch } => Some((log, batch.result)),
        PhaseView::Commit { batch } => Some((log, batch.result)),
        PhaseView::Finished { outcome: Ok(result) } => Some((log, result)),
        _ => None,
    }
}

/// The reply is what the host answers to a step, and `after` is what becomes of
/// the log.
pub open spec fn answers_step<L, E>(
    host: Host<L, E>,
    log: L,
    batch: BatchView,
    step: StepView<E>,
    options: SyncOptions,
    reply: SyncReply<E>,
    after: L,
) -> bool {
    match step {
        StepView::MergeProxy { item } => {
            let (merged, answer) = (host.merge_proxy)(log, dedup_key_of(item));
            &&& after == merged
            &&& match answer {
                Ok(yes) => reply == (SyncReply::<E>::Answer { yes }),
                Err(raised) => reply == (SyncReply::<E>::HostFailed { raised }),
            }
        },
        StepView::FindSession { item } => {
            &&& after == log
            &&& match (host.sessions)(log, item.thread_id) {
                Ok(views) => reply matches SyncReply::Sessions { rows } && row_views(rows@)
                    == views,
                Err(text) => reply matches SyncReply::Failed { error } && error@ == text,
            }
        },
        StepView::CompleteReasoning { item, request_id } => {
            let (completed, answer) = (host.complete)(
                log,
                request_id,
                item.usage.reasoning_output_tokens,
            );
            &&& after == completed
            &&& match answer {
                Ok(_) => reply is Done,
                Err(text) => reply matches SyncReply::Failed { error } && error@ == text,
            }
        },
        StepView::CheckDuplicate { item } => {
            &&& after == log
            &&& match (host.duplicate)(log, item.event_id, dedup_key_of(item)) {
                Ok(yes) => reply == (SyncReply::<E>::Answer { yes }),
                Err(raised) => reply == (SyncReply::<E>::HostFailed { raised }),
            }
        },
        StepView::FindPricing { item } => after == log && reply is Done,
        StepView::CalculateCost { item, slot } => {
            &&& after == log
            &&& reply matches SyncReply::Costs { costs } && cost_texts_of(costs) == (host.costs)(
                batch.priced[slot as int],
                item.usage,
            )
        },
        StepView::Insert { item, costs } => {
            let (inserted, answer) = (host.insert)(
                log,
                log_row_of(item, costs, options.input_token_semantics_total),
            );
            &&& after == inserted
            &&& match answer {
                Ok(count) => reply == (SyncReply::<E>::Inserted { count }),
                Err(text) => reply matches SyncReply::Failed { error } && error@ == text,
            }
        },
        StepView::RenderError { error } => {
            &&& after == log
            &&& reply matches SyncReply::Rendered { text } && text@ == (host.render)(error)
        },
    }
}

/// The reply is what the host answers to an action after the reading of the
/// spool, where transactions, the cursor and the commit succeed, and `after` is
/// what becomes of the log.
pub open spec fn answers<L, E>(
    host: Host<L, E>,
    log: L,
    sync: SyncView<E>,
    reply: SyncReply<E>,
    after: L,
) -> bool {
    match sync.phase {
        PhaseView::Parse { batch, lines, line } => {
            &&& after == log
            &&& reply matches SyncReply::Parsed { event } && parsed_view(event) == (host.parse)(
                lines[line as int].content,
            )
        },
        PhaseView::Begin { batch } => after == log && reply is Done,
        PhaseView::Import { batch, step } => answers_step(
            host,
            log,
            batch,
            step,
            sync.options,
            reply,
            after,
        ),
        PhaseView::SaveCursor { batch } => after == log && reply is Done,
        PhaseView::Commit { batch } => after == log && reply is Done,
        _ => false,
    }
}

/// Every event says when it was completed, so that the clock does not matter.
pub open spec fn all_timed(events: Seq<EventView>) -> bool {
    forall|i: int| 0 <= i < events.len() ==> (#[trigger] events[i]).completed_at_ms > 0
}

/// Every event that a line may hold says when it was completed.
pub open spec fn reads_timed<L, E>(host: Host<L, E>) -> bool {
    forall|content: Seq<u8>|
        (#[trigger] (host.parse)(content)) matches Ok(event) ==> event.completed_at_ms > 0
}

proof fn lemma_next_event_timed<E>(batch: BatchView, a: Option<u128>, b: Option<u128>)
    requires
        all_timed(batch.events),
    ensures
        next_event::<E>(batch, a) == next_event::<E>(batch, b),
    decreases batch.events.len() - batch.next,
{
    if batch.next < batch.events.len() {
        assert(batch.events[batch.next as int].completed_at_ms > 0);
        assert(prepared(batch.events[batch.next as int], a) == prepared(
            batch.events[batch.next as int],
            b,
        ));
        lemma_next_event_timed::<E>(batch.skipped(), a, b);
    }
}

/// What an import comes to when it takes up the next event.
proof fn lemma_next_event_comes_to<L, E>(
    host: Host<L, E>,
    log: L,
    batch: BatchView,
    options: SyncOptions,
    unix: Option<u128>,
)
    requires
        batch.next <= batch.events.len(),
    ensures
        comes_to(host, log, next_event::<E>(batch, unix), options, unix) == Some(
            settle(
                host,
                log,
                batch.events.skip(batch.next as int),
                batch.result,
                options,
                unix,
            ),
        ),
    decreases batch.events.len() - batch.next,
{
    let left = batch.events.skip(batch.next as int);
    if batch.next < batch.events.len() {
        let event = batch.events[batch.next as int];
        let rest = batch.events.skip(batch.next as int + 1);
        assert(left.first() == event);
        assert(left.drop_first() =~= rest);
        let (after, outcome) = event_settled(host, log, event, options, unix);
        let (last, outcomes) = events_settled(host, after, rest, options, unix);
        let all = seq![outcome] + outcomes;
        assert(all.first() == outcome);
        assert(all.drop_first() =~= outcomes);
        if prepared(event, unix) is NotBillable {
            lemma_next_event_comes_to(host, log, batch.skipped(), options, unix);
        }
    } else {
        assert(left.len() == 0);
    }
}

/// Every step of an import keeps to what it comes to: with the host's answers,
/// the log and the result at the end are those that are fixed by the log at the
/// beginning. The clock matters only for events that do not say when they were
/// completed.
pub proof fn law_steps_keep_to_what_an_import_comes_to<L, E>(
    host: Host<L, E>,
    log: L,
    sync: SyncView<E>,
    reply: SyncReply<E>,
    reading: Option<u128>,
    after: L,
    unix: Option<u128>,
)
    requires
        is_sound(sync),
        phase_fits(sync.phase),
        answers(host, log, sync, reply, after),
        reading == unix || (batch_of(sync.phase) matches Some(batch) && all_timed(batch.events)),
    ensures
        comes_to(host, after, sync_after(sync, reply, reading).phase, sync.options, unix)
            == comes_to(host, log, sync.phase, sync.options, unix),
{
    let options = sync.options;
    match sync.phase {
        PhaseView::Parse { batch, lines, line } => {
            let left = lines.skip(line as int);
            let rest = lines.skip(line as int + 1);
            assert(left.first() == lines[line as int]);
            assert(left.drop_first() =~= rest);
            let parsed = (host.parse)(lines[line as int].content);
            let next = with_parsed(batch, lines[line as int], parsed);
            match refusal(lines[line as int], parsed) {
                Some(text) => {
                    let texts = seq![text] + refused(host, rest);
                    assert(texts.first() == text);
                    assert(texts.drop_first() =~= refused(host, rest));
                    assert(refused(host, left) == texts);
                    assert(taken(host, left) == taken(host, rest));
                    assert(next.result == batch.result.with_error(text));
                    assert(with_refusals(batch.result, texts) == with_refusals(
                        next.result,
                        refused(host, rest),
                    ));
                },
                None => {
                    let event = parsed->Ok_0;
                    assert(refused(host, left) == refused(host, rest));
                    assert(taken(host, left) == seq![event] + taken(host, rest));
                    assert(batch.events + (seq![event] + taken(host, rest)) =~= batch.events.push(
                        event,
                    ) + taken(host, rest));
                },
            }
            if line + 1 == lines.len() {
                assert(rest.len() == 0);
                assert(next.events + taken(host, rest) =~= next.events);
                assert(with_refusals(next.result, refused(host, rest)) == next.result);
            }
        },
        PhaseView::Begin { batch } => {
            if reading != unix {
                lemma_next_event_timed::<E>(batch, reading, unix);
            }
            lemma_next_event_comes_to(host, log, batch, options, unix);
            assert(batch.events.skip(0) =~= batch.events);
        },
        PhaseView::Import { batch, step } => {
            lemma_step_keeps(host, log, sync, batch, step, reply, reading, after, unix);
        },
        _ => {},
    }
}

proof fn lemma_step_keeps<L, E>(
    host: Host<L, E>,
    log: L,
    sync: SyncView<E>,
    batch: BatchView,
    step: StepView<E>,
    reply: SyncReply<E>,
    reading: Option<u128>,
    after: L,
    unix: Option<u128>,
)
    requires
        sync.phase == (PhaseView::<E>::Import { batch, step }),
        is_sound(sync),
        phase_fits(sync.phase),
        answers_step(host, log, batch, step, sync.options, reply, after),
        reading == unix || all_timed(batch.events),
    ensures
        comes_to(host, after, sync_after(sync, reply, reading).phase, sync.options, unix)
            == comes_to(host, log, sync.phase, sync.options, unix),
{
    let options = sync.options;
    let skipped = batch.skipped();
    let imported = batch.imported();
    if reading != unix {
        lemma_next_event_timed::<E>(skipped, reading, unix);
        lemma_next_event_timed::<E>(imported, reading, unix);
    }
    lemma_next_event_comes_to(host, after, skipped, options, unix);
    lemma_next_event_comes_to(host, after, imported, options, unix);
    match step {
        StepView::CheckDuplicate { item } => {
            if batch.priced.contains(item.model) {
                batch.priced.index_of_first_ensures(item.model);
            }
        },
        StepView::RenderError { error } => {
            let failed = batch.failed((host.render)(error));
            if reading != unix {
                lemma_next_event_timed::<E>(failed, reading, unix);
            }
            lemma_next_event_comes_to(host, after, failed, options, unix);
        },
        _ => {},
    }
}

} // verus!
