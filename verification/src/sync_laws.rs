//! Laws of the import: what holds of every step, and so of every import.

use crate::bridge::{after_server_message, StateView};
use crate::clock::Moment;
use crate::event::{event_fault, log_counts, oversized_count, EventView, SidebarTokenUsage};
use crate::import::{is_nearest, is_same_request, prepared, ItemView, PreparedView, RowView};
use crate::json::JsonView;
use crate::record::{RecordView, UsageRecordView, EVENT_ID_PREFIX};
use crate::spool::{complete_lines, record_lines};
use crate::sync::{
    action_of, after_read, after_recall, after_sessions, finished, is_sound, next_event,
    parsed_view, read_offset, sync_after, with_parsed, BatchView, PhaseView, ResultView, StepView,
    SyncReply, SyncView,
};
use crate::text::{has_prefix, is_blank};
use vstd::prelude::*;

verus! {

/// How many events were imported or left out.
pub open spec fn settled(result: ResultView) -> int {
    result.imported + result.skipped
}

/// Every error is about something that was left out.
pub open spec fn errors_are_skips(result: ResultView) -> bool {
    result.errors.len() <= result.skipped
}

/// The lines that a pass found, `total` in number, are each imported, left out,
/// or still to be dealt with.
pub open spec fn accounts_for<E>(phase: PhaseView<E>, total: nat) -> bool {
    match phase {
        PhaseView::Parse { batch, lines, line } => {
            &&& lines.len() == total
            &&& settled(batch.result) + batch.events.len() == line
            &&& errors_are_skips(batch.result)
        },
        PhaseView::Begin { batch } => {
            &&& settled(batch.result) + batch.events.len() == total
            &&& errors_are_skips(batch.result)
        },
        PhaseView::Import { batch, step } => batch_accounts_for(batch, total),
        PhaseView::SaveCursor { batch } => batch_accounts_for(batch, total) && batch.next
            == batch.events.len(),
        PhaseView::Commit { batch } => batch_accounts_for(batch, total) && batch.next
            == batch.events.len(),
        PhaseView::Finished { outcome: Ok(result) } => settled(result) == total
            && errors_are_skips(result),
        PhaseView::Finished { outcome: Err(_) } => true,
        _ => false,
    }
}

/// The lines that a pass found are each imported, left out, or among the events
/// from the next one on.
pub open spec fn batch_accounts_for(batch: BatchView, total: nat) -> bool {
    &&& batch.next <= batch.events.len()
    &&& settled(batch.result) + (batch.events.len() - batch.next) == total
    &&& errors_are_skips(batch.result)
}

/// A pass over the spool begins with every line that it found still to be dealt
/// with.
pub proof fn law_a_pass_accounts_for_its_lines<E>(modified: i64, start_offset: i64, bytes: Seq<u8>)
    ensures
        accounts_for(
            after_read::<E>(modified, start_offset, bytes),
            record_lines(complete_lines(bytes), start_offset).len(),
        ),
{
}

proof fn lemma_next_event_accounts<E>(batch: BatchView, unix: Option<u128>, total: nat)
    requires
        batch_accounts_for(batch, total),
        total <= u32::MAX,
    ensures
        accounts_for(next_event::<E>(batch, unix), total),
    decreases batch.events.len() - batch.next,
{
    if batch.next < batch.events.len() {
        if prepared(batch.events[batch.next as int], unix) is NotBillable {
            lemma_next_event_accounts::<E>(batch.skipped(), unix, total);
        }
    }
}

/// No line gets lost and none counts twice: after every step, each line of the
/// pass is imported, left out, or still to be dealt with, and at the end the
/// counts of imported and left-out events add up to the lines. (The counts have
/// 32 bits: the law ends where they do.)
pub proof fn law_every_line_is_accounted_for<E>(
    sync: SyncView<E>,
    reply: SyncReply<E>,
    unix: Option<u128>,
    total: nat,
)
    requires
        is_sound(sync),
        accounts_for(sync.phase, total),
        total <= u32::MAX,
    ensures
        accounts_for(sync_after(sync, reply, unix).phase, total),
{
    match sync.phase {
        PhaseView::Begin { batch } => {
            lemma_next_event_accounts::<E>(batch, unix, total);
        },
        PhaseView::Import { batch, step } => {
            lemma_next_event_accounts::<E>(batch.skipped(), unix, total);
            lemma_next_event_accounts::<E>(batch.imported(), unix, total);
            match reply {
                SyncReply::Rendered { text } => {
                    lemma_next_event_accounts::<E>(batch.failed(text@), unix, total);
                },
                _ => {},
            }
        },
        _ => {},
    }
}

/// The events of an import, from the reading of the spool to the commit.
pub open spec fn batch_of<E>(phase: PhaseView<E>) -> Option<BatchView> {
    match phase {
        PhaseView::Parse { batch, lines, line } => Some(batch),
        PhaseView::Begin { batch } => Some(batch),
        PhaseView::Import { batch, step } => Some(batch),
        PhaseView::SaveCursor { batch } => Some(batch),
        PhaseView::Commit { batch } => Some(batch),
        _ => None,
    }
}

proof fn lemma_next_event_keeps<E>(batch: BatchView, unix: Option<u128>)
    ensures
        batch_of(next_event::<E>(batch, unix)) matches Some(after) && after.modified == batch.modified
            && after.processed_offset == batch.processed_offset && after.events == batch.events
            && after.priced == batch.priced && after.result.imported == batch.result.imported
            && after.result.errors == batch.result.errors && batch.next <= after.next,
    decreases batch.events.len() - batch.next,
{
    if batch.next < batch.events.len() {
        if prepared(batch.events[batch.next as int], unix) is NotBillable {
            lemma_next_event_keeps::<E>(batch.skipped(), unix);
        }
    }
}

/// The cursor that is saved is the one that the reading of the spool gave:
/// nothing that comes between moves it.
pub proof fn law_the_cursor_stays<E>(sync: SyncView<E>, reply: SyncReply<E>, unix: Option<u128>)
    requires
        is_sound(sync),
        batch_of(sync.phase) is Some,
    ensures
        batch_of(sync_after(sync, reply, unix).phase) matches Some(after) ==> batch_of(
            sync.phase,
        ) matches Some(before) && after.modified == before.modified && after.processed_offset
            == before.processed_offset,
{
    lemma_imports_and_cursor(sync, reply, unix);
}

/// What a step does to a batch.
proof fn lemma_imports_and_cursor<E>(sync: SyncView<E>, reply: SyncReply<E>, unix: Option<u128>)
    requires
        is_sound(sync),
        batch_of(sync.phase) is Some,
    ensures
        batch_of(sync_after(sync, reply, unix).phase) matches Some(after) ==> batch_of(
            sync.phase,
        ) matches Some(before) && {
            &&& after.modified == before.modified
            &&& after.processed_offset == before.processed_offset
            &&& after.result.imported != before.result.imported ==> {
                &&& sync.phase matches PhaseView::Import { batch, step }
                &&& step is Insert
                &&& reply matches SyncReply::Inserted { count }
                &&& count > 0
            }
        },
{
    match sync.phase {
        PhaseView::Begin { batch } => {
            lemma_next_event_keeps::<E>(batch, unix);
        },
        PhaseView::Import { batch, step } => {
            lemma_next_event_keeps::<E>(batch.skipped(), unix);
            lemma_next_event_keeps::<E>(batch.imported(), unix);
            match reply {
                SyncReply::Rendered { text } => {
                    lemma_next_event_keeps::<E>(batch.failed(text@), unix);
                },
                _ => {},
            }
        },
        _ => {},
    }
}

/// An event counts as imported only where the log took a new row for it: an
/// event whose row is there already is not imported again.
pub proof fn law_only_new_rows_count_as_imported<E>(
    sync: SyncView<E>,
    reply: SyncReply<E>,
    unix: Option<u128>,
    before: BatchView,
    after: BatchView,
)
    requires
        is_sound(sync),
        batch_of(sync.phase) == Some(before),
        batch_of(sync_after(sync, reply, unix).phase) == Some(after),
        after.result.imported != before.result.imported,
    ensures
        action_of(sync) is InsertRow,
        reply matches SyncReply::Inserted { count } && count > 0,
{
    lemma_imports_and_cursor(sync, reply, unix);
}

/// An event goes to the log once: the import takes the events in their order,
/// and once the log has answered for an event's row, the event does not come up
/// again.
pub proof fn law_an_event_goes_to_the_log_once<E>(
    sync: SyncView<E>,
    reply: SyncReply<E>,
    unix: Option<u128>,
    before: BatchView,
    after: BatchView,
)
    requires
        is_sound(sync),
        !(sync.phase is Parse),
        batch_of(sync.phase) == Some(before),
        batch_of(sync_after(sync, reply, unix).phase) == Some(after),
    ensures
        after.events == before.events,
        before.next <= after.next,
        action_of(sync) is InsertRow && reply is Inserted ==> before.next < after.next,
{
    match sync.phase {
        PhaseView::Begin { batch } => {
            lemma_next_event_keeps::<E>(batch, unix);
        },
        PhaseView::Import { batch, step } => {
            lemma_next_event_keeps::<E>(batch.skipped(), unix);
            lemma_next_event_keeps::<E>(batch.imported(), unix);
            match reply {
                SyncReply::Rendered { text } => {
                    lemma_next_event_keeps::<E>(batch.failed(text@), unix);
                },
                _ => {},
            }
        },
        _ => {},
    }
}

/// How many phases may still follow.
pub open spec fn phases_left<E>(phase: PhaseView<E>) -> nat {
    match phase {
        PhaseView::Locate => 8,
        PhaseView::Recall { modified, file_len } => 7,
        PhaseView::Read { modified, start_offset } => 6,
        PhaseView::Parse { batch, lines, line } => 5,
        PhaseView::Begin { batch } => 4,
        PhaseView::Import { batch, step } => 3,
        PhaseView::SaveCursor { batch } => 2,
        PhaseView::Commit { batch } => 1,
        PhaseView::Finished { outcome } => 0,
    }
}

/// How many lines or events the phase has still to deal with.
pub open spec fn items_left<E>(phase: PhaseView<E>) -> int {
    match phase {
        PhaseView::Parse { batch, lines, line } => lines.len() - line,
        PhaseView::Import { batch, step } => batch.events.len() - batch.next,
        _ => 0,
    }
}

/// How many steps may still follow for the event that is next.
pub open spec fn steps_left<E>(phase: PhaseView<E>) -> nat {
    match phase {
        PhaseView::Import { batch, step } => match step {
            StepView::MergeProxy { item } => 7,
            StepView::FindSession { item } => 6,
            StepView::CheckDuplicate { item } => 5,
            StepView::FindPricing { item } => 4,
            StepView::CalculateCost { item, slot } => 3,
            StepView::Insert { item, costs } => 2,
            StepView::CompleteReasoning { item, request_id } => 2,
            StepView::RenderError { error } => 1,
        },
        _ => 0,
    }
}

/// The import ends: every reply that moves it on brings it nearer to its end,
/// by a phase, or by a line or an event within the phase, or by a step for the
/// same event.
pub proof fn law_the_import_ends<E>(sync: SyncView<E>, reply: SyncReply<E>, unix: Option<u128>)
    requires
        is_sound(sync),
        sync_after(sync, reply, unix).phase != sync.phase,
    ensures
        ({
            let after = sync_after(sync, reply, unix).phase;
            decreases_to!(
                phases_left(sync.phase), items_left(sync.phase), steps_left(sync.phase) =>
                phases_left(after), items_left(after), steps_left(after)
            )
        }),
{
    match sync.phase {
        PhaseView::Begin { batch } => {
            lemma_next_event_keeps::<E>(batch, unix);
            lemma_next_event_kind::<E>(batch, unix);
        },
        PhaseView::Import { batch, step } => {
            lemma_next_event_nearer::<E>(batch, batch.skipped(), unix);
            lemma_next_event_nearer::<E>(batch, batch.imported(), unix);
            match reply {
                SyncReply::Rendered { text } => {
                    lemma_next_event_nearer::<E>(batch, batch.failed(text@), unix);
                },
                _ => {},
            }
        },
        _ => {},
    }
}

/// Taking up a later event brings the import nearer to its end.
proof fn lemma_next_event_nearer<E>(batch: BatchView, later: BatchView, unix: Option<u128>)
    requires
        later.events == batch.events,
        batch.next < later.next <= batch.events.len(),
    ensures
        next_event::<E>(later, unix) is Import || next_event::<E>(later, unix) is SaveCursor,
        next_event::<E>(later, unix) is Import ==> 0 <= items_left(next_event::<E>(later, unix))
            < batch.events.len() - batch.next,
    decreases later.events.len() - later.next,
{
    if later.next < later.events.len() {
        if prepared(later.events[later.next as int], unix) is NotBillable {
            lemma_next_event_nearer::<E>(batch, later.skipped(), unix);
        }
    }
}

/// The commit comes after the cursor was saved, with the same batch, and an
/// import that has read the spool succeeds only by its commit: a failed commit
/// cannot leave the cursor ahead of the imported rows.
pub proof fn law_the_cursor_is_committed_with_the_rows<E>(
    sync: SyncView<E>,
    reply: SyncReply<E>,
    unix: Option<u128>,
)
    requires
        is_sound(sync),
    ensures
        sync_after(sync, reply, unix).phase matches PhaseView::Commit { batch } ==> {
            ||| sync.phase == (PhaseView::<E>::SaveCursor { batch }) && reply is Done
            ||| sync.phase == (PhaseView::<E>::Commit { batch }) && !(reply is Done)
        },
        sync_after(sync, reply, unix).phase matches PhaseView::Finished { outcome: Ok(result) }
            ==> batch_of(sync.phase) is Some ==> {
            &&& sync.phase matches PhaseView::Commit { batch }
            &&& reply is Done
            &&& result == batch.result
        },
        sync.phase is Commit && reply is Failed ==> sync_after(
            sync,
            reply,
            unix,
        ).phase matches PhaseView::Finished { outcome: Err(_) },
{
    match sync.phase {
        PhaseView::Begin { batch } => {
            lemma_next_event_keeps::<E>(batch, unix);
            lemma_next_event_kind::<E>(batch, unix);
        },
        PhaseView::Import { batch, step } => {
            lemma_next_event_kind::<E>(batch.skipped(), unix);
            lemma_next_event_kind::<E>(batch.imported(), unix);
            match reply {
                SyncReply::Rendered { text } => {
                    lemma_next_event_kind::<E>(batch.failed(text@), unix);
                },
                _ => {},
            }
        },
        _ => {},
    }
}

proof fn lemma_next_event_kind<E>(batch: BatchView, unix: Option<u128>)
    ensures
        next_event::<E>(batch, unix) is Import || next_event::<E>(batch, unix) is SaveCursor,
    decreases batch.events.len() - batch.next,
{
    if batch.next < batch.events.len() {
        if prepared(batch.events[batch.next as int], unix) is NotBillable {
            lemma_next_event_kind::<E>(batch.skipped(), unix);
        }
    }
}

/// What a step is about, where it is about an item.
pub open spec fn item_in<E>(step: StepView<E>) -> Option<ItemView> {
    match step {
        StepView::MergeProxy { item } => Some(item),
        StepView::FindSession { item } => Some(item),
        StepView::CompleteReasoning { item, request_id } => Some(item),
        StepView::CheckDuplicate { item } => Some(item),
        StepView::FindPricing { item } => Some(item),
        StepView::CalculateCost { item, slot } => Some(item),
        StepView::Insert { item, costs } => Some(item),
        StepView::RenderError { error } => None,
    }
}

/// The item is what the log is to say of the event.
pub open spec fn comes_from(item: ItemView, event: EventView) -> bool {
    exists|unix: Option<u128>| #[trigger] prepared(event, unix) == PreparedView::Ready(item)
}

/// The step is about the batch's next event, and its prices are those of its
/// model, looked up once.
pub open spec fn step_fits<E>(batch: BatchView, step: StepView<E>) -> bool {
    &&& item_in(step) matches Some(item) ==> comes_from(item, batch.events[batch.next as int])
    &&& step matches StepView::FindPricing { item } ==> !batch.priced.contains(item.model)
    &&& step matches StepView::CalculateCost { item, slot } ==> slot < batch.priced.len()
        && batch.priced[slot as int] == item.model
}

/// The batch holds valid events, and no model was priced twice.
pub open spec fn batch_fits(batch: BatchView) -> bool {
    &&& forall|i: int|
        0 <= i < batch.events.len() ==> event_fault(#[trigger] batch.events[i]) is None
    &&& batch.priced.no_duplicates()
}

/// What holds of every phase of an import.
pub open spec fn phase_fits<E>(phase: PhaseView<E>) -> bool {
    &&& batch_of(phase) matches Some(batch) ==> batch_fits(batch)
    &&& phase matches PhaseView::Import { batch, step } ==> batch.next < batch.events.len()
        && step_fits(batch, step)
}

proof fn lemma_next_event_fits<E>(batch: BatchView, unix: Option<u128>)
    requires
        batch_fits(batch),
    ensures
        phase_fits(next_event::<E>(batch, unix)),
    decreases batch.events.len() - batch.next,
{
    if batch.next < batch.events.len() {
        match prepared(batch.events[batch.next as int], unix) {
            PreparedView::NotBillable => {
                lemma_next_event_fits::<E>(batch.skipped(), unix);
            },
            PreparedView::Ready(item) => {
                assert(comes_from(item, batch.events[batch.next as int]));
            },
            PreparedView::Invalid(_) => {},
        }
    }
}

/// An import begins as it goes on.
pub proof fn law_imports_begin_in_step<E>(modified: i64, start_offset: i64, bytes: Seq<u8>)
    ensures
        phase_fits(PhaseView::<E>::Locate),
        phase_fits(after_read::<E>(modified, start_offset, bytes)),
{
}

/// After every step: the events of the batch are valid, what the log is asked
/// is about the next of them, and the prices of a model are looked up once.
pub proof fn law_imports_stay_in_step<E>(sync: SyncView<E>, reply: SyncReply<E>, unix: Option<u128>)
    requires
        is_sound(sync),
        phase_fits(sync.phase),
    ensures
        phase_fits(sync_after(sync, reply, unix).phase),
{
    match sync.phase {
        PhaseView::Parse { batch, lines, line } => {
            match reply {
                SyncReply::Parsed { event } => {
                    let after = with_parsed(batch, lines[line as int], parsed_view(event));
                    assert forall|i: int| 0 <= i < after.events.len() implies event_fault(
                        #[trigger] after.events[i],
                    ) is None by {
                        if i < batch.events.len() {
                            assert(after.events[i] == batch.events[i]);
                        }
                    }
                },
                _ => {},
            }
        },
        PhaseView::Begin { batch } => {
            lemma_next_event_fits::<E>(batch, unix);
        },
        PhaseView::Import { batch, step } => {
            lemma_next_event_fits::<E>(batch.skipped(), unix);
            lemma_next_event_fits::<E>(batch.imported(), unix);
            match reply {
                SyncReply::Rendered { text } => {
                    lemma_next_event_fits::<E>(batch.failed(text@), unix);
                },
                _ => {},
            }
            match step {
                StepView::CheckDuplicate { item } => {
                    if batch.priced.contains(item.model) {
                        batch.priced.index_of_first_ensures(item.model);
                    }
                },
                StepView::FindPricing { item } => {
                    let priced = batch.priced.push(item.model);
                    assert(priced.no_duplicates()) by {
                        assert forall|i: int, j: int|
                            0 <= i < priced.len() && 0 <= j < priced.len() && i
                                != j implies priced[i] != priced[j] by {
                            if i == batch.priced.len() {
                                assert(batch.priced.contains(batch.priced[j]));
                            }
                            if j == batch.priced.len() {
                                assert(batch.priced.contains(batch.priced[i]));
                            }
                        }
                    }
                },
                _ => {},
            }
        },
        _ => {},
    }
}

/// A row that goes into the log says what a valid event says, and nothing is
/// estimated: its counts are the event's counts, some of them above zero.
pub proof fn law_rows_say_what_events_say<E>(sync: SyncView<E>)
    requires
        phase_fits(sync.phase),
        action_of(sync) is InsertRow,
    ensures
        ({
            let row = action_of(sync)->row;
            &&& batch_of(sync.phase) matches Some(batch)
            &&& {
                let event = batch.events[batch.next as int];
                &&& event_fault(event) is None
                &&& row.request_id == event.event_id
                &&& row.session_id == event.thread_id
                &&& row.input_tokens == event.usage.input_tokens
                &&& row.output_tokens == event.usage.output_tokens
                &&& row.reasoning_output_tokens == event.usage.reasoning_output_tokens
                &&& row.cache_read_tokens == event.usage.cached_input_tokens
                &&& row.cache_creation_tokens == event.usage.cache_write_input_tokens
                &&& log_counts(event).is_billable()
            }
        }),
{
    if let PhaseView::Import { batch, step } = sync.phase {
        let event = batch.events[batch.next as int];
        let item = item_in(step).unwrap();
        let unix = choose|unix: Option<u128>| #[trigger]
            prepared(event, unix) == PreparedView::Ready(item);
        assert(prepared(event, unix) == PreparedView::Ready(item));
        assert(oversized_count(event.usage) is None);
    }
}

/// Where the log has the event's own request already, that request wins: the
/// event is left out. The request gets the event's count of reasoning tokens
/// exactly where the log has none and the event has some.
pub proof fn law_a_matching_session_wins<E>(
    batch: BatchView,
    item: ItemView,
    rows: Seq<RowView>,
    window: i64,
    unix: Option<u128>,
    index: int,
)
    requires
        is_nearest(rows, item, window, index),
    ensures
        after_sessions::<E>(batch, item, rows, window, unix) == (if rows[index].reasoning_output_tokens
            == 0 && item.usage.reasoning_output_tokens > 0 {
            PhaseView::Import {
                batch,
                step: StepView::CompleteReasoning { item, request_id: rows[index].request_id },
            }
        } else {
            next_event::<E>(batch.skipped(), unix)
        }),
{
    let chosen = choose|i: int| is_nearest(rows, item, window, i);
    assert(is_same_request(rows[chosen], item, window));
    assert(is_same_request(rows[index], item, window));
    assert(chosen == index);
}

/// A request whose missing count is being filled in stands for the event: once
/// that is done, the event is left out.
pub proof fn law_a_completed_session_wins<E>(
    sync: SyncView<E>,
    reply: SyncReply<E>,
    unix: Option<u128>,
    batch: BatchView,
    item: ItemView,
    request_id: Seq<char>,
)
    requires
        sync.phase == (PhaseView::<E>::Import {
            batch,
            step: StepView::CompleteReasoning { item, request_id },
        }),
        reply is Done,
    ensures
        sync_after(sync, reply, unix).phase == next_event::<E>(batch.skipped(), unix),
{
}

/// A proxy's request that is the event's wins: the event is left out.
pub proof fn law_a_matching_proxy_wins<E>(
    sync: SyncView<E>,
    reply: SyncReply<E>,
    unix: Option<u128>,
    batch: BatchView,
    item: ItemView,
)
    requires
        sync.phase == (PhaseView::<E>::Import { batch, step: StepView::MergeProxy { item } }),
        reply == (SyncReply::<E>::Answer { yes: true }),
    ensures
        sync_after(sync, reply, unix).phase == next_event::<E>(batch.skipped(), unix),
{
}

/// A spool that has not changed since an import ended at its end is not read
/// again.
pub proof fn law_an_unchanged_spool_is_not_read_again<E>(modified: i64, file_len: i64)
    ensures
        after_recall::<E>(modified, file_len, modified, file_len) == finished::<E>(
            Ok(ResultView::scanned(1)),
        ),
{
}

/// Reading begins within the spool, at the saved cursor where that lies within
/// it.
pub proof fn law_reading_begins_within_the_spool(saved_offset: i64, file_len: i64)
    requires
        file_len >= 0,
    ensures
        0 <= read_offset(saved_offset, file_len) <= file_len,
        0 <= saved_offset <= file_len ==> read_offset(saved_offset, file_len) == saved_offset,
{
}

/// The event that a usage record is to the import.
pub open spec fn event_of(record: UsageRecordView) -> EventView {
    EventView {
        schema_version: record.schema_version,
        event_id: record.event_id,
        thread_id: record.thread_id,
        turn_id: record.turn_id,
        model: record.model,
        completed_at_ms: record.completed_at_ms,
        usage: SidebarTokenUsage {
            input_tokens: record.usage.input_tokens,
            cached_input_tokens: record.usage.cached_input_tokens,
            cache_write_input_tokens: record.usage.cache_write_input_tokens,
            output_tokens: record.usage.output_tokens,
            reasoning_output_tokens: record.usage.reasoning_output_tokens,
            total_tokens: record.usage.total_tokens,
        },
    }
}

/// The import takes what the bridge records: every usage record, where its
/// thread and its turn have names that are not blank, is a valid event, and it
/// goes to the log unless a count is too large for that.
pub proof fn law_the_import_takes_what_the_bridge_records(
    state: StateView,
    message: JsonView,
    key: Option<Seq<char>>,
    now: Moment,
    record: UsageRecordView,
    unix: Option<u128>,
)
    requires
        after_server_message(state, message, key, now).1 == Some(RecordView::Usage(record)),
        !is_blank(record.thread_id),
        !is_blank(record.turn_id),
    ensures
        event_fault(event_of(record)) is None,
        oversized_count(event_of(record).usage) is None ==> prepared(
            event_of(record),
            unix,
        ) is Ready,
{
    let id = record.event_id;
    assert(id.subrange(0, EVENT_ID_PREFIX@.len() as int) =~= EVENT_ID_PREFIX@);
    assert(has_prefix(id, EVENT_ID_PREFIX@));
}

} // verus!
