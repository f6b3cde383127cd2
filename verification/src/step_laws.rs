//! Laws of single steps of an import: what follows from each reply.

use crate::event::{event_fault, EventView};
use crate::import::ErrorView;
use crate::spool::LineView;
use crate::sync::{
    action_of, parsed_view, sync_after, ActionView, BatchView, PhaseView, ResultView, StepView,
    SyncReply, SyncView,
};
use crate::text::signed_decimal;
use vstd::prelude::*;

verus! {

/// The import is over and has succeeded: `files` files were looked at, and
/// nothing was done.
pub open spec fn ended_idle<E>(sync: SyncView<E>, files: u32) -> bool {
    &&& action_of(sync) is Finish
    &&& sync.phase matches PhaseView::Finished { outcome: Ok(result) } && result.imported == 0
        && result.skipped == 0 && result.files_scanned == files && result.errors.len() == 0
}

/// The import is over and has failed with the error.
pub open spec fn ended_with<E>(sync: SyncView<E>, error: ErrorView<E>) -> bool {
    &&& action_of(sync) is Finish
    &&& sync.phase == (PhaseView::<E>::Finished { outcome: Err(error) })
}

/// The path and the options of an import never change.
pub proof fn law_path_and_options_stay<E>(
    sync: SyncView<E>,
    reply: SyncReply<E>,
    unix: Option<u128>,
)
    ensures
        sync_after(sync, reply, unix).path == sync.path,
        sync_after(sync, reply, unix).options == sync.options,
{
}

/// Looking for the spool: without one there is nothing to do. With one, its
/// length, as far as the cursor can count, and the time of its last change are
/// kept, and the state of the last import is looked up.
pub proof fn law_the_spool_is_looked_for<E>(
    sync: SyncView<E>,
    reply: SyncReply<E>,
    unix: Option<u128>,
)
    requires
        sync.phase is Locate,
    ensures
        action_of(sync) is LocateSpool,
        ({
            let after = sync_after(sync, reply, unix);
            match reply {
                SyncReply::NotAFile => ended_idle(after, 0),
                SyncReply::FileStatus { modified, len } => {
                    &&& action_of(after) is RecallState
                    &&& after.phase matches PhaseView::Recall { modified: m, file_len } && m
                        == modified && (len <= i64::MAX ==> file_len == len) && (len > i64::MAX
                        ==> file_len == i64::MAX)
                },
                SyncReply::Failed { error } => ended_with(
                    after,
                    ErrorView::Config(
                        "read Codex sidebar usage metadata failed "@ + sync.path + ": "@ + error@,
                    ),
                ),
                _ => after.phase == sync.phase,
            }
        }),
{
}

/// Knowing the state of the last import: a spool that has not changed and was
/// read to its end is left alone. Otherwise reading begins where the last import
/// ended, or at the beginning where that lies outside the spool.
pub proof fn law_reading_begins_at_the_cursor<E>(
    sync: SyncView<E>,
    modified: i64,
    file_len: i64,
    reply: SyncReply<E>,
    unix: Option<u128>,
)
    requires
        sync.phase == (PhaseView::<E>::Recall { modified, file_len }),
    ensures
        ({
            let after = sync_after(sync, reply, unix);
            match reply {
                SyncReply::SyncState { last_modified, saved_offset } => {
                    if last_modified == modified && saved_offset == file_len {
                        ended_idle(after, 1)
                    } else {
                        &&& after.phase matches PhaseView::Read { modified: m, start_offset } && m
                            == modified && action_of(after) == (ActionView::<E>::ReadSpool {
                            offset: start_offset,
                        }) && (0 <= saved_offset <= file_len ==> start_offset == saved_offset) && (
                        saved_offset < 0 || saved_offset > file_len ==> start_offset == 0)
                    }
                },
                SyncReply::HostFailed { raised } => ended_with(after, ErrorView::Host(raised)),
                _ => after.phase == sync.phase,
            }
        }),
{
}

/// A spool that cannot be opened, searched or read ends the import with what the
/// system said.
pub proof fn law_an_unreadable_spool_ends_the_import<E>(
    sync: SyncView<E>,
    reply: SyncReply<E>,
    unix: Option<u128>,
)
    requires
        sync.phase is Read,
        !(reply is Spool),
    ensures
        ({
            let after = sync_after(sync, reply, unix);
            match reply {
                SyncReply::OpenFailed { error } => ended_with(
                    after,
                    ErrorView::Config(
                        "open Codex sidebar usage failed "@ + sync.path + ": "@ + error@,
                    ),
                ),
                SyncReply::SeekFailed { error } => ended_with(
                    after,
                    ErrorView::Config(
                        "seek Codex sidebar usage failed "@ + sync.path + ": "@ + error@,
                    ),
                ),
                SyncReply::Failed { error } => ended_with(
                    after,
                    ErrorView::Config(
                        "read Codex sidebar usage failed "@ + sync.path + ": "@ + error@,
                    ),
                ),
                _ => after.phase == sync.phase,
            }
        }),
{
}

/// One more was left out, for the reason that the text gives; nothing else has
/// changed.
pub open spec fn told_of(before: ResultView, after: ResultView, text: Seq<char>) -> bool {
    &&& after.imported == before.imported
    &&& before.skipped < u32::MAX ==> after.skipped == before.skipped + 1
    &&& before.skipped == u32::MAX ==> after.skipped == u32::MAX
    &&& after.files_scanned == before.files_scanned
    &&& after.errors == before.errors.push(text)
}

/// The batch that a phase is about, before the import of events begins.
pub open spec fn reading<E>(phase: PhaseView<E>, batch: BatchView) -> bool {
    ||| phase matches PhaseView::Parse { batch: b, lines, line } && b == batch
    ||| phase matches PhaseView::Begin { batch: b } && b == batch
}

/// Parsing a line: its content is what is parsed; an event that is valid joins
/// the others at their end; anything else is left out and told of, an unreadable
/// line with the place where it stands. The next line comes next, and behind the
/// last the transaction.
pub proof fn law_lines_become_events<E>(
    sync: SyncView<E>,
    batch: BatchView,
    lines: Seq<LineView>,
    line: nat,
    reply: SyncReply<E>,
    parsed: Result<EventView, Seq<char>>,
    unix: Option<u128>,
) -> (after: BatchView)
    requires
        sync.phase == (PhaseView::<E>::Parse { batch, lines, line }),
        line < lines.len(),
        reply matches SyncReply::Parsed { event } && parsed_view(event) == parsed,
    ensures
        action_of(sync) == (ActionView::<E>::ParseLine { content: lines[line as int].content }),
        reading(sync_after(sync, reply, unix).phase, after),
        line + 1 < lines.len() ==> action_of(sync_after(sync, reply, unix)) == (ActionView::<
            E,
        >::ParseLine { content: lines[line as int + 1].content }),
        line + 1 == lines.len() ==> action_of(sync_after(sync, reply, unix)) is BeginTransaction,
        after.modified == batch.modified,
        after.processed_offset == batch.processed_offset,
        after.next == batch.next,
        after.priced == batch.priced,
        match parsed {
            Ok(event) => match event_fault(event) {
                None => after.events == batch.events.push(event) && after.result == batch.result,
                Some(fault) => after.events == batch.events && told_of(
                    batch.result,
                    after.result,
                    "Codex sidebar usage event "@ + event.event_id + " skipped: "@ + fault,
                ),
            },
            Err(error) => after.events == batch.events && told_of(
                batch.result,
                after.result,
                "Codex sidebar usage JSON parse failed at byte "@ + signed_decimal(
                    lines[line as int].offset as int,
                ) + ": "@ + error,
            ),
        },
{
    match sync_after(sync, reply, unix).phase {
        PhaseView::Parse { batch: after, lines, line } => after,
        PhaseView::Begin { batch: after } => after,
        _ => batch,
    }
}

/// A transaction that cannot be started, a cursor that cannot be saved and a
/// commit that fails end the import with what was raised; a commit that succeeds
/// ends it with the result.
pub proof fn law_transactions_end_the_import<E>(
    sync: SyncView<E>,
    batch: BatchView,
    reply: SyncReply<E>,
    unix: Option<u128>,
)
    ensures
        ({
            let after = sync_after(sync, reply, unix);
            &&& sync.phase == (PhaseView::<E>::Begin { batch }) ==> {
                &&& action_of(sync) is BeginTransaction
                &&& reply matches SyncReply::Failed { error } ==> ended_with(
                    after,
                    ErrorView::Database("start Codex sidebar batch: "@ + error@),
                )
                &&& reply matches SyncReply::HostFailed { raised } ==> ended_with(
                    after,
                    ErrorView::Host(raised),
                )
            }
            &&& sync.phase == (PhaseView::<E>::SaveCursor { batch }) ==> {
                &&& action_of(sync) == (ActionView::<E>::SaveCursor {
                    modified: batch.modified,
                    offset: batch.processed_offset,
                })
                &&& reply is Done ==> action_of(after) is Commit
                &&& reply matches SyncReply::HostFailed { raised } ==> ended_with(
                    after,
                    ErrorView::Host(raised),
                )
            }
            &&& sync.phase == (PhaseView::<E>::Commit { batch }) ==> {
                &&& action_of(sync) is Commit
                &&& reply is Done ==> after.phase == (PhaseView::<E>::Finished {
                    outcome: Ok(batch.result),
                })
                &&& reply matches SyncReply::Failed { error } ==> ended_with(
                    after,
                    ErrorView::Database("commit Codex sidebar batch: "@ + error@),
                )
            }
            &&& sync.phase is Finished ==> after.phase == sync.phase
        }),
{
}

/// One more was imported; nothing else has changed.
pub open spec fn one_more_imported(before: ResultView, after: ResultView) -> bool {
    &&& before.imported < u32::MAX ==> after.imported == before.imported + 1
    &&& before.imported == u32::MAX ==> after.imported == u32::MAX
    &&& after.skipped == before.skipped
    &&& after.files_scanned == before.files_scanned
    &&& after.errors == before.errors
}

/// One more was left out; nothing else has changed.
pub open spec fn one_more_skipped(before: ResultView, after: ResultView) -> bool {
    &&& after.imported == before.imported
    &&& before.skipped < u32::MAX ==> after.skipped == before.skipped + 1
    &&& before.skipped == u32::MAX ==> after.skipped == u32::MAX
    &&& after.files_scanned == before.files_scanned
    &&& after.errors == before.errors
}

/// The event that is next is done with: the one behind it is next, the result is
/// another, and nothing else has changed.
pub open spec fn moved_on(before: BatchView, after: BatchView) -> bool {
    &&& after.modified == before.modified
    &&& after.processed_offset == before.processed_offset
    &&& after.events == before.events
    &&& after.priced == before.priced
    &&& after.next == before.next + 1
}

/// An event that is imported, left out or failed counts as such, once.
pub proof fn law_events_count_as_what_became_of_them(batch: BatchView, error: Seq<char>)
    ensures
        moved_on(batch, batch.imported()) && one_more_imported(
            batch.result,
            batch.imported().result,
        ),
        moved_on(batch, batch.skipped()) && one_more_skipped(batch.result, batch.skipped().result),
        moved_on(batch, batch.failed(error)) && told_of(
            batch.result,
            batch.failed(error).result,
            "Codex sidebar event "@ + batch.events[batch.next as int].event_id + ": "@ + error,
        ),
{
}

/// What is asked about an event, in order: whether a proxy's request stands for
/// it, then the sessions', then duplicates, then prices, then costs, and last its
/// row goes to the log. A step that fails has its error put into words.
pub proof fn law_steps_come_in_order<E>(
    sync: SyncView<E>,
    batch: BatchView,
    step: StepView<E>,
    reply: SyncReply<E>,
    unix: Option<u128>,
)
    requires
        sync.phase == (PhaseView::<E>::Import { batch, step }),
    ensures
        ({
            let after = sync_after(sync, reply, unix);
            match (step, reply) {
                (StepView::MergeProxy { item }, SyncReply::Answer { yes: false }) => action_of(
                    after,
                ) is FindSessions,
                (StepView::MergeProxy { item }, SyncReply::HostFailed { raised }) => action_of(
                    after,
                ) == (ActionView::<E>::RenderError { error: ErrorView::Host(raised) }),
                (StepView::FindSession { item }, SyncReply::Failed { error }) => action_of(after)
                    == (ActionView::<E>::RenderError {
                    error: ErrorView::Database(
                        "query matching Codex session for sidebar usage failed: "@ + error@,
                    ),
                }),
                (
                    StepView::CompleteReasoning { item, request_id },
                    SyncReply::Failed { error },
                ) => action_of(after) == (ActionView::<E>::RenderError {
                    error: ErrorView::Database(
                        "complete matching Codex session reasoning tokens failed: "@ + error@,
                    ),
                }),
                (StepView::CheckDuplicate { item }, SyncReply::Answer { yes: false }) => if exists|
                    i: int,
                |
                    0 <= i < batch.priced.len() && #[trigger] batch.priced[i] == item.model {
                    action_of(after) matches ActionView::CalculateCost { usage, slot } && slot
                        < batch.priced.len() && batch.priced[slot as int] == item.model
                } else {
                    action_of(after) == (ActionView::<E>::FindPricing { model: item.model })
                },
                (StepView::CheckDuplicate { item }, SyncReply::HostFailed { raised }) => action_of(
                    after,
                ) == (ActionView::<E>::RenderError { error: ErrorView::Host(raised) }),
                (StepView::FindPricing { item }, SyncReply::Done) => {
                    &&& action_of(after) matches ActionView::CalculateCost { usage, slot } && slot
                        == batch.priced.len()
                    &&& after.phase matches PhaseView::Import { batch: b, step } && b.priced
                        == batch.priced.push(item.model)
                },
                (StepView::CalculateCost { item, slot }, SyncReply::Costs { costs }) => action_of(
                    after,
                ) is InsertRow,
                (StepView::Insert { item, costs }, SyncReply::Failed { error }) => action_of(after)
                    == (ActionView::<E>::RenderError {
                    error: ErrorView::Database("insert Codex sidebar usage failed: "@ + error@),
                }),
                _ => true,
            }
        }),
{
    if let StepView::CheckDuplicate { item } = step {
        if batch.priced.contains(item.model) {
            batch.priced.index_of_first_ensures(item.model);
        }
    }
}

} // verus!
