//! Laws of passes over the spool: a whole import, two imports one after the
//! other, and an event that comes up again.

use crate::event::EventView;
use crate::import::{
    dedup_key_of, is_nearest, is_same_request, log_row_of, prepared, DedupView, LogRowView,
    PreparedView,
};
use crate::log_laws::{
    all_timed, answers, comes_to, event_settled, events_settled,
    law_steps_keep_to_what_an_import_comes_to, passed, reads_timed, refusal, refused, taken,
    with_outcome, with_outcomes, with_refusals, Host, Outcome,
};
use crate::spool::{complete_length, complete_lines, cursor_after, record_lines, LineView};
use crate::spool_laws::{
    joined, law_cursor_stops_after_the_last_complete_line, law_lines_end_with_their_only_line_feed,
    law_lines_make_up_the_spool, law_passes_resume, one_line,
};
use crate::sync::{
    after_read, is_sound, lemma_stays_sound, read_offset, sync_after, BatchView, PhaseView,
    ResultView, SyncOptions, SyncReply, SyncView,
};
use crate::sync_laws::{
    batch_of, law_an_event_goes_to_the_log_once, law_imports_begin_in_step,
    law_imports_stay_in_step, law_the_cursor_stays, phase_fits,
};
use vstd::prelude::*;

verus! {

/// An import goes through `syncs` on the host's answers, and the log through
/// `logs`; `readings` is what the system clock shows.
pub open spec fn follows<L, E>(
    host: Host<L, E>,
    logs: Seq<L>,
    syncs: Seq<SyncView<E>>,
    replies: Seq<SyncReply<E>>,
    readings: Seq<Option<u128>>,
) -> bool {
    &&& logs.len() == replies.len() + 1
    &&& syncs.len() == replies.len() + 1
    &&& readings.len() == replies.len()
    &&& forall|i: int|
        0 <= i < replies.len() ==> {
            &&& syncs[i + 1] == sync_after(syncs[i], #[trigger] replies[i], readings[i])
            &&& answers(host, logs[i], syncs[i], replies[i], logs[i + 1])
        }
}

/// The events say when they were completed, or the clock always shows the same.
pub open spec fn clock_does_not_matter<L, E>(
    host: Host<L, E>,
    readings: Seq<Option<u128>>,
    unix: Option<u128>,
) -> bool {
    reads_timed(host) || forall|i: int| 0 <= i < readings.len() ==> #[trigger] readings[i] == unix
}

proof fn lemma_follows<L, E>(
    host: Host<L, E>,
    logs: Seq<L>,
    syncs: Seq<SyncView<E>>,
    replies: Seq<SyncReply<E>>,
    readings: Seq<Option<u128>>,
    modified: i64,
    start: i64,
    bytes: Seq<u8>,
    unix: Option<u128>,
    n: int,
)
    requires
        follows(host, logs, syncs, replies, readings),
        syncs[0].phase == after_read::<E>(modified, start, bytes),
        clock_does_not_matter(host, readings, unix),
        0 <= n < syncs.len(),
    ensures
        is_sound(syncs[n]),
        phase_fits(syncs[n].phase),
        syncs[n].options == syncs[0].options,
        comes_to(host, logs[n], syncs[n].phase, syncs[0].options, unix) == Some(
            passed(host, logs[0], bytes, start, syncs[0].options, unix),
        ),
        batch_of(syncs[n].phase) matches Some(batch) ==> {
            &&& batch.modified == modified
            &&& batch.processed_offset == cursor_after(complete_lines(bytes), start)
            &&& reads_timed(host) ==> all_timed(batch.events)
        },
    decreases n,
{
    let options = syncs[0].options;
    if n == 0 {
        let lines = record_lines(complete_lines(bytes), start);
        law_imports_begin_in_step::<E>(modified, start, bytes);
        assert(lines.skip(0) =~= lines);
        let events = taken(host, lines);
        assert(Seq::<EventView>::empty() + events =~= events);
    } else {
        let i = n - 1;
        lemma_follows(host, logs, syncs, replies, readings, modified, start, bytes, unix, i);
        let reply = replies[i];
        let reading = readings[i];
        assert(syncs[i + 1] == sync_after(syncs[i], reply, reading));
        lemma_stays_sound(syncs[i], reply, reading);
        law_imports_stay_in_step(syncs[i], reply, reading);
        if !reads_timed(host) {
            assert(reading == unix);
        }
        assert(batch_of(syncs[i].phase) is Some);
        law_steps_keep_to_what_an_import_comes_to(
            host,
            logs[i],
            syncs[i],
            reply,
            reading,
            logs[n],
            unix,
        );
        law_the_cursor_stays(syncs[i], reply, reading);
        if let Some(after) = batch_of(syncs[n].phase) {
            if syncs[i].phase is Parse {
            } else {
                law_an_event_goes_to_the_log_once(
                    syncs[i],
                    reply,
                    reading,
                    batch_of(syncs[i].phase)->0,
                    after,
                );
            }
        }
    }
}

/// An import that succeeds does a pass: the log and the result at its end are
/// what the pass over the bytes that were read comes to, and the cursor that it
/// saves stands behind the last complete line of them.
pub proof fn law_an_import_does_a_pass<L, E>(
    host: Host<L, E>,
    logs: Seq<L>,
    syncs: Seq<SyncView<E>>,
    replies: Seq<SyncReply<E>>,
    readings: Seq<Option<u128>>,
    modified: i64,
    start: i64,
    bytes: Seq<u8>,
    unix: Option<u128>,
    result: ResultView,
)
    requires
        follows(host, logs, syncs, replies, readings),
        syncs[0].phase == after_read::<E>(modified, start, bytes),
        syncs.last().phase == (PhaseView::<E>::Finished { outcome: Ok(result) }),
        clock_does_not_matter(host, readings, unix),
    ensures
        (logs.last(), result) == passed(host, logs[0], bytes, start, syncs[0].options, unix),
        forall|i: int|
            0 <= i < syncs.len() ==> ((#[trigger] syncs[i]).phase matches PhaseView::SaveCursor {
                batch,
            } ==> batch.modified == modified && batch.processed_offset == cursor_after(
                complete_lines(bytes),
                start,
            )),
{
    lemma_follows(
        host,
        logs,
        syncs,
        replies,
        readings,
        modified,
        start,
        bytes,
        unix,
        syncs.len() - 1,
    );
    assert forall|i: int| 0 <= i < syncs.len() implies ((
    #[trigger] syncs[i]).phase matches PhaseView::SaveCursor { batch } ==> batch.modified
        == modified && batch.processed_offset == cursor_after(complete_lines(bytes), start)) by {
        lemma_follows(host, logs, syncs, replies, readings, modified, start, bytes, unix, i);
    }
}

/// Lines one after another are taken up or left out part by part.
proof fn lemma_taken_split<L, E>(host: Host<L, E>, a: Seq<LineView>, b: Seq<LineView>)
    ensures
        taken(host, a + b) == taken(host, a) + taken(host, b),
        refused(host, a + b) == refused(host, a) + refused(host, b),
    decreases a.len(),
{
    if a.len() == 0 {
        assert(a + b =~= b);
        assert(taken(host, a) + taken(host, b) =~= taken(host, b));
        assert(refused(host, a) + refused(host, b) =~= refused(host, b));
    } else {
        let rest = a.drop_first();
        assert((a + b).first() == a.first());
        assert((a + b).drop_first() =~= rest + b);
        lemma_taken_split(host, rest, b);
        let parsed = (host.parse)(a.first().content);
        match refusal(a.first(), parsed) {
            Some(text) => {
                assert(seq![text] + (refused(host, rest) + refused(host, b)) =~= (seq![text]
                    + refused(host, rest)) + refused(host, b));
            },
            None => {
                let event = seq![parsed->Ok_0];
                assert(event + (taken(host, rest) + taken(host, b)) =~= (event + taken(host, rest))
                    + taken(host, b));
            },
        }
    }
}

/// Every line is taken up or left out.
proof fn lemma_taken_or_refused<L, E>(host: Host<L, E>, lines: Seq<LineView>)
    ensures
        taken(host, lines).len() + refused(host, lines).len() == lines.len(),
        reads_timed(host) ==> all_timed(taken(host, lines)),
    decreases lines.len(),
{
    if lines.len() > 0 {
        lemma_taken_or_refused(host, lines.drop_first());
    }
}

/// Two passes, the second from where the first ended, take up the events that
/// one pass over everything takes up, in the same order, and leave out the same
/// lines with the same words.
pub proof fn law_two_passes_take_up_the_same_events<L, E>(
    host: Host<L, E>,
    first: Seq<u8>,
    second: Seq<u8>,
    start: i64,
)
    ensures
        ({
            let left = first.skip(complete_length(first) as int) + second;
            let cursor = cursor_after(complete_lines(first), start);
            let a = record_lines(complete_lines(first), start);
            let b = record_lines(complete_lines(left), cursor);
            let all = record_lines(complete_lines(first + second), start);
            &&& taken(host, all) == taken(host, a) + taken(host, b)
            &&& refused(host, all) == refused(host, a) + refused(host, b)
        }),
{
    law_passes_resume(first, second, start);
    let left = first.skip(complete_length(first) as int) + second;
    let cursor = cursor_after(complete_lines(first), start);
    lemma_taken_split(
        host,
        record_lines(complete_lines(first), start),
        record_lines(complete_lines(left), cursor),
    );
}

/// Events one after another are settled part by part.
proof fn lemma_events_split<L, E>(
    host: Host<L, E>,
    log: L,
    a: Seq<EventView>,
    b: Seq<EventView>,
    options: SyncOptions,
    unix: Option<u128>,
)
    ensures
        ({
            let (middle, x) = events_settled(host, log, a, options, unix);
            let (last, y) = events_settled(host, middle, b, options, unix);
            events_settled(host, log, a + b, options, unix) == (last, x + y)
        }),
    decreases a.len(),
{
    let (middle, x) = events_settled(host, log, a, options, unix);
    let (last, y) = events_settled(host, middle, b, options, unix);
    if a.len() == 0 {
        assert(a + b =~= b);
        assert(x + y =~= y);
    } else {
        assert((a + b).first() == a.first());
        assert((a + b).drop_first() =~= a.drop_first() + b);
        let (after, outcome) = event_settled(host, log, a.first(), options, unix);
        lemma_events_split(host, after, a.drop_first(), b, options, unix);
        let rest = events_settled(host, after, a.drop_first(), options, unix).1;
        assert(seq![outcome] + (rest + y) =~= (seq![outcome] + rest) + y);
    }
}

/// The clock does not matter for events that say when they were completed, and
/// every event has an outcome.
proof fn lemma_events_timed<L, E>(
    host: Host<L, E>,
    log: L,
    events: Seq<EventView>,
    options: SyncOptions,
    a: Option<u128>,
    b: Option<u128>,
)
    requires
        all_timed(events),
    ensures
        events_settled(host, log, events, options, a) == events_settled(
            host,
            log,
            events,
            options,
            b,
        ),
        events_settled(host, log, events, options, a).1.len() == events.len(),
    decreases events.len(),
{
    if events.len() > 0 {
        assert(events[0].completed_at_ms > 0);
        assert(prepared(events.first(), a) == prepared(events.first(), b));
        let rest = events.drop_first();
        assert forall|i: int| 0 <= i < rest.len() implies (#[trigger] rest[i]).completed_at_ms
            > 0 by {
            assert(events[i + 1].completed_at_ms > 0);
        }
        let (after, outcome) = event_settled(host, log, events.first(), options, a);
        lemma_events_timed(host, after, rest, options, a, b);
    }
}

/// How many events were imported.
pub open spec fn imports_in(outcomes: Seq<Outcome>) -> nat
    decreases outcomes.len(),
{
    if outcomes.len() == 0 {
        0
    } else {
        let one: nat = if outcomes.first() is Imported {
            1
        } else {
            0
        };
        one + imports_in(outcomes.drop_first())
    }
}

proof fn lemma_imports_add_up(a: Seq<Outcome>, b: Seq<Outcome>)
    ensures
        imports_in(a + b) == imports_in(a) + imports_in(b),
    decreases a.len(),
{
    if a.len() == 0 {
        assert(a + b =~= b);
    } else {
        assert((a + b).first() == a.first());
        assert((a + b).drop_first() =~= a.drop_first() + b);
        lemma_imports_add_up(a.drop_first(), b);
    }
}

/// The counts of a result say what became of the events.
proof fn lemma_outcomes_count(
    result: ResultView,
    events: Seq<EventView>,
    outcomes: Seq<Outcome>,
)
    requires
        outcomes.len() == events.len(),
        result.imported + result.skipped + events.len() <= u32::MAX,
    ensures
        imports_in(outcomes) <= events.len(),
        with_outcomes(result, events, outcomes).imported == result.imported + imports_in(outcomes),
        with_outcomes(result, events, outcomes).skipped == result.skipped + events.len()
            - imports_in(outcomes),
    decreases events.len(),
{
    if events.len() > 0 {
        lemma_outcomes_count(
            with_outcome(result, events.first(), outcomes.first()),
            events.drop_first(),
            outcomes.drop_first(),
        );
    }
}

proof fn lemma_refusals_count(result: ResultView, texts: Seq<Seq<char>>)
    requires
        result.skipped + texts.len() <= u32::MAX,
    ensures
        with_refusals(result, texts).imported == result.imported,
        with_refusals(result, texts).skipped == result.skipped + texts.len(),
    decreases texts.len(),
{
    if texts.len() > 0 {
        lemma_refusals_count(result.with_error(texts.first()), texts.drop_first());
    }
}

/// The counts of a pass.
proof fn lemma_pass_counts<L, E>(
    host: Host<L, E>,
    log: L,
    bytes: Seq<u8>,
    start: i64,
    options: SyncOptions,
    unix: Option<u128>,
)
    requires
        reads_timed(host),
        record_lines(complete_lines(bytes), start).len() <= u32::MAX,
    ensures
        ({
            let lines = record_lines(complete_lines(bytes), start);
            let outcomes = events_settled(host, log, taken(host, lines), options, unix).1;
            let result = passed(host, log, bytes, start, options, unix).1;
            &&& result.imported == imports_in(outcomes)
            &&& result.skipped == lines.len() - imports_in(outcomes)
        }),
{
    let lines = record_lines(complete_lines(bytes), start);
    let events = taken(host, lines);
    lemma_taken_or_refused(host, lines);
    lemma_events_timed(host, log, events, options, unix, unix);
    let outcomes = events_settled(host, log, events, options, unix).1;
    lemma_refusals_count(ResultView::scanned(1), refused(host, lines));
    lemma_outcomes_count(
        with_refusals(ResultView::scanned(1), refused(host, lines)),
        events,
        outcomes,
    );
}

/// A spool that is imported in two goes comes to what it comes to in one: the
/// first pass may stop in the middle of a record, and the second goes on from
/// its cursor. The log is the same, the counts of imported and left-out events
/// add up, and the cursor ends at the same place. Events say when they were
/// completed, and prices are fixed. (The counts have 32 bits: the law ends where
/// they do.)
pub proof fn law_two_passes_import_what_one_does<L, E>(
    host: Host<L, E>,
    log: L,
    first: Seq<u8>,
    second: Seq<u8>,
    start: i64,
    options: SyncOptions,
    early: Option<u128>,
    late: Option<u128>,
    once: Option<u128>,
)
    requires
        reads_timed(host),
        record_lines(complete_lines(first + second), start).len() <= u32::MAX,
    ensures
        ({
            let left = first.skip(complete_length(first) as int) + second;
            let cursor = cursor_after(complete_lines(first), start);
            let (middle, a) = passed(host, log, first, start, options, early);
            let (last, b) = passed(host, middle, left, cursor, options, late);
            let (whole, c) = passed(host, log, first + second, start, options, once);
            &&& last == whole
            &&& a.imported + b.imported == c.imported
            &&& a.skipped + b.skipped == c.skipped
            &&& cursor_after(complete_lines(left), cursor) == cursor_after(
                complete_lines(first + second),
                start,
            )
        }),
{
    let left = first.skip(complete_length(first) as int) + second;
    let cursor = cursor_after(complete_lines(first), start);
    let x = record_lines(complete_lines(first), start);
    let y = record_lines(complete_lines(left), cursor);
    law_passes_resume(first, second, start);
    law_two_passes_take_up_the_same_events(host, first, second, start);
    let middle = passed(host, log, first, start, options, early).0;
    lemma_pass_counts(host, log, first, start, options, early);
    lemma_pass_counts(host, middle, left, cursor, options, late);
    lemma_pass_counts(host, log, first + second, start, options, once);
    lemma_taken_or_refused(host, x);
    lemma_taken_or_refused(host, y);
    lemma_events_timed(host, log, taken(host, x), options, early, once);
    lemma_events_timed(host, middle, taken(host, y), options, late, once);
    lemma_events_split(host, log, taken(host, x), taken(host, y), options, once);
    lemma_imports_add_up(
        events_settled(host, log, taken(host, x), options, once).1,
        events_settled(host, middle, taken(host, y), options, once).1,
    );
}

/// A spool that has not changed, with a record at its end that is still being
/// written: the import reads on from the cursor that the one before saved, finds
/// nothing to import, nothing to leave out and nothing to tell of, leaves the log
/// as it is, and saves the same cursor.
pub proof fn law_an_unfinished_record_is_waited_for<L, E>(
    host: Host<L, E>,
    log: L,
    spool: Seq<u8>,
    start: i64,
    modified: i64,
    options: SyncOptions,
    unix: Option<u128>,
)
    requires
        0 <= start <= spool.len() <= i64::MAX,
    ensures
        ({
            let cursor = cursor_after(complete_lines(spool.skip(start as int)), start);
            let tail = spool.skip(cursor as int);
            &&& start <= cursor <= spool.len()
            &&& read_offset(cursor, spool.len() as i64) == cursor
            &&& after_read::<E>(modified, cursor, tail) == (PhaseView::<E>::Begin {
                batch: BatchView {
                    modified,
                    processed_offset: cursor,
                    result: ResultView::scanned(1),
                    events: Seq::empty(),
                    next: 0,
                    priced: Seq::empty(),
                },
            })
            &&& passed(host, log, tail, cursor, options, unix) == (log, ResultView::scanned(1))
            &&& cursor_after(complete_lines(tail), cursor) == cursor
        }),
{
    let bytes = spool.skip(start as int);
    let cursor = cursor_after(complete_lines(bytes), start);
    let tail = spool.skip(cursor as int);
    law_cursor_stops_after_the_last_complete_line(bytes, start);
    law_lines_make_up_the_spool(bytes);
    assert(tail =~= bytes.skip(complete_length(bytes) as int));
    lemma_no_line_without_line_feed(tail);
}

/// Without a line feed there is no complete line.
proof fn lemma_no_line_without_line_feed(bytes: Seq<u8>)
    requires
        one_line(bytes),
    ensures
        complete_lines(bytes).len() == 0,
{
    if complete_lines(bytes).len() > 0 {
        law_lines_make_up_the_spool(bytes);
        law_lines_end_with_their_only_line_feed(bytes, 0);
        let line = complete_lines(bytes)[0];
        assert(joined(complete_lines(bytes)) == line + joined(complete_lines(bytes).drop_first()));
        assert(joined(complete_lines(bytes))[line.len() - 1] == 10);
        assert(bytes[line.len() - 1] == 10);
    }
}

/// The row of an id in the log, where there is one.
pub open spec fn row_in<L>(
    rows: spec_fn(L) -> Map<Seq<char>, LogRowView>,
    log: L,
    id: Seq<char>,
) -> Option<LogRowView> {
    if rows(log).contains_key(id) {
        Some(rows(log)[id])
    } else {
        None
    }
}

/// The log has a row of that id, and the row came from the import.
pub open spec fn is_imported<L>(
    rows: spec_fn(L) -> Map<Seq<char>, LogRowView>,
    log: L,
    id: Seq<char>,
) -> bool {
    row_in(rows, log, id) matches Some(row) && row.data_source == "codex_sidebar"@
}

/// The log after a proxy's request was looked for.
pub open spec fn merged<L, E>(host: Host<L, E>, log: L, key: DedupView) -> L {
    (host.merge_proxy)(log, key).0
}

/// The log after a request was completed.
pub open spec fn completed<L, E>(host: Host<L, E>, log: L, id: Seq<char>, count: u32) -> L {
    (host.complete)(log, id, count).0
}

/// The log after a row was to be put in.
pub open spec fn inserted<L, E>(host: Host<L, E>, log: L, row: LogRowView) -> L {
    (host.insert)(log, row).0
}

/// The log is a table of rows by id. A row whose id is there is not put in, and
/// a row that counts as put in is there. Looking for a proxy's request leaves
/// the import's own rows alone, completing a request leaves the other rows
/// alone, and the requests that are listed are in the log.
pub open spec fn keeps_rows<L, E>(
    host: Host<L, E>,
    rows: spec_fn(L) -> Map<Seq<char>, LogRowView>,
) -> bool {
    &&& forall|log: L, key: DedupView, id: Seq<char>|
        #![trigger merged(host, log, key), is_imported(rows, log, id)]
        is_imported(rows, log, id) ==> row_in(rows, merged(host, log, key), id) == row_in(
            rows,
            log,
            id,
        )
    &&& forall|log: L, request_id: Seq<char>, count: u32, id: Seq<char>|
        #![trigger completed(host, log, request_id, count), row_in(rows, log, id)]
        id != request_id ==> row_in(rows, completed(host, log, request_id, count), id) == row_in(
            rows,
            log,
            id,
        )
    &&& forall|log: L, thread_id: Seq<char>|
        (#[trigger] (host.sessions)(log, thread_id)) matches Ok(listed) ==> forall|i: int|
            0 <= i < listed.len() ==> (row_in(
                rows,
                log,
                (#[trigger] listed[i]).request_id,
            ) matches Some(row) && row.data_source == listed[i].data_source)
    &&& forall|log: L, row: LogRowView|
        #![trigger inserted(host, log, row)]
        {
            &&& row_in(rows, log, row.request_id) is Some ==> inserted(host, log, row) == log && !((
            host.insert)(log, row).1 matches Ok(count) && count > 0)
            &&& ((host.insert)(log, row).1 matches Ok(count) && count > 0) ==> row_in(
                rows,
                inserted(host, log, row),
                row.request_id,
            ) == Some(row)
        }
    &&& forall|log: L, row: LogRowView, id: Seq<char>|
        #![trigger inserted(host, log, row), row_in(rows, log, id)]
        id != row.request_id ==> row_in(rows, inserted(host, log, row), id) == row_in(rows, log, id)
}

/// What comes of an event leaves the import's own rows alone; an event whose
/// row is there is not imported; and one that is imported has its row there.
pub proof fn law_an_imported_event_is_not_imported_again<L, E>(
    host: Host<L, E>,
    rows: spec_fn(L) -> Map<Seq<char>, LogRowView>,
    log: L,
    event: EventView,
    options: SyncOptions,
    unix: Option<u128>,
)
    requires
        keeps_rows(host, rows),
    ensures
        ({
            let (after, outcome) = event_settled(host, log, event, options, unix);
            &&& forall|id: Seq<char>| #[trigger]
                is_imported(rows, log, id) ==> row_in(rows, after, id) == row_in(rows, log, id)
            &&& is_imported(rows, log, event.event_id) ==> !(outcome is Imported)
            &&& outcome is Imported ==> is_imported(rows, after, event.event_id)
        }),
{
    reveal_strlit("codex_sidebar");
    reveal_strlit("codex_session");
    assert("codex_sidebar"@[7] == 'i');
    assert("codex_session"@[7] == 'e');
    if let PreparedView::Ready(item) = prepared(event, unix) {
        let key = dedup_key_of(item);
        let middle = merged(host, log, key);
        let window = options.dedup_window_seconds;
        let costs = (host.costs)(item.model, item.usage);
        let row = log_row_of(item, costs, options.input_token_semantics_total);
        let put = inserted(host, middle, row);
        assert(row.data_source == "codex_sidebar"@);
        assert(row.request_id == event.event_id);
        assert forall|id: Seq<char>| #[trigger] is_imported(rows, log, id) implies row_in(
            rows,
            event_settled(host, log, event, options, unix).0,
            id,
        ) == row_in(rows, log, id) by {
            assert(row_in(rows, middle, id) == row_in(rows, log, id));
            match (host.sessions)(middle, item.thread_id) {
                Ok(listed) => {
                    if exists|index: int| is_nearest(listed, item, window, index) {
                        let index = choose|index: int| is_nearest(listed, item, window, index);
                        assert(is_same_request(listed[index], item, window));
                        assert(id != listed[index].request_id);
                        let done = completed(
                            host,
                            middle,
                            listed[index].request_id,
                            item.usage.reasoning_output_tokens,
                        );
                        assert(row_in(rows, done, id) == row_in(rows, middle, id));
                    } else {
                        if id != row.request_id {
                            assert(row_in(rows, put, id) == row_in(rows, middle, id));
                        } else {
                            assert(put == middle);
                        }
                    }
                },
                Err(_) => {},
            }
        }
        if is_imported(rows, log, event.event_id) {
            assert(row_in(rows, middle, event.event_id) is Some);
        }
    }
}

/// Over a whole list of events: the import's own rows stay as they are, an
/// event whose row is there at the beginning is not imported, and every event
/// that is imported has its row there at the end.
pub proof fn law_events_are_imported_once<L, E>(
    host: Host<L, E>,
    rows: spec_fn(L) -> Map<Seq<char>, LogRowView>,
    log: L,
    events: Seq<EventView>,
    options: SyncOptions,
    unix: Option<u128>,
)
    requires
        keeps_rows(host, rows),
    ensures
        ({
            let (after, outcomes) = events_settled(host, log, events, options, unix);
            &&& outcomes.len() == events.len()
            &&& forall|id: Seq<char>| #[trigger]
                is_imported(rows, log, id) ==> row_in(rows, after, id) == row_in(rows, log, id)
            &&& forall|i: int|
                0 <= i < events.len() && is_imported(rows, log, (#[trigger] events[i]).event_id)
                    ==> !(outcomes[i] is Imported)
            &&& forall|i: int|
                0 <= i < events.len() && outcomes[i] is Imported ==> is_imported(
                    rows,
                    after,
                    (#[trigger] events[i]).event_id,
                )
            &&& forall|i: int, j: int|
                0 <= i < j < events.len() && (#[trigger] events[i]).event_id == (
                #[trigger] events[j]).event_id && outcomes[i] is Imported ==> !(
                outcomes[j] is Imported)
        }),
    decreases events.len(),
{
    if events.len() > 0 {
        let (middle, outcome) = event_settled(host, log, events.first(), options, unix);
        let rest = events.drop_first();
        let (after, outcomes) = events_settled(host, middle, rest, options, unix);
        let all = seq![outcome] + outcomes;
        law_an_imported_event_is_not_imported_again(
            host,
            rows,
            log,
            events.first(),
            options,
            unix,
        );
        law_events_are_imported_once(host, rows, middle, rest, options, unix);
        assert forall|id: Seq<char>| #[trigger] is_imported(rows, log, id) implies row_in(
            rows,
            after,
            id,
        ) == row_in(rows, log, id) by {
            assert(is_imported(rows, middle, id));
        }
        assert forall|i: int|
            0 <= i < events.len() && is_imported(
                rows,
                log,
                (#[trigger] events[i]).event_id,
            ) implies !(all[i] is Imported) by {
            assert(is_imported(rows, middle, events[i].event_id));
            if i > 0 {
                assert(rest[i - 1] == events[i]);
            }
        }
        assert forall|i: int| 0 <= i < events.len() && all[i] is Imported implies is_imported(
            rows,
            after,
            (#[trigger] events[i]).event_id,
        ) by {
            if i > 0 {
                assert(rest[i - 1] == events[i]);
                assert(outcomes[i - 1] is Imported);
            } else {
                assert(is_imported(rows, middle, events[0].event_id));
            }
        }
        assert forall|i: int, j: int|
            0 <= i < j < events.len() && (#[trigger] events[i]).event_id == (
            #[trigger] events[j]).event_id && all[i] is Imported implies !(all[j] is Imported) by {
            assert(rest[j - 1] == events[j]);
            if i > 0 {
                assert(rest[i - 1] == events[i]);
                assert(outcomes[i - 1] is Imported);
            } else {
                assert(is_imported(rows, middle, rest[j - 1].event_id));
            }
        }
    }
}

} // verus!
