//! Laws of events and rows: what an event must be, what the request log is asked
//! about it, and what its row says.

use crate::cost::{amount_text, Amount, CostBreakdown};
use crate::event::{event_fault, EventView, SidebarTokenUsage, TokenUsageView};
use crate::import::{
    is_better, is_nearest, is_same_request, logged_model, prepared, row_views, DedupView, ItemView,
    PreparedView, RowView,
};
use crate::reading_laws::{is_core, law_trimming_takes_off_white_space, only_white_space};
use crate::sync::{
    action_of, next_event, sync_after, ActionView, BatchView, PhaseView, StepView, SyncReply,
    SyncView,
};
use crate::sync_laws::{comes_from, item_in, phase_fits};
use crate::text::{decimal, lemma_trimmed_blank, same_ignoring_ascii_case};
use vstd::prelude::*;

verus! {

/// An event is valid exactly where its version is one, its id is in the
/// namespace, and its thread and turn are more than white space. What is said of
/// one that is not names the first of these that fails.
pub proof fn law_valid_events(event: EventView)
    ensures
        event_fault(event) is None <==> {
            &&& event.schema_version == 1
            &&& exists|rest: Seq<char>|
                event.event_id == #[trigger] ("codex_sidebar:usage-v1:"@ + rest)
            &&& !only_white_space(event.thread_id)
            &&& !only_white_space(event.turn_id)
        },
        event.schema_version != 1 ==> event_fault(event) == Some(
            "unsupported schemaVersion "@ + decimal(event.schema_version as nat),
        ),
        event.schema_version == 1 && (forall|rest: Seq<char>|
            event.event_id != #[trigger] ("codex_sidebar:usage-v1:"@ + rest)) ==> event_fault(event)
            == Some("invalid eventId namespace"@),
        event.schema_version == 1 && (exists|rest: Seq<char>|
            event.event_id == #[trigger] ("codex_sidebar:usage-v1:"@ + rest)) && (
        only_white_space(event.thread_id) || only_white_space(event.turn_id)) ==> event_fault(event)
            == Some("threadId and turnId are required"@),
{
    let prefix = "codex_sidebar:usage-v1:"@;
    let id = event.event_id;
    if prefix.len() <= id.len() && id.subrange(0, prefix.len() as int) == prefix {
        let rest = id.skip(prefix.len() as int);
        assert(id =~= prefix + rest);
    }
    if exists|rest: Seq<char>| id == #[trigger] (prefix + rest) {
        let rest = choose|rest: Seq<char>| id == #[trigger] (prefix + rest);
        assert((prefix + rest).subrange(0, prefix.len() as int) =~= prefix);
    }
}

/// Every count that goes to the log fits 32 bits.
pub open spec fn fits_the_log(usage: SidebarTokenUsage) -> bool {
    &&& usage.input_tokens <= u32::MAX
    &&& usage.output_tokens <= u32::MAX
    &&& usage.reasoning_output_tokens <= u32::MAX
    &&& usage.cached_input_tokens <= u32::MAX
    &&& usage.cache_write_input_tokens <= u32::MAX
}

/// Every count that goes to the log is zero.
pub open spec fn uses_nothing(usage: SidebarTokenUsage) -> bool {
    &&& usage.input_tokens == 0
    &&& usage.output_tokens == 0
    &&& usage.reasoning_output_tokens == 0
    &&& usage.cached_input_tokens == 0
    &&& usage.cache_write_input_tokens == 0
}

/// The counts are the event's: what was read from the cache as cached input,
/// what was written to it as cache writes.
pub open spec fn counts_of(usage: TokenUsageView, event: SidebarTokenUsage) -> bool {
    &&& usage.input_tokens == event.input_tokens
    &&& usage.output_tokens == event.output_tokens
    &&& usage.reasoning_output_tokens == event.reasoning_output_tokens
    &&& usage.cache_read_tokens == event.cached_input_tokens
    &&& usage.cache_creation_tokens == event.cache_write_input_tokens
}

/// `model` is the name without white space around it, or says that the name is
/// not known where there is nothing else in it.
pub open spec fn is_name_of(model: Seq<char>, name: Seq<char>) -> bool {
    if only_white_space(name) {
        model == "unknown"@
    } else {
        exists|before: Seq<char>, behind: Seq<char>| #[trigger] is_core(name, before, model, behind)
            && model.len() > 0
    }
}

/// `seconds` is the time in whole seconds.
pub open spec fn whole_seconds(millis: i64, seconds: i64) -> bool {
    seconds * 1000 <= millis < (seconds + 1) * 1000
}

/// The item says what the event says.
pub open spec fn item_says(item: ItemView, event: EventView) -> bool {
    &&& item.event_id == event.event_id
    &&& item.thread_id == event.thread_id
    &&& counts_of(item.usage, event.usage)
    &&& item.usage.model == Some(event.model)
    &&& item.usage.message_id is None
    &&& is_name_of(item.model, event.model)
    &&& event.completed_at_ms > 0 ==> whole_seconds(event.completed_at_ms, item.created_at)
}

/// An event goes to the log exactly where its counts fit and it used something,
/// and then as what it says. One that does not say when it was completed is
/// dated by the clock.
pub proof fn law_events_go_to_the_log_as_they_are(event: EventView, unix: Option<u128>)
    ensures
        prepared(event, unix) is Invalid <==> !fits_the_log(event.usage),
        prepared(event, unix) is NotBillable <==> uses_nothing(event.usage),
        prepared(event, unix) matches PreparedView::Ready(item) ==> item_says(item, event),
        prepared(event, unix) matches PreparedView::Ready(item) ==> event.completed_at_ms <= 0
            ==> match unix {
            Some(nanos) => nanos / 1_000_000_000 <= i64::MAX ==> item.created_at * 1_000_000_000
                <= nanos < (item.created_at + 1) * 1_000_000_000,
            None => item.created_at == 0,
        },
{
    lemma_model(event.model);
}

proof fn lemma_model(name: Seq<char>)
    ensures
        is_name_of(logged_model(name), name),
{
    let ends = law_trimming_takes_off_white_space(name);
    lemma_trimmed_blank(name);
    if !only_white_space(name) {
        assert(is_core(name, ends.0, logged_model(name), ends.1));
    }
}

/// What is said of an event with a count that does not fit names the first such
/// count: input, output, reasoning, cached input, cache writes, in this order.
pub proof fn law_the_first_count_that_does_not_fit_is_named(
    event: EventView,
    unix: Option<u128>,
    name: Seq<char>,
)
    requires
        ({
            let usage = event.usage;
            ||| name == "inputTokens"@ && usage.input_tokens > u32::MAX
            ||| name == "outputTokens"@ && usage.output_tokens > u32::MAX && usage.input_tokens
                <= u32::MAX
            ||| name == "reasoningOutputTokens"@ && usage.reasoning_output_tokens > u32::MAX
                && usage.input_tokens <= u32::MAX && usage.output_tokens <= u32::MAX
            ||| name == "cachedInputTokens"@ && usage.cached_input_tokens > u32::MAX
                && usage.input_tokens <= u32::MAX && usage.output_tokens <= u32::MAX
                && usage.reasoning_output_tokens <= u32::MAX
            ||| name == "cacheWriteInputTokens"@ && usage.cache_write_input_tokens > u32::MAX
                && usage.input_tokens <= u32::MAX && usage.output_tokens <= u32::MAX
                && usage.reasoning_output_tokens <= u32::MAX && usage.cached_input_tokens
                <= u32::MAX
        }),
    ensures
        prepared(event, unix) == PreparedView::Invalid(
            "invalid sidebar usage: "@ + (name + " exceeds u32"@),
        ),
{
}

/// The event that an import is about.
pub open spec fn event_in(batch: BatchView) -> EventView {
    batch.events[batch.next as int]
}

/// A step of an import is about what the next event says.
proof fn lemma_step_says<E>(batch: BatchView, step: StepView<E>)
    requires
        phase_fits(PhaseView::<E>::Import { batch, step }),
    ensures
        item_in(step) matches Some(item) ==> item_says(item, event_in(batch)),
        item_in(step) is Some ==> fits_the_log(event_in(batch).usage) && !uses_nothing(
            event_in(batch).usage,
        ),
{
    if let Some(item) = item_in(step) {
        let event = event_in(batch);
        assert(comes_from(item, event));
        let unix = choose|unix: Option<u128>| #[trigger]
            prepared(event, unix) == PreparedView::Ready(item);
        law_events_go_to_the_log_as_they_are(event, unix);
    }
}

/// The key says by what the event is recognised.
pub open spec fn key_says(key: DedupView, event: EventView) -> bool {
    &&& key.app_type == "codex"@
    &&& is_name_of(key.model, event.model)
    &&& key.input_tokens == event.usage.input_tokens
    &&& key.output_tokens == event.usage.output_tokens
    &&& key.reasoning_output_tokens == event.usage.reasoning_output_tokens
    &&& key.cache_read_tokens == event.usage.cached_input_tokens
    &&& key.cache_creation_tokens == event.usage.cache_write_input_tokens
    &&& key.cache_creation_tokens_known
    &&& event.completed_at_ms > 0 ==> whole_seconds(event.completed_at_ms, key.created_at)
}

/// What the application is asked to do about an event is about that event: its
/// key, its thread, its id, its model, its counts.
pub proof fn law_actions_are_about_the_event<E>(sync: SyncView<E>, batch: BatchView, step: StepView<E>)
    requires
        sync.phase == (PhaseView::<E>::Import { batch, step }),
        phase_fits(sync.phase),
    ensures
        ({
            let event = event_in(batch);
            match step {
                StepView::MergeProxy { item } => action_of(sync) matches ActionView::MergeProxy {
                    key,
                } && key_says(key, event),
                StepView::FindSession { item } => action_of(sync)
                    matches ActionView::FindSessions { thread_id } && thread_id == event.thread_id,
                StepView::CompleteReasoning { item, request_id: id } => action_of(sync)
                    matches ActionView::CompleteReasoning { request_id, reasoning_output_tokens }
                    && request_id == id && reasoning_output_tokens
                    == event.usage.reasoning_output_tokens,
                StepView::CheckDuplicate { item } => action_of(sync)
                    matches ActionView::CheckDuplicate { event_id, key } && event_id
                    == event.event_id && key_says(key, event),
                StepView::FindPricing { item } => action_of(sync) matches ActionView::FindPricing {
                    model,
                } && is_name_of(model, event.model) && !batch.priced.contains(model),
                StepView::CalculateCost { item, slot: at } => action_of(sync)
                    matches ActionView::CalculateCost { usage, slot } && counts_of(
                    usage,
                    event.usage,
                ) && slot == at && slot < batch.priced.len() && is_name_of(
                    batch.priced[slot as int],
                    event.model,
                ),
                StepView::Insert { item, costs } => action_of(sync) is InsertRow,
                StepView::RenderError { error: due } => action_of(sync)
                    matches ActionView::RenderError { error } && error == due,
            }
        }),
{
    lemma_step_says::<E>(batch, step);
}

/// The row of an event says what the event says, column by column, and for the
/// rest what every row of the import says.
pub proof fn law_rows_are_filled_from_the_event<E>(sync: SyncView<E>, batch: BatchView)
    requires
        sync.phase matches PhaseView::Import { batch: b, step } && b == batch && step is Insert,
        phase_fits(sync.phase),
    ensures
        action_of(sync) matches ActionView::InsertRow { row } && {
            let event = event_in(batch);
            &&& row.request_id == event.event_id
            &&& row.provider_id == "_codex_sidebar"@
            &&& row.app_type == "codex"@
            &&& is_name_of(row.model, event.model)
            &&& row.request_model == row.model
            &&& row.pricing_model == row.model
            &&& row.input_tokens == event.usage.input_tokens
            &&& row.output_tokens == event.usage.output_tokens
            &&& row.reasoning_output_tokens == event.usage.reasoning_output_tokens
            &&& row.cache_read_tokens == event.usage.cached_input_tokens
            &&& row.cache_creation_tokens == event.usage.cache_write_input_tokens
            &&& row.input_token_semantics == sync.options.input_token_semantics_total
            &&& row.latency_ms == 0
            &&& row.first_token_ms is None
            &&& row.status_code == 200
            &&& row.error_message is None
            &&& row.session_id == event.thread_id
            &&& row.provider_type == Some("codex_sidebar"@)
            &&& row.is_streaming == 1
            &&& row.cost_multiplier == "1.0"@
            &&& event.completed_at_ms > 0 ==> whole_seconds(event.completed_at_ms, row.created_at)
            &&& row.data_source == "codex_sidebar"@
        },
{
    lemma_step_says::<E>(batch, sync.phase->Import_step);
}

/// The text is the amount's.
pub open spec fn is_text_of(text: Seq<char>, amount: Amount) -> bool {
    text == amount_text(amount.is_negative(), amount.mantissa(), amount.scale())
}

/// The costs that the application answers go into the row part by part: the
/// input cost is the text of the input amount, and so for output, cache reads,
/// cache writes and the total. Without costs every part is zero.
pub proof fn law_costs_go_to_their_own_columns<E>(
    sync: SyncView<E>,
    batch: BatchView,
    item: ItemView,
    slot: nat,
    costs: Option<CostBreakdown>,
    unix: Option<u128>,
)
    requires
        sync.phase == (PhaseView::<E>::Import { batch, step: StepView::CalculateCost { item, slot } }),
    ensures
        ({
            let after = sync_after(sync, SyncReply::<E>::Costs { costs }, unix);
            action_of(after) matches ActionView::InsertRow { row } && match costs {
                Some(costs) => {
                    &&& is_text_of(row.costs.input_cost, costs.input_cost)
                    &&& is_text_of(row.costs.output_cost, costs.output_cost)
                    &&& is_text_of(row.costs.cache_read_cost, costs.cache_read_cost)
                    &&& is_text_of(row.costs.cache_creation_cost, costs.cache_creation_cost)
                    &&& is_text_of(row.costs.total_cost, costs.total_cost)
                },
                None => {
                    &&& row.costs.input_cost == "0"@
                    &&& row.costs.output_cost == "0"@
                    &&& row.costs.cache_read_cost == "0"@
                    &&& row.costs.cache_creation_cost == "0"@
                    &&& row.costs.total_cost == "0"@
                },
            }
        }),
{
}

/// How far apart two times are.
pub open spec fn apart(a: i64, b: i64) -> int {
    if a < b {
        b - a
    } else {
        a - b
    }
}

/// Something tells the logged request apart from the event's, which happened at
/// `time` under the name `model`: it is no request of a Codex session, its
/// thread, its input, output or cache-read count is another, its count of
/// reasoning tokens or of cache writes is another where both are known, it is
/// further off than the window, or both models are known and differ.
pub open spec fn is_another(
    row: RowView,
    event: EventView,
    time: i64,
    model: Seq<char>,
    window: i64,
) -> bool {
    ||| row.app_type != "codex"@
    ||| row.data_source != "codex_session"@
    ||| row.session_id != event.thread_id
    ||| row.input_tokens != event.usage.input_tokens
    ||| row.output_tokens != event.usage.output_tokens
    ||| row.cache_read_tokens != event.usage.cached_input_tokens
    ||| row.reasoning_output_tokens != 0 && event.usage.reasoning_output_tokens != 0
        && row.reasoning_output_tokens != event.usage.reasoning_output_tokens
    ||| row.cache_creation_tokens != 0 && row.cache_creation_tokens
        != event.usage.cache_write_input_tokens
    ||| apart(row.created_at, time) > window
    ||| !same_ignoring_ascii_case(row.model, model) && !same_ignoring_ascii_case(
        row.model,
        "unknown"@,
    ) && !same_ignoring_ascii_case(model, "unknown"@)
}

/// No row of the event's request is nearer to `time`, and of those as near none
/// is earlier.
pub open spec fn none_is_nearer(
    rows: Seq<RowView>,
    event: EventView,
    time: i64,
    model: Seq<char>,
    window: i64,
    index: int,
) -> bool {
    forall|j: int|
        0 <= j < rows.len() && !is_another(#[trigger] rows[j], event, time, model, window) ==> {
            ||| apart(rows[index].created_at, time) < apart(rows[j].created_at, time)
            ||| apart(rows[index].created_at, time) == apart(rows[j].created_at, time)
                && rows[index].created_at <= rows[j].created_at
        }
}

/// A session's request stands for the event exactly where nothing tells the two
/// apart. Where every request of the thread is another, the event goes on to the
/// check for duplicates, and no request is touched.
pub proof fn law_other_requests_do_not_stand_for_the_event<E>(
    sync: SyncView<E>,
    batch: BatchView,
    item: ItemView,
    reply: SyncReply<E>,
    rows: Seq<RowView>,
    unix: Option<u128>,
)
    requires
        sync.phase == (PhaseView::<E>::Import { batch, step: StepView::FindSession { item } }),
        phase_fits(sync.phase),
        reply matches SyncReply::Sessions { rows: listed } && row_views(listed@)
            == rows,
        forall|i: int|
            0 <= i < rows.len() ==> is_another(
                #[trigger] rows[i],
                event_in(batch),
                item.created_at,
                item.model,
                sync.options.dedup_window_seconds,
            ),
    ensures
        action_of(sync_after(sync, reply, unix)) matches ActionView::CheckDuplicate {
            event_id,
            key,
        } && event_id == event_in(batch).event_id && key_says(key, event_in(batch)),
        sync_after(sync, reply, unix).phase matches PhaseView::Import { batch: b, step } && b
            == batch,
{
    let step = StepView::<E>::FindSession { item };
    lemma_step_says::<E>(batch, step);
    let window = sync.options.dedup_window_seconds;
    assert forall|i: int| 0 <= i < rows.len() implies !is_same_request(
        #[trigger] rows[i],
        item,
        window,
    ) by {
        assert(is_another(rows[i], event_in(batch), item.created_at, item.model, window));
    }
    assert(!exists|index: int| is_nearest(rows, item, window, index));
    let after = sync_after(sync, reply, unix);
    assert(after.phase == (PhaseView::<E>::Import {
        batch,
        step: StepView::CheckDuplicate { item },
    }));
    assert(phase_fits(after.phase));
    law_actions_are_about_the_event(after, batch, StepView::CheckDuplicate { item });
}

/// Where some request of the thread is the event's, the event is not looked for
/// among duplicates, priced or put into the log: either the import goes on to a
/// later event or its end, with one more event left out, or the nearest such
/// request, the earlier of two as near, is to get the event's count of reasoning
/// tokens, which it has none of.
pub proof fn law_the_nearest_request_stands_for_the_event<E>(
    sync: SyncView<E>,
    batch: BatchView,
    item: ItemView,
    reply: SyncReply<E>,
    rows: Seq<RowView>,
    unix: Option<u128>,
    index: int,
)
    requires
        sync.phase == (PhaseView::<E>::Import { batch, step: StepView::FindSession { item } }),
        phase_fits(sync.phase),
        reply matches SyncReply::Sessions { rows: listed } && row_views(listed@)
            == rows,
        0 <= index < rows.len(),
        !is_another(
            rows[index],
            event_in(batch),
            item.created_at,
            item.model,
            sync.options.dedup_window_seconds,
        ),
    ensures
        ({
            let after = sync_after(sync, reply, unix);
            let event = event_in(batch);
            let window = sync.options.dedup_window_seconds;
            exists|k: int|
                {
                    &&& 0 <= k < rows.len()
                    &&& !is_another(#[trigger] rows[k], event, item.created_at, item.model, window)
                    &&& none_is_nearer(rows, event, item.created_at, item.model, window, k)
                    &&& if rows[k].reasoning_output_tokens == 0
                        && event.usage.reasoning_output_tokens > 0 {
                        action_of(after) == (ActionView::<E>::CompleteReasoning {
                            request_id: rows[k].request_id,
                            reasoning_output_tokens: event.usage.reasoning_output_tokens as u32,
                        })
                    } else {
                        after.phase == next_event::<E>(batch.skipped(), unix)
                    }
                }
        }),
{
    let step = StepView::<E>::FindSession { item };
    lemma_step_says::<E>(batch, step);
    let event = event_in(batch);
    let window = sync.options.dedup_window_seconds;
    let time = item.created_at;
    assert forall|i: int| 0 <= i < rows.len() implies (is_same_request(
        #[trigger] rows[i],
        item,
        window,
    ) <==> !is_another(rows[i], event, time, item.model, window)) by {}
    assert(is_same_request(rows[index], item, window));
    let k = lemma_some_is_nearest(rows, item, window, index);
    let chosen = choose|i: int| is_nearest(rows, item, window, i);
    assert(is_same_request(rows[chosen], item, window));
    assert(none_is_nearer(rows, event, time, item.model, window, chosen)) by {
        assert forall|j: int|
            0 <= j < rows.len() && !is_another(
                #[trigger] rows[j],
                event,
                time,
                item.model,
                window,
            ) implies {
            ||| apart(rows[chosen].created_at, time) < apart(rows[j].created_at, time)
            ||| apart(rows[chosen].created_at, time) == apart(rows[j].created_at, time)
                && rows[chosen].created_at <= rows[j].created_at
        } by {
            assert(is_same_request(rows[j], item, window));
        }
    }
}

/// Among requests of the event there is a nearest one.
proof fn lemma_some_is_nearest(
    rows: Seq<RowView>,
    item: ItemView,
    window: i64,
    index: int,
) -> (nearest: int)
    requires
        0 <= index < rows.len(),
        is_same_request(rows[index], item, window),
    ensures
        is_nearest(rows, item, window, nearest),
    decreases rows.len(),
{
    let last = rows.len() - 1;
    let shorter = rows.drop_last();
    if exists|i: int| 0 <= i < last && is_same_request(#[trigger] rows[i], item, window) {
        let i = choose|i: int| 0 <= i < last && is_same_request(#[trigger] rows[i], item, window);
        assert(shorter[i] == rows[i]);
        let k = lemma_some_is_nearest(shorter, item, window, i);
        assert(shorter[k] == rows[k]);
        let better = is_same_request(rows[last], item, window) && is_better(
            rows[last].created_at,
            rows[k].created_at,
            item.created_at,
        );
        let chosen = if better {
            last
        } else {
            k
        };
        assert forall|j: int|
            0 <= j < rows.len() && is_same_request(#[trigger] rows[j], item, window) implies
            !is_better(
            rows[j].created_at,
            rows[chosen].created_at,
            item.created_at,
        ) by {
            if j < last {
                assert(shorter[j] == rows[j]);
                assert(is_same_request(shorter[j], item, window));
            }
        }
        assert forall|j: int|
            0 <= j < chosen && is_same_request(#[trigger] rows[j], item, window) implies
            rows[j].created_at != rows[chosen].created_at by {
            assert(shorter[j] == rows[j]);
            assert(is_same_request(shorter[j], item, window));
        }
        chosen
    } else {
        assert(index == last);
        last
    }
}

} // verus!
