//! One usage event on its way into the request log.

use crate::clock::{seconds_since_epoch, unix_seconds};
use crate::cost::{CostTexts, CostTextsView};
use crate::event::{
    log_counts, oversized_count, too_large, EventView, SidebarUsageEvent, TokenUsage,
    TokenUsageView,
};
use crate::text::{is_blank, lemma_trimmed_blank, same_ignoring_ascii_case, string_view, trimmed};
use vstd::prelude::*;

verus! {

/// An error of the import. Errors of the application's own are of its own type.
#[derive(Debug)]
pub enum AppError<E> {
    /// Something is wrong with a file or with what it holds.
    Config(String),
    /// Something is wrong with the database.
    Database(String),
    /// The application raised an error of its own.
    Host(E),
}

/// An error of the import, text as characters.
pub enum ErrorView<E> {
    Config(Seq<char>),
    Database(Seq<char>),
    Host(E),
}

impl<E> View for AppError<E> {
    type V = ErrorView<E>;

    open spec fn view(&self) -> ErrorView<E> {
        match self {
            AppError::Config(text) => ErrorView::Config(text@),
            AppError::Database(text) => ErrorView::Database(text@),
            AppError::Host(error) => ErrorView::Host(*error),
        }
    }
}

/// What the request log is to say of an event.
#[derive(Debug)]
pub struct ImportItem {
    pub event_id: String,
    pub thread_id: String,
    pub usage: TokenUsage,
    pub model: String,
    pub created_at: i64,
}

/// What the request log is to say of an event, text as characters.
pub struct ItemView {
    pub event_id: Seq<char>,
    pub thread_id: Seq<char>,
    pub usage: TokenUsageView,
    pub model: Seq<char>,
    pub created_at: i64,
}

impl View for ImportItem {
    type V = ItemView;

    open spec fn view(&self) -> ItemView {
        ItemView {
            event_id: self.event_id@,
            thread_id: self.thread_id@,
            usage: self.usage@,
            model: self.model@,
            created_at: self.created_at,
        }
    }
}

/// What becomes of an event before the request log is asked.
#[derive(Debug)]
pub enum Prepared {
    /// A count is too large for the log; what is said of that.
    Invalid(String),
    /// No count is above zero.
    NotBillable,
    /// The event is to be imported.
    Ready(ImportItem),
}

/// What becomes of an event before the request log is asked.
pub enum PreparedView {
    Invalid(Seq<char>),
    NotBillable,
    Ready(ItemView),
}

impl View for Prepared {
    type V = PreparedView;

    open spec fn view(&self) -> PreparedView {
        match self {
            Prepared::Invalid(error) => PreparedView::Invalid(error@),
            Prepared::NotBillable => PreparedView::NotBillable,
            Prepared::Ready(item) => PreparedView::Ready(item@),
        }
    }
}

/// The model that an event is logged under: its name without white space at the
/// ends, or that it is not known.
pub open spec fn logged_model(model: Seq<char>) -> Seq<char> {
    if is_blank(model) {
        "unknown"@
    } else {
        trimmed(model)
    }
}

/// When an event is logged to have happened, in seconds: when it was completed,
/// or else now.
pub open spec fn logged_time(completed_at_ms: i64, unix: Option<u128>) -> i64 {
    if completed_at_ms > 0 {
        (completed_at_ms as int / 1000) as i64
    } else {
        unix_seconds(unix)
    }
}

/// What the request log is to say of an event whose counts fit it.
pub open spec fn item_of(event: EventView, unix: Option<u128>) -> ItemView {
    ItemView {
        event_id: event.event_id,
        thread_id: event.thread_id,
        usage: log_counts(event),
        model: logged_model(event.model),
        created_at: logged_time(event.completed_at_ms, unix),
    }
}

/// What becomes of an event before the request log is asked.
pub open spec fn prepared(event: EventView, unix: Option<u128>) -> PreparedView {
    match oversized_count(event.usage) {
        Some(field) => PreparedView::Invalid("invalid sidebar usage: "@ + too_large(field)),
        None => if log_counts(event).is_billable() {
            PreparedView::Ready(item_of(event, unix))
        } else {
            PreparedView::NotBillable
        },
    }
}

/// Prepares an event for the request log, where `unix` is what the system clock
/// shows.
pub fn prepare_event(event: &SidebarUsageEvent, unix: Option<u128>) -> (result: Prepared)
    ensures
        result@ == prepared(event@, unix),
{
    let usage = match event.token_usage() {
        Ok(usage) => usage,
        Err(error) => {
            let mut text = "invalid sidebar usage: ".to_owned();
            text.append(error.as_str());
            return Prepared::Invalid(text);
        },
    };
    if !usage.has_billable_tokens() {
        return Prepared::NotBillable;
    }
    let created_at: i64 = if event.completed_at_ms > 0 {
        event.completed_at_ms / 1000
    } else {
        seconds_since_epoch(unix)
    };
    proof {
        lemma_trimmed_blank(event.model@);
    }
    let name = event.model.as_str().trim();
    let model = if name.is_empty() {
        "unknown".to_owned()
    } else {
        name.to_owned()
    };
    Prepared::Ready(
        ImportItem {
            event_id: event.event_id.clone(),
            thread_id: event.thread_id.clone(),
            usage,
            model,
            created_at,
        },
    )
}

/// By what the request log recognises a request that it has already.
#[derive(Debug)]
pub struct DedupKey {
    pub app_type: String,
    pub model: String,
    pub input_tokens: u32,
    pub output_tokens: u32,
    pub reasoning_output_tokens: u32,
    pub cache_read_tokens: u32,
    pub cache_creation_tokens: u32,
    pub cache_creation_tokens_known: bool,
    pub created_at: i64,
}

/// By what the request log recognises a request, text as characters.
pub struct DedupView {
    pub app_type: Seq<char>,
    pub model: Seq<char>,
    pub input_tokens: u32,
    pub output_tokens: u32,
    pub reasoning_output_tokens: u32,
    pub cache_read_tokens: u32,
    pub cache_creation_tokens: u32,
    pub cache_creation_tokens_known: bool,
    pub created_at: i64,
}

impl View for DedupKey {
    type V = DedupView;

    open spec fn view(&self) -> DedupView {
        DedupView {
            app_type: self.app_type@,
            model: self.model@,
            input_tokens: self.input_tokens,
            output_tokens: self.output_tokens,
            reasoning_output_tokens: self.reasoning_output_tokens,
            cache_read_tokens: self.cache_read_tokens,
            cache_creation_tokens: self.cache_creation_tokens,
            cache_creation_tokens_known: self.cache_creation_tokens_known,
            created_at: self.created_at,
        }
    }
}

/// By what the request log recognises an item.
pub open spec fn dedup_key_of(item: ItemView) -> DedupView {
    DedupView {
        app_type: "codex"@,
        model: item.model,
        input_tokens: item.usage.input_tokens,
        output_tokens: item.usage.output_tokens,
        reasoning_output_tokens: item.usage.reasoning_output_tokens,
        cache_read_tokens: item.usage.cache_read_tokens,
        cache_creation_tokens: item.usage.cache_creation_tokens,
        cache_creation_tokens_known: true,
        created_at: item.created_at,
    }
}

/// A request of a Codex session that the log has already.
#[derive(Debug)]
pub struct SessionRow {
    pub request_id: String,
    pub app_type: String,
    pub data_source: String,
    pub session_id: String,
    pub model: String,
    pub input_tokens: i64,
    pub output_tokens: i64,
    pub reasoning_output_tokens: i64,
    pub cache_read_tokens: i64,
    pub cache_creation_tokens: i64,
    pub created_at: i64,
}

/// A request of a Codex session, text as characters.
pub struct RowView {
    pub request_id: Seq<char>,
    pub app_type: Seq<char>,
    pub data_source: Seq<char>,
    pub session_id: Seq<char>,
    pub model: Seq<char>,
    pub input_tokens: i64,
    pub output_tokens: i64,
    pub reasoning_output_tokens: i64,
    pub cache_read_tokens: i64,
    pub cache_creation_tokens: i64,
    pub created_at: i64,
}

impl View for SessionRow {
    type V = RowView;

    open spec fn view(&self) -> RowView {
        RowView {
            request_id: self.request_id@,
            app_type: self.app_type@,
            data_source: self.data_source@,
            session_id: self.session_id@,
            model: self.model@,
            input_tokens: self.input_tokens,
            output_tokens: self.output_tokens,
            reasoning_output_tokens: self.reasoning_output_tokens,
            cache_read_tokens: self.cache_read_tokens,
            cache_creation_tokens: self.cache_creation_tokens,
            created_at: self.created_at,
        }
    }
}

/// The two names are the same model, or one of them is not known. The case of
/// letters does not count.
pub open spec fn models_agree(logged: Seq<char>, model: Seq<char>) -> bool {
    ||| same_ignoring_ascii_case(logged, model)
    ||| same_ignoring_ascii_case(logged, "unknown"@)
    ||| same_ignoring_ascii_case(model, "unknown"@)
}

/// How far apart two times are.
pub open spec fn distance(a: i64, b: i64) -> int {
    if a >= b {
        a - b
    } else {
        b - a
    }
}

/// The logged request is the item's: of the same thread, with the same counts,
/// at about the same time. A count of reasoning tokens or of cache writes that
/// the log does not have agrees with any.
pub open spec fn is_same_request(row: RowView, item: ItemView, window: i64) -> bool {
    &&& row.app_type == "codex"@
    &&& row.data_source == "codex_session"@
    &&& row.session_id == item.thread_id
    &&& row.input_tokens == item.usage.input_tokens
    &&& row.output_tokens == item.usage.output_tokens
    &&& row.reasoning_output_tokens == item.usage.reasoning_output_tokens
        || row.reasoning_output_tokens == 0 || item.usage.reasoning_output_tokens == 0
    &&& row.cache_read_tokens == item.usage.cache_read_tokens
    &&& row.cache_creation_tokens == item.usage.cache_creation_tokens
        || row.cache_creation_tokens == 0
    &&& item.created_at - window <= row.created_at <= item.created_at + window
    &&& models_agree(row.model, item.model)
}

/// The first time is nearer to `time` than the second, or as near and earlier.
pub open spec fn is_better(first: i64, second: i64, time: i64) -> bool {
    ||| distance(first, time) < distance(second, time)
    ||| distance(first, time) == distance(second, time) && first < second
}

/// Row number `index` is the item's request that is nearest in time; of those
/// as near, the earliest; of those, the first in the list.
pub open spec fn is_nearest(rows: Seq<RowView>, item: ItemView, window: i64, index: int) -> bool {
    &&& 0 <= index < rows.len()
    &&& is_same_request(rows[index], item, window)
    &&& forall|j: int|
        0 <= j < rows.len() && is_same_request(#[trigger] rows[j], item, window) ==> !is_better(
            rows[j].created_at,
            rows[index].created_at,
            item.created_at,
        )
    &&& forall|j: int|
        0 <= j < index && is_same_request(#[trigger] rows[j], item, window)
            ==> rows[j].created_at != rows[index].created_at
}

/// The views of a list of rows.
pub open spec fn row_views(rows: Seq<SessionRow>) -> Seq<RowView> {
    Seq::new(rows.len(), |i: int| rows[i]@)
}

impl ImportItem {
    /// By what the request log recognises the item.
    pub fn dedup_key(&self) -> (key: DedupKey)
        ensures
            key@ == dedup_key_of(self@),
    {
        DedupKey {
            app_type: "codex".to_owned(),
            model: self.model.clone(),
            input_tokens: self.usage.input_tokens,
            output_tokens: self.usage.output_tokens,
            reasoning_output_tokens: self.usage.reasoning_output_tokens,
            cache_read_tokens: self.usage.cache_read_tokens,
            cache_creation_tokens: self.usage.cache_creation_tokens,
            cache_creation_tokens_known: true,
            created_at: self.created_at,
        }
    }
}

impl SessionRow {
    /// Whether the logged request is the item's.
    pub fn matches(&self, item: &ImportItem, window: i64) -> (result: bool)
        ensures
            result == is_same_request(self@, item@, window),
    {
        let created_at: i128 = self.created_at as i128;
        let time: i128 = item.created_at as i128;
        let usage = &item.usage;
        self.app_type.as_str().eq("codex") && self.data_source.as_str().eq("codex_session")
            && self.session_id.as_str().eq(item.thread_id.as_str()) && self.input_tokens
            == usage.input_tokens as i64 && self.output_tokens == usage.output_tokens as i64 && (
        self.reasoning_output_tokens == usage.reasoning_output_tokens as i64
            || self.reasoning_output_tokens == 0 || usage.reasoning_output_tokens == 0)
            && self.cache_read_tokens == usage.cache_read_tokens as i64 && (
        self.cache_creation_tokens == usage.cache_creation_tokens as i64
            || self.cache_creation_tokens == 0) && time - window as i128 <= created_at && created_at
            <= time + window as i128 && (self.model.as_str().eq_ignore_ascii_case(
            item.model.as_str(),
        ) || self.model.as_str().eq_ignore_ascii_case("unknown")
            || item.model.as_str().eq_ignore_ascii_case("unknown"))
    }
}

/// How far apart two times are.
fn time_distance(a: i64, b: i64) -> (result: i128)
    ensures
        result == distance(a, b),
{
    if a >= b {
        a as i128 - b as i128
    } else {
        b as i128 - a as i128
    }
}

/// Whether the first time is nearer to `time` than the second, or as near and
/// earlier.
fn better_time(first: i64, second: i64, time: i64) -> (result: bool)
    ensures
        result == is_better(first, second, time),
{
    let a = time_distance(first, time);
    let b = time_distance(second, time);
    a < b || (a == b && first < second)
}

/// The item's request among those that the log has of its thread.
pub fn select_matching_session(rows: &Vec<SessionRow>, item: &ImportItem, window: i64) -> (found:
    Option<usize>)
    ensures
        match found {
            Some(index) => is_nearest(row_views(rows@), item@, window, index as int),
            None => forall|j: int|
                0 <= j < rows@.len() ==> !is_same_request(
                    #[trigger] row_views(rows@)[j],
                    item@,
                    window,
                ),
        },
{
    let ghost views = row_views(rows@);
    let mut found: Option<usize> = None;
    let mut i: usize = 0;
    while i < rows.len()
        invariant
            i <= rows@.len(),
            views == row_views(rows@),
            match found {
                Some(index) => index < i && is_nearest(
                    views.take(i as int),
                    item@,
                    window,
                    index as int,
                ),
                None => forall|j: int|
                    0 <= j < i ==> !is_same_request(#[trigger] views[j], item@, window),
            },
        decreases rows@.len() - i,
    {
        let ghost shorter = views.take(i as int);
        let ghost longer = views.take(i + 1);
        proof {
            assert(longer =~= shorter.push(views[i as int]));
            assert(forall|j: int| 0 <= j < i ==> #[trigger] shorter[j] == views[j]);
            assert(forall|j: int| 0 <= j <= i ==> #[trigger] longer[j] == views[j]);
        }
        if rows[i].matches(item, window) {
            found = match found {
                Some(index) => if better_time(
                    rows[i].created_at,
                    rows[index].created_at,
                    item.created_at,
                ) {
                    Some(i)
                } else {
                    Some(index)
                },
                None => Some(i),
            };
        }
        proof {
            if let Some(index) = found {
                assert(is_same_request(longer[index as int], item@, window));
                assert forall|j: int|
                    0 <= j < longer.len() && is_same_request(
                        #[trigger] longer[j],
                        item@,
                        window,
                    ) implies !is_better(
                    longer[j].created_at,
                    longer[index as int].created_at,
                    item@.created_at,
                ) by {
                    if j < i {
                        assert(is_same_request(shorter[j], item@, window));
                    }
                }
                assert forall|j: int|
                    0 <= j < index && is_same_request(#[trigger] longer[j], item@, window) implies longer[j].created_at
                    != longer[index as int].created_at by {
                    if j < i {
                        assert(is_same_request(shorter[j], item@, window));
                    }
                }
                assert(is_nearest(longer, item@, window, index as int));
            }
        }
        i = i + 1;
    }
    assert(views.take(i as int) =~= views);
    found
}

/// A row of the request log.
#[derive(Debug)]
pub struct ProxyLogRow {
    pub request_id: String,
    pub provider_id: String,
    pub app_type: String,
    pub model: String,
    pub request_model: String,
    pub pricing_model: String,
    pub input_tokens: u32,
    pub output_tokens: u32,
    pub reasoning_output_tokens: u32,
    pub cache_read_tokens: u32,
    pub cache_creation_tokens: u32,
    pub input_token_semantics: i64,
    pub costs: CostTexts,
    pub latency_ms: i64,
    pub first_token_ms: Option<i64>,
    pub status_code: i64,
    pub error_message: Option<String>,
    pub session_id: String,
    pub provider_type: Option<String>,
    pub is_streaming: i64,
    pub cost_multiplier: String,
    pub created_at: i64,
    pub data_source: String,
}

/// A row of the request log, text as characters.
pub struct LogRowView {
    pub request_id: Seq<char>,
    pub provider_id: Seq<char>,
    pub app_type: Seq<char>,
    pub model: Seq<char>,
    pub request_model: Seq<char>,
    pub pricing_model: Seq<char>,
    pub input_tokens: u32,
    pub output_tokens: u32,
    pub reasoning_output_tokens: u32,
    pub cache_read_tokens: u32,
    pub cache_creation_tokens: u32,
    pub input_token_semantics: i64,
    pub costs: CostTextsView,
    pub latency_ms: i64,
    pub first_token_ms: Option<i64>,
    pub status_code: i64,
    pub error_message: Option<Seq<char>>,
    pub session_id: Seq<char>,
    pub provider_type: Option<Seq<char>>,
    pub is_streaming: i64,
    pub cost_multiplier: Seq<char>,
    pub created_at: i64,
    pub data_source: Seq<char>,
}

impl View for ProxyLogRow {
    type V = LogRowView;

    open spec fn view(&self) -> LogRowView {
        LogRowView {
            request_id: self.request_id@,
            provider_id: self.provider_id@,
            app_type: self.app_type@,
            model: self.model@,
            request_model: self.request_model@,
            pricing_model: self.pricing_model@,
            input_tokens: self.input_tokens,
            output_tokens: self.output_tokens,
            reasoning_output_tokens: self.reasoning_output_tokens,
            cache_read_tokens: self.cache_read_tokens,
            cache_creation_tokens: self.cache_creation_tokens,
            input_token_semantics: self.input_token_semantics,
            costs: self.costs@,
            latency_ms: self.latency_ms,
            first_token_ms: self.first_token_ms,
            status_code: self.status_code,
            error_message: string_view(self.error_message),
            session_id: self.session_id@,
            provider_type: string_view(self.provider_type),
            is_streaming: self.is_streaming,
            cost_multiplier: self.cost_multiplier@,
            created_at: self.created_at,
            data_source: self.data_source@,
        }
    }
}

/// The row that an item makes.
pub open spec fn log_row_of(item: ItemView, costs: CostTextsView, semantics: i64) -> LogRowView {
    LogRowView {
        request_id: item.event_id,
        provider_id: "_codex_sidebar"@,
        app_type: "codex"@,
        model: item.model,
        request_model: item.model,
        pricing_model: item.model,
        input_tokens: item.usage.input_tokens,
        output_tokens: item.usage.output_tokens,
        reasoning_output_tokens: item.usage.reasoning_output_tokens,
        cache_read_tokens: item.usage.cache_read_tokens,
        cache_creation_tokens: item.usage.cache_creation_tokens,
        input_token_semantics: semantics,
        costs,
        latency_ms: 0,
        first_token_ms: None,
        status_code: 200,
        error_message: None,
        session_id: item.thread_id,
        provider_type: Some("codex_sidebar"@),
        is_streaming: 1,
        cost_multiplier: "1.0"@,
        created_at: item.created_at,
        data_source: "codex_sidebar"@,
    }
}

impl CostTexts {
    /// Equal texts.
    pub fn copy(&self) -> (copy: CostTexts)
        ensures
            copy == *self,
    {
        CostTexts {
            input_cost: self.input_cost.clone(),
            output_cost: self.output_cost.clone(),
            cache_read_cost: self.cache_read_cost.clone(),
            cache_creation_cost: self.cache_creation_cost.clone(),
            total_cost: self.total_cost.clone(),
        }
    }
}

impl ImportItem {
    /// The row that the item makes.
    pub fn log_row(&self, costs: &CostTexts, semantics: i64) -> (row: ProxyLogRow)
        ensures
            row@ == log_row_of(self@, costs@, semantics),
    {
        ProxyLogRow {
            request_id: self.event_id.clone(),
            provider_id: "_codex_sidebar".to_owned(),
            app_type: "codex".to_owned(),
            model: self.model.clone(),
            request_model: self.model.clone(),
            pricing_model: self.model.clone(),
            input_tokens: self.usage.input_tokens,
            output_tokens: self.usage.output_tokens,
            reasoning_output_tokens: self.usage.reasoning_output_tokens,
            cache_read_tokens: self.usage.cache_read_tokens,
            cache_creation_tokens: self.usage.cache_creation_tokens,
            input_token_semantics: semantics,
            costs: costs.copy(),
            latency_ms: 0,
            first_token_ms: None,
            status_code: 200,
            error_message: None,
            session_id: self.thread_id.clone(),
            provider_type: Some("codex_sidebar".to_owned()),
            is_streaming: 1,
            cost_multiplier: "1.0".to_owned(),
            created_at: self.created_at,
            data_source: "codex_sidebar".to_owned(),
        }
    }
}

} // verus!
