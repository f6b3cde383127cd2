//! Token counts and the records that the bridge writes.

use crate::json::{nonnegative_u64, natural_in, Json, JsonView};
use crate::text::{decimal, decimal_text};
use vstd::prelude::*;

verus! {

/// What the id of every usage record starts with.
pub const EVENT_ID_PREFIX: &'static str = "codex_sidebar:usage-v1:";

/// What the id of every timing record starts with.
pub const TIMING_EVENT_ID_PREFIX: &'static str = "codex_sidebar:timing-v1:";

/// The running totals of a turn, by which a repeated report is recognised.
#[derive(Debug, Clone, Copy, PartialEq, Eq, Structural)]
pub struct UsageSignature {
    pub input_tokens: u64,
    pub cached_input_tokens: u64,
    pub cache_write_input_tokens: u64,
    pub output_tokens: u64,
    pub reasoning_output_tokens: u64,
    pub total_tokens: u64,
}

/// The token counts of one model request.
#[derive(Debug, Clone, Copy, PartialEq, Eq, Structural)]
pub struct UsageBreakdown {
    pub input_tokens: u64,
    pub cached_input_tokens: u64,
    pub cache_write_input_tokens: u64,
    pub output_tokens: u64,
    pub reasoning_output_tokens: u64,
    pub total_tokens: u64,
}

/// The token counts that a JSON object holds. All are required but the cache
/// writes, which count as zero where they are missing or unreadable.
pub open spec fn breakdown_in(value: JsonView) -> Option<UsageBreakdown> {
    match (
        natural_in(value.get("inputTokens"@)),
        natural_in(value.get("cachedInputTokens"@)),
        natural_in(value.get("outputTokens"@)),
        natural_in(value.get("reasoningOutputTokens"@)),
        natural_in(value.get("totalTokens"@)),
    ) {
        (Some(input), Some(cached), Some(output), Some(reasoning), Some(total)) => Some(
            UsageBreakdown {
                input_tokens: input,
                cached_input_tokens: cached,
                cache_write_input_tokens: match natural_in(value.get("cacheWriteInputTokens"@)) {
                    Some(written) => written,
                    None => 0,
                },
                output_tokens: output,
                reasoning_output_tokens: reasoning,
                total_tokens: total,
            },
        ),
        _ => None,
    }
}

impl UsageBreakdown {
    /// The token counts that a JSON object holds.
    pub fn from_value(value: &Json) -> (breakdown: Option<Self>)
        ensures
            breakdown == breakdown_in(value@),
    {
        let input_tokens: u64 = nonnegative_u64(value.get("inputTokens")?)?;
        let cached_input_tokens: u64 = nonnegative_u64(value.get("cachedInputTokens")?)?;
        let cache_write_input_tokens: u64 = match value.get("cacheWriteInputTokens") {
            Some(written) => match nonnegative_u64(written) {
                Some(written) => written,
                None => 0,
            },
            None => 0,
        };
        let output_tokens: u64 = nonnegative_u64(value.get("outputTokens")?)?;
        let reasoning_output_tokens: u64 = nonnegative_u64(value.get("reasoningOutputTokens")?)?;
        let total_tokens: u64 = nonnegative_u64(value.get("totalTokens")?)?;
        Some(
            UsageBreakdown {
                input_tokens,
                cached_input_tokens,
                cache_write_input_tokens,
                output_tokens,
                reasoning_output_tokens,
                total_tokens,
            },
        )
    }

    /// The counts as a signature.
    pub open spec fn signature_spec(self) -> UsageSignature {
        UsageSignature {
            input_tokens: self.input_tokens,
            cached_input_tokens: self.cached_input_tokens,
            cache_write_input_tokens: self.cache_write_input_tokens,
            output_tokens: self.output_tokens,
            reasoning_output_tokens: self.reasoning_output_tokens,
            total_tokens: self.total_tokens,
        }
    }

    /// The counts as a signature.
    pub fn signature(self) -> (signature: UsageSignature)
        ensures
            signature == self.signature_spec(),
    {
        UsageSignature {
            input_tokens: self.input_tokens,
            cached_input_tokens: self.cached_input_tokens,
            cache_write_input_tokens: self.cache_write_input_tokens,
            output_tokens: self.output_tokens,
            reasoning_output_tokens: self.reasoning_output_tokens,
            total_tokens: self.total_tokens,
        }
    }

    /// Some count other than the total is above zero.
    pub open spec fn is_billable(self) -> bool {
        ||| self.input_tokens > 0
        ||| self.cached_input_tokens > 0
        ||| self.cache_write_input_tokens > 0
        ||| self.output_tokens > 0
        ||| self.reasoning_output_tokens > 0
    }

    /// Whether some count other than the total is above zero.
    pub fn has_billable_tokens(self) -> (billable: bool)
        ensures
            billable == self.is_billable(),
    {
        self.input_tokens > 0 || self.cached_input_tokens > 0 || self.cache_write_input_tokens > 0
            || self.output_tokens > 0 || self.reasoning_output_tokens > 0
    }
}

/// The token counts of one model request within a turn.
#[derive(Debug, Clone, PartialEq, Eq)]
pub struct UsageRecord {
    pub schema_version: u32,
    pub event_id: String,
    pub thread_id: String,
    pub turn_id: String,
    pub model: String,
    pub completed_at_ms: i64,
    pub usage: UsageBreakdown,
}

/// How long a turn took. It completes the turn's last usage record.
#[derive(Debug, Clone, PartialEq, Eq)]
pub struct TimingRecord {
    pub schema_version: u32,
    pub event_id: String,
    pub target_event_id: String,
    pub thread_id: String,
    pub turn_id: String,
    pub completed_at_ms: i64,
    pub duration_ms: u64,
    pub first_token_ms: Option<u64>,
}

/// A record of either kind.
#[derive(Debug, Clone, PartialEq, Eq)]
pub enum BridgeRecord {
    Usage(UsageRecord),
    Timing(TimingRecord),
}

/// A usage record, text as characters.
pub struct UsageRecordView {
    pub schema_version: u32,
    pub event_id: Seq<char>,
    pub thread_id: Seq<char>,
    pub turn_id: Seq<char>,
    pub model: Seq<char>,
    pub completed_at_ms: i64,
    pub usage: UsageBreakdown,
}

/// A timing record, text as characters.
pub struct TimingRecordView {
    pub schema_version: u32,
    pub event_id: Seq<char>,
    pub target_event_id: Seq<char>,
    pub thread_id: Seq<char>,
    pub turn_id: Seq<char>,
    pub completed_at_ms: i64,
    pub duration_ms: u64,
    pub first_token_ms: Option<u64>,
}

/// A record of either kind, text as characters.
pub enum RecordView {
    Usage(UsageRecordView),
    Timing(TimingRecordView),
}

impl View for UsageRecord {
    type V = UsageRecordView;

    open spec fn view(&self) -> UsageRecordView {
        UsageRecordView {
            schema_version: self.schema_version,
            event_id: self.event_id@,
            thread_id: self.thread_id@,
            turn_id: self.turn_id@,
            model: self.model@,
            completed_at_ms: self.completed_at_ms,
            usage: self.usage,
        }
    }
}

impl View for TimingRecord {
    type V = TimingRecordView;

    open spec fn view(&self) -> TimingRecordView {
        TimingRecordView {
            schema_version: self.schema_version,
            event_id: self.event_id@,
            target_event_id: self.target_event_id@,
            thread_id: self.thread_id@,
            turn_id: self.turn_id@,
            completed_at_ms: self.completed_at_ms,
            duration_ms: self.duration_ms,
            first_token_ms: self.first_token_ms,
        }
    }
}

impl View for BridgeRecord {
    type V = RecordView;

    open spec fn view(&self) -> RecordView {
        match self {
            BridgeRecord::Usage(record) => RecordView::Usage(record@),
            BridgeRecord::Timing(record) => RecordView::Timing(record@),
        }
    }
}

/// The view of an optional record.
pub open spec fn record_view(record: Option<BridgeRecord>) -> Option<RecordView> {
    match record {
        Some(record) => Some(record@),
        None => None,
    }
}

/// The id of a turn's usage record number `sequence`.
pub open spec fn usage_event_id_of(thread_id: Seq<char>, turn_id: Seq<char>, sequence: nat) -> Seq<
    char,
> {
    EVENT_ID_PREFIX@ + thread_id + ":"@ + turn_id + ":"@ + decimal(sequence)
}

/// The id of a turn's timing record.
pub open spec fn timing_event_id_of(thread_id: Seq<char>, turn_id: Seq<char>) -> Seq<char> {
    TIMING_EVENT_ID_PREFIX@ + thread_id + ":"@ + turn_id
}

/// The id of a turn's usage record number `sequence`.
pub fn usage_event_id(thread_id: &str, turn_id: &str, sequence: u64) -> (id: String)
    ensures
        id@ == usage_event_id_of(thread_id@, turn_id@, sequence as nat),
{
    let mut id = EVENT_ID_PREFIX.to_owned();
    id.append(thread_id);
    id.append(":");
    id.append(turn_id);
    id.append(":");
    id.append(decimal_text(sequence).as_str());
    id
}

/// The id of a turn's timing record.
pub fn timing_event_id(thread_id: &str, turn_id: &str) -> (id: String)
    ensures
        id@ == timing_event_id_of(thread_id@, turn_id@),
{
    let mut id = TIMING_EVENT_ID_PREFIX.to_owned();
    id.append(thread_id);
    id.append(":");
    id.append(turn_id);
    id
}

} // verus!
