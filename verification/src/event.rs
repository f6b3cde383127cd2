//! Usage events as the importer reads them from the spool.

use crate::record::EVENT_ID_PREFIX;
use crate::text::{blank, decimal, decimal_text, has_prefix, is_blank, starts_with, string_view};
use vstd::prelude::*;

verus! {

/// The token counts of an event.
#[derive(Debug, Clone, Copy)]
pub struct SidebarTokenUsage {
    pub input_tokens: u64,
    pub cached_input_tokens: u64,
    pub cache_write_input_tokens: u64,
    pub output_tokens: u64,
    pub reasoning_output_tokens: u64,
    pub total_tokens: u64,
}

/// A usage event.
#[derive(Debug)]
pub struct SidebarUsageEvent {
    pub schema_version: u32,
    pub event_id: String,
    pub thread_id: String,
    pub turn_id: String,
    pub model: String,
    pub completed_at_ms: i64,
    pub usage: SidebarTokenUsage,
}

/// A usage event, text as characters.
pub struct EventView {
    pub schema_version: u32,
    pub event_id: Seq<char>,
    pub thread_id: Seq<char>,
    pub turn_id: Seq<char>,
    pub model: Seq<char>,
    pub completed_at_ms: i64,
    pub usage: SidebarTokenUsage,
}

impl View for SidebarUsageEvent {
    type V = EventView;

    open spec fn view(&self) -> EventView {
        EventView {
            schema_version: self.schema_version,
            event_id: self.event_id@,
            thread_id: self.thread_id@,
            turn_id: self.turn_id@,
            model: self.model@,
            completed_at_ms: self.completed_at_ms,
            usage: self.usage,
        }
    }
}

/// The token counts of a request in the request log.
#[derive(Debug)]
pub struct TokenUsage {
    pub input_tokens: u32,
    pub output_tokens: u32,
    pub reasoning_output_tokens: u32,
    pub cache_read_tokens: u32,
    pub cache_creation_tokens: u32,
    pub model: Option<String>,
    pub message_id: Option<String>,
}

/// The token counts of a request in the request log, text as characters.
pub struct TokenUsageView {
    pub input_tokens: u32,
    pub output_tokens: u32,
    pub reasoning_output_tokens: u32,
    pub cache_read_tokens: u32,
    pub cache_creation_tokens: u32,
    pub model: Option<Seq<char>>,
    pub message_id: Option<Seq<char>>,
}

impl View for TokenUsage {
    type V = TokenUsageView;

    open spec fn view(&self) -> TokenUsageView {
        TokenUsageView {
            input_tokens: self.input_tokens,
            output_tokens: self.output_tokens,
            reasoning_output_tokens: self.reasoning_output_tokens,
            cache_read_tokens: self.cache_read_tokens,
            cache_creation_tokens: self.cache_creation_tokens,
            model: string_view(self.model),
            message_id: string_view(self.message_id),
        }
    }
}

impl TokenUsageView {
    /// Some count is above zero.
    pub open spec fn is_billable(self) -> bool {
        ||| self.input_tokens > 0
        ||| self.output_tokens > 0
        ||| self.reasoning_output_tokens > 0
        ||| self.cache_read_tokens > 0
        ||| self.cache_creation_tokens > 0
    }
}

impl TokenUsage {
    /// Equal counts.
    pub fn copy(&self) -> (copy: TokenUsage)
        ensures
            copy@ == self@,
    {
        let model = match &self.model {
            Some(model) => Some(model.clone()),
            None => None,
        };
        let message_id = match &self.message_id {
            Some(message_id) => Some(message_id.clone()),
            None => None,
        };
        TokenUsage {
            input_tokens: self.input_tokens,
            output_tokens: self.output_tokens,
            reasoning_output_tokens: self.reasoning_output_tokens,
            cache_read_tokens: self.cache_read_tokens,
            cache_creation_tokens: self.cache_creation_tokens,
            model,
            message_id,
        }
    }

    /// Whether some count is above zero.
    pub fn has_billable_tokens(&self) -> (billable: bool)
        ensures
            billable == self@.is_billable(),
    {
        self.input_tokens > 0 || self.output_tokens > 0 || self.reasoning_output_tokens > 0
            || self.cache_read_tokens > 0 || self.cache_creation_tokens > 0
    }
}

/// The characters of a result's error.
pub open spec fn failure<T>(result: Result<T, String>) -> Option<Seq<char>> {
    match result {
        Ok(_) => None,
        Err(error) => Some(error@),
    }
}

/// What is wrong with an event, where something is.
pub open spec fn event_fault(event: EventView) -> Option<Seq<char>> {
    if event.schema_version != 1 {
        Some("unsupported schemaVersion "@ + decimal(event.schema_version as nat))
    } else if !has_prefix(event.event_id, EVENT_ID_PREFIX@) {
        Some("invalid eventId namespace"@)
    } else if is_blank(event.thread_id) || is_blank(event.turn_id) {
        Some("threadId and turnId are required"@)
    } else {
        None
    }
}

/// What is said of a count that does not fit 32 bits.
pub open spec fn too_large(field: Seq<char>) -> Seq<char> {
    field + " exceeds u32"@
}

/// The first count of an event that does not fit 32 bits.
pub open spec fn oversized_count(usage: SidebarTokenUsage) -> Option<Seq<char>> {
    if usage.input_tokens > u32::MAX {
        Some("inputTokens"@)
    } else if usage.output_tokens > u32::MAX {
        Some("outputTokens"@)
    } else if usage.reasoning_output_tokens > u32::MAX {
        Some("reasoningOutputTokens"@)
    } else if usage.cached_input_tokens > u32::MAX {
        Some("cachedInputTokens"@)
    } else if usage.cache_write_input_tokens > u32::MAX {
        Some("cacheWriteInputTokens"@)
    } else {
        None
    }
}

/// The counts of an event for the request log, where all fit 32 bits.
pub open spec fn log_counts(event: EventView) -> TokenUsageView {
    TokenUsageView {
        input_tokens: event.usage.input_tokens as u32,
        output_tokens: event.usage.output_tokens as u32,
        reasoning_output_tokens: event.usage.reasoning_output_tokens as u32,
        cache_read_tokens: event.usage.cached_input_tokens as u32,
        cache_creation_tokens: event.usage.cache_write_input_tokens as u32,
        model: Some(event.model),
        message_id: None,
    }
}

/// A count in 32 bits, or what is wrong with it.
pub fn to_u32(field: &str, value: u64) -> (count: Result<u32, String>)
    ensures
        match count {
            Ok(count) => count == value,
            Err(error) => value > u32::MAX && error@ == too_large(field@),
        },
{
    if value <= u32::MAX as u64 {
        Ok(value as u32)
    } else {
        let mut error = field.to_owned();
        error.append(" exceeds u32");
        Err(error)
    }
}

impl SidebarUsageEvent {
    /// Checks the version, the namespace of the id, and that the thread and the
    /// turn are named.
    pub fn validate(&self) -> (result: Result<(), String>)
        ensures
            failure(result) == event_fault(self@),
    {
        if self.schema_version != 1 {
            let mut error = "unsupported schemaVersion ".to_owned();
            error.append(decimal_text(self.schema_version as u64).as_str());
            return Err(error);
        }
        if !starts_with(self.event_id.as_str(), EVENT_ID_PREFIX) {
            return Err("invalid eventId namespace".to_owned());
        }
        if blank(self.thread_id.as_str()) || blank(self.turn_id.as_str()) {
            return Err("threadId and turnId are required".to_owned());
        }
        Ok(())
    }

    /// The counts for the request log, or which count is too large for it.
    pub fn token_usage(&self) -> (usage: Result<TokenUsage, String>)
        ensures
            match usage {
                Ok(usage) => oversized_count(self.usage) is None && usage@ == log_counts(self@),
                Err(error) => oversized_count(self.usage) matches Some(field) && error@
                    == too_large(field),
            },
    {
        let input_tokens = to_u32("inputTokens", self.usage.input_tokens)?;
        let output_tokens = to_u32("outputTokens", self.usage.output_tokens)?;
        let reasoning_output_tokens = to_u32(
            "reasoningOutputTokens",
            self.usage.reasoning_output_tokens,
        )?;
        let cache_read_tokens = to_u32("cachedInputTokens", self.usage.cached_input_tokens)?;
        let cache_creation_tokens = to_u32(
            "cacheWriteInputTokens",
            self.usage.cache_write_input_tokens,
        )?;
        Ok(
            TokenUsage {
                input_tokens,
                output_tokens,
                reasoning_output_tokens,
                cache_read_tokens,
                cache_creation_tokens,
                model: Some(self.model.clone()),
                message_id: None,
            },
        )
    }
}

} // verus!
