use codex_sidebar::cost::{Amount, CostBreakdown};
use codex_sidebar::event::{SidebarTokenUsage, SidebarUsageEvent};
use codex_sidebar::import::{AppError, SessionRow};
use codex_sidebar::sync::{
    sync_codex_sidebar_usage, SessionSyncResult, SidebarSync, SyncAction, SyncOptions, SyncReply,
};
use serde_json::Value;

const INPUT_TOKEN_SEMANTICS_TOTAL: i64 = 1;

fn options() -> SyncOptions {
    SyncOptions {
        dedup_window_seconds: 600,
        input_token_semantics_total: INPUT_TOKEN_SEMANTICS_TOTAL,
    }
}

#[derive(Clone, Default)]
struct LogRow {
    request_id: String,
    provider_id: String,
    model: String,
    input_tokens: i64,
    output_tokens: i64,
    reasoning_output_tokens: i64,
    cache_read_tokens: i64,
    cache_creation_tokens: i64,
    input_token_semantics: i64,
    total_cost: String,
    session_id: String,
    created_at: i64,
    data_source: String,
}

/// A request log in memory, with the state of the last import.
#[derive(Default)]
struct Log {
    rows: Vec<LogRow>,
    state: (i64, i64),
    pricing_lookups: Vec<String>,
    actions: Vec<String>,
    fail_insert: bool,
    fail_commit: bool,
}

fn field_u64(value: &Value, name: &str) -> Result<u64, String> {
    value.get(name).and_then(Value::as_u64).ok_or(format!("missing field `{name}`"))
}

fn field_text(value: &Value, name: &str) -> Result<String, String> {
    value
        .get(name)
        .and_then(Value::as_str)
        .map(str::to_owned)
        .ok_or(format!("missing field `{name}`"))
}

fn parse(content: &[u8]) -> Result<SidebarUsageEvent, String> {
    let value = serde_json::from_slice::<Value>(content).map_err(|error| error.to_string())?;
    let usage = value.get("usage").ok_or("missing field `usage`".to_string())?;
    Ok(SidebarUsageEvent {
        schema_version: field_u64(&value, "schemaVersion")? as u32,
        event_id: field_text(&value, "eventId")?,
        thread_id: field_text(&value, "threadId")?,
        turn_id: field_text(&value, "turnId")?,
        model: field_text(&value, "model")?,
        completed_at_ms: value.get("completedAtMs").and_then(Value::as_i64).unwrap(),
        usage: SidebarTokenUsage {
            input_tokens: field_u64(usage, "inputTokens")?,
            cached_input_tokens: field_u64(usage, "cachedInputTokens")?,
            cache_write_input_tokens: field_u64(usage, "cacheWriteInputTokens").unwrap_or(0),
            output_tokens: field_u64(usage, "outputTokens")?,
            reasoning_output_tokens: field_u64(usage, "reasoningOutputTokens")?,
            total_tokens: field_u64(usage, "totalTokens")?,
        },
    })
}

fn amount(mantissa: i128, scale: u32) -> Amount {
    Amount::new(mantissa < 0, mantissa.unsigned_abs(), scale).unwrap()
}

fn perform(log: &mut Log, spool: &[u8], modified: i64, action: SyncAction<'_, String>) -> SyncReply<String> {
    match action {
        SyncAction::LocateSpool => SyncReply::FileStatus { modified, len: spool.len() as u64 },
        SyncAction::RecallState => {
            SyncReply::SyncState { last_modified: log.state.0, saved_offset: log.state.1 }
        }
        SyncAction::ReadSpool { offset } => {
            SyncReply::Spool { bytes: spool[offset as usize..].to_vec() }
        }
        SyncAction::ParseLine { content } => SyncReply::Parsed { event: parse(&content) },
        SyncAction::BeginTransaction => SyncReply::Done,
        SyncAction::MergeProxy { key } => {
            assert_eq!(key.app_type, "codex");
            assert!(key.cache_creation_tokens_known);
            for row in log.rows.iter_mut() {
                if row.data_source == "proxy"
                    && row.model == key.model
                    && row.input_tokens == key.input_tokens as i64
                    && row.output_tokens == key.output_tokens as i64
                    && row.cache_read_tokens == key.cache_read_tokens as i64
                    && row.cache_creation_tokens == key.cache_creation_tokens as i64
                    && row.created_at == key.created_at
                {
                    row.reasoning_output_tokens =
                        row.reasoning_output_tokens.max(key.reasoning_output_tokens as i64);
                    return SyncReply::Answer { yes: true };
                }
            }
            SyncReply::Answer { yes: false }
        }
        SyncAction::FindSessions { thread_id } => {
            let mut rows = Vec::new();
            for row in &log.rows {
                if row.session_id == thread_id {
                    rows.push(SessionRow {
                        request_id: row.request_id.clone(),
                        app_type: "codex".to_string(),
                        data_source: row.data_source.clone(),
                        session_id: row.session_id.clone(),
                        model: row.model.clone(),
                        input_tokens: row.input_tokens,
                        output_tokens: row.output_tokens,
                        reasoning_output_tokens: row.reasoning_output_tokens,
                        cache_read_tokens: row.cache_read_tokens,
                        cache_creation_tokens: row.cache_creation_tokens,
                        created_at: row.created_at,
                    });
                }
            }
            SyncReply::Sessions { rows }
        }
        SyncAction::CompleteReasoning { request_id, reasoning_output_tokens } => {
            for row in log.rows.iter_mut() {
                if row.request_id == request_id
                    && row.reasoning_output_tokens < reasoning_output_tokens as i64
                {
                    row.reasoning_output_tokens = reasoning_output_tokens as i64;
                }
            }
            SyncReply::Done
        }
        SyncAction::CheckDuplicate { .. } => SyncReply::Answer { yes: false },
        SyncAction::FindPricing { model } => {
            log.pricing_lookups.push(model);
            SyncReply::Done
        }
        SyncAction::CalculateCost { usage, slot } => {
            if log.pricing_lookups[slot] == "unpriced" {
                return SyncReply::Costs { costs: None };
            }
            SyncReply::Costs {
                costs: Some(CostBreakdown {
                    input_cost: amount(usage.input_tokens as i128 * 5, 6),
                    output_cost: amount(usage.output_tokens as i128 * 30, 6),
                    cache_read_cost: amount(usage.cache_read_tokens as i128 * 5, 7),
                    cache_creation_cost: amount(usage.cache_creation_tokens as i128 * 625, 8),
                    total_cost: amount(1, 0),
                }),
            }
        }
        SyncAction::InsertRow { row } => {
            if log.fail_insert {
                return SyncReply::Failed { error: "disk full".to_string() };
            }
            if log.rows.iter().any(|known| known.request_id == row.request_id) {
                return SyncReply::Inserted { count: 0 };
            }
            assert_eq!(row.app_type, "codex");
            assert_eq!(row.request_model, row.model);
            assert_eq!(row.pricing_model, row.model);
            assert_eq!(row.latency_ms, 0);
            assert_eq!(row.first_token_ms, None);
            assert_eq!(row.status_code, 200);
            assert_eq!(row.error_message, None);
            assert_eq!(row.provider_type, Some("codex_sidebar".to_string()));
            assert_eq!(row.is_streaming, 1);
            assert_eq!(row.cost_multiplier, "1.0");
            log.rows.push(LogRow {
                request_id: row.request_id,
                provider_id: row.provider_id,
                model: row.model,
                input_tokens: row.input_tokens as i64,
                output_tokens: row.output_tokens as i64,
                reasoning_output_tokens: row.reasoning_output_tokens as i64,
                cache_read_tokens: row.cache_read_tokens as i64,
                cache_creation_tokens: row.cache_creation_tokens as i64,
                input_token_semantics: row.input_token_semantics,
                total_cost: row.costs.total_cost,
                session_id: row.session_id,
                created_at: row.created_at,
                data_source: row.data_source,
            });
            SyncReply::Inserted { count: 1 }
        }
        SyncAction::RenderError { error } => SyncReply::Rendered {
            text: match error {
                AppError::Config(text) => format!("config: {text}"),
                AppError::Database(text) => format!("database: {text}"),
                AppError::Host(raised) => raised.clone(),
            },
        },
        SyncAction::SaveCursor { modified, offset } => {
            log.state = (modified, offset);
            SyncReply::Done
        }
        SyncAction::Commit => {
            if log.fail_commit {
                SyncReply::Failed { error: "locked".to_string() }
            } else {
                SyncReply::Done
            }
        }
        SyncAction::Finish => panic!("nothing is left to do"),
    }
}

fn run(log: &mut Log, spool: &[u8], modified: i64) -> Result<SessionSyncResult, AppError<String>> {
    let saved = (log.rows.clone(), log.state);
    let mut sync = SidebarSync::new("sidebar.jsonl".to_string(), options());
    loop {
        let action = sync.action();
        if matches!(action, SyncAction::Finish) {
            let outcome = sync.outcome().unwrap();
            if outcome.is_err() {
                log.rows = saved.0;
                log.state = saved.1;
            }
            return outcome;
        }
        log.actions.push(format!("{action:?}"));
        let reply = perform(log, spool, modified, action);
        sync = sync_codex_sidebar_usage(sync, reply);
    }
}

fn event(event_id: &str, input: u64, output: u64, reasoning: u64) -> String {
    format!(
        "{{\"schemaVersion\":1,\"eventId\":\"{event_id}\",\"threadId\":\"thread-side\",\
         \"turnId\":\"turn-side\",\"model\":\"gpt-5.6-sol\",\"completedAtMs\":1800000000000,\
         \"usage\":{{\"inputTokens\":{input},\"cachedInputTokens\":100,\
         \"cacheWriteInputTokens\":5,\"outputTokens\":{output},\
         \"reasoningOutputTokens\":{reasoning},\"totalTokens\":{}}}}}",
        input + output
    )
}

fn append(spool: &mut Vec<u8>, line: &str) {
    spool.extend_from_slice(line.as_bytes());
    spool.push(b'\n');
}

#[test]
fn imports_each_sampling_event_once() {
    let mut spool = Vec::new();
    append(&mut spool, &event("codex_sidebar:usage-v1:thread-side:turn-side:1", 1000, 80, 40));
    append(&mut spool, &event("codex_sidebar:usage-v1:thread-side:turn-side:2", 1200, 90, 50));
    let mut log = Log::default();

    let first = run(&mut log, &spool, 1).unwrap();
    assert_eq!(first.imported, 2);
    assert_eq!(log.state.1, spool.len() as i64);
    let second = run(&mut log, &spool, 1).unwrap();
    assert_eq!(second.imported, 0);
    assert_eq!(second.files_scanned, 1);

    append(&mut spool, &event("codex_sidebar:usage-v1:thread-side:turn-side:2", 1200, 90, 50));
    let replay = run(&mut log, &spool, 2).unwrap();
    assert_eq!(replay.imported, 0);

    let rows: Vec<&LogRow> =
        log.rows.iter().filter(|row| row.data_source == "codex_sidebar").collect();
    assert_eq!(
        (
            rows.len() as i64,
            rows.iter().map(|row| row.output_tokens).sum::<i64>(),
            rows.iter().map(|row| row.reasoning_output_tokens).sum::<i64>(),
            rows.iter().map(|row| row.input_token_semantics).min().unwrap()
        ),
        (2, 170, 90, INPUT_TOKEN_SEMANTICS_TOTAL)
    );
    assert!(rows.iter().all(|row| row.provider_id == "_codex_sidebar"));
    assert_eq!(log.pricing_lookups, vec!["gpt-5.6-sol", "gpt-5.6-sol"]);
}

#[test]
fn skips_zero_and_incomplete_events_without_estimation() {
    let mut spool = Vec::new();
    let zero = event("codex_sidebar:usage-v1:thread-side:turn-side:1", 0, 0, 0)
        .replace("\"cachedInputTokens\":100", "\"cachedInputTokens\":0")
        .replace("\"cacheWriteInputTokens\":5", "\"cacheWriteInputTokens\":0");
    append(&mut spool, &zero);
    spool.extend_from_slice(b"{\"schemaVersion\":1");

    let mut log = Log::default();
    let first = run(&mut log, &spool, 1).unwrap();
    assert_eq!(first.imported, 0);
    assert_eq!(first.skipped, 1);

    spool.extend_from_slice(b",\"eventId\":\"broken\"}\n");
    let second = run(&mut log, &spool, 2).unwrap();
    assert_eq!(second.imported, 0);
    assert_eq!(second.skipped, 1);
    assert_eq!(
        second.errors,
        vec![format!(
            "Codex sidebar usage JSON parse failed at byte {}: missing field `usage`",
            zero.len() + 1
        )]
    );
}

#[test]
fn matching_proxy_wins_and_receives_reasoning_count() {
    let mut spool = Vec::new();
    append(&mut spool, &event("codex_sidebar:usage-v1:thread-side:turn-side:1", 1000, 80, 516));
    let mut log = Log::default();
    log.rows.push(LogRow {
        request_id: "proxy-response".to_string(),
        provider_id: "provider".to_string(),
        model: "gpt-5.6-sol".to_string(),
        input_tokens: 1000,
        output_tokens: 80,
        cache_read_tokens: 100,
        cache_creation_tokens: 5,
        created_at: 1800000000,
        data_source: "proxy".to_string(),
        ..LogRow::default()
    });

    let result = run(&mut log, &spool, 1).unwrap();
    assert_eq!(result.imported, 0);
    assert_eq!(
        (log.rows.len(), log.rows.iter().map(|row| row.reasoning_output_tokens).max().unwrap()),
        (1, 516)
    );
}

fn session_row() -> LogRow {
    LogRow {
        request_id: "codex_session:thread-v1:thread-side:1".to_string(),
        provider_id: "_codex_session".to_string(),
        model: "gpt-5.6-sol".to_string(),
        input_tokens: 1000,
        output_tokens: 80,
        cache_read_tokens: 100,
        session_id: "thread-side".to_string(),
        created_at: 1800000000,
        data_source: "codex_session".to_string(),
        ..LogRow::default()
    }
}

#[test]
fn matching_codex_session_wins_and_receives_reasoning_count() {
    let mut spool = Vec::new();
    append(&mut spool, &event("codex_sidebar:usage-v1:thread-side:turn-side:1", 1000, 80, 516));
    let mut log = Log::default();
    log.rows.push(session_row());

    let result = run(&mut log, &spool, 1).unwrap();
    assert_eq!(result.imported, 0);
    assert_eq!(
        (
            log.rows.len(),
            log.rows.iter().filter(|row| row.data_source == "codex_sidebar").count(),
            log.rows.iter().map(|row| row.reasoning_output_tokens).max().unwrap()
        ),
        (1, 0, 516)
    );
}

#[test]
fn a_session_with_the_same_reasoning_count_is_left_alone() {
    let mut spool = Vec::new();
    append(&mut spool, &event("codex_sidebar:usage-v1:thread-side:turn-side:1", 1000, 80, 516));
    let mut log = Log::default();
    log.rows.push(LogRow {
        reasoning_output_tokens: 516,
        model: "GPT-5.6-SOL".to_string(),
        ..session_row()
    });
    let result = run(&mut log, &spool, 1).unwrap();
    assert_eq!((result.imported, result.skipped), (0, 1));
    assert!(!log.actions.iter().any(|action| action.starts_with("CompleteReasoning")));
}

#[test]
fn a_session_with_other_counts_does_not_hold_the_event_back() {
    for other in [
        LogRow { output_tokens: 81, ..session_row() },
        LogRow { reasoning_output_tokens: 3, ..session_row() },
        LogRow { cache_creation_tokens: 4, ..session_row() },
        LogRow { created_at: 1800000601, ..session_row() },
        LogRow { created_at: 1799999399, ..session_row() },
        LogRow { model: "other".to_string(), ..session_row() },
        LogRow { data_source: "codex".to_string(), ..session_row() },
    ] {
        let mut spool = Vec::new();
        append(
            &mut spool,
            &event("codex_sidebar:usage-v1:thread-side:turn-side:1", 1000, 80, 516),
        );
        let mut log = Log::default();
        log.rows.push(other);
        assert_eq!(run(&mut log, &spool, 1).unwrap().imported, 1);
    }
}

#[test]
fn the_nearest_session_is_completed() {
    let mut spool = Vec::new();
    append(&mut spool, &event("codex_sidebar:usage-v1:thread-side:turn-side:1", 1000, 80, 516));
    let mut log = Log::default();
    for (id, created_at) in [("far", 1800000100), ("late", 1800000003), ("early", 1799999997)] {
        log.rows.push(LogRow {
            request_id: id.to_string(),
            created_at,
            model: "Unknown".to_string(),
            ..session_row()
        });
    }
    assert_eq!(run(&mut log, &spool, 1).unwrap().imported, 0);
    let completed: Vec<&str> = log
        .rows
        .iter()
        .filter(|row| row.reasoning_output_tokens == 516)
        .map(|row| row.request_id.as_str())
        .collect();
    assert_eq!(completed, vec!["early"]);
}

#[test]
fn prices_of_a_model_are_looked_up_once_in_a_pass() {
    let mut spool = Vec::new();
    for number in 1..4 {
        append(
            &mut spool,
            &event(&format!("codex_sidebar:usage-v1:a:b:{number}"), 1000 + number, 80, 40),
        );
    }
    append(
        &mut spool,
        &event("codex_sidebar:usage-v1:a:b:9", 1000, 80, 40).replace("gpt-5.6-sol", "unpriced"),
    );
    let mut log = Log::default();
    assert_eq!(run(&mut log, &spool, 1).unwrap().imported, 4);
    assert_eq!(log.pricing_lookups, vec!["gpt-5.6-sol", "unpriced"]);
    assert_eq!(log.rows[0].total_cost, "1");
    assert_eq!(log.rows[3].total_cost, "0");
}

#[test]
fn invalid_events_are_told_of() {
    let mut spool = Vec::new();
    append(&mut spool, &event("other:1", 1, 1, 1));
    append(
        &mut spool,
        &event("codex_sidebar:usage-v1:a:b:1", 1, 1, 1)
            .replace("\"schemaVersion\":1", "\"schemaVersion\":23"),
    );
    append(
        &mut spool,
        &event("codex_sidebar:usage-v1:a:b:2", 1, 1, 1).replace("thread-side", " \\t\\u3000"),
    );
    append(&mut spool, &event("codex_sidebar:usage-v1:a:b:3", 1, 4294967296, 1));
    append(&mut spool, &event("codex_sidebar:usage-v1:a:b:4", 1, 4294967295, 1));
    let mut log = Log::default();
    let result = run(&mut log, &spool, 1).unwrap();
    assert_eq!((result.imported, result.skipped, result.files_scanned), (1, 4, 1));
    assert_eq!(
        result.errors,
        vec![
            "Codex sidebar usage event other:1 skipped: invalid eventId namespace",
            "Codex sidebar usage event codex_sidebar:usage-v1:a:b:1 skipped: \
             unsupported schemaVersion 23",
            "Codex sidebar usage event codex_sidebar:usage-v1:a:b:2 skipped: \
             threadId and turnId are required",
            "Codex sidebar event codex_sidebar:usage-v1:a:b:3: \
             config: invalid sidebar usage: outputTokens exceeds u32",
        ]
    );
}

#[test]
fn a_failed_insert_is_told_of_and_the_rest_goes_on() {
    let mut spool = Vec::new();
    append(&mut spool, &event("codex_sidebar:usage-v1:a:b:1", 1, 1, 1));
    append(&mut spool, &event("codex_sidebar:usage-v1:a:b:2", 2, 1, 1));
    let mut log = Log { fail_insert: true, ..Log::default() };
    let result = run(&mut log, &spool, 1).unwrap();
    assert_eq!((result.imported, result.skipped), (0, 2));
    assert_eq!(
        result.errors[1],
        "Codex sidebar event codex_sidebar:usage-v1:a:b:2: \
         database: insert Codex sidebar usage failed: disk full"
    );
    assert_eq!(log.state, (1, spool.len() as i64));
}

#[test]
fn a_failed_commit_leaves_rows_and_cursor_as_they_were() {
    let mut spool = Vec::new();
    append(&mut spool, &event("codex_sidebar:usage-v1:a:b:1", 1, 1, 1));
    let mut log = Log { fail_commit: true, ..Log::default() };
    match run(&mut log, &spool, 1) {
        Err(AppError::Database(text)) => {
            assert_eq!(text, "commit Codex sidebar batch: locked")
        }
        other => panic!("unexpected {other:?}"),
    }
    assert!(log.rows.is_empty());
    assert_eq!(log.state, (0, 0));
    log.fail_commit = false;
    assert_eq!(run(&mut log, &spool, 1).unwrap().imported, 1);
    let save = log.actions.iter().rposition(|action| action.starts_with("SaveCursor")).unwrap();
    assert_eq!(log.actions[save + 1], "Commit");
}

#[test]
fn a_shrunk_spool_is_read_from_the_beginning() {
    let mut spool = Vec::new();
    append(&mut spool, &event("codex_sidebar:usage-v1:a:b:1", 1, 1, 1));
    let mut log = Log { state: (1, 100_000), ..Log::default() };
    assert_eq!(run(&mut log, &spool, 2).unwrap().imported, 1);
    let mut log = Log { state: (1, -4), ..Log::default() };
    assert_eq!(run(&mut log, &spool, 2).unwrap().imported, 1);
}

fn ends_with(replies: Vec<SyncReply<String>>) -> Result<SessionSyncResult, AppError<String>> {
    let mut sync = SidebarSync::new("p".to_string(), options());
    for reply in replies {
        sync = sync.advance(reply, None);
    }
    sync.outcome().unwrap()
}

fn located() -> SyncReply<String> {
    SyncReply::FileStatus { modified: 5, len: 9 }
}

fn recalled() -> SyncReply<String> {
    SyncReply::SyncState { last_modified: 0, saved_offset: 0 }
}

fn failed() -> SyncReply<String> {
    SyncReply::Failed { error: "E".to_string() }
}

#[test]
fn no_spool_no_import() {
    let result = ends_with(vec![SyncReply::NotAFile]).unwrap();
    assert_eq!(
        (result.imported, result.skipped, result.files_scanned, result.errors.len()),
        (0, 0, 0, 0)
    );
}

#[test]
fn failures_end_the_import() {
    let config = |text: &str| Err::<(), String>(format!("config {text}"));
    let text = |result: Result<SessionSyncResult, AppError<String>>| match result {
        Ok(_) => Ok(()),
        Err(AppError::Config(text)) => Err(format!("config {text}")),
        Err(AppError::Database(text)) => Err(format!("database {text}")),
        Err(AppError::Host(text)) => Err(format!("host {text}")),
    };
    assert_eq!(
        text(ends_with(vec![failed()])),
        config("read Codex sidebar usage metadata failed p: E")
    );
    let host = || SyncReply::HostFailed { raised: "H".to_string() };
    assert_eq!(text(ends_with(vec![located(), host()])), Err("host H".to_string()));
    assert_eq!(
        text(ends_with(vec![
            located(),
            recalled(),
            SyncReply::OpenFailed { error: "E".to_string() }
        ])),
        config("open Codex sidebar usage failed p: E")
    );
    assert_eq!(
        text(ends_with(vec![
            located(),
            recalled(),
            SyncReply::SeekFailed { error: "E".to_string() }
        ])),
        config("seek Codex sidebar usage failed p: E")
    );
    assert_eq!(
        text(ends_with(vec![located(), recalled(), failed()])),
        config("read Codex sidebar usage failed p: E")
    );
    let empty = || SyncReply::Spool { bytes: Vec::new() };
    assert_eq!(
        text(ends_with(vec![located(), recalled(), empty(), failed()])),
        Err("database start Codex sidebar batch: E".to_string())
    );
    assert_eq!(
        text(ends_with(vec![located(), recalled(), empty(), host()])),
        Err("host H".to_string())
    );
    assert_eq!(
        text(ends_with(vec![located(), recalled(), empty(), SyncReply::Done, host()])),
        Err("host H".to_string())
    );
    assert_eq!(
        text(ends_with(vec![
            located(),
            recalled(),
            empty(),
            SyncReply::Done,
            SyncReply::Done,
            SyncReply::Done
        ])),
        Ok(())
    );
}

fn importing() -> SidebarSync<String> {
    let spool = event("codex_sidebar:usage-v1:a:b:1", 1, 1, 7) + "\n";
    let mut sync = SidebarSync::new("p".to_string(), options());
    for reply in [
        located(),
        recalled(),
        SyncReply::Spool { bytes: spool.as_bytes().to_vec() },
        SyncReply::Parsed { event: parse(spool.as_bytes()) },
        SyncReply::Done,
    ] {
        sync = sync.advance(reply, None);
    }
    sync
}

fn error_after(replies: Vec<SyncReply<String>>) -> String {
    let mut sync = importing();
    for reply in replies {
        sync = sync.advance(reply, None);
    }
    if let SyncAction::RenderError { error } = sync.action() {
        let text = match error {
            AppError::Database(text) | AppError::Host(text) => text.clone(),
            other => panic!("unexpected {other:?}"),
        };
        sync = sync.advance(SyncReply::Rendered { text }, None);
    }
    sync = sync.advance(SyncReply::Done, None).advance(SyncReply::Done, None);
    let result = sync.outcome().unwrap().unwrap();
    assert_eq!((result.imported, result.skipped), (0, 1));
    result.errors[0].clone()
}

#[test]
fn failures_about_one_event_are_told_of() {
    let no = || SyncReply::Answer { yes: false };
    let none = || SyncReply::Sessions { rows: Vec::new() };
    let host = || SyncReply::HostFailed { raised: "H".to_string() };
    let start = "Codex sidebar event codex_sidebar:usage-v1:a:b:1: ";
    assert_eq!(error_after(vec![host()]), format!("{start}H"));
    assert_eq!(
        error_after(vec![no(), failed()]),
        format!("{start}query matching Codex session for sidebar usage failed: E")
    );
    assert_eq!(error_after(vec![no(), none(), host()]), format!("{start}H"));
    let row = SessionRow {
        request_id: "r".to_string(),
        app_type: "codex".to_string(),
        data_source: "codex_session".to_string(),
        session_id: "thread-side".to_string(),
        model: "gpt-5.6-sol".to_string(),
        input_tokens: 1,
        output_tokens: 1,
        reasoning_output_tokens: 0,
        cache_read_tokens: 100,
        cache_creation_tokens: 0,
        created_at: 1800000000,
    };
    assert_eq!(
        error_after(vec![no(), SyncReply::Sessions { rows: vec![row] }, failed()]),
        format!("{start}complete matching Codex session reasoning tokens failed: E")
    );
}

#[test]
fn a_duplicate_is_left_out() {
    let mut sync = importing();
    for reply in [
        SyncReply::Answer { yes: false },
        SyncReply::Sessions { rows: Vec::new() },
        SyncReply::Answer { yes: true },
    ] {
        sync = sync.advance(reply, None);
    }
    assert!(matches!(sync.action(), SyncAction::SaveCursor { .. }));
}

#[test]
fn a_reply_to_another_action_changes_nothing() {
    let sync = importing();
    let before = format!("{:?}", sync.action());
    let sync = sync.advance(SyncReply::Inserted { count: 1 }, None);
    assert_eq!(format!("{:?}", sync.action()), before);
}

#[test]
fn errors_of_the_application_come_back_as_they_were() {
    #[derive(Debug, PartialEq)]
    enum Raised {
        Lock,
        Table(u8),
    }
    let begin = || SidebarSync::new("p".to_string(), options());
    let located = || SyncReply::FileStatus { modified: 5, len: 9 };
    let sync = begin().advance(located(), None);
    let sync = sync.advance(SyncReply::HostFailed { raised: Raised::Table(3) }, None);
    assert!(matches!(sync.outcome(), Some(Err(AppError::Host(Raised::Table(3))))));
    let sync = begin()
        .advance(located(), None)
        .advance(SyncReply::SyncState { last_modified: 0, saved_offset: 0 }, None)
        .advance(SyncReply::Spool { bytes: Vec::new() }, None)
        .advance(SyncReply::HostFailed { raised: Raised::Lock }, None);
    assert!(matches!(sync.outcome(), Some(Err(AppError::Host(Raised::Lock)))));
}

#[test]
fn an_error_of_the_application_about_an_event_is_put_into_words() {
    let sync = importing().advance(SyncReply::HostFailed { raised: "H".to_string() }, None);
    match sync.action() {
        SyncAction::RenderError { error: AppError::Host(raised) } => assert_eq!(raised, "H"),
        other => panic!("unexpected {other:?}"),
    };
}

#[test]
fn two_imports_do_what_one_does() {
    let mut spool = Vec::new();
    append(&mut spool, &event("codex_sidebar:usage-v1:a:b:1", 1, 1, 1));
    append(&mut spool, "no event");
    append(&mut spool, &event("codex_sidebar:usage-v1:a:b:2", 2, 1, 1));
    append(&mut spool, &event("codex_sidebar:usage-v1:a:b:1", 3, 1, 1));
    append(&mut spool, &event("codex_sidebar:usage-v1:a:b:3", 4, 1, 1));
    let mut whole = Log::default();
    let once = run(&mut whole, &spool, 2).unwrap();
    assert_eq!((once.imported, once.skipped), (3, 2));
    for cut in [0, 7, 300, spool.len() - 1, spool.len()] {
        let mut log = Log::default();
        let first = run(&mut log, &spool[..cut], 1).unwrap();
        let second = run(&mut log, &spool, 2).unwrap();
        assert_eq!(first.imported + second.imported, once.imported);
        assert_eq!(first.skipped + second.skipped, once.skipped);
        assert_eq!(log.state, whole.state);
        let ids = |log: &Log| {
            log.rows.iter().map(|row| row.request_id.clone()).collect::<Vec<String>>()
        };
        assert_eq!(ids(&log), ids(&whole));
    }
}

#[test]
fn an_import_begins_at_the_configured_path_or_the_default_one() {
    for (value, is_empty, expected) in
        [(Some("set"), false, "set"), (Some(""), true, "default"), (None, false, "default")]
    {
        let sync = SidebarSync::begin(
            value.map(str::to_owned),
            is_empty,
            "default".to_string(),
            options(),
        );
        assert!(matches!(sync.action(), SyncAction::LocateSpool));
        match sync.advance(failed(), None).outcome() {
            Some(Err(AppError::Config(text))) => assert_eq!(
                text,
                format!("read Codex sidebar usage metadata failed {expected}: E")
            ),
            other => panic!("unexpected {other:?}"),
        }
    }
}

#[test]
fn an_unfinished_record_is_waited_for() {
    let mut spool = Vec::new();
    append(&mut spool, &event("codex_sidebar:usage-v1:a:b:1", 1, 1, 1));
    let complete = spool.len() as i64;
    spool.extend_from_slice(b"{\"schemaVersion\":1");
    let mut log = Log::default();
    assert_eq!(run(&mut log, &spool, 1).unwrap().imported, 1);
    assert_eq!(log.state, (1, complete));
    let again = run(&mut log, &spool, 1).unwrap();
    assert_eq!(
        (again.imported, again.skipped, again.files_scanned, again.errors.len()),
        (0, 0, 1, 0)
    );
    assert_eq!(log.state, (1, complete));
    assert_eq!(log.rows.len(), 1);
}
