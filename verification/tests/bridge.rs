use codex_sidebar::bridge::{message_key, BridgeState};
use codex_sidebar::clock::Moment;
use codex_sidebar::json::Json;
use codex_sidebar::record::{BridgeRecord, TimingRecord, UsageRecord};
use codex_sidebar::wire::read_json;

fn json(text: &str) -> Json {
    read_json(text.as_bytes()).unwrap()
}

fn expect_usage(record: BridgeRecord) -> UsageRecord {
    match record {
        BridgeRecord::Usage(record) => record,
        BridgeRecord::Timing(_) => panic!("expected usage record"),
    }
}

fn expect_timing(record: BridgeRecord) -> TimingRecord {
    match record {
        BridgeRecord::Timing(record) => record,
        BridgeRecord::Usage(_) => panic!("expected timing record"),
    }
}

fn usage_text(record: &UsageRecord) -> String {
    let mut usage = serde_json::Map::new();
    usage.insert("inputTokens".to_string(), record.usage.input_tokens.into());
    usage.insert("cachedInputTokens".to_string(), record.usage.cached_input_tokens.into());
    usage.insert(
        "cacheWriteInputTokens".to_string(),
        record.usage.cache_write_input_tokens.into(),
    );
    usage.insert("outputTokens".to_string(), record.usage.output_tokens.into());
    usage.insert(
        "reasoningOutputTokens".to_string(),
        record.usage.reasoning_output_tokens.into(),
    );
    usage.insert("totalTokens".to_string(), record.usage.total_tokens.into());
    let mut map = serde_json::Map::new();
    map.insert("schemaVersion".to_string(), record.schema_version.into());
    map.insert("eventId".to_string(), record.event_id.clone().into());
    map.insert("threadId".to_string(), record.thread_id.clone().into());
    map.insert("turnId".to_string(), record.turn_id.clone().into());
    map.insert("model".to_string(), record.model.clone().into());
    map.insert("completedAtMs".to_string(), record.completed_at_ms.into());
    map.insert("usage".to_string(), serde_json::Value::Object(usage));
    serde_json::to_string(&serde_json::Value::Object(map)).unwrap()
}

fn timing_text(record: &TimingRecord) -> String {
    let mut map = serde_json::Map::new();
    map.insert("schemaVersion".to_string(), record.schema_version.into());
    map.insert("eventId".to_string(), record.event_id.clone().into());
    map.insert("targetEventId".to_string(), record.target_event_id.clone().into());
    map.insert("threadId".to_string(), record.thread_id.clone().into());
    map.insert("turnId".to_string(), record.turn_id.clone().into());
    map.insert("completedAtMs".to_string(), record.completed_at_ms.into());
    map.insert("durationMs".to_string(), record.duration_ms.into());
    map.insert("firstTokenMs".to_string(), record.first_token_ms.into());
    serde_json::to_string(&serde_json::Value::Object(map)).unwrap()
}

fn fork_side_thread(state: &mut BridgeState) {
    state.observe_client_message(&json(
        r#"{
            "method": "thread/fork",
            "id": 1,
            "params": {"threadId": "parent", "ephemeral": true, "model": "gpt-5.6-sol"}
        }"#,
    ));
    state.observe_server_message(&json(
        r#"{
            "id": 1,
            "result": {
                "thread": {"id": "side", "ephemeral": true},
                "model": "gpt-5.6-sol"
            }
        }"#,
    ));
}

fn start_turn(state: &mut BridgeState) {
    state.observe_client_message(&json(
        r#"{
            "method": "turn/start",
            "id": 2,
            "params": {"threadId": "side", "input": []}
        }"#,
    ));
    state.observe_server_message(&json(r#"{"id": 2, "result": {"turn": {"id": "turn-1"}}}"#));
}

fn usage(total_input: u64, last_output: u64, reasoning: u64) -> Json {
    json(&format!(
        r#"{{
            "method": "thread/tokenUsage/updated",
            "emittedAtMs": 1800000000000,
            "params": {{
                "threadId": "side",
                "turnId": "turn-1",
                "tokenUsage": {{
                    "total": {{
                        "inputTokens": {},
                        "cachedInputTokens": 100,
                        "cacheWriteInputTokens": 5,
                        "outputTokens": 300,
                        "reasoningOutputTokens": 150,
                        "totalTokens": {}
                    }},
                    "last": {{
                        "inputTokens": 1000,
                        "cachedInputTokens": 100,
                        "cacheWriteInputTokens": 5,
                        "outputTokens": {},
                        "reasoningOutputTokens": {},
                        "totalTokens": {}
                    }},
                    "modelContextWindow": 120192
                }}
            }}
        }}"#,
        total_input,
        total_input + 300,
        last_output,
        reasoning,
        1000 + last_output
    ))
}

#[test]
fn ignores_inherited_usage_and_records_each_new_sampling_event() {
    let mut state = BridgeState::default();
    fork_side_thread(&mut state);

    let inherited = json(
        r#"{
            "method": "thread/tokenUsage/updated",
            "params": {
                "threadId": "side",
                "turnId": "parent-turn",
                "tokenUsage": {
                    "total": {"inputTokens": 5000, "cachedInputTokens": 4000,
                              "cacheWriteInputTokens": 0, "outputTokens": 500,
                              "reasoningOutputTokens": 200, "totalTokens": 5500},
                    "last": {"inputTokens": 5000, "cachedInputTokens": 4000,
                             "cacheWriteInputTokens": 0, "outputTokens": 500,
                             "reasoningOutputTokens": 200, "totalTokens": 5500}
                }
            }
        }"#,
    );
    assert!(state.observe_server_message(&inherited).is_none());

    start_turn(&mut state);
    let first = expect_usage(state.observe_server_message(&usage(6000, 80, 40)).unwrap());
    assert_eq!(first.event_id, "codex_sidebar:usage-v1:side:turn-1:1");
    assert_eq!(first.usage.reasoning_output_tokens, 40);

    assert!(state.observe_server_message(&usage(6000, 80, 40)).is_none());
    let second = expect_usage(state.observe_server_message(&usage(7000, 100, 60)).unwrap());
    assert_eq!(second.event_id, "codex_sidebar:usage-v1:side:turn-1:2");
    assert_eq!(second.usage.output_tokens, 100);
}

#[test]
fn ignores_non_ephemeral_threads() {
    let mut state = BridgeState::default();
    state.observe_client_message(&json(
        r#"{"method": "thread/start", "id": "root", "params": {"ephemeral": false}}"#,
    ));
    state.observe_server_message(&json(
        r#"{
            "id": "root",
            "result": {"thread": {"id": "side", "ephemeral": false}, "model": "gpt-5.6-sol"}
        }"#,
    ));
    start_turn(&mut state);
    assert!(state.observe_server_message(&usage(6000, 80, 40)).is_none());
}

#[test]
fn uses_rerouted_model_and_persists_no_message_text() {
    let mut state = BridgeState::default();
    fork_side_thread(&mut state);
    start_turn(&mut state);
    state.observe_server_message(&json(
        r#"{
            "method": "model/rerouted",
            "params": {"threadId": "side", "turnId": "turn-1",
                       "fromModel": "gpt-5.6-sol", "toModel": "gpt-5.6-terra"}
        }"#,
    ));
    let record = expect_usage(state.observe_server_message(&usage(6000, 80, 40)).unwrap());
    assert_eq!(record.model, "gpt-5.6-terra");
    let json = usage_text(&record);
    assert!(!json.contains("prompt"));
    assert!(!json.contains("response"));
    assert!(!json.contains("input\""));
}

#[test]
fn records_turn_timing_for_the_final_usage_event_without_message_text() {
    let mut state = BridgeState::default();
    fork_side_thread(&mut state);
    start_turn(&mut state);
    let first = expect_usage(state.observe_server_message(&usage(6000, 80, 40)).unwrap());
    let second = expect_usage(state.observe_server_message(&usage(7000, 100, 60)).unwrap());
    assert_ne!(first.event_id, second.event_id);

    state.observe_server_message(&json(
        r#"{
            "method": "item/agentMessage/delta",
            "params": {
                "threadId": "side",
                "turnId": "turn-1",
                "itemId": "message-1",
                "delta": "首字"
            }
        }"#,
    ));
    let timing = expect_timing(
        state
            .observe_server_message(&json(
                r#"{
                    "method": "turn/completed",
                    "params": {
                        "threadId": "side",
                        "turn": {
                            "id": "turn-1",
                            "status": "completed",
                            "items": [],
                            "completedAt": 1800000010,
                            "durationMs": 4200
                        }
                    }
                }"#,
            ))
            .unwrap(),
    );
    assert_eq!(timing.target_event_id, second.event_id);
    assert_eq!(timing.duration_ms, 4_200);
    assert!(timing.first_token_ms.is_some());
    assert_eq!(timing.completed_at_ms, 1_800_000_010_000);
    assert_eq!(timing.event_id, "codex_sidebar:timing-v1:side:turn-1");
    let text = timing_text(&timing);
    assert!(!text.contains("首字"));
    assert!(!text.contains("prompt"));
    assert!(!text.contains("response"));
    assert!(state
        .observe_server_message(&json(
            r#"{
                "method": "turn/completed",
                "params": {
                    "threadId": "side",
                    "turn": {"id": "turn-1", "status": "completed", "items": [],
                             "durationMs": 4200}
                }
            }"#,
        ))
        .is_none());
}

fn at(running: u128, unix: u128) -> Moment {
    Moment { running, unix: Some(unix) }
}

fn client(state: &mut BridgeState, text: &str, now: Moment) {
    let value = json(text);
    let key = message_key(&value);
    state.observe_client_request(&value, key, now);
}

fn server(state: &mut BridgeState, text: &str, now: Moment) -> Option<BridgeRecord> {
    let value = json(text);
    let key = message_key(&value);
    state.observe_server_message_at(&value, key, now)
}

const REPORT: &str = r#"{"method":"thread/tokenUsage/updated","params":{"threadId":"t",
    "turnId":"u","tokenUsage":{
    "total":{"inputTokens":1,"cachedInputTokens":0,"outputTokens":0,
             "reasoningOutputTokens":0,"totalTokens":1},
    "last":{"inputTokens":1,"cachedInputTokens":0,"outputTokens":0,
            "reasoningOutputTokens":0,"totalTokens":1}}}}"#;

fn begin_turn(state: &mut BridgeState, start: u128) {
    let now = at(start, 0);
    server(
        state,
        r#"{"method":"thread/started","params":{"thread":{"id":"t","ephemeral":true}}}"#,
        now,
    );
    server(
        state,
        r#"{"method":"turn/started","params":{"threadId":"t","turn":{"id":"u"}}}"#,
        now,
    );
}

#[test]
fn times_come_from_the_clock_where_the_server_gives_none() {
    let mut state = BridgeState::default();
    begin_turn(&mut state, 5_000_000);
    let record = expect_usage(
        server(&mut state, REPORT, at(6_000_000, 1_700_000_000_123_999_999)).unwrap(),
    );
    assert_eq!(record.completed_at_ms, 1_700_000_000_123);
    assert_eq!(record.model, "unknown");
    assert_eq!(record.usage.cache_write_input_tokens, 0);
    let delta = r#"{"method":"item/agentMessage/delta","params":{"turnId":"u","delta":"x"}}"#;
    server(&mut state, delta, at(8_999_999, 0));
    server(&mut state, delta, at(99_000_000, 0));
    let timing = expect_timing(
        server(
            &mut state,
            r#"{"method":"turn/completed","params":{"threadId":"t","turn":{"id":"u"}}}"#,
            Moment { running: 15_500_000, unix: None },
        )
        .unwrap(),
    );
    assert_eq!(timing.first_token_ms, Some(3));
    assert_eq!(timing.duration_ms, 10);
    assert_eq!(timing.completed_at_ms, 0);
    assert_eq!(timing.target_event_id, "codex_sidebar:usage-v1:t:u:1");
}

#[test]
fn a_completion_time_too_large_for_milliseconds_gives_way_to_the_clock() {
    let mut state = BridgeState::default();
    begin_turn(&mut state, 0);
    server(&mut state, REPORT, at(1, 1));
    let timing = expect_timing(
        server(
            &mut state,
            r#"{"method":"turn/completed","params":{"threadId":"t",
                "turn":{"id":"u","completedAt":18446744073709551615}}}"#,
            at(2, 7_000_000),
        )
        .unwrap(),
    );
    assert_eq!(timing.completed_at_ms, 7);
}

#[test]
fn no_timing_before_any_usage() {
    let mut state = BridgeState::default();
    begin_turn(&mut state, 0);
    assert!(server(
        &mut state,
        r#"{"method":"turn/completed","params":{"threadId":"t","turn":{"id":"u"}}}"#,
        at(1, 1)
    )
    .is_none());
}

#[test]
fn an_empty_piece_of_an_answer_does_not_count() {
    let mut state = BridgeState::default();
    begin_turn(&mut state, 0);
    server(
        &mut state,
        r#"{"method":"item/agentMessage/delta","params":{"turnId":"u","delta":""}}"#,
        at(1_000_000, 1),
    );
    server(&mut state, REPORT, at(2_000_000, 1));
    let timing = expect_timing(
        server(
            &mut state,
            r#"{"method":"turn/completed","params":{"threadId":"t","turn":{"id":"u"}}}"#,
            at(3_000_000, 1),
        )
        .unwrap(),
    );
    assert_eq!(timing.first_token_ms, None);
}

#[test]
fn a_restarted_turn_counts_from_its_new_start() {
    let mut state = BridgeState::default();
    begin_turn(&mut state, 0);
    begin_turn(&mut state, 4_000_000);
    server(&mut state, REPORT, at(5_000_000, 1));
    begin_turn(&mut state, 6_000_000);
    let timing = expect_timing(
        server(
            &mut state,
            r#"{"method":"turn/completed","params":{"threadId":"t","turn":{"id":"u"}}}"#,
            at(10_000_000, 1),
        )
        .unwrap(),
    );
    assert_eq!(timing.duration_ms, 6);
}

#[test]
fn a_closed_thread_is_forgotten_with_its_turns() {
    let mut state = BridgeState::default();
    begin_turn(&mut state, 0);
    server(&mut state, r#"{"method":"thread/closed","params":{"threadId":"t"}}"#, at(1, 1));
    server(
        &mut state,
        r#"{"method":"thread/started","params":{"thread":{"id":"t","ephemeral":true}}}"#,
        at(2, 1),
    );
    assert!(server(&mut state, REPORT, at(3, 1)).is_none());
}

#[test]
fn settings_and_hints_name_the_model() {
    let mut state = BridgeState::default();
    let now = at(0, 0);
    client(
        &mut state,
        r#"{"method":"thread/start","id":{"b":1,"a":"x"},"params":{"ephemeral":true,"model":"m1"}}"#,
        now,
    );
    server(&mut state, r#"{"id":{"a":"x","b":1},"result":{"thread":{"id":"t"}}}"#, now);
    client(&mut state, r#"{"method":"turn/start","id":7,"params":{"threadId":"t"}}"#, now);
    server(
        &mut state,
        r#"{"method":"thread/settings/updated","params":{"threadId":"t",
            "threadSettings":{"model":"m2"}}}"#,
        now,
    );
    server(&mut state, r#"{"id":7,"result":{"turn":{"id":"u"}}}"#, now);
    let record = expect_usage(server(&mut state, REPORT, now).unwrap());
    assert_eq!(record.model, "m2");
}

#[test]
fn a_request_is_answered_once() {
    let mut state = BridgeState::default();
    let now = at(0, 0);
    client(&mut state, r#"{"method":"thread/start","id":1,"params":{"ephemeral":true}}"#, now);
    server(&mut state, r#"{"id":1,"error":{"code":-1}}"#, now);
    server(&mut state, r#"{"id":1,"result":{"thread":{"id":"t"}}}"#, now);
    server(
        &mut state,
        r#"{"method":"turn/started","params":{"threadId":"t","turn":{"id":"u"}}}"#,
        now,
    );
    assert!(server(&mut state, REPORT, now).is_none());
}

#[test]
fn usage_without_billable_tokens_gives_no_record_but_counts_as_seen() {
    let mut state = BridgeState::default();
    begin_turn(&mut state, 0);
    let silent = REPORT.replace(
        "\"last\":{\"inputTokens\":1",
        "\"last\":{\"inputTokens\":0",
    );
    assert!(server(&mut state, &silent, at(1, 1)).is_none());
    assert!(server(&mut state, REPORT, at(2, 1)).is_none());
}

#[test]
fn incomplete_counts_give_no_record() {
    let mut state = BridgeState::default();
    begin_turn(&mut state, 0);
    let negative = REPORT.replace("\"totalTokens\":1", "\"totalTokens\":-1");
    assert!(server(&mut state, &negative, at(1, 1)).is_none());
    let fraction = REPORT.replace("\"totalTokens\":1", "\"totalTokens\":1.5");
    assert!(server(&mut state, &fraction, at(1, 1)).is_none());
    assert!(server(&mut state, REPORT, at(2, 1)).is_some());
}

#[test]
fn lines_are_observed_as_they_come() {
    let mut state = BridgeState::default();
    state.observe_client_line(b"not json\n");
    state.observe_client_line(
        b"{\"method\":\"thread/start\",\"id\":\"a\",\"params\":{\"ephemeral\":true}}\r\n",
    );
    assert!(state
        .observe_server_line(b"{\"id\":\"a\",\"result\":{\"thread\":{\"id\":\"t\"}}}\n")
        .is_none());
    state.observe_server_line(
        b"{\"method\":\"turn/started\",\"params\":{\"threadId\":\"t\",\"turn\":{\"id\":\"u\"}}}",
    );
    let line = format!("{}\n", REPORT.replace('\n', " "));
    let record = expect_usage(state.observe_server_line(line.as_bytes()).unwrap());
    assert_eq!(record.event_id, "codex_sidebar:usage-v1:t:u:1");
    assert!(state.observe_server_line(b"{").is_none());
}

#[test]
fn usage_records_are_numbered_without_gaps() {
    let mut state = BridgeState::default();
    let moment = |running: u128| Moment { running, unix: Some(7_000_000) };
    let mut send = |text: &str, at: u128| {
        let value = json(text);
        let key = message_key(&value);
        state.observe_server_message_at(&value, key, moment(at))
    };
    send(r#"{"method":"thread/started","params":{"thread":{"id":"t","ephemeral":true}}}"#, 0);
    send(r#"{"method":"turn/started","params":{"threadId":"t","turn":{"id":"u"}}}"#, 1);
    let mut ids = Vec::new();
    for total in 1..4 {
        let counts = format!(
            "{{\"inputTokens\":{total},\"cachedInputTokens\":0,\"outputTokens\":0,\
             \"reasoningOutputTokens\":0,\"totalTokens\":{total}}}"
        );
        let report = format!(
            "{{\"method\":\"thread/tokenUsage/updated\",\"params\":{{\"threadId\":\"t\",\
             \"turnId\":\"u\",\"tokenUsage\":{{\"total\":{counts},\"last\":{counts}}}}}}}"
        );
        ids.push(expect_usage(send(&report, 2).unwrap()).event_id);
        assert!(send(&report, 3).is_none());
        send(r#"{"method":"turn/started","params":{"threadId":"t","turn":{"id":"u"}}}"#, 4);
        send(r#"{"method":"model/rerouted","params":{"turnId":"u","toModel":"m"}}"#, 5);
    }
    assert_eq!(ids, vec![
        "codex_sidebar:usage-v1:t:u:1",
        "codex_sidebar:usage-v1:t:u:2",
        "codex_sidebar:usage-v1:t:u:3"
    ]);
}

#[test]
fn runs_that_differ_in_text_give_the_same_records() {
    let run = |prompt: &str, answer: &str, clock: u128| {
        let mut state = BridgeState::default();
        let now = Moment { running: clock, unix: Some(clock) };
        let client = format!(
            "{{\"method\":\"turn/start\",\"id\":2,\"params\":{{\"threadId\":\"t\",\
             \"input\":[\"{prompt}\"]}}}}"
        );
        let delta = format!(
            "{{\"method\":\"item/agentMessage/delta\",\"params\":{{\"turnId\":\"u\",\
             \"delta\":\"{answer}\"}}}}"
        );
        let counts = "{\"inputTokens\":1,\"cachedInputTokens\":0,\"outputTokens\":0,\
                      \"reasoningOutputTokens\":0,\"totalTokens\":1}";
        let report = format!(
            "{{\"method\":\"thread/tokenUsage/updated\",\"emittedAtMs\":9,\
             \"params\":{{\"threadId\":\"t\",\"turnId\":\"u\",\
             \"tokenUsage\":{{\"total\":{counts},\"last\":{counts}}}}}}}"
        );
        let mut records = Vec::new();
        let value = json(&client);
        let opening = r#"{"method":"thread/started","params":{"thread":{"id":"t","ephemeral":true}}}"#;
        let opening = json(opening);
        records.push(state.observe_server_message_at(&opening, message_key(&opening), now));
        state.observe_client_request(&value, message_key(&value), now);
        for text in [r#"{"id":2,"result":{"turn":{"id":"u"}}}"#, &delta, &report] {
            let value = json(text);
            records.push(state.observe_server_message_at(&value, message_key(&value), now));
        }
        records
    };
    let first = run("secret plan", "yes", 1);
    assert!(first[3].is_some());
    assert_eq!(first, run("nothing", "no, and at length", 99_000_000));
}

#[test]
fn a_response_leaves_other_requests_open() {
    let mut state = BridgeState::default();
    for id in ["1", "2"] {
        let text = format!(
            "{{\"method\":\"thread/start\",\"id\":{id},\"params\":{{\"ephemeral\":true}}}}"
        );
        state.observe_client_message(&json(&text));
    }
    state.observe_response("1", &json(r#"{"id":1,"error":{}}"#));
    state.observe_response("1", &json(r#"{"id":1,"result":{"thread":{"id":"lost"}}}"#));
    state.observe_response("2", &json(r#"{"id":2,"result":{"thread":{"id":"kept"}}}"#));
    let shown = format!("{state:?}");
    assert!(shown.contains("kept"));
    assert!(!shown.contains("lost"));
}
