use codex_sidebar::clock::{
    elapsed_millis, millis_since_epoch, now_millis, seconds_since_epoch,
};
use codex_sidebar::cost::{cost_texts, Amount};
use codex_sidebar::event::{to_u32, SidebarTokenUsage, SidebarUsageEvent};
use codex_sidebar::import::{prepare_event, Prepared};
use codex_sidebar::json::{nonnegative_u64, Json};
use codex_sidebar::launch::{
    fault_text, is_current_executable, listed_paths, npm_codex_candidate, resolve_real_cli,
    sidebar_usage_path, usage_path, validate_real_cli, wants_app_server, Candidate, CliFault,
    CliSource, CliStep, UsagePath,
};
use codex_sidebar::record::{UsageBreakdown, UsageSignature};
use codex_sidebar::spool::{frame_spool, record_line, trim_line_ending};
use codex_sidebar::table::Table;
use codex_sidebar::text::{blank, decimal_text, signed_decimal_text};
use codex_sidebar::wire::{read_json, request_key};

#[test]
fn line_endings_are_trimmed_once() {
    assert_eq!(trim_line_ending(b"a\r\n"), b"a");
    assert_eq!(trim_line_ending(b"a\n"), b"a");
    assert_eq!(trim_line_ending(b"a\r"), b"a");
    assert_eq!(trim_line_ending(b"a\r\r\n\n"), b"a\r\r\n");
    assert_eq!(trim_line_ending(b"\n"), b"");
    assert_eq!(trim_line_ending(b""), b"");
}

#[test]
fn the_spool_is_framed_by_line_feeds() {
    let pass = frame_spool(b"one\n\r\n\ntwo\r\nthree", 100);
    let found: Vec<(i64, &[u8])> =
        pass.lines.iter().map(|line| (line.offset, line.content.as_slice())).collect();
    assert_eq!(found, vec![(100, &b"one"[..]), (107, &b"two"[..])]);
    assert_eq!(pass.processed_offset, 112);
}

#[test]
fn a_pass_resumes_where_the_last_one_ended() {
    let first = frame_spool(b"a\nbc", 0);
    assert_eq!(first.processed_offset, 2);
    let second = frame_spool(b"bcd\n", first.processed_offset);
    assert_eq!(second.lines[0].content, b"bcd");
    assert_eq!(second.lines[0].offset, 2);
    assert_eq!(second.processed_offset, 6);
}

#[test]
fn the_cursor_stops_at_the_largest_number() {
    let pass = frame_spool(b"abc\n", i64::MAX - 1);
    assert_eq!(pass.processed_offset, i64::MAX);
    assert_eq!(pass.lines[0].offset, i64::MAX - 4);
}

#[test]
fn written_records_are_read_back() {
    let mut spool = record_line(b"{\"a\":1}".to_vec());
    spool.extend_from_slice(&record_line(b"{}".to_vec()));
    assert_eq!(spool, b"{\"a\":1}\n{}\n");
    let pass = frame_spool(&spool, 0);
    let found: Vec<&[u8]> = pass.lines.iter().map(|line| line.content.as_slice()).collect();
    assert_eq!(found, vec![&b"{\"a\":1}"[..], &b"{}"[..]]);
    assert_eq!(pass.processed_offset, 11);
}

#[test]
fn json_is_read() {
    let value = read_json(br#"{"a":{"b":[1,-2,2.5,null,true,"x"]},"c":18446744073709551615}"#)
        .unwrap();
    match value.get2("a", "b").unwrap() {
        Json::Array(items) => {
            assert!(matches!(items[0], Json::Unsigned(1)));
            assert!(matches!(items[1], Json::Signed(-2)));
            assert!(matches!(items[2], Json::Fraction(_)));
            assert!(matches!(items[3], Json::Null));
            assert!(matches!(items[4], Json::Bool(true)));
            assert_eq!(items[5].as_str(), Some("x"));
            assert_eq!(nonnegative_u64(&items[0]), Some(1));
            assert_eq!(nonnegative_u64(&items[1]), None);
            assert_eq!(nonnegative_u64(&items[2]), None);
        }
        other => panic!("unexpected {other:?}"),
    }
    assert_eq!(nonnegative_u64(value.get("c").unwrap()), Some(u64::MAX));
    assert_eq!(nonnegative_u64(&Json::Signed(3)), Some(3));
    assert!(value.get("b").is_none());
    assert!(value.get3("a", "b", "c").is_none());
    assert!(read_json(b"{} x").is_none());
    assert!(read_json(b"").is_none());
}

#[test]
fn the_last_member_of_a_name_counts() {
    let value = read_json(br#"{"a":1,"a":2}"#).unwrap();
    assert_eq!(nonnegative_u64(value.get("a").unwrap()), Some(2));
    let built = Json::Object(vec![
        ("a".to_string(), Json::Unsigned(1)),
        ("b".to_string(), Json::Null),
        ("a".to_string(), Json::Unsigned(2)),
    ]);
    assert_eq!(nonnegative_u64(built.get("a").unwrap()), Some(2));
    assert_eq!(request_key(&built).unwrap(), r#"{"a":2,"b":null}"#);
}

#[test]
fn request_keys_are_compact_json() {
    let key = |text: &[u8]| request_key(&read_json(text).unwrap()).unwrap();
    assert_eq!(key(b"1"), "1");
    assert_eq!(key(b"\"1\""), "\"1\"");
    assert_eq!(key(b" [ 1 , -2 , 2.50 , true , \"a\\n\" ] "), r#"[1,-2,2.5,true,"a\n"]"#);
    assert_eq!(key(b"{\"b\":null,\"a\":{}}"), r#"{"a":{},"b":null}"#);
    assert_eq!(request_key(&Json::Signed(7)).unwrap(), "7");
}

#[test]
fn counts_are_read_from_json() {
    let value = read_json(
        br#"{"inputTokens":1,"cachedInputTokens":2,"cacheWriteInputTokens":"x","outputTokens":4,
             "reasoningOutputTokens":5,"totalTokens":6}"#,
    )
    .unwrap();
    let counts = UsageBreakdown::from_value(&value).unwrap();
    assert_eq!(
        counts.signature(),
        UsageSignature {
            input_tokens: 1,
            cached_input_tokens: 2,
            cache_write_input_tokens: 0,
            output_tokens: 4,
            reasoning_output_tokens: 5,
            total_tokens: 6,
        }
    );
    assert!(counts.has_billable_tokens());
    let nothing = UsageBreakdown {
        input_tokens: 0,
        cached_input_tokens: 0,
        cache_write_input_tokens: 0,
        output_tokens: 0,
        reasoning_output_tokens: 0,
        total_tokens: 9,
    };
    assert!(!nothing.has_billable_tokens());
    assert!(UsageBreakdown::from_value(&read_json(b"{}").unwrap()).is_none());
}

#[test]
fn tables_keep_one_value_a_key() {
    let mut table: Table<String> = Table::new();
    table.insert("a".to_string(), "1".to_string());
    table.insert("b".to_string(), "2".to_string());
    table.insert("a".to_string(), "3".to_string());
    assert_eq!(table.get("a").unwrap(), "3");
    assert_eq!(table.remove("a").unwrap(), "3");
    assert!(table.remove("a").is_none());
    assert_eq!(table.pop().unwrap(), ("b".to_string(), "2".to_string()));
    assert!(table.pop().is_none());
}

#[test]
fn numbers_are_written_in_digits() {
    assert_eq!(decimal_text(0), "0");
    assert_eq!(decimal_text(1234567890), "1234567890");
    assert_eq!(decimal_text(u64::MAX), u64::MAX.to_string());
    assert_eq!(signed_decimal_text(i64::MIN), i64::MIN.to_string());
    assert_eq!(signed_decimal_text(-7), "-7");
    assert_eq!(signed_decimal_text(i64::MAX), i64::MAX.to_string());
}

#[test]
fn white_space_is_blank() {
    assert!(blank(""));
    assert!(blank(" \t\r\n\u{b}\u{c}\u{85}\u{a0}\u{1680}\u{2003}\u{2028}\u{202f}\u{205f}\u{3000}"));
    assert!(!blank(" \u{200b} "));
    assert!(!blank(" x "));
}

#[test]
fn amounts_are_written_with_their_scale() {
    let text = |mantissa: i128, scale: u32| {
        Amount::new(mantissa < 0, mantissa.unsigned_abs(), scale).unwrap().text()
    };
    assert_eq!(text(0, 0), "0");
    assert_eq!(text(0, 2), "0.00");
    assert_eq!(text(12345, 3), "12.345");
    assert_eq!(text(-5, 2), "-0.05");
    assert_eq!(text(500, 2), "5.00");
    assert_eq!(text(79228162514264337593543950335, 28), "7.9228162514264337593543950335");
    assert_eq!(Amount::new(true, 0, 0).unwrap().text(), "-0");
    assert_eq!(Amount::new(true, 0, 2).unwrap().text(), "-0.00");
    assert!(Amount::new(false, 79228162514264337593543950336, 0).is_none());
    assert!(Amount::new(false, 1, 29).is_none());
    let unknown = cost_texts(&None);
    assert_eq!(unknown.input_cost, "0");
    assert_eq!(unknown.total_cost, "0");
}

#[test]
fn clock_readings_are_cut_to_size() {
    assert_eq!(elapsed_millis(1_000_000, 3_999_999), 2);
    assert_eq!(elapsed_millis(5, 4), 0);
    assert_eq!(elapsed_millis(0, u128::MAX), u64::MAX);
    assert_eq!(millis_since_epoch(Some(1_999_999)), 1);
    assert_eq!(millis_since_epoch(Some(u128::MAX)), i64::MAX);
    assert_eq!(millis_since_epoch(None), 0);
    assert_eq!(seconds_since_epoch(Some(1_999_999_999)), 1);
    assert_eq!(seconds_since_epoch(None), 0);
    assert!(now_millis() > 1_600_000_000_000);
}

fn sample(model: &str, completed_at_ms: i64) -> SidebarUsageEvent {
    SidebarUsageEvent {
        schema_version: 1,
        event_id: "codex_sidebar:usage-v1:a:b:1".to_string(),
        thread_id: "a".to_string(),
        turn_id: "b".to_string(),
        model: model.to_string(),
        completed_at_ms,
        usage: SidebarTokenUsage {
            input_tokens: 1,
            cached_input_tokens: 2,
            cache_write_input_tokens: 3,
            output_tokens: 4,
            reasoning_output_tokens: 5,
            total_tokens: 6,
        },
    }
}

#[test]
fn events_are_prepared_for_the_log() {
    match prepare_event(&sample("  m \n", 1999), None) {
        Prepared::Ready(item) => {
            assert_eq!(item.model, "m");
            assert_eq!(item.created_at, 1);
            assert_eq!(item.usage.cache_read_tokens, 2);
            assert_eq!(item.usage.cache_creation_tokens, 3);
        }
        other => panic!("unexpected {other:?}"),
    }
    match prepare_event(&sample(" ", 0), Some(5_500_000_000)) {
        Prepared::Ready(item) => {
            assert_eq!(item.model, "unknown");
            assert_eq!(item.created_at, 5);
        }
        other => panic!("unexpected {other:?}"),
    }
}

#[test]
fn events_are_validated() {
    assert_eq!(sample("m", 1).validate(), Ok(()));
    let mut event = sample("m", 1);
    event.turn_id = " ".to_string();
    assert_eq!(event.validate(), Err("threadId and turnId are required".to_string()));
    event.event_id = "codex_sidebar:usage-v2:".to_string();
    assert_eq!(event.validate(), Err("invalid eventId namespace".to_string()));
    event.schema_version = 0;
    assert_eq!(event.validate(), Err("unsupported schemaVersion 0".to_string()));
}

#[test]
fn the_first_oversized_count_is_named() {
    let big = u32::MAX as u64 + 1;
    let error = |usage: SidebarTokenUsage| {
        let mut event = sample("m", 1);
        event.usage = usage;
        event.token_usage().unwrap_err()
    };
    let usage = sample("m", 1).usage;
    assert_eq!(
        error(SidebarTokenUsage { input_tokens: big, output_tokens: big, ..usage }),
        "inputTokens exceeds u32"
    );
    assert_eq!(
        error(SidebarTokenUsage { reasoning_output_tokens: big, ..usage }),
        "reasoningOutputTokens exceeds u32"
    );
    assert_eq!(
        error(SidebarTokenUsage { cached_input_tokens: big, ..usage }),
        "cachedInputTokens exceeds u32"
    );
    assert_eq!(
        error(SidebarTokenUsage { cache_write_input_tokens: big, ..usage }),
        "cacheWriteInputTokens exceeds u32"
    );
    assert_eq!(to_u32("x", big - 1), Ok(u32::MAX));
}

#[test]
fn the_app_server_is_asked_for_by_name() {
    assert!(wants_app_server(&vec!["-v".to_string(), "app-server".to_string()]));
    assert!(!wants_app_server(&vec!["app-server2".to_string()]));
    assert!(!wants_app_server(&Vec::new()));
}

#[test]
fn spool_paths_are_chosen_in_order() {
    assert_eq!(sidebar_usage_path(Some("x"), false, "d"), "x");
    assert_eq!(sidebar_usage_path(Some(""), true, "d"), "d");
    assert_eq!(sidebar_usage_path(None, false, "d"), "d");
    assert!(matches!(
        usage_path(Some("x"), false, Some("p"), Some("h")),
        Some(UsagePath::Configured("x"))
    ));
    assert!(matches!(
        usage_path(Some(""), true, Some("p"), Some("h")),
        Some(UsagePath::UnderHome("p"))
    ));
    assert!(matches!(
        usage_path(None, false, None, Some("h")),
        Some(UsagePath::UnderHome("h"))
    ));
    assert!(usage_path::<&str>(None, false, None, None).is_none());
}

fn candidate(path: &'static str, is_current: bool, is_file: bool) -> Candidate<&'static str> {
    Candidate { path, is_current, is_file }
}

#[test]
fn the_real_program_is_looked_for_in_order() {
    assert_eq!(validate_real_cli(candidate("x", true, true)), Err(CliFault::PointsBack));
    assert_eq!(validate_real_cli(candidate("x", false, false)), Err(CliFault::Missing));
    assert_eq!(validate_real_cli(candidate("x", false, true)), Ok("x"));

    let step = |source, found, windows| resolve_real_cli::<&'static str>(source, found, windows);
    assert!(matches!(step(CliSource::Configured, vec![], false), CliStep::UseDefault));
    assert!(matches!(
        step(CliSource::Configured, vec![], true),
        CliStep::Look(CliSource::ParentApplication)
    ));
    assert!(matches!(
        step(CliSource::Configured, vec![candidate("x", true, true)], false),
        CliStep::Fail(CliFault::PointsBack)
    ));
    assert!(matches!(
        step(CliSource::ParentApplication, vec![candidate("x", false, false)], true),
        CliStep::Look(CliSource::GlobalPackage)
    ));
    assert!(matches!(
        step(CliSource::ParentApplication, vec![candidate("x", true, true)], true),
        CliStep::Fail(CliFault::PointsBack)
    ));
    assert!(matches!(
        step(CliSource::GlobalPackage, vec![candidate("x", false, true)], true),
        CliStep::Use("x")
    ));
    assert!(matches!(
        step(CliSource::GlobalPackage, vec![], true),
        CliStep::Look(CliSource::SearchPath)
    ));
    assert!(matches!(
        step(
            CliSource::SearchPath,
            vec![
                candidate("a", true, true),
                candidate("b", false, false),
                candidate("c", false, true),
                candidate("d", false, true)
            ],
            true
        ),
        CliStep::Use("c")
    ));
    assert!(matches!(
        step(CliSource::SearchPath, vec![candidate("a", true, true)], true),
        CliStep::Fail(CliFault::NotFound)
    ));
}

#[test]
fn faults_are_put_into_words() {
    assert_eq!(
        fault_text(CliFault::PointsBack, "x"),
        "CC_SWITCH_CODEX_REAL_CLI_PATH points back to the bridge"
    );
    assert_eq!(fault_text(CliFault::Missing, "x"), "real Codex CLI does not exist: x");
    assert_eq!(
        fault_text(CliFault::NotFound, ""),
        "real Codex CLI not found; set CC_SWITCH_CODEX_REAL_CLI_PATH"
    );
}

#[test]
fn the_bridge_recognises_itself() {
    assert!(!is_current_executable(false, Some(true), true));
    assert!(is_current_executable(true, Some(true), false));
    assert!(!is_current_executable(true, Some(false), true));
    assert!(is_current_executable(true, None, true));
}

#[test]
fn the_global_package_has_its_place() {
    assert_eq!(
        npm_codex_candidate(false).join("/"),
        "npm/node_modules/@openai/codex/node_modules/@openai/codex-win32-x64/vendor/\
         x86_64-pc-windows-msvc/bin/codex.exe"
    );
    assert_eq!(npm_codex_candidate(true)[6], "codex-win32-arm64");
    assert_eq!(npm_codex_candidate(true)[8], "aarch64-pc-windows-msvc");
}

#[test]
fn listed_paths_are_lines() {
    assert_eq!(listed_paths("C:\\a\\codex.exe\r\n D:\\é\\codex.exe "), vec![
        "C:\\a\\codex.exe",
        "D:\\é\\codex.exe"
    ]);
    assert_eq!(listed_paths("a\n\nb\n"), vec!["a", "", "b"]);
    assert!(listed_paths("").is_empty());
}
