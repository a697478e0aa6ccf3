//! Reading build counters out of Build History documents.

use swf_robot::history::{parse_ib_history, CounterField, HistoryError, JsonValue};

fn uint(n: u64) -> JsonValue {
    JsonValue::Number { unsigned: Some(n), double_bits: (n as f64).to_bits() }
}

fn float(x: f64) -> JsonValue {
    JsonValue::Number { unsigned: None, double_bits: x.to_bits() }
}

fn text(t: &str) -> JsonValue {
    JsonValue::Text { text: t.to_string(), double_bits: t.parse::<f64>().ok().map(f64::to_bits) }
}

/// An object whose entries are walked in key order, as a parsed document's
/// map walks them.
fn object(mut entries: Vec<(&str, JsonValue)>) -> JsonValue {
    entries.sort_by(|a, b| a.0.cmp(b.0));
    JsonValue::Object(entries.into_iter().map(|(k, v)| (k.to_string(), v)).collect())
}

fn build(caption: &str, number: u64, status: &str, remote: u64, local: u64, seconds: f64) -> JsonValue {
    object(vec![
        ("buildCaption", text(caption)),
        ("buildNumber", uint(number)),
        ("buildStatus", text(status)),
        ("numberOfRemoteTasks", uint(remote)),
        ("numberOfLocalTasks", uint(local)),
        ("remoteCoreTime", float(seconds)),
    ])
}

fn history(builds: Vec<JsonValue>) -> JsonValue {
    object(vec![("builds", JsonValue::Array(builds))])
}

fn error_message(document: &JsonValue, caption: &str) -> String {
    match parse_ib_history(document, caption) {
        Ok(h) => panic!("expected an error, got {h:?}"),
        Err(e) => e.message(caption),
    }
}

#[test]
fn ib_history_parser_selects_caption_and_documented_counters() {
    let history = history(vec![
        build("other", 40, "Success", 1, 1, 0.1),
        build("rcc-proof-ib-cold-1", 41, "Success", 7, 2, 1.25),
    ]);
    let parsed = parse_ib_history(&history, "rcc-proof-ib-cold-1").unwrap();
    assert_eq!(parsed.build_number, 41);
    assert_eq!(parsed.remote_tasks, 7);
    assert_eq!(parsed.local_tasks, 2);
    assert_eq!(f64::from_bits(parsed.remote_core_time_bits), 1.25);
    assert!(parse_ib_history(&history, "missing").is_err());
}

#[test]
fn a_caption_on_two_records_is_ambiguous() {
    let doc = history(vec![
        build("b", 1, "Success", 1, 1, 1.0),
        build("b", 2, "Success", 1, 1, 1.0),
    ]);
    assert!(matches!(parse_ib_history(&doc, "b"), Err(HistoryError::CaptionCount { found: 2 })));
    assert_eq!(
        error_message(&doc, "b"),
        "expected exactly one Build History record for \"b\", found 2"
    );
    assert_eq!(
        error_message(&doc, "none"),
        "expected exactly one Build History record for \"none\", found 0"
    );
}

#[test]
fn nested_records_and_key_spellings_are_found() {
    let record = object(vec![
        ("Build Name", text("deep")),
        ("build_id", text("0042")),
        ("STATUS", text("COMPLETED")),
        ("remote-tasks", text("+3")),
        ("local_tasks", uint(0)),
        ("remote core time seconds", text("2.5")),
    ]);
    let doc = object(vec![("outer", object(vec![("inner", JsonValue::Array(vec![record]))]))]);
    let parsed = parse_ib_history(&doc, "deep").unwrap();
    assert_eq!(parsed.build_number, 42);
    assert_eq!(parsed.remote_tasks, 3);
    assert_eq!(parsed.local_tasks, 0);
    assert_eq!(f64::from_bits(parsed.remote_core_time_bits), 2.5);
}

#[test]
fn only_successful_builds_are_read() {
    let doc = history(vec![build("b", 1, "Failed", 1, 1, 1.0)]);
    match parse_ib_history(&doc, "b") {
        Err(HistoryError::NotSuccessful { status }) => assert_eq!(status, "failed"),
        other => panic!("unexpected {other:?}"),
    }
    assert_eq!(error_message(&doc, "b"), "build \"b\" is not successful: failed");
    for ok in ["success", "SUCCESSFUL", "Completed"] {
        let doc = history(vec![build("b", 1, ok, 1, 1, 1.0)]);
        assert!(parse_ib_history(&doc, "b").is_ok(), "{ok}");
    }
    let no_status = object(vec![("caption", text("b")), ("status", uint(1))]);
    assert!(matches!(parse_ib_history(&no_status, "b"), Err(HistoryError::StatusMissing)));
    assert_eq!(error_message(&no_status, "b"), "build status is missing");
}

fn counted(number: JsonValue, remote: JsonValue, local: JsonValue) -> JsonValue {
    object(vec![
        ("caption", text("b")),
        ("status", text("success")),
        ("buildNumber", number),
        ("remoteTasks", remote),
        ("localTasks", local),
        ("remoteCoreTime", float(1.0)),
    ])
}

#[test]
fn counters_must_be_unsigned_integers() {
    let doc = counted(float(1.5), uint(1), uint(1));
    assert!(matches!(
        parse_ib_history(&doc, "b"),
        Err(HistoryError::NotUnsigned { field: CounterField::BuildNumber })
    ));
    assert_eq!(error_message(&doc, "b"), "build number is missing or not an unsigned integer");
    assert_eq!(
        error_message(&counted(uint(9), text("-1"), uint(1)), "b"),
        "remote tasks is missing or not an unsigned integer"
    );
    assert_eq!(
        error_message(&counted(uint(9), uint(1), JsonValue::Null), "b"),
        "local tasks is missing or not an unsigned integer"
    );
    assert_eq!(
        error_message(&counted(text("18446744073709551616"), uint(1), uint(1)), "b"),
        "build number is missing or not an unsigned integer"
    );
}

#[test]
fn remote_core_time_must_be_a_non_negative_number() {
    let with_time = |time: JsonValue| {
        object(vec![
            ("caption", text("b")),
            ("status", text("success")),
            ("buildNumber", uint(1)),
            ("remoteTasks", uint(1)),
            ("localTasks", uint(1)),
            ("remoteCoreTime", time),
        ])
    };
    for bad in [float(-0.5), text("NaN"), text("soon"), JsonValue::Bool(true)] {
        assert_eq!(
            error_message(&with_time(bad), "b"),
            "remote core time is missing, negative, or not numeric"
        );
    }
    let zero = parse_ib_history(&with_time(float(-0.0)), "b").unwrap();
    assert_eq!(f64::from_bits(zero.remote_core_time_bits), 0.0);
    let whole = parse_ib_history(&with_time(uint(3)), "b").unwrap();
    assert_eq!(f64::from_bits(whole.remote_core_time_bits), 3.0);
}

#[test]
fn captions_in_messages_are_quoted_as_debug_quotes_them() {
    let doc = history(vec![]);
    for caption in [
        "plain",
        "tab\there \"q\" back\\slash\n",
        "c1\u{85}nbsp\u{a0}soft\u{ad}",
        "zw\u{200b}bom\u{feff}ls\u{2028}",
        "e\u{301} vs\u{fe0f} pua\u{e000} tag\u{e0041}",
        "del\u{7f}nul\u{0}bell\u{7}esc\u{1b}",
        "caf\u{e9} \u{4e2d}\u{6587} \u{1f916}",
        "mark\u{483} unassigned\u{378} quote' \u{10ffff}",
    ] {
        assert_eq!(
            error_message(&doc, caption),
            format!("expected exactly one Build History record for {caption:?}, found 0")
        );
    }
}
