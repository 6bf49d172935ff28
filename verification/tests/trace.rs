use diagnosis_trace::slots::{DisplayPos, DisplayRange, Module, TypeCheckContext, TypeCheckKind};
use diagnosis_trace::trace::{next_id, ReportedError, Trace};
use serde_json::Value;

fn test_module() -> Module {
    Module { name: "sample".to_owned(), path: "sample.py".to_owned() }
}

/// Characters 37 to 38 of `def f(x: str | None) -> str:\n    return x\n`, as they are displayed.
fn test_range() -> DisplayRange {
    DisplayRange {
        start: DisplayPos { line_within_file: 2, column: 9 },
        end: DisplayPos { line_within_file: 2, column: 10 },
    }
}

fn context(kind: TypeCheckKind, slot: Option<&str>, error_kind: &str) -> TypeCheckContext {
    TypeCheckContext {
        kind,
        slot: slot.map(|s| s.to_owned()),
        error_kind: error_kind.to_owned(),
    }
}

fn reported(msg: &str) -> ReportedError {
    ReportedError {
        error_kind: "unknown-name".to_owned(),
        msg: msg.to_owned(),
        path: "other.py".to_owned(),
        display_range: DisplayRange {
            start: DisplayPos { line_within_file: 7, column: 3 },
            end: DisplayPos { line_within_file: 8, column: 1 },
        },
    }
}

fn trace_values(text: &str) -> Vec<Value> {
    text.lines().map(|line| serde_json::from_str(line).unwrap()).collect()
}

fn started() -> Trace {
    let mut trace = Trace::new();
    trace.init("trace.jsonl", true).unwrap();
    trace
}

fn record(trace: &mut Trace, result: &'static str) {
    trace.record_type_obligation(
        &test_module(),
        test_range(),
        &context(TypeCheckKind::ExplicitFunctionReturn, None, "bad-return"),
        "int".to_owned(),
        "str".to_owned(),
        result,
    );
}

#[test]
fn disabled_by_default() {
    let mut trace = Trace::new();
    trace.reset_for_tests();
    assert!(!trace.is_enabled());
}

#[test]
fn invalid_trace_path_reports_context() {
    let mut trace = Trace::new();
    trace.reset_for_tests();
    let err = trace.init("/definitely/not/a/real/pyrefly/trace.jsonl", false).unwrap_err();
    assert!(err.contains("while creating type trace"));
    assert!(err.contains("trace.jsonl"));
    trace.reset_for_tests();
}

#[test]
fn writes_failed_return_obligation_jsonl() {
    let mut trace = Trace::new();
    trace.reset_for_tests();
    trace.init("trace.jsonl", true).unwrap();

    let module = test_module();
    let context = context(
        TypeCheckKind::ExplicitFunctionReturn,
        Some("function:f:return"),
        "bad-return",
    );
    trace.record_type_obligation(
        &module,
        test_range(),
        &context,
        "str | None".to_owned(),
        "str".to_owned(),
        "error",
    );

    let values = trace_values(&trace.finish());
    assert_eq!(values.len(), 4);
    assert!(values.iter().any(|event| {
        event["event"] == "assumption"
            && event["id"] == "A1"
            && event["kind"] == "local_inferred_type"
            && event["type"] == "str | None"
            && event["editable"] == false
    }));
    assert!(values.iter().any(|event| {
        event["event"] == "assumption"
            && event["id"] == "A2"
            && event["kind"] == "explicit_annotation"
            && event["slot"] == "function:f:return"
            && event["type"] == "str"
            && event["editable"] == true
    }));
    assert!(values.iter().any(|event| {
        event["event"] == "obligation"
            && event["id"] == "O1"
            && event["kind"] == "return"
            && event["relation"] == "assignable"
            && event["got"] == "str | None"
            && event["want"] == "str"
            && event["slots"]["expected"] == "function:f:return"
            && event["dependencies"] == Value::from(vec!["A1", "A2"])
            && event["result"] == "error"
            && event["diagnostic_id"] == "E1"
    }));
    assert!(values.iter().any(|event| {
        event["event"] == "diagnostic"
            && event["id"] == "E1"
            && event["obligation"] == "O1"
            && event["error_kind"] == "bad-return"
            && event["message"] == "Type `str | None` is not assignable to `str`"
    }));
    trace.reset_for_tests();
}

#[test]
fn writes_call_argument_slots_jsonl() {
    let mut trace = Trace::new();
    trace.reset_for_tests();
    trace.init("trace.jsonl", true).unwrap();

    let module = test_module();
    let context = context(
        TypeCheckKind::CallArgument(Some("value".to_owned()), Some("label".to_owned())),
        None,
        "bad-argument-type",
    );
    trace.record_type_obligation(
        &module,
        test_range(),
        &context,
        "int".to_owned(),
        "str".to_owned(),
        "error",
    );

    let values = trace_values(&trace.finish());
    assert!(values.iter().any(|event| {
        event["event"] == "assumption"
            && event["id"] == "A1"
            && event["slot"] == "call:label:arg:value"
            && event["type"] == "int"
            && event["editable"] == false
    }));
    assert!(values.iter().any(|event| {
        event["event"] == "assumption"
            && event["id"] == "A2"
            && event["slot"] == "function:label:param:value"
            && event["type"] == "str"
            && event["editable"] == true
    }));
    assert!(values.iter().any(|event| {
        event["event"] == "obligation"
            && event["id"] == "O1"
            && event["kind"] == "call_argument"
            && event["slots"]["actual"] == "call:label:arg:value"
            && event["slots"]["expected"] == "function:label:param:value"
            && event["diagnostic_id"] == "E1"
    }));
    trace.reset_for_tests();
}

#[test]
fn whole_text_of_a_passed_check() {
    let mut trace = started();
    record(&mut trace, "ok");
    let expected = concat_lines(&[
        r#"{"event":"assumption","id":"A1","module":"sample","file":"sample.py","range":{"start_line":2,"start_col":9,"end_line":2,"end_col":10},"kind":"local_inferred_type","slot":"return:sample.py:2:9:expr","type":"int","source":{"kind":"pyrefly_check","text":"int"},"editable":false,"weight":100}"#,
        r#"{"event":"assumption","id":"A2","module":"sample","file":"sample.py","range":{"start_line":2,"start_col":9,"end_line":2,"end_col":10},"kind":"explicit_annotation","slot":"function:sample:return:sample.py:2:9","type":"str","source":{"kind":"pyrefly_check","text":"str"},"editable":true,"weight":5}"#,
        r#"{"event":"obligation","id":"O1","module":"sample","file":"sample.py","range":{"start_line":2,"start_col":9,"end_line":2,"end_col":10},"kind":"return","relation":"assignable","got":"int","want":"str","slots":{"actual":"return:sample.py:2:9:expr","expected":"function:sample:return:sample.py:2:9"},"dependencies":["A1","A2"],"result":"ok","diagnostic_id":null}"#,
    ]);
    assert_eq!(trace.finish(), expected);
}

fn concat_lines(lines: &[&str]) -> String {
    lines.iter().map(|line| format!("{}\n", line)).collect()
}

#[test]
fn whole_text_of_a_report() {
    let mut trace = started();
    trace.record_diagnostic(&reported("Could not find name `x`"));
    assert_eq!(
        trace.finish(),
        concat_lines(&[
            r#"{"event":"diagnostic","id":"E1","obligation":null,"error_kind":"unknown-name","message":"Could not find name `x`","file":"other.py","range":{"start_line":7,"start_col":3,"end_line":8,"end_col":1}}"#,
        ])
    );
}

#[test]
fn disabled_trace_records_nothing_and_counts_nothing() {
    let mut trace = Trace::new();
    record(&mut trace, "error");
    trace.record_diagnostic(&reported("lost"));
    assert_eq!(trace.finish(), "");
    assert!(!trace.is_enabled());
    trace.init("trace.jsonl", true).unwrap();
    trace.record_diagnostic(&reported("kept"));
    let values = trace_values(&trace.finish());
    assert_eq!(values.len(), 1);
    assert_eq!(values[0]["id"], "E1");
    assert_eq!(values[0]["message"], "kept");
}

#[test]
fn failed_creation_leaves_the_trace_as_it_was() {
    let mut trace = started();
    trace.record_diagnostic(&reported("first"));
    assert_eq!(
        trace.init("/no/such/dir/t.jsonl", false).unwrap_err(),
        "while creating type trace `/no/such/dir/t.jsonl`"
    );
    assert!(trace.is_enabled());
    assert_eq!(trace_values(&trace.finish())[0]["message"], "first");

    let mut off = Trace::new();
    assert!(off.init("x", false).is_err());
    assert!(!off.is_enabled());
}

#[test]
fn second_start_hands_back_the_rest_and_keeps_counting() {
    let mut trace = started();
    record(&mut trace, "error");
    let rest = trace.init("second.jsonl", true).unwrap();
    assert_eq!(trace_values(&rest).len(), 4);
    record(&mut trace, "error");
    let values = trace_values(&trace.finish());
    let ids: Vec<&str> = values.iter().map(|v| v["id"].as_str().unwrap()).collect();
    assert_eq!(ids, vec!["A3", "A4", "O2", "E2"]);
}

#[test]
fn finish_hands_out_once_and_stays_enabled() {
    let mut trace = started();
    record(&mut trace, "ok");
    assert_eq!(trace.finish().lines().count(), 3);
    assert_eq!(trace.finish(), "");
    assert!(trace.is_enabled());
}

#[test]
fn reset_starts_over() {
    let mut trace = started();
    record(&mut trace, "error");
    assert_eq!(trace.reset_for_tests().lines().count(), 4);
    assert!(!trace.is_enabled());
    trace.init("trace.jsonl", true).unwrap();
    record(&mut trace, "error");
    assert_eq!(trace_values(&trace.finish())[3]["id"], "E1");
}

#[test]
fn identifiers_are_distinct_and_links_resolve() {
    let mut trace = started();
    for _ in 0..6 {
        record(&mut trace, "error");
        record(&mut trace, "ok");
        trace.record_diagnostic(&reported("r"));
    }
    let values = trace_values(&trace.finish());
    let mut ids: Vec<String> =
        values.iter().map(|v| v["id"].as_str().unwrap().to_owned()).collect();
    assert_eq!(ids.len(), 6 * 8);
    for (i, v) in values.iter().enumerate() {
        if v["event"] == "obligation" {
            assert_eq!(v["dependencies"][0], values[i - 2]["id"]);
            assert_eq!(v["dependencies"][1], values[i - 1]["id"]);
            assert_eq!(v["slots"]["actual"], values[i - 2]["slot"]);
            assert_eq!(v["slots"]["expected"], values[i - 1]["slot"]);
            if v["result"] == "error" {
                assert_eq!(v["diagnostic_id"], values[i + 1]["id"]);
                assert_eq!(values[i + 1]["obligation"], v["id"]);
            } else {
                assert!(v["diagnostic_id"].is_null());
            }
        }
    }
    ids.sort();
    ids.dedup();
    assert_eq!(ids.len(), 6 * 8);
}

#[test]
fn next_id_counts_and_wraps_around() {
    let mut counter: usize = 9;
    assert_eq!(next_id("O", &mut counter), "O9");
    assert_eq!(next_id("O", &mut counter), "O10");
    assert_eq!(counter, 11);
    let mut zero: usize = 0;
    assert_eq!(next_id("", &mut zero), "0");
    let mut last: usize = usize::MAX;
    assert_eq!(next_id("A", &mut last), format!("A{}", usize::MAX));
    assert_eq!(last, 0);
}

#[test]
fn hostile_text_stays_on_its_line() {
    let mut trace = started();
    let got = "a\"b\\c\nd\te\u{1}\u{1f}\u{7f}\u{e9}\u{2028}\r\u{8}\u{c}/".to_owned();
    trace.record_type_obligation(
        &test_module(),
        test_range(),
        &context(TypeCheckKind::Other, None, "bad-assignment"),
        got.clone(),
        "\n".to_owned(),
        "error",
    );
    let text = trace.finish();
    assert_eq!(text.matches('\n').count(), 4);
    let values = trace_values(&text);
    assert_eq!(values[0]["type"], got.as_str());
    assert_eq!(values[0]["source"]["text"], got.as_str());
    assert_eq!(values[2]["want"], "\n");
    assert_eq!(values[3]["message"], format!("Type `{}` is not assignable to `\n`", got));
}
