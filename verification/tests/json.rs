use diagnosis_trace::events::{
    AssumptionEvent, DiagnosticEvent, ObligationEvent, ObligationSlots, TraceEvent, TraceSource,
};
use diagnosis_trace::json::{json_array, json_bool, json_opt, json_str, json_u32};
use diagnosis_trace::slots::TraceRange;
use serde::ser::{Serialize, SerializeStruct, Serializer};

const TRICKY: &str = "q\" b\\ n\n r\r t\t b\u{8} f\u{c} c\u{0}\u{1b} d\u{7f} / \u{e9}\u{10ffff}";

/// An event or a part of one, serialized field by field.
struct Mirror<'a, T>(&'a T);

impl Serialize for Mirror<'_, TraceRange> {
    fn serialize<S: Serializer>(&self, s: S) -> Result<S::Ok, S::Error> {
        let mut out = s.serialize_struct("TraceRange", 4)?;
        out.serialize_field("start_line", &self.0.start_line)?;
        out.serialize_field("start_col", &self.0.start_col)?;
        out.serialize_field("end_line", &self.0.end_line)?;
        out.serialize_field("end_col", &self.0.end_col)?;
        out.end()
    }
}

impl Serialize for Mirror<'_, TraceSource> {
    fn serialize<S: Serializer>(&self, s: S) -> Result<S::Ok, S::Error> {
        let mut out = s.serialize_struct("TraceSource", 2)?;
        out.serialize_field("kind", self.0.kind)?;
        out.serialize_field("text", &self.0.text)?;
        out.end()
    }
}

impl Serialize for Mirror<'_, ObligationSlots> {
    fn serialize<S: Serializer>(&self, s: S) -> Result<S::Ok, S::Error> {
        let mut out = s.serialize_struct("ObligationSlots", 2)?;
        out.serialize_field("actual", &self.0.actual)?;
        out.serialize_field("expected", &self.0.expected)?;
        out.end()
    }
}

impl Serialize for Mirror<'_, AssumptionEvent> {
    fn serialize<S: Serializer>(&self, s: S) -> Result<S::Ok, S::Error> {
        let mut out = s.serialize_struct("AssumptionEvent", 11)?;
        out.serialize_field("event", "assumption")?;
        out.serialize_field("id", &self.0.id)?;
        out.serialize_field("module", &self.0.module)?;
        out.serialize_field("file", &self.0.file)?;
        out.serialize_field("range", &Mirror(&self.0.range))?;
        out.serialize_field("kind", self.0.kind)?;
        out.serialize_field("slot", &self.0.slot)?;
        out.serialize_field("type", &self.0.typ)?;
        out.serialize_field("source", &Mirror(&self.0.source))?;
        out.serialize_field("editable", &self.0.editable)?;
        out.serialize_field("weight", &self.0.weight)?;
        out.end()
    }
}

impl Serialize for Mirror<'_, ObligationEvent> {
    fn serialize<S: Serializer>(&self, s: S) -> Result<S::Ok, S::Error> {
        let mut out = s.serialize_struct("ObligationEvent", 13)?;
        out.serialize_field("event", "obligation")?;
        out.serialize_field("id", &self.0.id)?;
        out.serialize_field("module", &self.0.module)?;
        out.serialize_field("file", &self.0.file)?;
        out.serialize_field("range", &Mirror(&self.0.range))?;
        out.serialize_field("kind", self.0.kind)?;
        out.serialize_field("relation", self.0.relation)?;
        out.serialize_field("got", &self.0.got)?;
        out.serialize_field("want", &self.0.want)?;
        out.serialize_field("slots", &Mirror(&self.0.slots))?;
        out.serialize_field("dependencies", &self.0.dependencies)?;
        out.serialize_field("result", self.0.result)?;
        out.serialize_field("diagnostic_id", &self.0.diagnostic_id)?;
        out.end()
    }
}

impl Serialize for Mirror<'_, DiagnosticEvent> {
    fn serialize<S: Serializer>(&self, s: S) -> Result<S::Ok, S::Error> {
        let mut out = s.serialize_struct("DiagnosticEvent", 7)?;
        out.serialize_field("event", "diagnostic")?;
        out.serialize_field("id", &self.0.id)?;
        out.serialize_field("obligation", &self.0.obligation)?;
        out.serialize_field("error_kind", &self.0.error_kind)?;
        out.serialize_field("message", &self.0.message)?;
        out.serialize_field("file", &self.0.file)?;
        out.serialize_field("range", &Mirror(&self.0.range))?;
        out.end()
    }
}

fn range() -> TraceRange {
    TraceRange { start_line: 0, start_col: 10, end_line: 99, end_col: u32::MAX }
}

fn assumption(editable: bool) -> AssumptionEvent {
    AssumptionEvent {
        id: "A1".to_owned(),
        module: TRICKY.to_owned(),
        file: "f.py".to_owned(),
        range: range(),
        kind: "local_inferred_type",
        slot: "s".to_owned(),
        typ: TRICKY.to_owned(),
        source: TraceSource { kind: "pyrefly_check", text: TRICKY.to_owned() },
        editable,
        weight: 100,
    }
}

fn obligation(dependencies: Vec<String>, diagnostic_id: Option<String>) -> ObligationEvent {
    ObligationEvent {
        id: "O1".to_owned(),
        module: "m".to_owned(),
        file: TRICKY.to_owned(),
        range: range(),
        kind: "return",
        relation: "assignable",
        got: TRICKY.to_owned(),
        want: "".to_owned(),
        slots: ObligationSlots { actual: "a".to_owned(), expected: TRICKY.to_owned() },
        dependencies,
        result: "error",
        diagnostic_id,
    }
}

fn diagnostic(obligation: Option<String>) -> DiagnosticEvent {
    DiagnosticEvent {
        id: "E1".to_owned(),
        obligation,
        error_kind: "bad-return".to_owned(),
        message: TRICKY.to_owned(),
        file: "f.py".to_owned(),
        range: range(),
    }
}

#[test]
fn assumptions_are_written_as_serde_json_writes_them() {
    for editable in [false, true] {
        let event = assumption(editable);
        assert_eq!(event.to_json(), serde_json::to_string(&Mirror(&event)).unwrap());
    }
}

#[test]
fn obligations_are_written_as_serde_json_writes_them() {
    for dependencies in [vec![], vec!["A1".to_owned()], vec!["A1".to_owned(), TRICKY.to_owned()]] {
        for id in [None, Some("E1".to_owned())] {
            let event = obligation(dependencies.clone(), id);
            assert_eq!(event.to_json(), serde_json::to_string(&Mirror(&event)).unwrap());
        }
    }
}

#[test]
fn diagnostics_are_written_as_serde_json_writes_them() {
    for obligation in [None, Some(TRICKY.to_owned())] {
        let event = diagnostic(obligation);
        assert_eq!(event.to_json(), serde_json::to_string(&Mirror(&event)).unwrap());
    }
}

#[test]
fn events_are_written_by_kind() {
    let a = TraceEvent::Assumption(assumption(true)).to_json();
    let o = TraceEvent::Obligation(obligation(vec![], None)).to_json();
    let d = TraceEvent::Diagnostic(diagnostic(None)).to_json();
    assert!(a.starts_with("{\"event\":\"assumption\","));
    assert!(o.starts_with("{\"event\":\"obligation\","));
    assert!(d.starts_with("{\"event\":\"diagnostic\","));
    for text in [a, o, d] {
        assert!(text.chars().all(|c| c >= ' '));
    }
}

#[test]
fn strings_are_escaped() {
    assert_eq!(json_str(""), "\"\"");
    assert_eq!(json_str("a/b \u{e9}\u{7f}"), "\"a/b \u{e9}\u{7f}\"");
    assert_eq!(json_str("\"\\"), "\"\\\"\\\\\"");
    assert_eq!(json_str("\u{8}\t\n\u{c}\r"), "\"\\b\\t\\n\\f\\r\"");
    assert_eq!(json_str("\u{0}\u{b}\u{1f}"), "\"\\u0000\\u000b\\u001f\"");
}

#[test]
fn every_control_character_is_escaped_as_documented() {
    for code in 0u32..0x20 {
        let c = char::from_u32(code).unwrap();
        let escape = match c {
            '\u{8}' => "\\b".to_owned(),
            '\t' => "\\t".to_owned(),
            '\n' => "\\n".to_owned(),
            '\u{c}' => "\\f".to_owned(),
            '\r' => "\\r".to_owned(),
            _ => format!("\\u00{:02x}", code),
        };
        assert_eq!(json_str(&c.to_string()), format!("\"{}\"", escape));
    }
}

#[test]
fn plain_characters_stand_for_themselves() {
    for code in (0x20u32..0x3000).chain(0xfff0..0x10100) {
        if let Some(c) = char::from_u32(code) {
            if c != '"' && c != '\\' {
                assert_eq!(json_str(&c.to_string()), format!("\"{}\"", c));
            }
        }
    }
}

#[test]
fn other_values() {
    assert_eq!(json_u32(0), "0");
    assert_eq!(json_u32(4294967295), "4294967295");
    assert_eq!(json_bool(true), "true");
    assert_eq!(json_bool(false), "false");
    assert_eq!(json_opt(&None), "null");
    assert_eq!(json_opt(&Some("null".to_owned())), "\"null\"");
    assert_eq!(json_array(&vec![]), "[]");
    assert_eq!(json_array(&vec!["A1".to_owned(), "A2".to_owned()]), "[\"A1\",\"A2\"]");
}
