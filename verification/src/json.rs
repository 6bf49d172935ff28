//! The line of JSON that stands for an event.
//!
//! Strings are written by `serde_json`; what is around them (the members of each event, their
//! order, numbers, absent values) is the format of the trace.

use vstd::prelude::*;
use vstd::string::*;
use crate::text::{decimal, push_decimal};
use crate::slots::TraceRange;
use crate::events::{Assumption, Obligation, Diagnostic, Event, option_text};
use crate::events::{AssumptionEvent, ObligationEvent, DiagnosticEvent, TraceEvent};
use crate::events::{ObligationSlots, TraceSource};

verus! {

/// The error type of `serde_json`.
#[verifier::external_type_specification]
#[verifier::external_body]
pub struct ExJsonError(serde_json::Error);

/// The lower-case hexadecimal numeral for `d`, a number below sixteen.
pub open spec fn hex_digit(d: nat) -> char {
    if d < 10 {
        ('0' as nat + d) as char
    } else {
        ('a' as nat + (d - 10)) as char
    }
}

/// How a character stands in a JSON string: quotes, backslashes and the control characters
/// below the space are escaped, everything else stands for itself.
pub open spec fn escaped(c: char) -> Seq<char> {
    if c == '"' || c == '\\' {
        seq!['\\', c]
    } else if c == '\u{8}' {
        seq!['\\', 'b']
    } else if c == '\t' {
        seq!['\\', 't']
    } else if c == '\n' {
        seq!['\\', 'n']
    } else if c == '\u{c}' {
        seq!['\\', 'f']
    } else if c == '\r' {
        seq!['\\', 'r']
    } else if (c as nat) < 0x20 {
        seq!['\\', 'u', '0', '0', hex_digit(c as nat / 16), hex_digit(c as nat % 16)]
    } else {
        seq![c]
    }
}

/// The characters of `s` as they stand in a JSON string.
pub open spec fn escaped_all(s: Seq<char>) -> Seq<char>
    decreases s.len(),
{
    if s.len() == 0 {
        seq![]
    } else {
        escaped(s.first()) + escaped_all(s.drop_first())
    }
}

/// The JSON string for `s`.
pub open spec fn json_string(s: Seq<char>) -> Seq<char> {
    seq!['"'] + escaped_all(s) + seq!['"']
}

/// `serde_json::to_string` on a string. It never fails there, and yields the string between
/// quotes, each character escaped as [`escaped`] says.
#[verifier::external_body]
fn serialize_str(s: &str) -> (r: Result<String, serde_json::Error>)
    ensures
        r is Ok,
        r->Ok_0@ == json_string(s@),
{
    serde_json::to_string(s)
}

/// The JSON string for `s`.
pub fn json_str(s: &str) -> (r: String)
    ensures
        r@ == json_string(s@),
{
    match serialize_str(s) {
        Ok(t) => t,
        Err(_) => String::new(),
    }
}

/// The JSON for a string that may be absent.
pub open spec fn json_option(s: Option<Seq<char>>) -> Seq<char> {
    match s {
        Some(t) => json_string(t),
        None => "null"@,
    }
}

/// The JSON for a string that may be absent.
pub fn json_opt(s: &Option<String>) -> (r: String)
    ensures
        r@ == json_option(option_text(*s)),
{
    match s {
        Some(t) => json_str(t.as_str()),
        None => "null".to_owned(),
    }
}

/// The JSON for a truth value.
pub open spec fn json_boolean(b: bool) -> Seq<char> {
    if b {
        "true"@
    } else {
        "false"@
    }
}

/// The JSON for a truth value.
pub fn json_bool(b: bool) -> (r: String)
    ensures
        r@ == json_boolean(b),
{
    if b {
        "true".to_owned()
    } else {
        "false".to_owned()
    }
}

/// The JSON for a number.
pub fn json_u32(n: u32) -> (r: String)
    ensures
        r@ == decimal(n as nat),
{
    let mut out = String::new();
    push_decimal(&mut out, n as usize);
    assert(out@ =~= decimal(n as nat));
    out
}

/// The given texts, with a comma between any two neighbours.
pub open spec fn joined(parts: Seq<Seq<char>>) -> Seq<char>
    decreases parts.len(),
{
    if parts.len() == 0 {
        seq![]
    } else if parts.len() == 1 {
        parts[0]
    } else {
        parts[0] + seq![','] + joined(parts.drop_first())
    }
}

/// The texts of the given strings.
pub open spec fn texts(parts: Seq<String>) -> Seq<Seq<char>> {
    parts.map_values(|p: String| p@)
}

/// The given texts, with a comma between any two neighbours.
fn join(parts: &Vec<String>) -> (r: String)
    ensures
        r@ == joined(texts(parts@)),
{
    let mut out = String::new();
    let ghost all = texts(parts@);
    assert(all.skip(0) =~= all);
    let mut i: usize = 0;
    while i < parts.len()
        invariant
            i <= parts.len(),
            all == texts(parts@),
            i == 0 ==> out@ == Seq::<char>::empty(),
            i < parts.len() ==> joined(all) == out@ + (if i == 0 {
                seq![]
            } else {
                seq![',']
            }) + joined(all.skip(i as int)),
            0 < i == parts.len() ==> joined(all) == out@,
        decreases parts.len() - i,
    {
        let ghost rest = all.skip(i as int);
        assert(rest.drop_first() =~= all.skip(i + 1));
        assert(rest[0] == parts@[i as int]@);
        if i > 0 {
            out.append(",");
            proof {
                reveal_strlit(",");
                assert(","@ =~= seq![',']);
            }
        }
        out.append(parts[i].as_str());
        i = i + 1;
        assert(i < parts.len() ==> joined(all) =~= out@ + seq![','] + joined(all.skip(i as int)));
        assert(i == parts.len() ==> joined(all) =~= out@);
    }
    assert(parts.len() == 0 ==> joined(all) =~= out@);
    out
}

/// A member of a JSON object whose name needs no escape.
pub open spec fn member_text(name: Seq<char>, value: Seq<char>) -> Seq<char> {
    seq!['"'] + name + seq!['"', ':'] + value
}

/// A member of a JSON object whose name needs no escape.
fn member(name: &str, value: String) -> (r: String)
    ensures
        r@ == member_text(name@, value@),
{
    let mut out = "\"".to_owned();
    out.append(name);
    out.append("\":");
    out.append(value.as_str());
    proof {
        reveal_strlit("\"");
        reveal_strlit("\":");
        assert("\""@ =~= seq!['"']);
        assert("\":"@ =~= seq!['"', ':']);
    }
    out
}

/// The JSON object with the given members.
pub open spec fn object_text(members: Seq<Seq<char>>) -> Seq<char> {
    seq!['{'] + joined(members) + seq!['}']
}

/// The JSON object with the given members.
fn object(members: &Vec<String>) -> (r: String)
    ensures
        r@ == object_text(texts(members@)),
{
    let mut out = "{".to_owned();
    out.append(join(members).as_str());
    out.append("}");
    proof {
        reveal_strlit("{");
        reveal_strlit("}");
        assert("{"@ =~= seq!['{']);
        assert("}"@ =~= seq!['}']);
    }
    out
}

/// The JSON array of the given strings.
pub open spec fn json_strings(items: Seq<Seq<char>>) -> Seq<char> {
    seq!['['] + joined(items.map_values(|s: Seq<char>| json_string(s))) + seq![']']
}

/// The JSON array of the given strings.
pub fn json_array(items: &Vec<String>) -> (r: String)
    ensures
        r@ == json_strings(texts(items@)),
{
    let mut parts: Vec<String> = Vec::new();
    for i in 0..items.len()
        invariant
            parts.len() == i,
            forall|j: int| 0 <= j < i ==> (#[trigger] parts@[j])@ == json_string(items@[j]@),
    {
        parts.push(json_str(items[i].as_str()));
    }
    assert(texts(parts@) =~= texts(items@).map_values(|s: Seq<char>| json_string(s)));
    let mut out = "[".to_owned();
    out.append(join(&parts).as_str());
    out.append("]");
    proof {
        reveal_strlit("[");
        reveal_strlit("]");
        assert("["@ =~= seq!['[']);
        assert("]"@ =~= seq![']']);
    }
    out
}

impl TraceRange {
    /// The members of the JSON object for a range.
    pub open spec fn members(self) -> Seq<Seq<char>> {
        seq![
            member_text("start_line"@, decimal(self.start_line as nat)),
            member_text("start_col"@, decimal(self.start_col as nat)),
            member_text("end_line"@, decimal(self.end_line as nat)),
            member_text("end_col"@, decimal(self.end_col as nat)),
        ]
    }

    /// The JSON object for a range.
    pub open spec fn json(self) -> Seq<char> {
        object_text(self.members())
    }

    /// The JSON object for a range.
    pub fn to_json(&self) -> (r: String)
        ensures
            r@ == self.json(),
    {
        let members = vec![
            member("start_line", json_u32(self.start_line)),
            member("start_col", json_u32(self.start_col)),
            member("end_line", json_u32(self.end_line)),
            member("end_col", json_u32(self.end_col)),
        ];
        assert(texts(members@) =~= self.members());
        object(&members)
    }
}

/// The JSON object for the source of an assumption.
pub open spec fn source_json(kind: Seq<char>, text: Seq<char>) -> Seq<char> {
    object_text(
        seq![
            member_text("kind"@, json_string(kind)),
            member_text("text"@, json_string(text)),
        ],
    )
}

impl TraceSource {
    /// The JSON object for the source of an assumption.
    pub fn to_json(&self) -> (r: String)
        ensures
            r@ == source_json(self.kind@, self.text@),
    {
        let members = vec![
            member("kind", json_str(self.kind)),
            member("text", json_str(self.text.as_str())),
        ];
        assert(texts(members@) =~= seq![
            member_text("kind"@, json_string(self.kind@)),
            member_text("text"@, json_string(self.text@)),
        ]);
        object(&members)
    }
}

/// The JSON object for the slots of an obligation.
pub open spec fn slots_json(actual: Seq<char>, expected: Seq<char>) -> Seq<char> {
    object_text(
        seq![
            member_text("actual"@, json_string(actual)),
            member_text("expected"@, json_string(expected)),
        ],
    )
}

impl ObligationSlots {
    /// The JSON object for the slots of an obligation.
    pub fn to_json(&self) -> (r: String)
        ensures
            r@ == slots_json(self.actual@, self.expected@),
    {
        let members = vec![
            member("actual", json_str(self.actual.as_str())),
            member("expected", json_str(self.expected.as_str())),
        ];
        assert(texts(members@) =~= seq![
            member_text("actual"@, json_string(self.actual@)),
            member_text("expected"@, json_string(self.expected@)),
        ]);
        object(&members)
    }
}

impl Assumption {
    /// The members of the JSON object for an assumption.
    pub open spec fn members(self) -> Seq<Seq<char>> {
        seq![
            member_text("event"@, json_string("assumption"@)),
            member_text("id"@, json_string(self.id)),
            member_text("module"@, json_string(self.module)),
            member_text("file"@, json_string(self.file)),
            member_text("range"@, self.range.json()),
            member_text("kind"@, json_string(self.kind)),
            member_text("slot"@, json_string(self.slot)),
            member_text("type"@, json_string(self.typ)),
            member_text("source"@, source_json(self.source_kind, self.source_text)),
            member_text("editable"@, json_boolean(self.editable)),
            member_text("weight"@, decimal(self.weight as nat)),
        ]
    }
}

impl AssumptionEvent {
    /// The JSON object for an assumption.
    pub fn to_json(&self) -> (r: String)
        ensures
            r@ == object_text(self@.members()),
    {
        let members = vec![
            member("event", json_str("assumption")),
            member("id", json_str(self.id.as_str())),
            member("module", json_str(self.module.as_str())),
            member("file", json_str(self.file.as_str())),
            member("range", self.range.to_json()),
            member("kind", json_str(self.kind)),
            member("slot", json_str(self.slot.as_str())),
            member("type", json_str(self.typ.as_str())),
            member("source", self.source.to_json()),
            member("editable", json_bool(self.editable)),
            member("weight", json_u32(self.weight)),
        ];
        assert(texts(members@) =~= self@.members());
        object(&members)
    }
}

impl Obligation {
    /// The members of the JSON object for an obligation.
    pub open spec fn members(self) -> Seq<Seq<char>> {
        seq![
            member_text("event"@, json_string("obligation"@)),
            member_text("id"@, json_string(self.id)),
            member_text("module"@, json_string(self.module)),
            member_text("file"@, json_string(self.file)),
            member_text("range"@, self.range.json()),
            member_text("kind"@, json_string(self.kind)),
            member_text("relation"@, json_string(self.relation)),
            member_text("got"@, json_string(self.got)),
            member_text("want"@, json_string(self.want)),
            member_text("slots"@, slots_json(self.actual, self.expected)),
            member_text("dependencies"@, json_strings(self.dependencies)),
            member_text("result"@, json_string(self.result)),
            member_text("diagnostic_id"@, json_option(self.diagnostic_id)),
        ]
    }
}

impl ObligationEvent {
    /// The JSON object for an obligation.
    pub fn to_json(&self) -> (r: String)
        ensures
            r@ == object_text(self@.members()),
    {
        let members = vec![
            member("event", json_str("obligation")),
            member("id", json_str(self.id.as_str())),
            member("module", json_str(self.module.as_str())),
            member("file", json_str(self.file.as_str())),
            member("range", self.range.to_json()),
            member("kind", json_str(self.kind)),
            member("relation", json_str(self.relation)),
            member("got", json_str(self.got.as_str())),
            member("want", json_str(self.want.as_str())),
            member("slots", self.slots.to_json()),
            member("dependencies", json_array(&self.dependencies)),
            member("result", json_str(self.result)),
            member("diagnostic_id", json_opt(&self.diagnostic_id)),
        ];
        assert(texts(members@) =~= self@.members());
        object(&members)
    }
}

impl Diagnostic {
    /// The members of the JSON object for a diagnostic.
    pub open spec fn members(self) -> Seq<Seq<char>> {
        seq![
            member_text("event"@, json_string("diagnostic"@)),
            member_text("id"@, json_string(self.id)),
            member_text("obligation"@, json_option(self.obligation)),
            member_text("error_kind"@, json_string(self.error_kind)),
            member_text("message"@, json_string(self.message)),
            member_text("file"@, json_string(self.file)),
            member_text("range"@, self.range.json()),
        ]
    }
}

impl DiagnosticEvent {
    /// The JSON object for a diagnostic.
    pub fn to_json(&self) -> (r: String)
        ensures
            r@ == object_text(self@.members()),
    {
        let members = vec![
            member("event", json_str("diagnostic")),
            member("id", json_str(self.id.as_str())),
            member("obligation", json_opt(&self.obligation)),
            member("error_kind", json_str(self.error_kind.as_str())),
            member("message", json_str(self.message.as_str())),
            member("file", json_str(self.file.as_str())),
            member("range", self.range.to_json()),
        ];
        assert(texts(members@) =~= self@.members());
        object(&members)
    }
}

impl Event {
    /// The JSON object for an event.
    pub open spec fn json(self) -> Seq<char> {
        match self {
            Event::Assumption(a) => object_text(a.members()),
            Event::Obligation(o) => object_text(o.members()),
            Event::Diagnostic(d) => object_text(d.members()),
        }
    }

    /// The line that stands for an event.
    pub open spec fn line(self) -> Seq<char> {
        self.json().push('\n')
    }
}

impl TraceEvent {
    /// The JSON object for an event.
    pub fn to_json(&self) -> (r: String)
        ensures
            r@ == self@.json(),
    {
        match self {
            TraceEvent::Assumption(a) => a.to_json(),
            TraceEvent::Obligation(o) => o.to_json(),
            TraceEvent::Diagnostic(d) => d.to_json(),
        }
    }
}

/// The lines that stand for the given events.
pub open spec fn lines(events: Seq<Event>) -> Seq<char>
    decreases events.len(),
{
    if events.len() == 0 {
        seq![]
    } else {
        lines(events.drop_last()) + events.last().line()
    }
}

} // verus!
