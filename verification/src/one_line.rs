//! Reading a trace back: its lines determine its events.

use vstd::prelude::*;
use crate::text::{decimal, lemma_decimal_len};
use crate::slots::TraceRange;
use crate::events::{Assumption, Diagnostic, Event, Obligation};
use crate::json::{escaped, escaped_all, json_boolean, json_option, json_string};
use crate::json::{joined, json_strings, lines, member_text, object_text};
use crate::json::{slots_json, source_json};
use crate::reading::{law_json_determines_event, lemma_split};

verus! {

/// Whether a text has no control character below the space in it, a line feed in particular.
#[verifier::opaque]
pub open spec fn no_control(s: Seq<char>) -> bool {
    forall|i: int| 0 <= i < s.len() ==> (#[trigger] s[i]) as nat >= 0x20
}

proof fn lemma_json_string_no_control(s: Seq<char>)
    ensures
        no_control(json_string(s)),
{
    reveal(no_control);
    lemma_escaped_all_no_control(s);
}

proof fn lemma_escaped_all_no_control(s: Seq<char>)
    ensures
        no_control(escaped_all(s)),
    decreases s.len(),
{
    reveal(no_control);
    if s.len() > 0 {
        assert(no_control(escaped(s[0])));
        lemma_escaped_all_no_control(s.drop_first());
    }
}

proof fn lemma_joined_no_control(parts: Seq<Seq<char>>)
    requires
        forall|i: int| 0 <= i < parts.len() ==> no_control(#[trigger] parts[i]),
    ensures
        no_control(joined(parts)),
    decreases parts.len(),
{
    reveal(no_control);
    if parts.len() > 0 {
        assert(no_control(parts[0]));
        assert forall|i: int| 0 <= i < parts.len() - 1 implies no_control(
            #[trigger] parts.drop_first()[i],
        ) by {
            assert(no_control(parts[i + 1]));
        }
        lemma_joined_no_control(parts.drop_first());
    }
}

proof fn lemma_object_no_control(members: Seq<Seq<char>>)
    requires
        forall|i: int| 0 <= i < members.len() ==> no_control(#[trigger] members[i]),
    ensures
        no_control(object_text(members)),
{
    reveal(no_control);
    lemma_joined_no_control(members);
}

proof fn lemma_member_no_control(name: Seq<char>, value: Seq<char>)
    requires
        no_control(name),
        no_control(value),
    ensures
        no_control(member_text(name, value)),
{
    reveal(no_control);
}

proof fn lemma_string_member_no_control(name: Seq<char>, value: Seq<char>)
    requires
        no_control(name),
    ensures
        no_control(member_text(name, json_string(value))),
{
    lemma_json_string_no_control(value);
    lemma_member_no_control(name, json_string(value));
}

proof fn lemma_number_member_no_control(name: Seq<char>, n: u32)
    requires
        no_control(name),
    ensures
        no_control(member_text(name, decimal(n as nat))),
{
    reveal(no_control);
    lemma_decimal_len(n as nat);
    lemma_member_no_control(name, decimal(n as nat));
}

proof fn lemma_option_member_no_control(name: Seq<char>, value: Option<Seq<char>>)
    requires
        no_control(name),
    ensures
        no_control(member_text(name, json_option(value))),
{
    reveal(no_control);
    reveal_strlit("null");
    if let Some(text) = value {
        lemma_json_string_no_control(text);
    }
    lemma_member_no_control(name, json_option(value));
}

proof fn lemma_range_no_control(range: TraceRange)
    ensures
        no_control(range.json()),
{
    assert(no_control("start_line"@)) by {
        reveal(no_control);
        reveal_strlit("start_line");
    }
    assert(no_control("start_col"@)) by {
        reveal(no_control);
        reveal_strlit("start_col");
    }
    assert(no_control("end_line"@)) by {
        reveal(no_control);
        reveal_strlit("end_line");
    }
    assert(no_control("end_col"@)) by {
        reveal(no_control);
        reveal_strlit("end_col");
    }
    lemma_number_member_no_control("start_line"@, range.start_line);
    lemma_number_member_no_control("start_col"@, range.start_col);
    lemma_number_member_no_control("end_line"@, range.end_line);
    lemma_number_member_no_control("end_col"@, range.end_col);
    lemma_object_no_control(range.members());
}

proof fn lemma_assumption_no_control(a: Assumption)
    ensures
        no_control(object_text(a.members())),
{
    assert(no_control("event"@)) by {
        reveal(no_control);
        reveal_strlit("event");
    }
    assert(no_control("id"@)) by {
        reveal(no_control);
        reveal_strlit("id");
    }
    assert(no_control("module"@)) by {
        reveal(no_control);
        reveal_strlit("module");
    }
    assert(no_control("file"@)) by {
        reveal(no_control);
        reveal_strlit("file");
    }
    assert(no_control("range"@)) by {
        reveal(no_control);
        reveal_strlit("range");
    }
    assert(no_control("kind"@)) by {
        reveal(no_control);
        reveal_strlit("kind");
    }
    assert(no_control("slot"@)) by {
        reveal(no_control);
        reveal_strlit("slot");
    }
    assert(no_control("type"@)) by {
        reveal(no_control);
        reveal_strlit("type");
    }
    assert(no_control("source"@)) by {
        reveal(no_control);
        reveal_strlit("source");
    }
    assert(no_control("text"@)) by {
        reveal(no_control);
        reveal_strlit("text");
    }
    assert(no_control("editable"@)) by {
        reveal(no_control);
        reveal_strlit("editable");
    }
    assert(no_control("true"@)) by {
        reveal(no_control);
        reveal_strlit("true");
    }
    assert(no_control("false"@)) by {
        reveal(no_control);
        reveal_strlit("false");
    }
    assert(no_control("weight"@)) by {
        reveal(no_control);
        reveal_strlit("weight");
    }
    lemma_string_member_no_control("event"@, "assumption"@);
    lemma_string_member_no_control("id"@, a.id);
    lemma_string_member_no_control("module"@, a.module);
    lemma_string_member_no_control("file"@, a.file);
    lemma_range_no_control(a.range);
    lemma_member_no_control("range"@, a.range.json());
    lemma_string_member_no_control("kind"@, a.kind);
    lemma_string_member_no_control("slot"@, a.slot);
    lemma_string_member_no_control("type"@, a.typ);
    lemma_string_member_no_control("kind"@, a.source_kind);
    lemma_string_member_no_control("text"@, a.source_text);
    lemma_object_no_control(
        seq![
            member_text("kind"@, json_string(a.source_kind)),
            member_text("text"@, json_string(a.source_text)),
        ],
    );
    lemma_member_no_control("source"@, source_json(a.source_kind, a.source_text));
    lemma_member_no_control("editable"@, json_boolean(a.editable));
    lemma_number_member_no_control("weight"@, a.weight);
    lemma_object_no_control(a.members());
}

proof fn lemma_string_list_no_control(items: Seq<Seq<char>>)
    ensures
        no_control(json_strings(items)),
{
    reveal(no_control);
    let parts = items.map_values(|s: Seq<char>| json_string(s));
    assert forall|i: int| 0 <= i < parts.len() implies no_control(#[trigger] parts[i]) by {
        lemma_json_string_no_control(items[i]);
    }
    lemma_joined_no_control(parts);
}

proof fn lemma_obligation_no_control(o: Obligation)
    ensures
        no_control(object_text(o.members())),
{
    assert(no_control("event"@)) by {
        reveal(no_control);
        reveal_strlit("event");
    }
    assert(no_control("id"@)) by {
        reveal(no_control);
        reveal_strlit("id");
    }
    assert(no_control("module"@)) by {
        reveal(no_control);
        reveal_strlit("module");
    }
    assert(no_control("file"@)) by {
        reveal(no_control);
        reveal_strlit("file");
    }
    assert(no_control("range"@)) by {
        reveal(no_control);
        reveal_strlit("range");
    }
    assert(no_control("kind"@)) by {
        reveal(no_control);
        reveal_strlit("kind");
    }
    assert(no_control("relation"@)) by {
        reveal(no_control);
        reveal_strlit("relation");
    }
    assert(no_control("got"@)) by {
        reveal(no_control);
        reveal_strlit("got");
    }
    assert(no_control("want"@)) by {
        reveal(no_control);
        reveal_strlit("want");
    }
    assert(no_control("slots"@)) by {
        reveal(no_control);
        reveal_strlit("slots");
    }
    assert(no_control("actual"@)) by {
        reveal(no_control);
        reveal_strlit("actual");
    }
    assert(no_control("expected"@)) by {
        reveal(no_control);
        reveal_strlit("expected");
    }
    assert(no_control("dependencies"@)) by {
        reveal(no_control);
        reveal_strlit("dependencies");
    }
    assert(no_control("result"@)) by {
        reveal(no_control);
        reveal_strlit("result");
    }
    assert(no_control("diagnostic_id"@)) by {
        reveal(no_control);
        reveal_strlit("diagnostic_id");
    }
    lemma_string_member_no_control("event"@, "obligation"@);
    lemma_string_member_no_control("id"@, o.id);
    lemma_string_member_no_control("module"@, o.module);
    lemma_string_member_no_control("file"@, o.file);
    lemma_range_no_control(o.range);
    lemma_member_no_control("range"@, o.range.json());
    lemma_string_member_no_control("kind"@, o.kind);
    lemma_string_member_no_control("relation"@, o.relation);
    lemma_string_member_no_control("got"@, o.got);
    lemma_string_member_no_control("want"@, o.want);
    lemma_string_member_no_control("actual"@, o.actual);
    lemma_string_member_no_control("expected"@, o.expected);
    lemma_object_no_control(
        seq![
            member_text("actual"@, json_string(o.actual)),
            member_text("expected"@, json_string(o.expected)),
        ],
    );
    lemma_member_no_control("slots"@, slots_json(o.actual, o.expected));
    lemma_string_list_no_control(o.dependencies);
    lemma_member_no_control("dependencies"@, json_strings(o.dependencies));
    lemma_string_member_no_control("result"@, o.result);
    lemma_option_member_no_control("diagnostic_id"@, o.diagnostic_id);
    lemma_object_no_control(o.members());
}

proof fn lemma_diagnostic_no_control(d: Diagnostic)
    ensures
        no_control(object_text(d.members())),
{
    assert(no_control("event"@)) by {
        reveal(no_control);
        reveal_strlit("event");
    }
    assert(no_control("id"@)) by {
        reveal(no_control);
        reveal_strlit("id");
    }
    assert(no_control("obligation"@)) by {
        reveal(no_control);
        reveal_strlit("obligation");
    }
    assert(no_control("error_kind"@)) by {
        reveal(no_control);
        reveal_strlit("error_kind");
    }
    assert(no_control("message"@)) by {
        reveal(no_control);
        reveal_strlit("message");
    }
    assert(no_control("file"@)) by {
        reveal(no_control);
        reveal_strlit("file");
    }
    assert(no_control("range"@)) by {
        reveal(no_control);
        reveal_strlit("range");
    }
    lemma_string_member_no_control("event"@, "diagnostic"@);
    lemma_string_member_no_control("id"@, d.id);
    lemma_option_member_no_control("obligation"@, d.obligation);
    lemma_string_member_no_control("error_kind"@, d.error_kind);
    lemma_string_member_no_control("message"@, d.message);
    lemma_string_member_no_control("file"@, d.file);
    lemma_range_no_control(d.range);
    lemma_member_no_control("range"@, d.range.json());
    lemma_object_no_control(d.members());
}

/// The JSON of an event has no line feed nor any other control character in it, whatever the
/// event holds: each event takes one line.
pub proof fn law_event_is_one_line(e: Event)
    ensures
        no_control(e.json()),
        forall|i: int| 0 <= i < e.json().len() ==> #[trigger] e.line()[i] != '\n',
        e.line().last() == '\n',
{
    reveal(no_control);
    match e {
        Event::Assumption(a) => lemma_assumption_no_control(a),
        Event::Obligation(o) => lemma_obligation_no_control(o),
        Event::Diagnostic(d) => lemma_diagnostic_no_control(d),
    }
}

/// Two texts that end with a line feed, or are empty, followed by one line each.
proof fn lemma_last_line(p: Seq<char>, u: Seq<char>, q: Seq<char>, v: Seq<char>)
    requires
        p + u.push('\n') == q + v.push('\n'),
        p.len() > 0 ==> p.last() == '\n',
        q.len() > 0 ==> q.last() == '\n',
        no_control(u),
        no_control(v),
    ensures
        p == q,
        u == v,
{
    reveal(no_control);
    let x = u.push('\n');
    let y = v.push('\n');
    assert((p + x).len() == p.len() + x.len());
    assert((q + y).len() == q.len() + y.len());
    assert(p.len() + u.len() == q.len() + v.len());
    if p.len() > q.len() {
        let i = p.len() - 1;
        assert((p + x)[i] == p[i]);
        assert((q + y)[i] == y[i - q.len()]);
        assert(y[i - q.len()] == v[i - q.len()]);
    } else if q.len() > p.len() {
        let i = q.len() - 1;
        assert((q + y)[i] == q[i]);
        assert((p + x)[i] == x[i - p.len()]);
        assert(x[i - p.len()] == u[i - p.len()]);
    }
    lemma_split(p, u.push('\n'), q, v.push('\n'));
    assert(u =~= u.push('\n').drop_last());
    assert(v =~= v.push('\n').drop_last());
}

/// The text of a trace determines its events and their order.
pub proof fn law_text_determines_events(a: Seq<Event>, b: Seq<Event>)
    requires
        lines(a) == lines(b),
    ensures
        a == b,
    decreases a.len(),
{
    if a.len() == 0 || b.len() == 0 {
        assert(a.len() > 0 ==> lines(a).len() > 0);
        assert(b.len() > 0 ==> lines(b).len() > 0);
        assert(a =~= b);
    } else {
        law_event_is_one_line(a.last());
        law_event_is_one_line(b.last());
        lemma_lines_end(a.drop_last());
        lemma_lines_end(b.drop_last());
        lemma_last_line(
            lines(a.drop_last()),
            a.last().json(),
            lines(b.drop_last()),
            b.last().json(),
        );
        law_json_determines_event(a.last(), b.last());
        law_text_determines_events(a.drop_last(), b.drop_last());
        assert(a =~= a.drop_last().push(a.last()));
        assert(b =~= b.drop_last().push(b.last()));
    }
}

/// The text of a trace ends with a line feed, unless it is empty.
proof fn lemma_lines_end(events: Seq<Event>)
    ensures
        lines(events).len() > 0 ==> lines(events).last() == '\n',
{
    if events.len() > 0 {
        law_event_is_one_line(events.last());
    }
}

} // verus!
