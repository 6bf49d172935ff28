//! A reader of JSON, and what it finds in a trace.
//!
//! The reader follows the grammar of JSON and knows nothing of traces. What it finds in the text of
//! an event are the fields of that event, under their names and in their order.

use vstd::prelude::*;
use crate::numerals::{all_digits, law_decimal_denotes, value};
use crate::slots::TraceRange;
use crate::events::{Assumption, Diagnostic, Event, Obligation};
use crate::events::{AssumptionEvent, DiagnosticEvent, ObligationEvent, TraceEvent};
use crate::events::{ObligationSlots, TraceSource, option_text};
use crate::json::{escaped, escaped_all, joined, json_boolean, json_option, json_string};
use crate::json::{json_strings, lines, member_text, object_text, slots_json, source_json, texts};
use crate::one_line::{law_event_is_one_line, no_control};
use crate::text::decimal;

verus! {

/// A JSON value. An object is a row of names and values.
pub enum Json {
    Null,
    Bool(bool),
    Number(nat),
    Text(Seq<char>),
    List(Seq<Json>),
    Object(Seq<(Seq<char>, Json)>),
}

/// The number that a hexadecimal digit denotes.
pub open spec fn hex_value(c: char) -> Option<int> {
    let n = c as int;
    if 48 <= n <= 57 {
        Some(n - 48)
    } else if 97 <= n <= 102 {
        Some(n - 87)
    } else if 65 <= n <= 70 {
        Some(n - 55)
    } else {
        None
    }
}

/// Reads the rest of an escape, behind its backslash: the character that it stands for, and the
/// text behind.
pub open spec fn read_escape(s: Seq<char>) -> Option<(char, Seq<char>)> {
    if s.len() == 0 {
        None
    } else if s[0] == '"' || s[0] == '\\' || s[0] == '/' {
        Some((s[0], s.skip(1)))
    } else if s[0] == 'b' {
        Some((8 as char, s.skip(1)))
    } else if s[0] == 't' {
        Some((9 as char, s.skip(1)))
    } else if s[0] == 'n' {
        Some((10 as char, s.skip(1)))
    } else if s[0] == 'f' {
        Some((12 as char, s.skip(1)))
    } else if s[0] == 'r' {
        Some((13 as char, s.skip(1)))
    } else if s[0] == 'u' && s.len() >= 5 {
        match (hex_value(s[1]), hex_value(s[2]), hex_value(s[3]), hex_value(s[4])) {
            (Some(a), Some(b), Some(c), Some(d)) => {
                let n = 4096 * a + 256 * b + 16 * c + d;
                if 0xd800 <= n <= 0xdfff {
                    None
                } else {
                    Some((n as char, s.skip(5)))
                }
            },
            _ => None,
        }
    } else {
        None
    }
}

/// Reads a string behind its opening quote: its characters, and the text behind the closing quote.
pub open spec fn read_text(s: Seq<char>) -> Option<(Seq<char>, Seq<char>)>
    decreases s.len(),
{
    if s.len() == 0 || (s[0] as int) < 0x20 {
        None
    } else if s[0] == '"' {
        Some((seq![], s.skip(1)))
    } else if s[0] == '\\' {
        match read_escape(s.skip(1)) {
            Some((c, rest)) => if rest.len() < s.len() {
                match read_text(rest) {
                    Some((t, end)) => Some((seq![c] + t, end)),
                    None => None,
                }
            } else {
                None
            },
            None => None,
        }
    } else {
        match read_text(s.skip(1)) {
            Some((t, end)) => Some((seq![s[0]] + t, end)),
            None => None,
        }
    }
}

/// How many digits a text begins with.
pub open spec fn digit_run(s: Seq<char>) -> nat
    decreases s.len(),
{
    if s.len() > 0 && 48 <= s[0] as int <= 57 {
        1 + digit_run(s.skip(1))
    } else {
        0
    }
}

/// Whether `s` begins with `w`.
pub open spec fn begins(s: Seq<char>, w: Seq<char>) -> bool {
    s.len() >= w.len() && s.take(w.len() as int) == w
}

/// Reads a value: the value, and the text behind.
pub open spec fn read_value(s: Seq<char>) -> Option<(Json, Seq<char>)>
    decreases s.len(), 0nat,
{
    if s.len() == 0 {
        None
    } else if s[0] == '"' {
        match read_text(s.skip(1)) {
            Some((t, rest)) => Some((Json::Text(t), rest)),
            None => None,
        }
    } else if s[0] == '{' {
        match read_members(s.skip(1)) {
            Some((ms, rest)) => Some((Json::Object(ms), rest)),
            None => None,
        }
    } else if s[0] == '[' {
        if s.len() > 1 && s[1] == ']' {
            Some((Json::List(seq![]), s.skip(2)))
        } else {
            match read_items(s.skip(1)) {
                Some((vs, rest)) => Some((Json::List(vs), rest)),
                None => None,
            }
        }
    } else if begins(s, seq!['n', 'u', 'l', 'l']) {
        Some((Json::Null, s.skip(4)))
    } else if begins(s, seq!['t', 'r', 'u', 'e']) {
        Some((Json::Bool(true), s.skip(4)))
    } else if begins(s, seq!['f', 'a', 'l', 's', 'e']) {
        Some((Json::Bool(false), s.skip(5)))
    } else {
        let n = digit_run(s);
        if n == 0 || (n > 1 && s[0] == '0') {
            None
        } else {
            Some((Json::Number(value(s.take(n as int))), s.skip(n as int)))
        }
    }
}

/// Reads the members of an object behind its opening brace, up to its closing brace.
pub open spec fn read_members(s: Seq<char>) -> Option<(Seq<(Seq<char>, Json)>, Seq<char>)>
    decreases s.len(), 1nat,
{
    if s.len() == 0 || s[0] != '"' {
        None
    } else {
        match read_text(s.skip(1)) {
            Some((name, after)) => if after.len() == 0 || after.len() >= s.len() || after[0] != ':' {
                None
            } else {
                match read_value(after.skip(1)) {
                    Some((v, rest)) => if rest.len() == 0 || rest.len() >= s.len() {
                        None
                    } else if rest[0] == '}' {
                        Some((seq![(name, v)], rest.skip(1)))
                    } else if rest[0] == ',' {
                        match read_members(rest.skip(1)) {
                            Some((ms, end)) => Some((seq![(name, v)] + ms, end)),
                            None => None,
                        }
                    } else {
                        None
                    },
                    None => None,
                }
            },
            None => None,
        }
    }
}

/// Reads the values of a list, of which there is one at least, up to its closing bracket.
pub open spec fn read_items(s: Seq<char>) -> Option<(Seq<Json>, Seq<char>)>
    decreases s.len(), 1nat,
{
    match read_value(s) {
        Some((v, rest)) => if rest.len() == 0 || rest.len() >= s.len() {
            None
        } else if rest[0] == ']' {
            Some((seq![v], rest.skip(1)))
        } else if rest[0] == ',' {
            match read_items(rest.skip(1)) {
                Some((vs, end)) => Some((seq![v] + vs, end)),
                None => None,
            }
        } else {
            None
        },
        None => None,
    }
}

/// What a text reads as, if it is a JSON value and nothing else.
pub open spec fn json_value(t: Seq<char>) -> Option<Json> {
    match read_value(t) {
        Some((v, rest)) => if rest.len() == 0 {
            Some(v)
        } else {
            None
        },
        None => None,
    }
}

/// Whether a text goes on as a text goes on behind a value: not at all, or with a comma or a
/// closing bracket.
pub open spec fn ends(x: Seq<char>) -> bool {
    x.len() == 0 || x[0] == ',' || x[0] == '}' || x[0] == ']'
}

/// Whether `t` reads as `v`, whatever comes behind.
#[verifier::opaque]
pub open spec fn reads(t: Seq<char>, v: Json) -> bool {
    forall|x: Seq<char>| ends(x) ==> #[trigger] read_value(t + x) == Some((v, x))
}

proof fn lemma_reads_alone(t: Seq<char>, v: Json)
    requires
        reads(t, v),
    ensures
        json_value(t) == Some(v),
{
    reveal(reads);
    let none = Seq::<char>::empty();
    assert(t + none =~= t);
    assert(read_value(t + none) == Some((v, none)));
}

/// An escape is read as the character that it was made for.
proof fn lemma_escaped_reads(c: char, x: Seq<char>)
    requires
        escaped(c)[0] == '\\',
    ensures
        read_escape((escaped(c) + x).skip(1)) == Some((c, x)),
{
    let e = escaped(c);
    let t = (e + x).skip(1);
    assert(t[0] == e[1]);
    if e.len() == 2 {
        assert(t.skip(1) =~= x);
    } else if e.len() == 6 {
        assert(t[1] == e[2] && t[2] == e[3] && t[3] == e[4] && t[4] == e[5]);
        assert(t.skip(5) =~= x);
        assert(0 <= c as int && (c as int) < 0x20);
        let a = c as nat / 16;
        let b = c as nat % 16;
        assert(hex_value(e[4]) == Some(a as int));
        assert(hex_value(e[5]) == Some(b as int));
        assert(16 * a + b == c as int);
    }
}

/// A character is a code point.
proof fn lemma_code_point(c: char)
    ensures
        c as int == c as nat,
{
}

/// A string is read as the characters that it was made for.
proof fn lemma_text_reads(s: Seq<char>, x: Seq<char>)
    ensures
        read_text(escaped_all(s) + (seq!['"'] + x)) == Some((s, x)),
    decreases s.len(),
{
    let t = escaped_all(s) + (seq!['"'] + x);
    if s.len() == 0 {
        assert(t =~= seq!['"'] + x);
        assert(t.skip(1) =~= x);
        assert(s =~= seq![]);
    } else {
        let c = s[0];
        let rest = escaped_all(s.drop_first()) + (seq!['"'] + x);
        lemma_text_reads(s.drop_first(), x);
        assert(t =~= escaped(c) + rest);
        assert(t[0] == escaped(c)[0]);
        assert(s =~= seq![c] + s.drop_first());
        if escaped(c)[0] == '\\' {
            lemma_escaped_reads(c, rest);
            assert(('\\' as int) == 92);
            assert(rest.len() < t.len());
        } else {
            lemma_code_point(c);
            assert(escaped(c) =~= seq![c]);
            assert(t.skip(1) =~= rest);
        }
    }
}

proof fn lemma_string_reads(s: Seq<char>)
    ensures
        reads(json_string(s), Json::Text(s)),
{
    reveal(reads);
    assert forall|x: Seq<char>| ends(x) implies #[trigger] read_value(json_string(s) + x) == Some(
        (Json::Text(s), x),
    ) by {
        let t = json_string(s) + x;
        lemma_text_reads(s, x);
        assert(t.skip(1) =~= escaped_all(s) + (seq!['"'] + x));
    }
}

proof fn lemma_digit_run(t: Seq<char>, x: Seq<char>)
    requires
        all_digits(t),
        ends(x),
    ensures
        digit_run(t + x) == t.len(),
    decreases t.len(),
{
    if t.len() == 0 {
        assert(t + x =~= x);
    } else {
        assert(48 <= t[0] as int <= 57);
        assert((t + x)[0] == t[0]);
        assert((t + x).skip(1) =~= t.skip(1) + x);
        assert forall|i: int| 0 <= i < t.skip(1).len() implies 48 <= (#[trigger] t.skip(1)[i]) as int
            <= 57 by {
            assert(48 <= t[i + 1] as int <= 57);
        }
        lemma_digit_run(t.skip(1), x);
    }
}

proof fn lemma_number_reads(n: nat)
    ensures
        reads(decimal(n), Json::Number(n)),
{
    reveal(reads);
    law_decimal_denotes(n);
    let d = decimal(n);
    assert forall|x: Seq<char>| ends(x) implies #[trigger] read_value(d + x) == Some(
        (Json::Number(n), x),
    ) by {
        let t = d + x;
        lemma_digit_run(d, x);
        assert(48 <= d[0] as int <= 57);
        assert(t[0] == d[0]);
        assert(t.take(d.len() as int) =~= d);
        assert(t.skip(d.len() as int) =~= x);
        lemma_not_word(t, seq!['n', 'u', 'l', 'l']);
        lemma_not_word(t, seq!['t', 'r', 'u', 'e']);
        lemma_not_word(t, seq!['f', 'a', 'l', 's', 'e']);
    }
}

proof fn lemma_not_word(t: Seq<char>, w: Seq<char>)
    requires
        t.len() > 0,
        w.len() > 0,
        t[0] != w[0],
    ensures
        !begins(t, w),
{
    if begins(t, w) {
        assert(t.take(w.len() as int)[0] == t[0]);
    }
}

proof fn lemma_boolean_reads(b: bool)
    ensures
        reads(json_boolean(b), Json::Bool(b)),
{
    reveal(reads);
    reveal_strlit("true");
    reveal_strlit("false");
    assert("true"@ =~= seq!['t', 'r', 'u', 'e']);
    assert("false"@ =~= seq!['f', 'a', 'l', 's', 'e']);
    let w = json_boolean(b);
    assert forall|x: Seq<char>| ends(x) implies #[trigger] read_value(w + x) == Some(
        (Json::Bool(b), x),
    ) by {
        let t = w + x;
        assert(t[0] == w[0]);
        assert(t.take(w.len() as int) =~= w);
        assert(t.skip(w.len() as int) =~= x);
        lemma_not_word(t, seq!['n', 'u', 'l', 'l']);
        if !b {
            lemma_not_word(t, seq!['t', 'r', 'u', 'e']);
        }
    }
}

/// What a string that may be absent reads as.
pub open spec fn text_or_null(s: Option<Seq<char>>) -> Json {
    match s {
        Some(t) => Json::Text(t),
        None => Json::Null,
    }
}

proof fn lemma_option_reads(s: Option<Seq<char>>)
    ensures
        reads(json_option(s), text_or_null(s)),
{
    match s {
        Some(t) => lemma_string_reads(t),
        None => {
            reveal(reads);
            reveal_strlit("null");
            let w = "null"@;
            assert(w =~= seq!['n', 'u', 'l', 'l']);
            assert forall|x: Seq<char>| ends(x) implies #[trigger] read_value(w + x) == Some(
                (Json::Null, x),
            ) by {
                let t = w + x;
                assert(t[0] == 'n');
                assert(t.take(4) =~= w);
                assert(t.skip(4) =~= x);
            }
        },
    }
}

proof fn lemma_items_read(items: Seq<Seq<char>>, x: Seq<char>)
    requires
        items.len() > 0,
    ensures
        read_items(
            joined(items.map_values(|s: Seq<char>| json_string(s))) + (seq![']'] + x),
        ) == Some((items.map_values(|s: Seq<char>| Json::Text(s)), x)),
    decreases items.len(),
{
    let f = |s: Seq<char>| json_string(s);
    let g = |s: Seq<char>| Json::Text(s);
    let us = items.map_values(f);
    let t = joined(us) + (seq![']'] + x);
    let end = if items.len() == 1 {
        seq![']'] + x
    } else {
        seq![','] + (joined(us.drop_first()) + (seq![']'] + x))
    };
    assert(t =~= json_string(items[0]) + end);
    lemma_string_reads(items[0]);
    assert(read_value(json_string(items[0]) + end) == Some((Json::Text(items[0]), end))) by {
        reveal(reads);
    }
    assert(json_string(items[0]).len() > 0);
    if items.len() == 1 {
        assert(end.skip(1) =~= x);
        assert(items.map_values(g) =~= seq![Json::Text(items[0])]);
    } else {
        assert(end.skip(1) =~= joined(us.drop_first()) + (seq![']'] + x));
        assert(us.drop_first() =~= items.drop_first().map_values(f));
        lemma_items_read(items.drop_first(), x);
        assert(items.map_values(g) =~= seq![Json::Text(items[0])] + items.drop_first().map_values(
            g,
        ));
    }
}

proof fn lemma_list_reads(items: Seq<Seq<char>>)
    ensures
        reads(json_strings(items), Json::List(items.map_values(|s: Seq<char>| Json::Text(s)))),
{
    reveal(reads);
    let f = |s: Seq<char>| json_string(s);
    let g = |s: Seq<char>| Json::Text(s);
    let l = json_strings(items);
    assert forall|x: Seq<char>| ends(x) implies #[trigger] read_value(l + x) == Some(
        (Json::List(items.map_values(g)), x),
    ) by {
        let t = l + x;
        let us = items.map_values(f);
        assert(t[0] == '[');
        if items.len() == 0 {
            assert(t =~= seq!['[', ']'] + x);
            assert(t.skip(2) =~= x);
            assert(items.map_values(g) =~= seq![]);
        } else {
            assert(t.skip(1) =~= joined(us) + (seq![']'] + x));
            assert(us[0] == json_string(items[0]));
            assert(t[1] == '"');
            lemma_items_read(items, x);
        }
    }
}

/// Whether a name stands for itself between quotes.
spec fn plain_name(name: Seq<char>) -> bool {
    forall|i: int| 0 <= i < name.len() ==> escaped(#[trigger] name[i]) == seq![name[i]]
}

proof fn lemma_plain_name(name: Seq<char>)
    requires
        plain_name(name),
    ensures
        escaped_all(name) == name,
    decreases name.len(),
{
    if name.len() > 0 {
        assert(escaped(name[0]) == seq![name[0]]);
        assert forall|i: int| 0 <= i < name.drop_first().len() implies escaped(
            #[trigger] name.drop_first()[i],
        ) == seq![name.drop_first()[i]] by {
            assert(escaped(name[i + 1]) == seq![name[i + 1]]);
        }
        lemma_plain_name(name.drop_first());
        assert(name =~= seq![name[0]] + name.drop_first());
    } else {
        assert(escaped_all(name) =~= name);
    }
}

/// A member of an object: its name, the text of its value, and its value.
struct Member {
    name: Seq<char>,
    text: Seq<char>,
    value: Json,
}

spec fn readable(m: Member) -> bool {
    plain_name(m.name) && reads(m.text, m.value)
}

spec fn member_texts(ms: Seq<Member>) -> Seq<Seq<char>> {
    ms.map_values(|m: Member| member_text(m.name, m.text))
}

spec fn member_values(ms: Seq<Member>) -> Seq<(Seq<char>, Json)> {
    ms.map_values(|m: Member| (m.name, m.value))
}

/// One member is read, up to what comes behind its value.
proof fn lemma_member_reads(m: Member, end: Seq<char>)
    requires
        readable(m),
        ends(end),
    ensures
        ({
            let t = member_text(m.name, m.text) + end;
            &&& t[0] == '"'
            &&& t.len() > end.len() + 1
            &&& read_text(t.skip(1)) == Some((m.name, seq![':'] + (m.text + end)))
            &&& read_value((seq![':'] + (m.text + end)).skip(1)) == Some((m.value, end))
            &&& t.len() > (seq![':'] + (m.text + end)).len()
        }),
{
    reveal(reads);
    let t = member_text(m.name, m.text) + end;
    let after = seq![':'] + (m.text + end);
    lemma_plain_name(m.name);
    lemma_text_reads(m.name, after);
    assert(t.skip(1) =~= m.name + (seq!['"'] + after));
    assert(after.skip(1) =~= m.text + end);
}

proof fn lemma_members_read(ms: Seq<Member>, x: Seq<char>)
    requires
        ms.len() > 0,
        forall|i: int| 0 <= i < ms.len() ==> readable(#[trigger] ms[i]),
    ensures
        read_members(joined(member_texts(ms)) + (seq!['}'] + x)) == Some((member_values(ms), x)),
    decreases ms.len(),
{
    let us = member_texts(ms);
    let t = joined(us) + (seq!['}'] + x);
    let end = if ms.len() == 1 {
        seq!['}'] + x
    } else {
        seq![','] + (joined(us.drop_first()) + (seq!['}'] + x))
    };
    assert(readable(ms[0]));
    assert(t =~= member_text(ms[0].name, ms[0].text) + end);
    lemma_member_reads(ms[0], end);
    if ms.len() == 1 {
        assert(end.skip(1) =~= x);
        assert(member_values(ms) =~= seq![(ms[0].name, ms[0].value)]);
    } else {
        let rest = ms.drop_first();
        assert forall|i: int| 0 <= i < rest.len() implies readable(#[trigger] rest[i]) by {
            assert(readable(ms[i + 1]));
        }
        lemma_members_read(rest, x);
        assert(us.drop_first() =~= member_texts(rest));
        assert(end.skip(1) =~= joined(member_texts(rest)) + (seq!['}'] + x));
        assert(member_values(ms) =~= seq![(ms[0].name, ms[0].value)] + member_values(rest));
    }
}

proof fn lemma_object_reads(ms: Seq<Member>)
    requires
        ms.len() > 0,
        forall|i: int| 0 <= i < ms.len() ==> readable(#[trigger] ms[i]),
    ensures
        reads(object_text(member_texts(ms)), Json::Object(member_values(ms))),
{
    reveal(reads);
    let o = object_text(member_texts(ms));
    assert forall|x: Seq<char>| ends(x) implies #[trigger] read_value(o + x) == Some(
        (Json::Object(member_values(ms)), x),
    ) by {
        lemma_members_read(ms, x);
        assert((o + x)[0] == '{');
        assert((o + x).skip(1) =~= joined(member_texts(ms)) + (seq!['}'] + x));
    }
}

/// The names of members stand for themselves.
proof fn lemma_names()
    ensures
        plain_name("actual"@),
        plain_name("dependencies"@),
        plain_name("diagnostic_id"@),
        plain_name("editable"@),
        plain_name("end_col"@),
        plain_name("end_line"@),
        plain_name("error_kind"@),
        plain_name("event"@),
        plain_name("expected"@),
        plain_name("file"@),
        plain_name("got"@),
        plain_name("id"@),
        plain_name("kind"@),
        plain_name("message"@),
        plain_name("module"@),
        plain_name("obligation"@),
        plain_name("range"@),
        plain_name("relation"@),
        plain_name("result"@),
        plain_name("slot"@),
        plain_name("slots"@),
        plain_name("source"@),
        plain_name("start_col"@),
        plain_name("start_line"@),
        plain_name("text"@),
        plain_name("type"@),
        plain_name("want"@),
        plain_name("weight"@),
{
    assert(plain_name("actual"@)) by {
        reveal_strlit("actual");
    }
    assert(plain_name("dependencies"@)) by {
        reveal_strlit("dependencies");
    }
    assert(plain_name("diagnostic_id"@)) by {
        reveal_strlit("diagnostic_id");
    }
    assert(plain_name("editable"@)) by {
        reveal_strlit("editable");
    }
    assert(plain_name("end_col"@)) by {
        reveal_strlit("end_col");
    }
    assert(plain_name("end_line"@)) by {
        reveal_strlit("end_line");
    }
    assert(plain_name("error_kind"@)) by {
        reveal_strlit("error_kind");
    }
    assert(plain_name("event"@)) by {
        reveal_strlit("event");
    }
    assert(plain_name("expected"@)) by {
        reveal_strlit("expected");
    }
    assert(plain_name("file"@)) by {
        reveal_strlit("file");
    }
    assert(plain_name("got"@)) by {
        reveal_strlit("got");
    }
    assert(plain_name("id"@)) by {
        reveal_strlit("id");
    }
    assert(plain_name("kind"@)) by {
        reveal_strlit("kind");
    }
    assert(plain_name("message"@)) by {
        reveal_strlit("message");
    }
    assert(plain_name("module"@)) by {
        reveal_strlit("module");
    }
    assert(plain_name("obligation"@)) by {
        reveal_strlit("obligation");
    }
    assert(plain_name("range"@)) by {
        reveal_strlit("range");
    }
    assert(plain_name("relation"@)) by {
        reveal_strlit("relation");
    }
    assert(plain_name("result"@)) by {
        reveal_strlit("result");
    }
    assert(plain_name("slot"@)) by {
        reveal_strlit("slot");
    }
    assert(plain_name("slots"@)) by {
        reveal_strlit("slots");
    }
    assert(plain_name("source"@)) by {
        reveal_strlit("source");
    }
    assert(plain_name("start_col"@)) by {
        reveal_strlit("start_col");
    }
    assert(plain_name("start_line"@)) by {
        reveal_strlit("start_line");
    }
    assert(plain_name("text"@)) by {
        reveal_strlit("text");
    }
    assert(plain_name("type"@)) by {
        reveal_strlit("type");
    }
    assert(plain_name("want"@)) by {
        reveal_strlit("want");
    }
    assert(plain_name("weight"@)) by {
        reveal_strlit("weight");
    }
}

/// What a range reads as.
pub open spec fn range_value(r: TraceRange) -> Json {
    Json::Object(
        seq![
            ("start_line"@, Json::Number(r.start_line as nat)),
            ("start_col"@, Json::Number(r.start_col as nat)),
            ("end_line"@, Json::Number(r.end_line as nat)),
            ("end_col"@, Json::Number(r.end_col as nat)),
        ],
    )
}

proof fn lemma_range_reads(r: TraceRange)
    ensures
        reads(r.json(), range_value(r)),
{
    let ms = seq![
        Member { name: "start_line"@, text: decimal(r.start_line as nat), value: Json::Number(r.start_line as nat) },
        Member { name: "start_col"@, text: decimal(r.start_col as nat), value: Json::Number(r.start_col as nat) },
        Member { name: "end_line"@, text: decimal(r.end_line as nat), value: Json::Number(r.end_line as nat) },
        Member { name: "end_col"@, text: decimal(r.end_col as nat), value: Json::Number(r.end_col as nat) },
    ];
    lemma_number_reads(r.start_line as nat);
    lemma_number_reads(r.start_col as nat);
    lemma_number_reads(r.end_line as nat);
    lemma_number_reads(r.end_col as nat);
    lemma_names();
    lemma_object_reads(ms);
    assert(member_texts(ms) =~= r.members());
    assert(Json::Object(member_values(ms)) == range_value(r)) by {
        assert(member_values(ms) =~= seq![
            ("start_line"@, Json::Number(r.start_line as nat)),
            ("start_col"@, Json::Number(r.start_col as nat)),
            ("end_line"@, Json::Number(r.end_line as nat)),
            ("end_col"@, Json::Number(r.end_col as nat)),
        ]);
    }
}

/// What the source of an assumption reads as.
pub open spec fn source_value(kind: Seq<char>, text: Seq<char>) -> Json {
    Json::Object(
        seq![
            ("kind"@, Json::Text(kind)),
            ("text"@, Json::Text(text)),
        ],
    )
}

proof fn lemma_source_reads(kind: Seq<char>, text: Seq<char>)
    ensures
        reads(source_json(kind, text), source_value(kind, text)),
{
    let ms = seq![
        Member { name: "kind"@, text: json_string(kind), value: Json::Text(kind) },
        Member { name: "text"@, text: json_string(text), value: Json::Text(text) },
    ];
    lemma_string_reads(kind);
    lemma_string_reads(text);
    lemma_names();
    lemma_object_reads(ms);
    assert(member_texts(ms) =~= seq![member_text("kind"@, json_string(kind)), member_text("text"@, json_string(text))]);
    assert(Json::Object(member_values(ms)) == source_value(kind, text)) by {
        assert(member_values(ms) =~= seq![
            ("kind"@, Json::Text(kind)),
            ("text"@, Json::Text(text)),
        ]);
    }
}

/// What a pair of slots reads as.
pub open spec fn slots_value(actual: Seq<char>, expected: Seq<char>) -> Json {
    Json::Object(
        seq![
            ("actual"@, Json::Text(actual)),
            ("expected"@, Json::Text(expected)),
        ],
    )
}

proof fn lemma_slots_reads(actual: Seq<char>, expected: Seq<char>)
    ensures
        reads(slots_json(actual, expected), slots_value(actual, expected)),
{
    let ms = seq![
        Member { name: "actual"@, text: json_string(actual), value: Json::Text(actual) },
        Member { name: "expected"@, text: json_string(expected), value: Json::Text(expected) },
    ];
    lemma_string_reads(actual);
    lemma_string_reads(expected);
    lemma_names();
    lemma_object_reads(ms);
    assert(member_texts(ms) =~= seq![member_text("actual"@, json_string(actual)), member_text("expected"@, json_string(expected))]);
    assert(Json::Object(member_values(ms)) == slots_value(actual, expected)) by {
        assert(member_values(ms) =~= seq![
            ("actual"@, Json::Text(actual)),
            ("expected"@, Json::Text(expected)),
        ]);
    }
}

/// What an assumption reads as.
pub open spec fn assumption_value(a: Assumption) -> Json {
    Json::Object(
        seq![
            ("event"@, Json::Text("assumption"@)),
            ("id"@, Json::Text(a.id)),
            ("module"@, Json::Text(a.module)),
            ("file"@, Json::Text(a.file)),
            ("range"@, range_value(a.range)),
            ("kind"@, Json::Text(a.kind)),
            ("slot"@, Json::Text(a.slot)),
            ("type"@, Json::Text(a.typ)),
            ("source"@, source_value(a.source_kind, a.source_text)),
            ("editable"@, Json::Bool(a.editable)),
            ("weight"@, Json::Number(a.weight as nat)),
        ],
    )
}

proof fn lemma_assumption_reads(a: Assumption)
    ensures
        reads(object_text(a.members()), assumption_value(a)),
{
    let ms = seq![
        Member { name: "event"@, text: json_string("assumption"@), value: Json::Text("assumption"@) },
        Member { name: "id"@, text: json_string(a.id), value: Json::Text(a.id) },
        Member { name: "module"@, text: json_string(a.module), value: Json::Text(a.module) },
        Member { name: "file"@, text: json_string(a.file), value: Json::Text(a.file) },
        Member { name: "range"@, text: a.range.json(), value: range_value(a.range) },
        Member { name: "kind"@, text: json_string(a.kind), value: Json::Text(a.kind) },
        Member { name: "slot"@, text: json_string(a.slot), value: Json::Text(a.slot) },
        Member { name: "type"@, text: json_string(a.typ), value: Json::Text(a.typ) },
        Member { name: "source"@, text: source_json(a.source_kind, a.source_text), value: source_value(a.source_kind, a.source_text) },
        Member { name: "editable"@, text: json_boolean(a.editable), value: Json::Bool(a.editable) },
        Member { name: "weight"@, text: decimal(a.weight as nat), value: Json::Number(a.weight as nat) },
    ];
    lemma_string_reads("assumption"@);
    lemma_string_reads(a.id);
    lemma_string_reads(a.module);
    lemma_string_reads(a.file);
    lemma_range_reads(a.range);
    lemma_string_reads(a.kind);
    lemma_string_reads(a.slot);
    lemma_string_reads(a.typ);
    lemma_source_reads(a.source_kind, a.source_text);
    lemma_boolean_reads(a.editable);
    lemma_number_reads(a.weight as nat);
    lemma_names();
    lemma_object_reads(ms);
    assert(member_texts(ms) =~= a.members());
    assert(Json::Object(member_values(ms)) == assumption_value(a)) by {
        assert(member_values(ms) =~= seq![
            ("event"@, Json::Text("assumption"@)),
            ("id"@, Json::Text(a.id)),
            ("module"@, Json::Text(a.module)),
            ("file"@, Json::Text(a.file)),
            ("range"@, range_value(a.range)),
            ("kind"@, Json::Text(a.kind)),
            ("slot"@, Json::Text(a.slot)),
            ("type"@, Json::Text(a.typ)),
            ("source"@, source_value(a.source_kind, a.source_text)),
            ("editable"@, Json::Bool(a.editable)),
            ("weight"@, Json::Number(a.weight as nat)),
        ]);
    }
}

/// What a list of strings reads as.
pub open spec fn list_value(items: Seq<Seq<char>>) -> Json {
    Json::List(items.map_values(|s: Seq<char>| Json::Text(s)))
}

/// What an obligation reads as.
pub open spec fn obligation_value(o: Obligation) -> Json {
    Json::Object(
        seq![
            ("event"@, Json::Text("obligation"@)),
            ("id"@, Json::Text(o.id)),
            ("module"@, Json::Text(o.module)),
            ("file"@, Json::Text(o.file)),
            ("range"@, range_value(o.range)),
            ("kind"@, Json::Text(o.kind)),
            ("relation"@, Json::Text(o.relation)),
            ("got"@, Json::Text(o.got)),
            ("want"@, Json::Text(o.want)),
            ("slots"@, slots_value(o.actual, o.expected)),
            ("dependencies"@, list_value(o.dependencies)),
            ("result"@, Json::Text(o.result)),
            ("diagnostic_id"@, text_or_null(o.diagnostic_id)),
        ],
    )
}

proof fn lemma_obligation_reads(o: Obligation)
    ensures
        reads(object_text(o.members()), obligation_value(o)),
{
    let ms = seq![
        Member { name: "event"@, text: json_string("obligation"@), value: Json::Text("obligation"@) },
        Member { name: "id"@, text: json_string(o.id), value: Json::Text(o.id) },
        Member { name: "module"@, text: json_string(o.module), value: Json::Text(o.module) },
        Member { name: "file"@, text: json_string(o.file), value: Json::Text(o.file) },
        Member { name: "range"@, text: o.range.json(), value: range_value(o.range) },
        Member { name: "kind"@, text: json_string(o.kind), value: Json::Text(o.kind) },
        Member { name: "relation"@, text: json_string(o.relation), value: Json::Text(o.relation) },
        Member { name: "got"@, text: json_string(o.got), value: Json::Text(o.got) },
        Member { name: "want"@, text: json_string(o.want), value: Json::Text(o.want) },
        Member { name: "slots"@, text: slots_json(o.actual, o.expected), value: slots_value(o.actual, o.expected) },
        Member { name: "dependencies"@, text: json_strings(o.dependencies), value: list_value(o.dependencies) },
        Member { name: "result"@, text: json_string(o.result), value: Json::Text(o.result) },
        Member { name: "diagnostic_id"@, text: json_option(o.diagnostic_id), value: text_or_null(o.diagnostic_id) },
    ];
    lemma_string_reads("obligation"@);
    lemma_string_reads(o.id);
    lemma_string_reads(o.module);
    lemma_string_reads(o.file);
    lemma_range_reads(o.range);
    lemma_string_reads(o.kind);
    lemma_string_reads(o.relation);
    lemma_string_reads(o.got);
    lemma_string_reads(o.want);
    lemma_slots_reads(o.actual, o.expected);
    lemma_list_reads(o.dependencies);
    lemma_string_reads(o.result);
    lemma_option_reads(o.diagnostic_id);
    lemma_names();
    lemma_object_reads(ms);
    assert(member_texts(ms) =~= o.members());
    assert(Json::Object(member_values(ms)) == obligation_value(o)) by {
        assert(member_values(ms) =~= seq![
            ("event"@, Json::Text("obligation"@)),
            ("id"@, Json::Text(o.id)),
            ("module"@, Json::Text(o.module)),
            ("file"@, Json::Text(o.file)),
            ("range"@, range_value(o.range)),
            ("kind"@, Json::Text(o.kind)),
            ("relation"@, Json::Text(o.relation)),
            ("got"@, Json::Text(o.got)),
            ("want"@, Json::Text(o.want)),
            ("slots"@, slots_value(o.actual, o.expected)),
            ("dependencies"@, list_value(o.dependencies)),
            ("result"@, Json::Text(o.result)),
            ("diagnostic_id"@, text_or_null(o.diagnostic_id)),
        ]);
    }
}

/// What a diagnostic reads as.
pub open spec fn diagnostic_value(d: Diagnostic) -> Json {
    Json::Object(
        seq![
            ("event"@, Json::Text("diagnostic"@)),
            ("id"@, Json::Text(d.id)),
            ("obligation"@, text_or_null(d.obligation)),
            ("error_kind"@, Json::Text(d.error_kind)),
            ("message"@, Json::Text(d.message)),
            ("file"@, Json::Text(d.file)),
            ("range"@, range_value(d.range)),
        ],
    )
}

proof fn lemma_diagnostic_reads(d: Diagnostic)
    ensures
        reads(object_text(d.members()), diagnostic_value(d)),
{
    let ms = seq![
        Member { name: "event"@, text: json_string("diagnostic"@), value: Json::Text("diagnostic"@) },
        Member { name: "id"@, text: json_string(d.id), value: Json::Text(d.id) },
        Member { name: "obligation"@, text: json_option(d.obligation), value: text_or_null(d.obligation) },
        Member { name: "error_kind"@, text: json_string(d.error_kind), value: Json::Text(d.error_kind) },
        Member { name: "message"@, text: json_string(d.message), value: Json::Text(d.message) },
        Member { name: "file"@, text: json_string(d.file), value: Json::Text(d.file) },
        Member { name: "range"@, text: d.range.json(), value: range_value(d.range) },
    ];
    lemma_string_reads("diagnostic"@);
    lemma_string_reads(d.id);
    lemma_option_reads(d.obligation);
    lemma_string_reads(d.error_kind);
    lemma_string_reads(d.message);
    lemma_string_reads(d.file);
    lemma_range_reads(d.range);
    lemma_names();
    lemma_object_reads(ms);
    assert(member_texts(ms) =~= d.members());
    assert(Json::Object(member_values(ms)) == diagnostic_value(d)) by {
        assert(member_values(ms) =~= seq![
            ("event"@, Json::Text("diagnostic"@)),
            ("id"@, Json::Text(d.id)),
            ("obligation"@, text_or_null(d.obligation)),
            ("error_kind"@, Json::Text(d.error_kind)),
            ("message"@, Json::Text(d.message)),
            ("file"@, Json::Text(d.file)),
            ("range"@, range_value(d.range)),
        ]);
    }
}

/// What an event reads as.
pub open spec fn event_value(e: Event) -> Json {
    match e {
        Event::Assumption(a) => assumption_value(a),
        Event::Obligation(o) => obligation_value(o),
        Event::Diagnostic(d) => diagnostic_value(d),
    }
}

/// The JSON of an event reads as an object with the fields of the event, under their names and in
/// their order.
pub proof fn law_event_reads_back(e: Event)
    ensures
        json_value(e.json()) == Some(event_value(e)),
{
    match e {
        Event::Assumption(a) => {
            lemma_assumption_reads(a);
            lemma_reads_alone(object_text(a.members()), assumption_value(a));
        },
        Event::Obligation(o) => {
            lemma_obligation_reads(o);
            lemma_reads_alone(object_text(o.members()), obligation_value(o));
        },
        Event::Diagnostic(d) => {
            lemma_diagnostic_reads(d);
            lemma_reads_alone(object_text(d.members()), diagnostic_value(d));
        },
    }
}

/// What is written for an assumption reads as its own fields.
pub proof fn law_assumption_reads_back(a: AssumptionEvent)
    ensures
        json_value(object_text(a@.members())) == Some(
            assumption_value(
                (Assumption {
                    id: a.id@,
                    module: a.module@,
                    file: a.file@,
                    range: a.range,
                    kind: a.kind@,
                    slot: a.slot@,
                    typ: a.typ@,
                    source_kind: a.source.kind@,
                    source_text: a.source.text@,
                    editable: a.editable,
                    weight: a.weight,
                }),
            ),
        ),
        TraceEvent::Assumption(a)@.json() == object_text(a@.members()),
{
    law_event_reads_back(Event::Assumption(a@));
}

/// What is written for an obligation reads as its own fields.
pub proof fn law_obligation_reads_back(o: ObligationEvent)
    ensures
        json_value(object_text(o@.members())) == Some(
            obligation_value(
                (Obligation {
                    id: o.id@,
                    module: o.module@,
                    file: o.file@,
                    range: o.range,
                    kind: o.kind@,
                    relation: o.relation@,
                    got: o.got@,
                    want: o.want@,
                    actual: o.slots.actual@,
                    expected: o.slots.expected@,
                    dependencies: Seq::new(o.dependencies@.len(), |i: int| o.dependencies@[i]@),
                    result: o.result@,
                    diagnostic_id: match o.diagnostic_id {
                        Some(id) => Some(id@),
                        None => None,
                    },
                }),
            ),
        ),
        TraceEvent::Obligation(o)@.json() == object_text(o@.members()),
{
    law_event_reads_back(Event::Obligation(o@));
    assert(o@.dependencies =~= Seq::new(o.dependencies@.len(), |i: int| o.dependencies@[i]@));
}

/// What is written for a diagnostic reads as its own fields.
pub proof fn law_diagnostic_reads_back(d: DiagnosticEvent)
    ensures
        json_value(object_text(d@.members())) == Some(
            diagnostic_value(
                (Diagnostic {
                    id: d.id@,
                    obligation: match d.obligation {
                        Some(id) => Some(id@),
                        None => None,
                    },
                    error_kind: d.error_kind@,
                    message: d.message@,
                    file: d.file@,
                    range: d.range,
                }),
            ),
        ),
        TraceEvent::Diagnostic(d)@.json() == object_text(d@.members()),
{
    law_event_reads_back(Event::Diagnostic(d@));
}

/// What is written for a range, a source or a pair of slots reads as its own fields.
pub proof fn law_parts_read_back(r: TraceRange, source: TraceSource, slots: ObligationSlots)
    ensures
        json_value(r.json()) == Some(range_value(r)),
        json_value(source_json(source.kind@, source.text@)) == Some(
            source_value(source.kind@, source.text@),
        ),
        json_value(slots_json(slots.actual@, slots.expected@)) == Some(
            slots_value(slots.actual@, slots.expected@),
        ),
{
    lemma_range_reads(r);
    lemma_reads_alone(r.json(), range_value(r));
    lemma_source_reads(source.kind@, source.text@);
    lemma_reads_alone(
        source_json(source.kind@, source.text@),
        source_value(source.kind@, source.text@),
    );
    lemma_slots_reads(slots.actual@, slots.expected@);
    lemma_reads_alone(
        slots_json(slots.actual@, slots.expected@),
        slots_value(slots.actual@, slots.expected@),
    );
}

/// What is written for a string, an optional string, a truth value, a number or a list of strings
/// reads as that.
pub proof fn law_values_read_back(
    s: Seq<char>,
    option: Option<String>,
    b: bool,
    n: nat,
    items: Seq<String>,
)
    ensures
        json_value(json_string(s)) == Some(Json::Text(s)),
        json_value(json_option(option_text(option))) == Some(
            match option {
                Some(t) => Json::Text(t@),
                None => Json::Null,
            },
        ),
        json_value(json_boolean(b)) == Some(Json::Bool(b)),
        json_value(decimal(n)) == Some(Json::Number(n)),
        json_value(json_strings(texts(items))) == Some(
            Json::List(Seq::new(items.len(), |i: int| Json::Text(items[i]@))),
        ),
{
    lemma_string_reads(s);
    lemma_reads_alone(json_string(s), Json::Text(s));
    lemma_option_reads(option_text(option));
    lemma_reads_alone(json_option(option_text(option)), text_or_null(option_text(option)));
    lemma_boolean_reads(b);
    lemma_reads_alone(json_boolean(b), Json::Bool(b));
    lemma_number_reads(n);
    lemma_reads_alone(decimal(n), Json::Number(n));
    lemma_list_reads(texts(items));
    lemma_reads_alone(json_strings(texts(items)), list_value(texts(items)));
    assert(texts(items).map_values(|s: Seq<char>| Json::Text(s)) =~= Seq::new(
        items.len(),
        |i: int| Json::Text(items[i]@),
    ));
}

/// Strings are escaped no more than JSON demands, and a character at a time: the string for two
/// texts in a row is the strings for the two, run together, and a character other than a quote, a
/// backslash (code points 34 and 92) and those below 32 stands for itself. Quotes and backslashes
/// get a backslash before them; 8, 9, 10, 12 and 13 become a letter behind a backslash; the others
/// become their code point in four hexadecimal digits, of which the last is lower case.
pub proof fn law_strings_are_escaped_by_character(a: Seq<char>, b: Seq<char>, c: char)
    ensures
        json_string(a + b) == json_string(a).drop_last() + json_string(b).drop_first(),
        json_string(seq![]) == seq!['"', '"'],
        ({
            let n = c as int;
            let s = json_string(seq![c]);
            &&& n >= 32 && n != 34 && n != 92 ==> s == seq!['"', c, '"']
            &&& n == 34 || n == 92 ==> s == seq!['"', '\\', c, '"']
            &&& n == 8 ==> s == seq!['"', '\\', 'b', '"']
            &&& n == 9 ==> s == seq!['"', '\\', 't', '"']
            &&& n == 10 ==> s == seq!['"', '\\', 'n', '"']
            &&& n == 12 ==> s == seq!['"', '\\', 'f', '"']
            &&& n == 13 ==> s == seq!['"', '\\', 'r', '"']
            &&& n < 32 && !(8 <= n <= 10) && !(12 <= n <= 13) ==> {
                &&& s.len() == 8
                &&& s.take(6) == seq!['"', '\\', 'u', '0', '0', if n < 16 {
                    '0'
                } else {
                    '1'
                }]
                &&& hex_value(s[6]) == Some(n % 16)
                &&& !(65 <= s[6] as int <= 70)
                &&& s[7] == '"'
            }
        }),
{
    lemma_escaped_append(a, b);
    assert(json_string(a + b) =~= json_string(a).drop_last() + json_string(b).drop_first());
    assert(json_string(seq![]) =~= seq!['"', '"']);
    let one = seq![c];
    lemma_code_point(c);
    assert(one.drop_first() =~= seq![]);
    assert(escaped_all(one.drop_first()) =~= seq![]);
    assert(escaped_all(one) =~= escaped(c));
    let s = json_string(one);
    assert(s =~= seq!['"'] + escaped(c) + seq!['"']);
    if escaped(c).len() == 6 {
        assert(s.take(6) =~= seq!['"', '\\', 'u', '0', '0', escaped(c)[4]]);
    }
}

proof fn lemma_escaped_append(a: Seq<char>, b: Seq<char>)
    ensures
        escaped_all(a + b) == escaped_all(a) + escaped_all(b),
    decreases a.len(),
{
    if a.len() == 0 {
        assert(a + b =~= b);
        assert(escaped_all(a) + escaped_all(b) =~= escaped_all(b));
    } else {
        lemma_escaped_append(a.drop_first(), b);
        assert((a + b).drop_first() =~= a.drop_first() + b);
        assert(escaped_all(a + b) =~= escaped_all(a) + escaped_all(b));
    }
}

/// Where the first line of a text ends.
pub open spec fn line_end(t: Seq<char>) -> nat
    decreases t.len(),
{
    if t.len() == 0 || t[0] as int == 10 {
        0
    } else {
        1 + line_end(t.skip(1))
    }
}

/// The lines of a text, without the line feed (code point 10) that ends each. What comes behind
/// the last line feed is not a line.
pub open spec fn split_lines(t: Seq<char>) -> Seq<Seq<char>>
    decreases t.len(),
{
    let n = line_end(t) as int;
    if n >= t.len() {
        seq![]
    } else {
        seq![t.take(n)] + split_lines(t.skip(n + 1))
    }
}

proof fn lemma_line_end(u: Seq<char>, x: Seq<char>)
    requires
        no_control(u),
    ensures
        line_end(u + (seq!['\n'] + x)) == u.len(),
    decreases u.len(),
{
    let t = u + (seq!['\n'] + x);
    reveal(no_control);
    if u.len() == 0 {
        assert(t[0] == '\n');
    } else {
        lemma_code_point(u[0]);
        assert(t[0] == u[0]);
        assert(u[0] as nat >= 0x20);
        assert(t.skip(1) =~= u.skip(1) + (seq!['\n'] + x));
        assert forall|i: int| 0 <= i < u.skip(1).len() implies (#[trigger] u.skip(1)[i]) as nat
            >= 0x20 by {
            assert(u[i + 1] as nat >= 0x20);
        }
        lemma_line_end(u.skip(1), x);
    }
}

proof fn lemma_lines_front(events: Seq<Event>)
    requires
        events.len() > 0,
    ensures
        lines(events) == events[0].json() + (seq!['\n'] + lines(events.drop_first())),
    decreases events.len(),
{
    let front = events.drop_last();
    let tail = events.drop_first();
    if events.len() == 1 {
        assert(front =~= seq![] && tail =~= seq![]);
        assert(lines(front) =~= seq![]);
        assert(lines(tail) =~= seq![]);
    } else {
        lemma_lines_front(front);
        assert(front.drop_first() =~= tail.drop_last());
        assert(tail.last() == events.last());
    }
    assert(lines(events) =~= events[0].json() + (seq!['\n'] + lines(tail)));
}

/// The lines of a trace are the JSON of its events, one line for each and in order, and each line
/// reads as its event.
pub proof fn law_trace_reads_back(events: Seq<Event>)
    ensures
        split_lines(lines(events)).len() == events.len(),
        forall|i: int|
            0 <= i < events.len() ==> {
                &&& #[trigger] split_lines(lines(events))[i] == events[i].json()
                &&& json_value(split_lines(lines(events))[i]) == Some(event_value(events[i]))
            },
        events.len() > 0 ==> lines(events).last() as int == 10,
    decreases events.len(),
{
    let t = lines(events);
    if events.len() > 0 {
        let tail = events.drop_first();
        let u = events[0].json();
        lemma_lines_front(events);
        law_event_is_one_line(events[0]);
        lemma_line_end(u, lines(tail));
        law_trace_reads_back(tail);
        law_event_reads_back(events[0]);
        assert(t.take(u.len() as int) =~= u);
        assert(t.skip(u.len() as int + 1) =~= lines(tail));
        assert(split_lines(t) =~= seq![u] + split_lines(lines(tail)));
        assert forall|i: int| 0 <= i < events.len() implies {
            &&& #[trigger] split_lines(t)[i] == events[i].json()
            &&& json_value(split_lines(t)[i]) == Some(event_value(events[i]))
        } by {
            if i > 0 {
                assert(split_lines(t)[i] == split_lines(lines(tail))[i - 1]);
                assert(tail[i - 1] == events[i]);
            }
        }
        if tail.len() == 0 {
            assert(lines(tail) =~= seq![]);
        }
        assert(t.last() as int == 10);
    }
}

} // verus!
