//! Reading an event back: its JSON determines it.

use vstd::prelude::*;
use crate::text::{decimal, lemma_decimal_injective, lemma_decimal_len};
use crate::slots::TraceRange;
use crate::events::{Assumption, Diagnostic, Event, Obligation};
use crate::json::{escaped, escaped_all, json_boolean, json_option, json_string};
use crate::json::{joined, json_strings, member_text, object_text};
use crate::json::{slots_json, source_json};

verus! {

/// Whether `x` goes on as a text goes on behind a JSON value.
spec fn delimited(x: Seq<char>) -> bool {
    x.len() > 0 && (x[0] == ',' || x[0] == '}' || x[0] == ']')
}

/// Whether `u` and `v`, each followed by a delimiter, can only agree where they are the same.
#[verifier::opaque]
spec fn separable(u: Seq<char>, v: Seq<char>) -> bool {
    forall|x: Seq<char>, y: Seq<char>|
        delimited(x) && delimited(y) && #[trigger] (u + x) == #[trigger] (v + y) ==> u == v
}

/// Equal concatenations with equally long heads have equal heads and equal tails.
pub proof fn lemma_split(u: Seq<char>, x: Seq<char>, v: Seq<char>, y: Seq<char>)
    requires
        u + x == v + y,
        u.len() == v.len(),
    ensures
        u == v,
        x == y,
{
    let n = u.len() as int;
    assert((u + x).take(n) =~= u);
    assert((v + y).take(n) =~= v);
    assert((u + x).skip(n) =~= x);
    assert((v + y).skip(n) =~= y);
}

/// No escape is the beginning of another.
proof fn lemma_escaped_prefix(c: char, d: char, x: Seq<char>, y: Seq<char>)
    requires
        escaped(c) + x == escaped(d) + y,
    ensures
        c == d,
{
    let l = escaped(c) + x;
    let r = escaped(d) + y;
    assert(l[0] == escaped(c)[0]);
    assert(r[0] == escaped(d)[0]);
    if escaped(c).len() >= 2 {
        assert(l[1] == escaped(c)[1]);
    }
    if escaped(d).len() >= 2 {
        assert(r[1] == escaped(d)[1]);
    }
    if escaped(c).len() == 6 && escaped(d).len() == 6 {
        assert(l[4] == escaped(c)[4] && l[5] == escaped(c)[5]);
        assert(r[4] == escaped(d)[4] && r[5] == escaped(d)[5]);
        assert(c as nat / 16 == d as nat / 16);
        assert(c as nat % 16 == d as nat % 16);
    }
}

/// A string is read up to its closing quote, whatever comes behind.
proof fn lemma_escaped_all_prefix(a: Seq<char>, b: Seq<char>, x: Seq<char>, y: Seq<char>)
    requires
        escaped_all(a) + (seq!['"'] + x) == escaped_all(b) + (seq!['"'] + y),
    ensures
        a == b,
    decreases a.len(),
{
    let l = escaped_all(a) + (seq!['"'] + x);
    let r = escaped_all(b) + (seq!['"'] + y);
    if a.len() == 0 {
        assert(l[0] == '"');
        if b.len() > 0 {
            assert(r[0] == escaped(b[0])[0]);
        }
        assert(a =~= b);
    } else if b.len() == 0 {
        assert(r[0] == '"');
        assert(l[0] == escaped(a[0])[0]);
    } else {
        let p = escaped_all(a.drop_first()) + (seq!['"'] + x);
        let q = escaped_all(b.drop_first()) + (seq!['"'] + y);
        assert(l =~= escaped(a[0]) + p);
        assert(r =~= escaped(b[0]) + q);
        lemma_escaped_prefix(a[0], b[0], p, q);
        lemma_split(escaped(a[0]), p, escaped(b[0]), q);
        lemma_escaped_all_prefix(a.drop_first(), b.drop_first(), x, y);
        assert(a =~= seq![a[0]] + a.drop_first());
        assert(b =~= seq![b[0]] + b.drop_first());
    }
}

/// A JSON string is read up to its closing quote, whatever comes behind.
proof fn lemma_json_string_prefix(a: Seq<char>, b: Seq<char>, x: Seq<char>, y: Seq<char>)
    requires
        json_string(a) + x == json_string(b) + y,
    ensures
        a == b,
{
    let p = escaped_all(a) + (seq!['"'] + x);
    let q = escaped_all(b) + (seq!['"'] + y);
    assert(json_string(a) + x =~= seq!['"'] + p);
    assert(json_string(b) + y =~= seq!['"'] + q);
    lemma_split(seq!['"'], p, seq!['"'], q);
    lemma_escaped_all_prefix(a, b, x, y);
}

/// No two strings share a JSON string.
proof fn lemma_json_string_injective(a: Seq<char>, b: Seq<char>)
    ensures
        json_string(a) == json_string(b) ==> a == b,
{
    if json_string(a) == json_string(b) {
        lemma_json_string_prefix(a, b, seq![], seq![]);
    }
}

proof fn lemma_strings_separable(a: Seq<char>, b: Seq<char>)
    ensures
        separable(json_string(a), json_string(b)),
{
    reveal(separable);
    assert forall|x: Seq<char>, y: Seq<char>|
        delimited(x) && delimited(y) && #[trigger] (json_string(a) + x) == #[trigger] (json_string(
            b,
        ) + y) implies json_string(a) == json_string(b) by {
        lemma_json_string_prefix(a, b, x, y);
    }
}

/// Whether a text has no delimiter in it.
spec fn plain(u: Seq<char>) -> bool {
    forall|i: int| 0 <= i < u.len() ==> !delimited(seq![#[trigger] u[i]])
}

proof fn lemma_plain_separable(u: Seq<char>, v: Seq<char>)
    requires
        plain(u),
        plain(v),
    ensures
        separable(u, v),
{
    reveal(separable);
    assert forall|x: Seq<char>, y: Seq<char>|
        delimited(x) && delimited(y) && #[trigger] (u + x) == #[trigger] (v + y) implies u == v by {
        let l = u + x;
        let r = v + y;
        if u.len() < v.len() {
            assert(l[u.len() as int] == x[0]);
            assert(r[u.len() as int] == v[u.len() as int]);
            assert(!delimited(seq![v[u.len() as int]]));
        } else if v.len() < u.len() {
            assert(r[v.len() as int] == y[0]);
            assert(l[v.len() as int] == u[v.len() as int]);
            assert(!delimited(seq![u[v.len() as int]]));
        } else {
            lemma_split(u, x, v, y);
        }
    }
}

proof fn lemma_decimals_separable(m: nat, n: nat)
    ensures
        separable(decimal(m), decimal(n)),
        decimal(m) == decimal(n) ==> m == n,
{
    lemma_decimal_len(m);
    lemma_decimal_len(n);
    lemma_plain_separable(decimal(m), decimal(n));
    if decimal(m) == decimal(n) {
        lemma_decimal_injective(m, n);
    }
}

proof fn lemma_booleans_separable(a: bool, b: bool)
    ensures
        separable(json_boolean(a), json_boolean(b)),
        json_boolean(a) == json_boolean(b) ==> a == b,
{
    reveal_strlit("true");
    reveal_strlit("false");
    assert("true"@.len() != "false"@.len());
    lemma_plain_separable(json_boolean(a), json_boolean(b));
}

proof fn lemma_options_separable(a: Option<Seq<char>>, b: Option<Seq<char>>)
    ensures
        separable(json_option(a), json_option(b)),
        json_option(a) == json_option(b) ==> a == b,
{
    reveal(separable);
    reveal_strlit("null");
    if a is Some && b is Some {
        lemma_strings_separable(a->0, b->0);
        lemma_json_string_injective(a->0, b->0);
    } else {
        assert forall|x: Seq<char>, y: Seq<char>|
            delimited(x) && delimited(y) && #[trigger] (json_option(a) + x)
                == #[trigger] (json_option(b) + y) implies json_option(a) == json_option(b) by {
            assert((json_option(a) + x)[0] == json_option(a)[0]);
            assert((json_option(b) + y)[0] == json_option(b)[0]);
        }
        if json_option(a) == json_option(b) {
            assert(json_option(a)[0] == json_option(b)[0]);
        }
    }
}

/// Lists of equally many texts are read off their concatenation.
proof fn lemma_joined_prefix(us: Seq<Seq<char>>, vs: Seq<Seq<char>>, x: Seq<char>, y: Seq<char>)
    requires
        us.len() == vs.len(),
        forall|i: int| 0 <= i < us.len() ==> separable(#[trigger] us[i], vs[i]),
        delimited(x),
        delimited(y),
        joined(us) + x == joined(vs) + y,
    ensures
        us == vs,
    decreases us.len(),
{
    reveal(separable);
    if us.len() == 0 {
        assert(us =~= vs);
    } else if us.len() == 1 {
        assert(us[0] + x == vs[0] + y);
        assert(us =~= vs);
    } else {
        let p = joined(us.drop_first()) + x;
        let q = joined(vs.drop_first()) + y;
        assert(joined(us) + x =~= us[0] + (seq![','] + p));
        assert(joined(vs) + y =~= vs[0] + (seq![','] + q));
        assert(separable(us[0], vs[0]));
        lemma_split(us[0], seq![','] + p, vs[0], seq![','] + q);
        lemma_split(seq![','], p, seq![','], q);
        assert forall|i: int| 0 <= i < us.len() - 1 implies separable(
            #[trigger] us.drop_first()[i],
            vs.drop_first()[i],
        ) by {
            assert(separable(us[i + 1], vs[i + 1]));
        }
        lemma_joined_prefix(us.drop_first(), vs.drop_first(), x, y);
        assert(us =~= seq![us[0]] + us.drop_first());
        assert(vs =~= seq![vs[0]] + vs.drop_first());
    }
}

/// Objects with equally many members are read off their text.
proof fn lemma_objects_prefix(us: Seq<Seq<char>>, vs: Seq<Seq<char>>, x: Seq<char>, y: Seq<char>)
    requires
        us.len() == vs.len(),
        forall|i: int| 0 <= i < us.len() ==> separable(#[trigger] us[i], vs[i]),
        object_text(us) + x == object_text(vs) + y,
    ensures
        us == vs,
{
    let p = joined(us) + (seq!['}'] + x);
    let q = joined(vs) + (seq!['}'] + y);
    assert(object_text(us) + x =~= seq!['{'] + p);
    assert(object_text(vs) + y =~= seq!['{'] + q);
    lemma_split(seq!['{'], p, seq!['{'], q);
    lemma_joined_prefix(us, vs, seq!['}'] + x, seq!['}'] + y);
}

proof fn lemma_objects_separable(us: Seq<Seq<char>>, vs: Seq<Seq<char>>)
    requires
        us.len() == vs.len(),
        forall|i: int| 0 <= i < us.len() ==> separable(#[trigger] us[i], vs[i]),
    ensures
        separable(object_text(us), object_text(vs)),
        object_text(us) == object_text(vs) ==> us == vs,
{
    reveal(separable);
    assert forall|x: Seq<char>, y: Seq<char>|
        delimited(x) && delimited(y) && #[trigger] (object_text(us) + x)
            == #[trigger] (object_text(vs) + y) implies object_text(us) == object_text(vs) by {
        lemma_objects_prefix(us, vs, x, y);
    }
    if object_text(us) == object_text(vs) {
        lemma_objects_prefix(us, vs, seq![], seq![]);
    }
}

proof fn lemma_members_separable(name: Seq<char>, u: Seq<char>, v: Seq<char>)
    requires
        separable(u, v),
    ensures
        separable(member_text(name, u), member_text(name, v)),
        member_text(name, u) == member_text(name, v) ==> u == v,
{
    reveal(separable);
    let head = seq!['"'] + name + seq!['"', ':'];
    assert forall|x: Seq<char>, y: Seq<char>|
        delimited(x) && delimited(y) && #[trigger] (member_text(name, u) + x)
            == #[trigger] (member_text(name, v) + y) implies member_text(name, u) == member_text(
        name,
        v,
    ) by {
        assert(member_text(name, u) + x =~= head + (u + x));
        assert(member_text(name, v) + y =~= head + (v + y));
        lemma_split(head, u + x, head, v + y);
    }
    if member_text(name, u) == member_text(name, v) {
        lemma_split(head, u, head, v);
    }
}

/// The strings of a list are read off its text.
proof fn lemma_joined_strings_prefix(
    a: Seq<Seq<char>>,
    b: Seq<Seq<char>>,
    x: Seq<char>,
    y: Seq<char>,
)
    requires
        a.len() > 0,
        b.len() > 0,
        joined(a.map_values(|s: Seq<char>| json_string(s))) + (seq![']'] + x) == joined(
            b.map_values(|s: Seq<char>| json_string(s)),
        ) + (seq![']'] + y),
    ensures
        a == b,
    decreases a.len(),
{
    let f = |s: Seq<char>| json_string(s);
    let us = a.map_values(f);
    let vs = b.map_values(f);
    let l = joined(us) + (seq![']'] + x);
    let r = joined(vs) + (seq![']'] + y);
    let p = if a.len() == 1 {
        seq![']'] + x
    } else {
        seq![','] + (joined(us.drop_first()) + (seq![']'] + x))
    };
    let q = if b.len() == 1 {
        seq![']'] + y
    } else {
        seq![','] + (joined(vs.drop_first()) + (seq![']'] + y))
    };
    assert(l =~= json_string(a[0]) + p);
    assert(r =~= json_string(b[0]) + q);
    lemma_json_string_prefix(a[0], b[0], p, q);
    lemma_split(json_string(a[0]), p, json_string(b[0]), q);
    assert(p[0] == q[0]);
    if a.len() > 1 {
        assert(b.len() > 1);
        lemma_split(
            seq![','],
            joined(us.drop_first()) + (seq![']'] + x),
            seq![','],
            joined(vs.drop_first()) + (seq![']'] + y),
        );
        assert(us.drop_first() =~= a.drop_first().map_values(f));
        assert(vs.drop_first() =~= b.drop_first().map_values(f));
        lemma_joined_strings_prefix(a.drop_first(), b.drop_first(), x, y);
        assert(a =~= seq![a[0]] + a.drop_first());
        assert(b =~= seq![b[0]] + b.drop_first());
    } else {
        assert(a =~= b);
    }
}

proof fn lemma_string_lists_prefix(
    a: Seq<Seq<char>>,
    b: Seq<Seq<char>>,
    x: Seq<char>,
    y: Seq<char>,
)
    requires
        json_strings(a) + x == json_strings(b) + y,
    ensures
        a == b,
{
    let f = |s: Seq<char>| json_string(s);
    let p = joined(a.map_values(f)) + (seq![']'] + x);
    let q = joined(b.map_values(f)) + (seq![']'] + y);
    assert(json_strings(a) + x =~= seq!['['] + p);
    assert(json_strings(b) + y =~= seq!['['] + q);
    lemma_split(seq!['['], p, seq!['['], q);
    assert(a.len() == 0 ==> p[0] == ']');
    assert(b.len() == 0 ==> q[0] == ']');
    assert(a.len() > 0 ==> a.map_values(f)[0] == json_string(a[0]) && p[0] == '"');
    assert(b.len() > 0 ==> b.map_values(f)[0] == json_string(b[0]) && q[0] == '"');
    if a.len() > 0 && b.len() > 0 {
        lemma_joined_strings_prefix(a, b, x, y);
    } else {
        assert(a =~= b);
    }
}

proof fn lemma_string_lists_separable(a: Seq<Seq<char>>, b: Seq<Seq<char>>)
    ensures
        separable(json_strings(a), json_strings(b)),
        json_strings(a) == json_strings(b) ==> a == b,
{
    reveal(separable);
    assert forall|x: Seq<char>, y: Seq<char>|
        delimited(x) && delimited(y) && #[trigger] (json_strings(a) + x)
            == #[trigger] (json_strings(b) + y) implies json_strings(a) == json_strings(b) by {
        lemma_string_lists_prefix(a, b, x, y);
    }
    if json_strings(a) == json_strings(b) {
        lemma_string_lists_prefix(a, b, seq![], seq![]);
    }
}

/// Members with the same name and string values.
proof fn lemma_string_member(name: Seq<char>, a: Seq<char>, b: Seq<char>)
    ensures
        separable(member_text(name, json_string(a)), member_text(name, json_string(b))),
        member_text(name, json_string(a)) == member_text(name, json_string(b)) ==> a == b,
{
    lemma_strings_separable(a, b);
    lemma_members_separable(name, json_string(a), json_string(b));
    lemma_json_string_injective(a, b);
}

/// Members with the same name and numbers as values.
proof fn lemma_number_member(name: Seq<char>, m: u32, n: u32)
    ensures
        separable(member_text(name, decimal(m as nat)), member_text(name, decimal(n as nat))),
        member_text(name, decimal(m as nat)) == member_text(name, decimal(n as nat)) ==> m == n,
{
    lemma_decimals_separable(m as nat, n as nat);
    lemma_members_separable(name, decimal(m as nat), decimal(n as nat));
}

/// Members with the same name and string values that may be absent.
proof fn lemma_option_member(name: Seq<char>, a: Option<Seq<char>>, b: Option<Seq<char>>)
    ensures
        separable(member_text(name, json_option(a)), member_text(name, json_option(b))),
        member_text(name, json_option(a)) == member_text(name, json_option(b)) ==> a == b,
{
    lemma_options_separable(a, b);
    lemma_members_separable(name, json_option(a), json_option(b));
}

/// Ranges are read off their text.
proof fn lemma_ranges(a: TraceRange, b: TraceRange)
    ensures
        separable(a.json(), b.json()),
        a.json() == b.json() ==> a == b,
{
    lemma_number_member("start_line"@, a.start_line, b.start_line);
    lemma_number_member("start_col"@, a.start_col, b.start_col);
    lemma_number_member("end_line"@, a.end_line, b.end_line);
    lemma_number_member("end_col"@, a.end_col, b.end_col);
    let us = a.members();
    let vs = b.members();
    lemma_objects_separable(us, vs);
    if us == vs {
        assert(us[0] == vs[0] && us[1] == vs[1] && us[2] == vs[2] && us[3] == vs[3]);
    }
}

/// Members with the same name and ranges as values.
proof fn lemma_range_member(name: Seq<char>, a: TraceRange, b: TraceRange)
    ensures
        separable(member_text(name, a.json()), member_text(name, b.json())),
        member_text(name, a.json()) == member_text(name, b.json()) ==> a == b,
{
    lemma_ranges(a, b);
    lemma_members_separable(name, a.json(), b.json());
}

/// Sources are read off their text.
proof fn lemma_sources(kind: Seq<char>, text: Seq<char>, other_kind: Seq<char>, other: Seq<char>)
    ensures
        separable(source_json(kind, text), source_json(other_kind, other)),
        source_json(kind, text) == source_json(other_kind, other) ==> kind == other_kind && text
            == other,
{
    lemma_string_member("kind"@, kind, other_kind);
    lemma_string_member("text"@, text, other);
    let us = seq![
        member_text("kind"@, json_string(kind)),
        member_text("text"@, json_string(text)),
    ];
    let vs = seq![
        member_text("kind"@, json_string(other_kind)),
        member_text("text"@, json_string(other)),
    ];
    lemma_objects_separable(us, vs);
    if us == vs {
        assert(us[0] == vs[0] && us[1] == vs[1]);
    }
}

/// Pairs of slots are read off their text.
proof fn lemma_slots(
    actual: Seq<char>,
    expected: Seq<char>,
    other_actual: Seq<char>,
    other: Seq<char>,
)
    ensures
        separable(slots_json(actual, expected), slots_json(other_actual, other)),
        slots_json(actual, expected) == slots_json(other_actual, other) ==> actual == other_actual
            && expected == other,
{
    lemma_string_member("actual"@, actual, other_actual);
    lemma_string_member("expected"@, expected, other);
    let us = seq![
        member_text("actual"@, json_string(actual)),
        member_text("expected"@, json_string(expected)),
    ];
    let vs = seq![
        member_text("actual"@, json_string(other_actual)),
        member_text("expected"@, json_string(other)),
    ];
    lemma_objects_separable(us, vs);
    if us == vs {
        assert(us[0] == vs[0] && us[1] == vs[1]);
    }
}

proof fn lemma_assumptions(a: Assumption, b: Assumption)
    requires
        object_text(a.members()) == object_text(b.members()),
    ensures
        a == b,
{
    let us = a.members();
    let vs = b.members();
    lemma_string_member("event"@, "assumption"@, "assumption"@);
    lemma_string_member("id"@, a.id, b.id);
    lemma_string_member("module"@, a.module, b.module);
    lemma_string_member("file"@, a.file, b.file);
    lemma_range_member("range"@, a.range, b.range);
    lemma_string_member("kind"@, a.kind, b.kind);
    lemma_string_member("slot"@, a.slot, b.slot);
    lemma_string_member("type"@, a.typ, b.typ);
    lemma_sources(a.source_kind, a.source_text, b.source_kind, b.source_text);
    lemma_members_separable(
        "source"@,
        source_json(a.source_kind, a.source_text),
        source_json(b.source_kind, b.source_text),
    );
    lemma_booleans_separable(a.editable, b.editable);
    lemma_members_separable("editable"@, json_boolean(a.editable), json_boolean(b.editable));
    lemma_number_member("weight"@, a.weight, b.weight);
    lemma_objects_separable(us, vs);
    assert(us[1] == vs[1] && us[2] == vs[2] && us[3] == vs[3] && us[4] == vs[4] && us[5] == vs[5]);
    assert(us[6] == vs[6] && us[7] == vs[7] && us[8] == vs[8] && us[9] == vs[9] && us[10]
        == vs[10]);
    assert(a =~= b);
}

proof fn lemma_obligations(a: Obligation, b: Obligation)
    requires
        object_text(a.members()) == object_text(b.members()),
    ensures
        a == b,
{
    let us = a.members();
    let vs = b.members();
    lemma_string_member("event"@, "obligation"@, "obligation"@);
    lemma_string_member("id"@, a.id, b.id);
    lemma_string_member("module"@, a.module, b.module);
    lemma_string_member("file"@, a.file, b.file);
    lemma_range_member("range"@, a.range, b.range);
    lemma_string_member("kind"@, a.kind, b.kind);
    lemma_string_member("relation"@, a.relation, b.relation);
    lemma_string_member("got"@, a.got, b.got);
    lemma_string_member("want"@, a.want, b.want);
    lemma_slots(a.actual, a.expected, b.actual, b.expected);
    lemma_members_separable(
        "slots"@,
        slots_json(a.actual, a.expected),
        slots_json(b.actual, b.expected),
    );
    lemma_string_lists_separable(a.dependencies, b.dependencies);
    lemma_members_separable(
        "dependencies"@,
        json_strings(a.dependencies),
        json_strings(b.dependencies),
    );
    lemma_string_member("result"@, a.result, b.result);
    lemma_option_member("diagnostic_id"@, a.diagnostic_id, b.diagnostic_id);
    lemma_objects_separable(us, vs);
    assert(us[1] == vs[1] && us[2] == vs[2] && us[3] == vs[3] && us[4] == vs[4] && us[5] == vs[5]);
    assert(us[6] == vs[6] && us[7] == vs[7] && us[8] == vs[8] && us[9] == vs[9] && us[10]
        == vs[10]);
    assert(us[11] == vs[11] && us[12] == vs[12]);
    assert(a =~= b);
}

proof fn lemma_diagnostics(a: Diagnostic, b: Diagnostic)
    requires
        object_text(a.members()) == object_text(b.members()),
    ensures
        a == b,
{
    let us = a.members();
    let vs = b.members();
    lemma_string_member("event"@, "diagnostic"@, "diagnostic"@);
    lemma_string_member("id"@, a.id, b.id);
    lemma_option_member("obligation"@, a.obligation, b.obligation);
    lemma_string_member("error_kind"@, a.error_kind, b.error_kind);
    lemma_string_member("message"@, a.message, b.message);
    lemma_string_member("file"@, a.file, b.file);
    lemma_range_member("range"@, a.range, b.range);
    lemma_objects_separable(us, vs);
    assert(us[1] == vs[1] && us[2] == vs[2] && us[3] == vs[3] && us[4] == vs[4] && us[5] == vs[5]);
    assert(us[6] == vs[6]);
    assert(a =~= b);
}

/// The name of an event's kind.
spec fn tag(e: Event) -> Seq<char> {
    match e {
        Event::Assumption(_) => "assumption"@,
        Event::Obligation(_) => "obligation"@,
        Event::Diagnostic(_) => "diagnostic"@,
    }
}

/// What comes behind the first member of an object.
proof fn lemma_first_member(us: Seq<Seq<char>>) -> (rest: Seq<char>)
    requires
        us.len() > 1,
    ensures
        object_text(us) == seq!['{'] + (us[0] + rest),
        delimited(rest),
{
    let rest = seq![','] + joined(us.drop_first()) + seq!['}'];
    assert(object_text(us) =~= seq!['{'] + (us[0] + rest));
    rest
}

/// What comes behind the first member of an event, which names its kind.
proof fn lemma_tag_first(e: Event) -> (rest: Seq<char>)
    ensures
        e.json() == seq!['{'] + (member_text("event"@, json_string(tag(e))) + rest),
        delimited(rest),
{
    match e {
        Event::Assumption(a) => lemma_first_member(a.members()),
        Event::Obligation(o) => lemma_first_member(o.members()),
        Event::Diagnostic(d) => lemma_first_member(d.members()),
    }
}

/// Texts that agree up to a delimiter are the same.
proof fn lemma_separate(u: Seq<char>, x: Seq<char>, v: Seq<char>, y: Seq<char>)
    requires
        separable(u, v),
        delimited(x),
        delimited(y),
        u + x == v + y,
    ensures
        u == v,
{
    reveal(separable);
}

proof fn lemma_tags(a: Event, b: Event)
    requires
        a.json() == b.json(),
    ensures
        tag(a) == tag(b),
{
    let p = lemma_tag_first(a);
    let q = lemma_tag_first(b);
    let u = member_text("event"@, json_string(tag(a)));
    let v = member_text("event"@, json_string(tag(b)));
    lemma_split(seq!['{'], u + p, seq!['{'], v + q);
    lemma_string_member("event"@, tag(a), tag(b));
    lemma_separate(u, p, v, q);
}

/// The JSON of an event determines the event: nothing that was recorded is lost.
pub proof fn law_json_determines_event(a: Event, b: Event)
    requires
        a.json() == b.json(),
    ensures
        a == b,
{
    lemma_tags(a, b);
    reveal_strlit("assumption");
    reveal_strlit("obligation");
    reveal_strlit("diagnostic");
    assert("assumption"@[0] == 'a' && "obligation"@[0] == 'o' && "diagnostic"@[0] == 'd');
    match (a, b) {
        (Event::Assumption(x), Event::Assumption(y)) => lemma_assumptions(x, y),
        (Event::Obligation(x), Event::Obligation(y)) => lemma_obligations(x, y),
        (Event::Diagnostic(x), Event::Diagnostic(y)) => lemma_diagnostics(x, y),
        _ => {
            assert(tag(a)[0] != tag(b)[0]);
        },
    }
}

} // verus!
