//! What holds of slots and of a trace as a whole.

use vstd::prelude::*;
use vstd::arithmetic::div_mod::{lemma_add_mod_noop_right, lemma_small_mod, lemma_sub_mod_noop};
use crate::text::{decimal, lemma_decimal_injective};
use crate::slots::{DisplayRange, Module, TypeCheckKind};
use crate::slots::{actual_text, expected_text, is_slot_char, kind_text, sanitized, slot_chars};
use crate::slots::{trim_end, trim_start};
use crate::events::Event;
use crate::json::lines;
use crate::trace::{following, identifier, Check, Request, TraceState};

verus! {

/// Whether every character of `s` may stand in a slot.
pub open spec fn all_slot_chars(s: Seq<char>) -> bool {
    forall|i: int| 0 <= i < s.len() ==> is_slot_char(#[trigger] s[i])
}

/// Whether `s` neither begins nor ends with an underscore.
pub open spec fn no_outer_underscore(s: Seq<char>) -> bool {
    s.len() > 0 ==> s.first() != '_' && s.last() != '_'
}

proof fn lemma_trim_end(s: Seq<char>)
    ensures
        trim_end(s).len() <= s.len(),
        trim_end(s) == s.take(trim_end(s).len() as int),
        trim_end(s).len() > 0 ==> trim_end(s).last() != '_',
    decreases s.len(),
{
    if s.len() > 0 && s.last() == '_' {
        lemma_trim_end(s.drop_last());
        assert(trim_end(s) =~= s.take(trim_end(s).len() as int));
    } else {
        assert(s.take(s.len() as int) =~= s);
    }
}

proof fn lemma_trim_start(s: Seq<char>)
    ensures
        trim_start(s).len() <= s.len(),
        trim_start(s) == s.skip(s.len() - trim_start(s).len()),
        trim_start(s).len() > 0 ==> trim_start(s).first() != '_',
    decreases s.len(),
{
    if s.len() > 0 && s.first() == '_' {
        lemma_trim_start(s.drop_first());
        assert(trim_start(s) =~= s.skip(s.len() - trim_start(s).len()));
    } else {
        assert(s.skip(0) =~= s);
    }
}

/// A part of a slot has only slot characters, no underscore at either end, and at most the length
/// of what it was made from.
pub proof fn law_sanitized_shape(s: Seq<char>)
    ensures
        all_slot_chars(sanitized(s)),
        no_outer_underscore(sanitized(s)),
        sanitized(s).len() <= s.len(),
{
    let mapped = slot_chars(s);
    let ended = trim_end(mapped);
    lemma_trim_end(mapped);
    lemma_trim_start(ended);
    let r = sanitized(s);
    if r.len() > 0 {
        assert(r.last() == ended.last());
    }
}

/// What is already fit to be a part of a slot stays as it is.
pub proof fn law_sanitize_keeps_clean(s: Seq<char>)
    requires
        all_slot_chars(s),
        no_outer_underscore(s),
    ensures
        sanitized(s) == s,
{
    assert(slot_chars(s) =~= s);
}

/// Making a text fit to be a part of a slot twice is the same as doing so once.
pub proof fn law_sanitize_idempotent(s: Seq<char>)
    ensures
        sanitized(sanitized(s)) == sanitized(s),
{
    law_sanitized_shape(s);
    law_sanitize_keeps_clean(sanitized(s));
}

/// The slots that a kind of check gives to the type that was found and to the type that was asked
/// for are never the same.
pub proof fn law_slots_differ(module: Module, loc: DisplayRange, kind: TypeCheckKind)
    ensures
        actual_text(module, loc, kind) != expected_text(module, loc, kind),
{
    reveal_strlit("call:");
    reveal_strlit("function:");
    reveal_strlit("return:");
    reveal_strlit(":value");
    reveal_strlit(":annotation");
    reveal_strlit(":actual");
    reveal_strlit(":expected");
    let a = actual_text(module, loc, kind);
    let e = expected_text(module, loc, kind);
    match kind {
        TypeCheckKind::CallArgument(..)
        | TypeCheckKind::CallVarArgs(..)
        | TypeCheckKind::CallKwArgs(..)
        | TypeCheckKind::CallUnpackKwArg(..) => {
            assert(a[0] == 'c' && e[0] == 'f');
        },
        TypeCheckKind::AnnotatedName(_)
        | TypeCheckKind::Attribute(_)
        | TypeCheckKind::AnnAssign => {
            assert(a.last() == 'e' && e.last() == 'n');
        },
        TypeCheckKind::ExplicitFunctionReturn
        | TypeCheckKind::ImplicitFunctionReturn
        | TypeCheckKind::MagicMethodReturn
        | TypeCheckKind::TypeGuardReturn => {
            assert(a[0] == 'r' && e[0] == 'f');
        },
        TypeCheckKind::UnpackedAssign | TypeCheckKind::Container | TypeCheckKind::Other => {
            assert(a.last() == 'l' && e.last() == 'd');
        },
    }
}

/// A check belongs to the returns exactly if the slot of the type that was found is that of a
/// returned expression, and to the calls exactly if it is that of an argument.
pub proof fn law_kind_matches_slot(module: Module, loc: DisplayRange, kind: TypeCheckKind)
    ensures
        kind_text(kind) == "return"@ <==> "return:"@.is_prefix_of(actual_text(module, loc, kind)),
        kind_text(kind) == "call_argument"@ <==> "call:"@.is_prefix_of(
            actual_text(module, loc, kind),
        ),
{
    reveal_strlit("return");
    reveal_strlit("call_argument");
    reveal_strlit("assignment");
    reveal_strlit("container_element");
    reveal_strlit("assignability");
    reveal_strlit("return:");
    reveal_strlit("call:");
    reveal_strlit("local:");
    reveal_strlit("attribute:");
    reveal_strlit("assignment:");
    reveal_strlit("expr:");
    let a = actual_text(module, loc, kind);
    let k = kind_text(kind);
    if "return:"@.is_prefix_of(a) {
        assert("return:"@[0] == a.subrange(0, 7)[0]);
    }
    if "call:"@.is_prefix_of(a) {
        assert("call:"@[0] == a.subrange(0, 5)[0]);
    }
    assert("return"@[0] == 'r' && "call_argument"@[0] == 'c' && "call_argument"@[1] == 'a');
    match kind {
        TypeCheckKind::CallArgument(..)
        | TypeCheckKind::CallVarArgs(..)
        | TypeCheckKind::CallKwArgs(..)
        | TypeCheckKind::CallUnpackKwArg(..) => {
            assert(a.subrange(0, 5) =~= "call:"@);
            assert(k[0] == 'c');
        },
        TypeCheckKind::ExplicitFunctionReturn
        | TypeCheckKind::ImplicitFunctionReturn
        | TypeCheckKind::MagicMethodReturn
        | TypeCheckKind::TypeGuardReturn => {
            assert(a.subrange(0, 7) =~= "return:"@);
            assert(k[0] == 'r');
        },
        _ => {
            assert(a[0] == 'l' || a[0] == 'a' || a[0] == 'e');
            assert(k[0] == 'a' || k[1] == 'o');
        },
    }
}

/// Something that happens to a trace.
pub enum Step {
    /// A request is recorded.
    Record(Request),
    /// A new sink is put in place, and the rest of the one before is handed out.
    Start,
    /// The text to write is handed out.
    Finish,
}

/// The state after a number of steps.
pub open spec fn state_after(s: TraceState, steps: Seq<Step>) -> TraceState
    decreases steps.len(),
{
    if steps.len() == 0 {
        s
    } else {
        let before = state_after(s, steps.drop_last());
        match steps.last() {
            Step::Record(r) => before.after(r),
            Step::Start => before.started(),
            Step::Finish => before.handed_out(),
        }
    }
}

/// The events that a number of steps record, in order.
pub open spec fn events_of(s: TraceState, steps: Seq<Step>) -> Seq<Event>
    decreases steps.len(),
{
    if steps.len() == 0 {
        seq![]
    } else {
        let before = state_after(s, steps.drop_last());
        match steps.last() {
            Step::Record(r) => events_of(s, steps.drop_last()) + before.events(r),
            _ => events_of(s, steps.drop_last()),
        }
    }
}

/// The text that is handed out in a number of steps, in order.
pub open spec fn text_handed_out(s: TraceState, steps: Seq<Step>) -> Seq<char>
    decreases steps.len(),
{
    if steps.len() == 0 {
        seq![]
    } else {
        let before = state_after(s, steps.drop_last());
        match steps.last() {
            Step::Record(_) => text_handed_out(s, steps.drop_last()),
            _ => text_handed_out(s, steps.drop_last()) + before.text(),
        }
    }
}

/// The lines of two runs of events stand one behind the other.
proof fn lemma_lines_append(a: Seq<Event>, b: Seq<Event>)
    ensures
        lines(a + b) == lines(a) + lines(b),
    decreases b.len(),
{
    if b.len() == 0 {
        assert(a + b =~= a);
        assert(lines(a) + lines(b) =~= lines(a));
    } else {
        lemma_lines_append(a, b.drop_last());
        assert((a + b).drop_last() =~= a + b.drop_last());
        assert((a + b).last() == b.last());
        assert(lines(a + b) =~= lines(a) + lines(b));
    }
}

/// Each event comes out once and in order: what was handed out, followed by what is left to write,
/// is what was left at the beginning followed by the lines of the events.
pub proof fn law_nothing_is_lost(s: TraceState, steps: Seq<Step>)
    ensures
        text_handed_out(s, steps) + state_after(s, steps).text() == s.text() + lines(
            events_of(s, steps),
        ),
    decreases steps.len(),
{
    if steps.len() == 0 {
        assert(text_handed_out(s, steps) + s.text() =~= s.text() + lines(events_of(s, steps)));
    } else {
        let init = steps.drop_last();
        let before = state_after(s, init);
        law_nothing_is_lost(s, init);
        match steps.last() {
            Step::Record(r) => {
                lemma_lines_append(events_of(s, init), before.events(r));
                assert(before.after(r).text() =~= before.text() + lines(before.events(r)));
                assert(text_handed_out(s, steps) + state_after(s, steps).text() =~= (
                text_handed_out(s, init) + before.text()) + lines(before.events(r)));
                assert(s.text() + lines(events_of(s, steps)) =~= (s.text() + lines(
                    events_of(s, init),
                )) + lines(before.events(r)));
            },
            _ => {
                assert(text_handed_out(s, steps) + state_after(s, steps).text()
                    =~= text_handed_out(s, init) + before.text());
            },
        }
    }
}

/// A disabled trace that nobody starts records nothing and does not change.
pub proof fn law_disabled_is_inert(s: TraceState, steps: Seq<Step>)
    requires
        !s.enabled(),
        forall|i: int| 0 <= i < steps.len() ==> !(#[trigger] steps[i] is Start),
    ensures
        state_after(s, steps) == s,
        events_of(s, steps) == Seq::<Event>::empty(),
        text_handed_out(s, steps) == Seq::<char>::empty(),
    decreases steps.len(),
{
    if steps.len() > 0 {
        let init = steps.drop_last();
        assert forall|i: int| 0 <= i < init.len() implies !(#[trigger] init[i] is Start) by {
            assert(!(steps[i] is Start));
        }
        law_disabled_is_inert(s, init);
        assert(!(steps[steps.len() - 1] is Start));
        assert(events_of(s, steps) =~= seq![]);
        assert(text_handed_out(s, steps) =~= seq![]);
    }
}

/// Once started, a trace stays enabled.
pub proof fn law_started_stays_enabled(s: TraceState, steps: Seq<Step>)
    requires
        s.enabled(),
    ensures
        state_after(s, steps).enabled(),
    decreases steps.len(),
{
    if steps.len() > 0 {
        law_started_stays_enabled(s, steps.drop_last());
    }
}

/// What was handed out once is not handed out again.
pub proof fn law_handed_out_once(s: TraceState)
    ensures
        s.handed_out().text() == Seq::<char>::empty(),
        s.handed_out().handed_out() == s.handed_out(),
{
}

/// Whether the event at position `i` and the events that it refers to agree.
///
/// - An obligation stands behind the two assumptions that it depends on, which hold its types and
///   slots, and are about the same module, file and range. It names a diagnostic exactly if it
///   failed, and that diagnostic comes next, about the same file and range.
/// - An assumption stands before an obligation that depends on it.
/// - A diagnostic that names an obligation stands behind it, about the same file and range, and the
///   obligation names it back.
pub open spec fn linked_at(events: Seq<Event>, i: int) -> bool {
    match events[i] {
        Event::Obligation(o) => {
            &&& i >= 2
            &&& events[i - 2] matches Event::Assumption(a)
            &&& events[i - 1] matches Event::Assumption(b)
            &&& o.dependencies == seq![a.id, b.id]
            &&& o.got == a.typ && o.actual == a.slot && !a.editable
            &&& o.want == b.typ && o.expected == b.slot && b.editable
            &&& a.module == o.module && a.file == o.file && a.range == o.range
            &&& b.module == o.module && b.file == o.file && b.range == o.range
            &&& o.diagnostic_id is Some <==> o.result == "error"@
            &&& o.diagnostic_id matches Some(id) ==> i + 1 < events.len() && (events[i
                + 1] matches Event::Diagnostic(d) && d.id == id && d.obligation == Some(o.id) && d.file
                == o.file && d.range == o.range)
        },
        Event::Assumption(a) => exists|j: int|
            i < j <= i + 2 && j < events.len() && ((#[trigger] events[j]) matches Event::Obligation(
                o,
            ) && o.dependencies.contains(a.id)),
        Event::Diagnostic(d) => d.obligation matches Some(id) ==> i >= 1 && (events[i
            - 1] matches Event::Obligation(o) && o.id == id && o.diagnostic_id == Some(d.id) && o.file == d.file
            && o.range == d.range),
    }
}

/// Whether every event agrees with those that it refers to.
pub open spec fn linked(events: Seq<Event>) -> bool {
    forall|i: int| 0 <= i < events.len() ==> #[trigger] linked_at(events, i)
}

proof fn lemma_linked_append(a: Seq<Event>, b: Seq<Event>)
    requires
        linked(a),
        linked(b),
    ensures
        linked(a + b),
{
    let all = a + b;
    assert forall|i: int| 0 <= i < all.len() implies #[trigger] linked_at(all, i) by {
        if i < a.len() {
            assert(linked_at(a, i));
            if let Event::Assumption(x) = a[i] {
                let j = choose|j: int|
                    i < j <= i + 2 && j < a.len() && ((#[trigger] a[j]) matches Event::Obligation(o)
                        && o.dependencies.contains(x.id));
                assert(all[j] == a[j]);
            }
        } else {
            let k = i - a.len();
            assert(linked_at(b, k));
            assert(all[i] == b[k]);
            if let Event::Assumption(x) = b[k] {
                let j = choose|j: int|
                    k < j <= k + 2 && j < b.len() && ((#[trigger] b[j]) matches Event::Obligation(o)
                        && o.dependencies.contains(x.id));
                assert(all[j + a.len()] == b[j]);
            }
        }
    }
}

proof fn lemma_check_linked(s: TraceState, c: Check)
    ensures
        linked(s.check_events(c)),
{
    let events = s.check_events(c);
    assert(events[2] is Obligation);
    let o = events[2]->Obligation_0;
    assert(o.dependencies[0] == events[0].id());
    assert(o.dependencies[1] == events[1].id());
    assert(o.dependencies.contains(events[0].id()));
    assert(o.dependencies.contains(events[1].id()));
    assert(linked_at(events, 0));
    assert(linked_at(events, 1));
    assert(linked_at(events, 2));
    if c.failed() {
        assert(linked_at(events, 3));
    }
}

/// Every event of a trace agrees with those that it refers to, and those that it refers to are
/// there.
pub proof fn law_events_are_linked(s: TraceState, steps: Seq<Step>)
    ensures
        linked(events_of(s, steps)),
    decreases steps.len(),
{
    if steps.len() > 0 {
        let init = steps.drop_last();
        let before = state_after(s, init);
        law_events_are_linked(s, init);
        if let Step::Record(r) = steps.last() {
            if let Request::Check(c) = r {
                lemma_check_linked(before, c);
            }
            lemma_linked_append(events_of(s, init), before.events(r));
        }
    }
}

/// The kinds of event, each with a counter of its own.
pub enum Sort {
    Assumption,
    Obligation,
    Diagnostic,
}

/// The kind of an event.
pub open spec fn sort_of(e: Event) -> Sort {
    match e {
        Event::Assumption(_) => Sort::Assumption,
        Event::Obligation(_) => Sort::Obligation,
        Event::Diagnostic(_) => Sort::Diagnostic,
    }
}

/// What the identifiers of a kind of event begin with.
pub open spec fn prefix_of(k: Sort) -> Seq<char> {
    match k {
        Sort::Assumption => "A"@,
        Sort::Obligation => "O"@,
        Sort::Diagnostic => "E"@,
    }
}

/// The counter for a kind of event.
pub open spec fn counter_of(s: TraceState, k: Sort) -> usize {
    match k {
        Sort::Assumption => s.assumption_id,
        Sort::Obligation => s.obligation_id,
        Sort::Diagnostic => s.diagnostic_id,
    }
}

/// How many of the given events are of one kind.
pub open spec fn count(events: Seq<Event>, k: Sort) -> nat
    decreases events.len(),
{
    if events.len() == 0 {
        0
    } else {
        count(events.drop_last(), k) + if sort_of(events.last()) == k {
            1nat
        } else {
            0nat
        }
    }
}

/// The value of a counter that stood at `n`, after it was used `k` times.
pub open spec fn advanced(n: usize, k: nat) -> usize {
    ((n + k) % (usize::MAX + 1)) as usize
}

proof fn lemma_advanced(n: usize, k: nat)
    ensures
        advanced(n, 0) == n,
        following(advanced(n, k)) == advanced(n, k + 1),
{
    let m = usize::MAX + 1;
    lemma_small_mod(n as nat, m as nat);
    lemma_add_mod_noop_right(1, n + k, m);
    let x = (n + k) % m;
    assert(0 <= x < m);
    if x + 1 < m {
        lemma_small_mod((x + 1) as nat, m as nat);
    } else {
        assert(m % m == 0) by (nonlinear_arith)
            requires
                m > 0,
        ;
    }
}

proof fn lemma_advanced_distinct(n: usize, i: nat, j: nat)
    requires
        i < j,
        j - i <= usize::MAX,
    ensures
        advanced(n, i) != advanced(n, j),
{
    let m = usize::MAX + 1;
    if advanced(n, i) == advanced(n, j) {
        assert((n + i) % m == (n + j) % m);
        lemma_sub_mod_noop(n + j, n + i, m);
        lemma_small_mod(0, m as nat);
        lemma_small_mod((j - i) as nat, m as nat);
    }
}

proof fn lemma_count_append(a: Seq<Event>, b: Seq<Event>, k: Sort)
    ensures
        count(a + b, k) == count(a, k) + count(b, k),
    decreases b.len(),
{
    if b.len() == 0 {
        assert(a + b =~= a);
    } else {
        lemma_count_append(a, b.drop_last(), k);
        assert((a + b).drop_last() =~= a + b.drop_last());
    }
}

proof fn lemma_count_monotone(events: Seq<Event>, i: int, j: int, k: Sort)
    requires
        0 <= i <= j <= events.len(),
    ensures
        count(events.take(i), k) <= count(events.take(j), k),
{
    assert(events.take(j) =~= events.take(i) + events.subrange(i, j));
    lemma_count_append(events.take(i), events.subrange(i, j), k);
}

/// The identifier that the event at position `i` gets when it is numbered from `s` on.
pub open spec fn numbered_at(s: TraceState, events: Seq<Event>, i: int) -> bool {
    let k = sort_of(events[i]);
    events[i].id() == identifier(
        prefix_of(k),
        advanced(counter_of(s, k), count(events.take(i), k)),
    )
}

/// Whether events are numbered from `s` on, and the counters of `t` come next.
spec fn numbered(s: TraceState, events: Seq<Event>, t: TraceState) -> bool {
    &&& forall|i: int| 0 <= i < events.len() ==> #[trigger] numbered_at(s, events, i)
    &&& forall|k: Sort|
        #[trigger] counter_of(t, k) == advanced(counter_of(s, k), count(events, k))
}

proof fn lemma_advanced_sum(n: usize, i: nat, j: nat)
    ensures
        advanced(advanced(n, i), j) == advanced(n, i + j),
{
    lemma_add_mod_noop_right(j as int, n + i, usize::MAX + 1);
}

proof fn lemma_numbered_append(
    s: TraceState,
    a: Seq<Event>,
    t: TraceState,
    b: Seq<Event>,
    u: TraceState,
)
    requires
        numbered(s, a, t),
        numbered(t, b, u),
    ensures
        numbered(s, a + b, u),
{
    let all = a + b;
    assert forall|i: int| 0 <= i < all.len() implies #[trigger] numbered_at(s, all, i) by {
        let k = sort_of(all[i]);
        if i < a.len() {
            assert(numbered_at(s, a, i));
            assert(all.take(i) =~= a.take(i));
        } else {
            let j = i - a.len();
            assert(numbered_at(t, b, j));
            assert(all.take(i) =~= a + b.take(j));
            lemma_count_append(a, b.take(j), k);
            assert(counter_of(t, k) == advanced(counter_of(s, k), count(a, k)));
            lemma_advanced_sum(counter_of(s, k), count(a, k), count(b.take(j), k));
        }
    }
    assert forall|k: Sort| #[trigger]
        counter_of(u, k) == advanced(counter_of(s, k), count(all, k)) by {
        lemma_count_append(a, b, k);
        assert(counter_of(t, k) == advanced(counter_of(s, k), count(a, k)));
        lemma_advanced_sum(counter_of(s, k), count(a, k), count(b, k));
    }
}

/// One more event of a kind.
proof fn lemma_numbered_one(s: TraceState, e: Event, t: TraceState)
    requires
        e.id() == identifier(prefix_of(sort_of(e)), counter_of(s, sort_of(e))),
        forall|k: Sort| #[trigger]
            counter_of(t, k) == (if k == sort_of(e) {
                following(counter_of(s, k))
            } else {
                counter_of(s, k)
            }),
    ensures
        numbered(s, seq![e], t),
{
    let one = seq![e];
    assert(one.drop_last() =~= seq![]);
    assert(one.take(0) =~= seq![]);
    assert forall|k: Sort| #[trigger]
        counter_of(t, k) == advanced(counter_of(s, k), count(one, k)) by {
        lemma_advanced(counter_of(s, k), 0);
        assert(count(one.drop_last(), k) == 0);
    }
    assert forall|i: int| 0 <= i < one.len() implies #[trigger] numbered_at(s, one, i) by {
        lemma_advanced(counter_of(s, sort_of(e)), 0);
        assert(count(one.take(0), sort_of(e)) == 0);
    }
}

proof fn lemma_check_numbered(s: TraceState, c: Check)
    ensures
        numbered(s, s.check_events(c), s.after_check(c)),
{
    let events = s.check_events(c);
    let t1 = TraceState { assumption_id: following(s.assumption_id), ..s };
    let t2 = TraceState { assumption_id: following(t1.assumption_id), ..t1 };
    let t3 = TraceState { obligation_id: following(s.obligation_id), ..t2 };
    lemma_numbered_one(s, events[0], t1);
    lemma_numbered_one(t1, events[1], t2);
    lemma_numbered_one(t2, events[2], t3);
    lemma_numbered_append(s, seq![events[0]], t1, seq![events[1]], t2);
    lemma_numbered_append(s, seq![events[0]] + seq![events[1]], t2, seq![events[2]], t3);
    let three = seq![events[0]] + seq![events[1]] + seq![events[2]];
    if c.failed() {
        let t4 = s.after_check(c);
        lemma_numbered_one(t3, events[3], t4);
        lemma_numbered_append(s, three, t3, seq![events[3]], t4);
        assert(events =~= three + seq![events[3]]);
    } else {
        assert(events =~= three);
    }
}

proof fn lemma_steps_numbered(s: TraceState, steps: Seq<Step>)
    ensures
        numbered(s, events_of(s, steps), state_after(s, steps)),
    decreases steps.len(),
{
    if steps.len() == 0 {
        assert forall|k: Sort| #[trigger]
            counter_of(s, k) == advanced(counter_of(s, k), count(seq![], k)) by {
            lemma_advanced(counter_of(s, k), 0);
        }
    } else {
        let init = steps.drop_last();
        let t = state_after(s, init);
        let u = state_after(s, steps);
        lemma_steps_numbered(s, init);
        if steps.last() is Record && t.enabled() {
            let r = steps.last()->Record_0;
            match r {
                Request::Check(c) => {
                    lemma_check_numbered(t, c);
                    assert forall|k: Sort| #[trigger]
                        counter_of(u, k) == counter_of(t.after_check(c), k) by {}
                },
                Request::Report(e) => lemma_numbered_one(t, t.report_event(e), u),
            }
            assert(numbered(t, t.events(r), u));
            lemma_numbered_append(s, events_of(s, init), t, t.events(r), u);
        } else {
            assert(events_of(s, steps) =~= events_of(s, init));
            assert forall|k: Sort| #[trigger] counter_of(u, k) == counter_of(t, k) by {}
        }
    }
}

/// Events of one kind are numbered one after the other, in the order in which they stand in the
/// trace and across sinks: the number of an event is that of its counter at the beginning plus how
/// many events of its kind came before, up to where the counter wraps around.
pub proof fn law_events_are_numbered(s: TraceState, steps: Seq<Step>)
    ensures
        forall|i: int|
            0 <= i < events_of(s, steps).len() ==> #[trigger] numbered_at(
                s,
                events_of(s, steps),
                i,
            ),
        forall|k: Sort| #[trigger]
            counter_of(state_after(s, steps), k) == advanced(
                counter_of(s, k),
                count(events_of(s, steps), k),
            ),
{
    lemma_steps_numbered(s, steps);
}

/// No identifier comes twice in a trace, as long as no counter has gone once around.
pub proof fn law_identifiers_are_distinct(s: TraceState, steps: Seq<Step>, i: int, j: int)
    requires
        0 <= i < j < events_of(s, steps).len(),
        forall|k: Sort| #[trigger] count(events_of(s, steps), k) <= usize::MAX + 1,
    ensures
        events_of(s, steps)[i].id() != events_of(s, steps)[j].id(),
{
    let events = events_of(s, steps);
    lemma_steps_numbered(s, steps);
    assert(numbered_at(s, events, i));
    assert(numbered_at(s, events, j));
    let k = sort_of(events[i]);
    let l = sort_of(events[j]);
    reveal_strlit("A");
    reveal_strlit("O");
    reveal_strlit("E");
    if k == l {
        let m = count(events.take(i), k);
        let n = count(events.take(j), k);
        assert(events.take(i + 1).drop_last() =~= events.take(i));
        assert(count(events.take(i + 1), k) == m + 1);
        lemma_count_monotone(events, i + 1, j, k);
        assert(events.take(j + 1).drop_last() =~= events.take(j));
        assert(count(events.take(j + 1), k) == n + 1);
        lemma_count_monotone(events, j + 1, events.len() as int, k);
        assert(events.take(events.len() as int) =~= events);
        let x = advanced(counter_of(s, k), m);
        let y = advanced(counter_of(s, k), n);
        lemma_advanced_distinct(counter_of(s, k), m, n);
        if events[i].id() == events[j].id() {
            let p = prefix_of(k);
            assert(identifier(p, x).skip(p.len() as int) =~= decimal(x as nat));
            assert(identifier(p, y).skip(p.len() as int) =~= decimal(y as nat));
            lemma_decimal_injective(x as nat, y as nat);
        }
    } else {
        assert(events[i].id()[0] == prefix_of(k)[0]);
        assert(events[j].id()[0] == prefix_of(l)[0]);
    }
}

} // verus!
