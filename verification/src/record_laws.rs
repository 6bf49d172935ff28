//! What a request leaves behind, field by field and in terms of what was handed over, and how two
//! requests relate.

use vstd::prelude::*;
use vstd::arithmetic::div_mod::lemma_small_mod;
use crate::numerals::{law_decimal_denotes, numeral};
use crate::slots::{DisplayRange, TraceRange, actual_text, expected_text, kind_text};
use crate::slot_laws::is_row;
use crate::events::Event;
use crate::json::lines;
use crate::parsing::{event_value, json_value, law_trace_reads_back, split_lines};
use crate::text::decimal;
use crate::trace::{Check, ReportedError, Request, TraceState};
use crate::trace::{create_failure, following, identifier};

verus! {

/// Whether a recorded range says where a displayed one starts and ends.
pub open spec fn shows(r: TraceRange, loc: DisplayRange) -> bool {
    &&& r.start_line == loc.start.line_within_file
    &&& r.start_col == loc.start.column
    &&& r.end_line == loc.end.line_within_file
    &&& r.end_col == loc.end.column
}

/// Whether `id` is the given letter followed by the numeral for `n`.
pub open spec fn is_id(id: Seq<char>, letter: char, n: usize) -> bool {
    id.len() > 1 && id[0] == letter && numeral(id.skip(1), n as nat)
}

/// The number that a counter gives out after `n`: the next one, and zero after the last.
pub open spec fn next(n: usize) -> usize {
    ((n + 1) % (usize::MAX + 1)) as usize
}

proof fn lemma_next(n: usize)
    ensures
        following(n) == next(n),
{
    if n == usize::MAX {
        assert((n + 1) % (usize::MAX + 1) == 0) by (nonlinear_arith)
            requires
                n == usize::MAX,
                usize::MAX > 0,
        ;
    } else {
        lemma_small_mod((n + 1) as nat, (usize::MAX + 1) as nat);
    }
}

/// An identifier is its prefix followed by its number, and a counter goes on by one, from the last
/// number to zero. Under one prefix, different numbers have different identifiers.
pub proof fn law_identifiers(prefix: Seq<char>, m: usize, n: usize)
    ensures
        identifier(prefix, n).len() > prefix.len(),
        identifier(prefix, n).take(prefix.len() as int) == prefix,
        numeral(identifier(prefix, n).skip(prefix.len() as int), n as nat),
        following(n) == next(n),
        identifier(prefix, m) == identifier(prefix, n) ==> m == n,
{
    law_decimal_denotes(m as nat);
    law_decimal_denotes(n as nat);
    assert(identifier(prefix, n).take(prefix.len() as int) =~= prefix);
    assert(identifier(prefix, n).skip(prefix.len() as int) =~= decimal(n as nat));
    assert(identifier(prefix, m).skip(prefix.len() as int) =~= decimal(m as nat));
    lemma_next(n);
}

proof fn lemma_letter(prefix: &str, letter: char, n: usize)
    requires
        prefix@ == seq![letter],
    ensures
        is_id(identifier(prefix@, n), letter, n),
{
    law_identifiers(prefix@, n, n);
}

proof fn lemma_letters(n: usize)
    ensures
        is_id(identifier("A"@, n), 'A', n),
        is_id(identifier("O"@, n), 'O', n),
        is_id(identifier("E"@, n), 'E', n),
{
    reveal_strlit("A");
    reveal_strlit("O");
    reveal_strlit("E");
    assert("A"@ =~= seq!['A']);
    assert("O"@ =~= seq!['O']);
    assert("E"@ =~= seq!['E']);
    lemma_letter("A", 'A', n);
    lemma_letter("O", 'O', n);
    lemma_letter("E", 'E', n);
}

/// The file that an event is about.
pub open spec fn file_of(e: Event) -> Seq<char> {
    match e {
        Event::Assumption(a) => a.file,
        Event::Obligation(o) => o.file,
        Event::Diagnostic(d) => d.file,
    }
}

/// The range that an event is about.
pub open spec fn range_of(e: Event) -> TraceRange {
    match e {
        Event::Assumption(a) => a.range,
        Event::Obligation(o) => o.range,
        Event::Diagnostic(d) => d.range,
    }
}

/// Every event of a comparison has the path of the module as its file, and shows the place of the
/// comparison. There is a fourth event, a diagnostic, exactly if the comparison failed.
pub proof fn law_check_is_placed(s: TraceState, c: Check)
    requires
        s.enabled(),
    ensures
        ({
            let events = s.events(Request::Check(c));
            &&& events.len() == (if c.result == "error"@ {
                4int
            } else {
                3int
            })
            &&& forall|i: int|
                0 <= i < events.len() ==> file_of(#[trigger] events[i]) == c.module.path@ && shows(
                    range_of(events[i]),
                    c.loc,
                )
        }),
{
}

/// A comparison leaves, in this order: an assumption of the type that was found, which the user
/// cannot change and which is given up last; an assumption of the type that was asked for, which
/// the user can change and which is given up first; and the obligation that the one is assignable
/// to the other. The types and the result stand there character for character.
///
/// The type that was found has the slot that the kind of check gives. The type that was asked for
/// has the slot that the checker gave, as it is, and that of the kind only where it gave none.
pub proof fn law_check_is_recorded(s: TraceState, c: Check)
    requires
        s.enabled(),
    ensures
        ({
            let events = s.events(Request::Check(c));
            &&& events[0] matches Event::Assumption(a)
            &&& events[1] matches Event::Assumption(b)
            &&& events[2] matches Event::Obligation(o)
            &&& a.module == c.module.name@ && b.module == c.module.name@ && o.module
                == c.module.name@
            &&& a.kind == "local_inferred_type"@ && b.kind == "explicit_annotation"@
            &&& a.typ == c.got && a.source_text == c.got && o.got == c.got
            &&& b.typ == c.want && b.source_text == c.want && o.want == c.want
            &&& a.source_kind == "pyrefly_check"@ && b.source_kind == "pyrefly_check"@
            &&& !a.editable && a.weight == 100
            &&& b.editable && b.weight == 5
            &&& o.kind == kind_text(c.context.kind) && o.relation == "assignable"@
            &&& o.result == c.result
            &&& a.slot == actual_text(c.module, c.loc, c.context.kind) && o.actual == a.slot
            &&& c.context.slot matches Some(slot) ==> b.slot == slot@
            &&& c.context.slot is None ==> b.slot == expected_text(
                c.module,
                c.loc,
                c.context.kind,
            )
            &&& o.expected == b.slot
            &&& o.dependencies.len() == 2 && o.dependencies[0] == a.id && o.dependencies[1] == b.id
        }),
{
}

/// The diagnostic of a failed comparison has the error kind of the check and the identifier of the
/// obligation, which names it back. Its message says first the type that was found and then the
/// one that was asked for, each between backquotes and character for character.
pub proof fn law_failure_is_reported(s: TraceState, c: Check)
    requires
        s.enabled(),
    ensures
        ({
            let events = s.events(Request::Check(c));
            &&& events[2] matches Event::Obligation(o)
            &&& c.result != "error"@ ==> o.diagnostic_id is None
            &&& c.result == "error"@ ==> {
                &&& events[3] matches Event::Diagnostic(d)
                &&& d.obligation == Some(o.id) && o.diagnostic_id == Some(d.id)
                &&& d.error_kind == c.context.error_kind@
                &&& is_row(
                    d.message,
                    "Type `"@ + c.got,
                    "` is not assignable to `"@ + c.want + "`"@,
                )
            }
        }),
{
    assert(c.message() =~= ("Type `"@ + c.got) + ("` is not assignable to `"@ + c.want + "`"@));
}

/// A comparison takes the next two numbers for assumptions, the next for obligations and, where it
/// failed, the next for diagnostics, and no others.
pub proof fn law_check_is_numbered(s: TraceState, c: Check)
    requires
        s.enabled(),
    ensures
        ({
            let events = s.events(Request::Check(c));
            let t = s.after(Request::Check(c));
            &&& is_id(events[0].id(), 'A', s.assumption_id)
            &&& is_id(events[1].id(), 'A', next(s.assumption_id))
            &&& is_id(events[2].id(), 'O', s.obligation_id)
            &&& t.assumption_id == next(next(s.assumption_id))
            &&& t.obligation_id == next(s.obligation_id)
            &&& c.result == "error"@ ==> is_id(events[3].id(), 'E', s.diagnostic_id)
                && t.diagnostic_id == next(s.diagnostic_id)
            &&& c.result != "error"@ ==> t.diagnostic_id == s.diagnostic_id
        }),
{
    lemma_next(s.assumption_id);
    lemma_next(next(s.assumption_id));
    lemma_next(s.obligation_id);
    lemma_next(s.diagnostic_id);
    lemma_letters(s.assumption_id);
    lemma_letters(next(s.assumption_id));
    lemma_letters(s.obligation_id);
    lemma_letters(s.diagnostic_id);
}

/// The events of a comparison determine it: two comparisons that leave the same events have the
/// same module, place, types and result, the same group and the same slots, and the same error
/// kind where they failed.
pub proof fn law_check_events_determine_check(s: TraceState, c: Check, d: Check)
    requires
        s.enabled(),
        s.events(Request::Check(c)) == s.events(Request::Check(d)),
    ensures
        c.module.name@ == d.module.name@,
        c.module.path@ == d.module.path@,
        c.loc == d.loc,
        c.got == d.got,
        c.want == d.want,
        c.result == d.result,
        kind_text(c.context.kind) == kind_text(d.context.kind),
        actual_text(c.module, c.loc, c.context.kind) == actual_text(
            d.module,
            d.loc,
            d.context.kind,
        ),
        c.result == "error"@ ==> c.context.error_kind@ == d.context.error_kind@,
{
    let a = s.events(Request::Check(c));
    let b = s.events(Request::Check(d));
    law_check_is_placed(s, c);
    law_check_is_placed(s, d);
    law_check_is_recorded(s, c);
    law_check_is_recorded(s, d);
    law_failure_is_reported(s, c);
    law_failure_is_reported(s, d);
    assert(a[0] == b[0] && a[2] == b[2]);
    assert(file_of(a[0]) == c.module.path@ && file_of(b[0]) == d.module.path@);
    assert(shows(range_of(a[0]), c.loc) && shows(range_of(b[0]), d.loc));
    if c.result == "error"@ {
        assert(a[3] == b[3]);
    }
}

/// How a comparison came out does not bear on the assumptions that it rests on, and on the
/// obligation only in its result and in the diagnostic that it names.
pub proof fn law_result_bears_on_obligation_only(s: TraceState, c: Check, d: Check)
    requires
        s.enabled(),
        d == (Check { result: d.result, ..c }),
    ensures
        ({
            let a = s.events(Request::Check(c));
            let b = s.events(Request::Check(d));
            &&& a[0] == b[0] && a[1] == b[1]
            &&& a[2] matches Event::Obligation(o)
            &&& b[2] matches Event::Obligation(p)
            &&& p.id == o.id && p.module == o.module && p.file == o.file && p.range == o.range
            &&& p.kind == o.kind && p.relation == o.relation && p.got == o.got && p.want == o.want
            &&& p.actual == o.actual && p.expected == o.expected && p.dependencies
                == o.dependencies
        }),
{
}

/// A reported error leaves one diagnostic, about no obligation, under the next number. Its error
/// kind, message and path stand there character for character, and its range shows the place.
pub proof fn law_report_is_recorded(s: TraceState, e: ReportedError)
    requires
        s.enabled(),
    ensures
        ({
            let events = s.events(Request::Report(e));
            let t = s.after(Request::Report(e));
            &&& events.len() == 1
            &&& events[0] matches Event::Diagnostic(d)
            &&& d.obligation is None
            &&& d.message == e.msg@ && d.error_kind == e.error_kind@ && d.file == e.path@
            &&& shows(d.range, e.display_range)
            &&& is_id(d.id, 'E', s.diagnostic_id)
            &&& t.diagnostic_id == next(s.diagnostic_id)
            &&& t.assumption_id == s.assumption_id && t.obligation_id == s.obligation_id
        }),
{
    lemma_next(s.diagnostic_id);
    lemma_letters(s.diagnostic_id);
}

/// The event of a report determines the report: two reports that leave the same event have the
/// same error kind, message, path and range, the message character for character.
pub proof fn law_report_event_determines_report(s: TraceState, e: ReportedError, f: ReportedError)
    requires
        s.enabled(),
        s.events(Request::Report(e)) == s.events(Request::Report(f)),
    ensures
        e.error_kind@ == f.error_kind@,
        e.msg@ == f.msg@,
        e.path@ == f.path@,
        e.display_range == f.display_range,
{
    law_report_is_recorded(s, e);
    law_report_is_recorded(s, f);
    assert(s.events(Request::Report(e))[0] == s.events(Request::Report(f))[0]);
}

/// What was recorded before does not bear on the events of a request, but for the numbers that it
/// took.
pub proof fn law_events_depend_on_counters_only(s: TraceState, t: TraceState, r: Request)
    requires
        s.enabled(),
        t.enabled(),
        s.assumption_id == t.assumption_id,
        s.obligation_id == t.obligation_id,
        s.diagnostic_id == t.diagnostic_id,
    ensures
        s.events(r) == t.events(r),
{
}

/// A request leaves the text before it in place and adds one line for each of its events, and each
/// line reads as its event. While the trace is disabled it changes nothing.
pub proof fn law_request_adds_its_lines(s: TraceState, r: Request)
    ensures
        !s.enabled() ==> s.after(r) == s && s.events(r).len() == 0,
        s.enabled() ==> {
            let before = s.text();
            let after = s.after(r).text();
            let added = split_lines(after.skip(before.len() as int));
            &&& s.after(r).enabled()
            &&& before.len() <= after.len() && after.take(before.len() as int) == before
            &&& added.len() == s.events(r).len()
            &&& forall|i: int|
                0 <= i < added.len() ==> json_value(#[trigger] added[i]) == Some(
                    event_value(s.events(r)[i]),
                )
            &&& after.last() as int == 10
        },
{
    if s.enabled() {
        let before = s.text();
        let after = s.after(r).text();
        law_trace_reads_back(s.events(r));
        let text = lines(s.events(r));
        assert(after =~= before + text);
        assert(after.take(before.len() as int) =~= before);
        assert(after.skip(before.len() as int) =~= text);
        assert(text.len() > 0);
        assert(after.last() == text.last());
    }
}

/// A program starts with a disabled trace that has nothing to write and numbers from one on.
/// Starting a trace enables it, whatever it was before; handing out leaves it as enabled as it was.
/// Neither leaves anything to write, and neither touches a counter.
pub proof fn law_sinks(s: TraceState)
    ensures
        !TraceState::initial().enabled() && TraceState::initial().text().len() == 0,
        ({
            let t = TraceState::initial();
            t.assumption_id == 1 && t.obligation_id == 1 && t.diagnostic_id == 1
        }),
        ({
            let t = s.started();
            &&& t.enabled() && t.text().len() == 0
            &&& t.assumption_id == s.assumption_id && t.obligation_id == s.obligation_id
            &&& t.diagnostic_id == s.diagnostic_id
        }),
        ({
            let t = s.handed_out();
            &&& t.enabled() == s.enabled() && t.text().len() == 0
            &&& t.assumption_id == s.assumption_id && t.obligation_id == s.obligation_id
            &&& t.diagnostic_id == s.diagnostic_id
        }),
{
}

/// Where a trace's file cannot be created, the message has its path between backquotes, character
/// for character, and so tells paths apart.
pub proof fn law_create_failure_names_path(p: Seq<char>, q: Seq<char>)
    ensures
        is_row(create_failure(p), "while creating type trace `"@ + p, "`"@),
        create_failure(p) == create_failure(q) ==> p == q,
{
    let n = "while creating type trace `"@.len() as int;
    let k = "`"@.len() as int;
    assert(p =~= create_failure(p).subrange(n, create_failure(p).len() - k));
    assert(q =~= create_failure(q).subrange(n, create_failure(q).len() - k));
}

} // verus!
