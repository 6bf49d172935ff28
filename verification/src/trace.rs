//! The recorder of a trace.

use vstd::prelude::*;
use vstd::string::*;
use crate::text::{decimal, push_decimal};
use crate::slots::{DisplayRange, Module, TypeCheckContext};
use crate::slots::{actual_slot, expected_slot, obligation_kind, trace_range};
use crate::slots::{actual_text, expected_text, kind_text, recorded_range};
use crate::events::{AssumptionEvent, DiagnosticEvent, ObligationEvent, TraceEvent};
use crate::events::{ObligationSlots, TraceSource};
use crate::events::{Assumption, Diagnostic, Event, Obligation};
use crate::json::lines;

verus! {

/// An error that the type checker reports.
pub struct ReportedError {
    /// The name of the error kind.
    pub error_kind: String,
    /// The message.
    pub msg: String,
    /// The path of the file that the error is in.
    pub path: String,
    /// Where in the file it is.
    pub display_range: DisplayRange,
}

/// What is left to write of a trace.
struct JsonlSink {
    pending: String,
}

/// The recorder. It is enabled while it has a sink. Its counters go on across sinks, so that no
/// identifier comes twice.
pub struct Trace {
    sink: Option<JsonlSink>,
    assumption_id: usize,
    obligation_id: usize,
    diagnostic_id: usize,
}

/// The state of a [`Trace`].
#[verifier::ext_equal]
pub struct TraceState {
    /// The text that was recorded and not yet handed out, where the trace is enabled.
    pub pending: Option<Seq<char>>,
    /// The number of the next assumption.
    pub assumption_id: usize,
    /// The number of the next obligation.
    pub obligation_id: usize,
    /// The number of the next diagnostic.
    pub diagnostic_id: usize,
}

/// A comparison of types that the checker has made.
pub struct Check {
    pub module: Module,
    pub loc: DisplayRange,
    pub context: TypeCheckContext,
    /// The type that was found.
    pub got: Seq<char>,
    /// The type that was asked for.
    pub want: Seq<char>,
    /// How the comparison came out.
    pub result: Seq<char>,
}

/// What a trace is asked to record.
pub enum Request {
    Check(Check),
    Report(ReportedError),
}

/// The value of a counter after `n`: a counter wraps around.
pub open spec fn following(n: usize) -> usize {
    if n == usize::MAX {
        0
    } else {
        (n + 1) as usize
    }
}

/// The identifier with the given prefix and number.
pub open spec fn identifier(prefix: Seq<char>, n: usize) -> Seq<char> {
    prefix + decimal(n as nat)
}

/// The text of an optional string, or another text where it is absent.
pub open spec fn text_or(s: Option<String>, otherwise: Seq<char>) -> Seq<char> {
    match s {
        Some(t) => t@,
        None => otherwise,
    }
}

impl Check {
    /// Whether the comparison failed.
    pub open spec fn failed(self) -> bool {
        self.result == "error"@
    }

    /// What the user is told of a failure.
    pub open spec fn message(self) -> Seq<char> {
        "Type `"@ + self.got + "` is not assignable to `"@ + self.want + "`"@
    }

    /// The slot of the type that was found.
    pub open spec fn actual(self) -> Seq<char> {
        actual_text(self.module, self.loc, self.context.kind)
    }

    /// The slot of the type that was asked for.
    pub open spec fn expected(self) -> Seq<char> {
        text_or(self.context.slot, expected_text(self.module, self.loc, self.context.kind))
    }

    /// The assumption that an expression has the type that was found: not for the user to
    /// change, and given up last.
    pub open spec fn actual_assumption(self, id: Seq<char>) -> Assumption {
        Assumption {
            id,
            module: self.module.name@,
            file: self.module.path@,
            range: recorded_range(self.loc),
            kind: "local_inferred_type"@,
            slot: self.actual(),
            typ: self.got,
            source_kind: "pyrefly_check"@,
            source_text: self.got,
            editable: false,
            weight: 100,
        }
    }

    /// The assumption that the type that was asked for is the right one: open to change, and
    /// given up first.
    pub open spec fn expected_assumption(self, id: Seq<char>) -> Assumption {
        Assumption {
            id,
            module: self.module.name@,
            file: self.module.path@,
            range: recorded_range(self.loc),
            kind: "explicit_annotation"@,
            slot: self.expected(),
            typ: self.want,
            source_kind: "pyrefly_check"@,
            source_text: self.want,
            editable: true,
            weight: 5,
        }
    }

    /// The comparison itself.
    pub open spec fn obligation(
        self,
        id: Seq<char>,
        actual_id: Seq<char>,
        expected_id: Seq<char>,
        diagnostic_id: Option<Seq<char>>,
    ) -> Obligation {
        Obligation {
            id,
            module: self.module.name@,
            file: self.module.path@,
            range: recorded_range(self.loc),
            kind: kind_text(self.context.kind),
            relation: "assignable"@,
            got: self.got,
            want: self.want,
            actual: self.actual(),
            expected: self.expected(),
            dependencies: seq![actual_id, expected_id],
            result: self.result,
            diagnostic_id,
        }
    }

    /// The report of a failure.
    pub open spec fn diagnostic(self, id: Seq<char>, obligation_id: Seq<char>) -> Diagnostic {
        Diagnostic {
            id,
            obligation: Some(obligation_id),
            error_kind: self.context.error_kind@,
            message: self.message(),
            file: self.module.path@,
            range: recorded_range(self.loc),
        }
    }
}

impl TraceState {
    /// The state in which a program starts.
    pub open spec fn initial() -> TraceState {
        TraceState { pending: None, assumption_id: 1, obligation_id: 1, diagnostic_id: 1 }
    }

    /// Whether requests are recorded.
    pub open spec fn enabled(self) -> bool {
        self.pending is Some
    }

    /// The text that was recorded and not yet handed out.
    pub open spec fn text(self) -> Seq<char> {
        match self.pending {
            Some(text) => text,
            None => seq![],
        }
    }

    /// The identifier of the next obligation.
    pub open spec fn next_obligation(self) -> Seq<char> {
        identifier("O"@, self.obligation_id)
    }

    /// The identifier of the next diagnostic.
    pub open spec fn next_diagnostic(self) -> Seq<char> {
        identifier("E"@, self.diagnostic_id)
    }

    /// The events of a comparison: the two assumptions that it rests on, the comparison, and a
    /// diagnostic where it failed.
    pub open spec fn check_events(self, c: Check) -> Seq<Event> {
        let actual_id = identifier("A"@, self.assumption_id);
        let expected_id = identifier("A"@, following(self.assumption_id));
        let obligation_id = self.next_obligation();
        let diagnostic_id = if c.failed() {
            Some(self.next_diagnostic())
        } else {
            None
        };
        let first = seq![
            Event::Assumption(c.actual_assumption(actual_id)),
            Event::Assumption(c.expected_assumption(expected_id)),
            Event::Obligation(c.obligation(obligation_id, actual_id, expected_id, diagnostic_id)),
        ];
        if c.failed() {
            first.push(Event::Diagnostic(c.diagnostic(self.next_diagnostic(), obligation_id)))
        } else {
            first
        }
    }

    /// The state after the numbers for a comparison were given out.
    pub open spec fn after_check(self, c: Check) -> TraceState {
        TraceState {
            pending: self.pending,
            assumption_id: following(following(self.assumption_id)),
            obligation_id: following(self.obligation_id),
            diagnostic_id: if c.failed() {
                following(self.diagnostic_id)
            } else {
                self.diagnostic_id
            },
        }
    }

    /// The event of a report.
    pub open spec fn report_event(self, e: ReportedError) -> Event {
        Event::Diagnostic(
            Diagnostic {
                id: self.next_diagnostic(),
                obligation: None,
                error_kind: e.error_kind@,
                message: e.msg@,
                file: e.path@,
                range: recorded_range(e.display_range),
            },
        )
    }

    /// The state after the number for a report was given out.
    pub open spec fn after_report(self) -> TraceState {
        TraceState { diagnostic_id: following(self.diagnostic_id), ..self }
    }

    /// The state after a new sink was put in place: enabled, with nothing to write yet.
    pub open spec fn started(self) -> TraceState {
        TraceState { pending: Some(seq![]), ..self }
    }

    /// The state after the text to write was handed out.
    pub open spec fn handed_out(self) -> TraceState {
        if self.enabled() {
            self.started()
        } else {
            self
        }
    }

    /// The state after the lines of the given events were recorded.
    pub open spec fn written(self, events: Seq<Event>) -> TraceState {
        match self.pending {
            Some(text) => TraceState { pending: Some(text + lines(events)), ..self },
            None => self,
        }
    }

    /// The events that a request leaves in the trace: none while the trace is disabled.
    pub open spec fn events(self, r: Request) -> Seq<Event> {
        if self.enabled() {
            match r {
                Request::Check(c) => self.check_events(c),
                Request::Report(e) => seq![self.report_event(e)],
            }
        } else {
            seq![]
        }
    }

    /// The state after a request was recorded.
    pub open spec fn after(self, r: Request) -> TraceState {
        if self.enabled() {
            match r {
                Request::Check(c) => self.after_check(c).written(self.check_events(c)),
                Request::Report(e) => self.after_report().written(seq![self.report_event(e)]),
            }
        } else {
            self
        }
    }
}

/// The contents of the given events.
pub open spec fn contents(events: Seq<TraceEvent>) -> Seq<Event> {
    events.map_values(|e: TraceEvent| e@)
}

/// Gives out the next identifier of a counter.
pub fn next_id(prefix: &str, counter: &mut usize) -> (r: String)
    ensures
        r@ == identifier(prefix@, *old(counter)),
        *final(counter) == following(*old(counter)),
{
    let mut id = prefix.to_owned();
    push_decimal(&mut id, *counter);
    *counter = counter.wrapping_add(1);
    id
}

/// What the user is told where the file of a trace cannot be created.
pub open spec fn create_failure(path: Seq<char>) -> Seq<char> {
    "while creating type trace `"@ + path + "`"@
}

impl View for Trace {
    type V = TraceState;

    closed spec fn view(&self) -> TraceState {
        TraceState {
            pending: match self.sink {
                Some(sink) => Some(sink.pending@),
                None => None,
            },
            assumption_id: self.assumption_id,
            obligation_id: self.obligation_id,
            diagnostic_id: self.diagnostic_id,
        }
    }
}

impl Trace {
    /// A trace as a program starts with it: disabled.
    pub fn new() -> (r: Trace)
        ensures
            r@ == TraceState::initial(),
    {
        Trace { sink: None, assumption_id: 1, obligation_id: 1, diagnostic_id: 1 }
    }

    /// Starts a trace in the file at `path`, once it is known whether the file was `created`.
    /// If it was, hands back what was left to write of the trace before. If not, the trace goes
    /// on as it was.
    pub fn init(&mut self, path: &str, created: bool) -> (r: Result<String, String>)
        ensures
            created ==> {
                &&& r is Ok
                &&& r->Ok_0@ == old(self)@.text()
                &&& final(self)@ == old(self)@.started()
            },
            !created ==> {
                &&& r is Err
                &&& r->Err_0@ == create_failure(path@)
                &&& final(self)@ == old(self)@
            },
    {
        if created {
            let rest = self.close();
            self.sink = Some(JsonlSink { pending: String::new() });
            Ok(rest)
        } else {
            let mut context = "while creating type trace `".to_owned();
            context.append(path);
            context.append("`");
            Err(context)
        }
    }

    /// Disables the trace and hands out what was left to write.
    fn close(&mut self) -> (r: String)
        ensures
            r@ == old(self)@.text(),
            final(self)@ == (TraceState { pending: None, ..old(self)@ }),
    {
        match self.sink.take() {
            Some(sink) => sink.pending,
            None => String::new(),
        }
    }

    /// Hands out what is left to write. The trace stays as enabled as it was.
    pub fn finish(&mut self) -> (r: String)
        ensures
            r@ == old(self)@.text(),
            final(self)@ == old(self)@.handed_out(),
    {
        let enabled = self.is_enabled();
        let rest = self.close();
        if enabled {
            self.sink = Some(JsonlSink { pending: String::new() });
        }
        rest
    }

    /// Whether requests are recorded.
    pub fn is_enabled(&self) -> (r: bool)
        ensures
            r == self@.enabled(),
    {
        self.sink.is_some()
    }

    /// Puts the trace back into the state in which a program starts, and hands out what was left
    /// to write.
    pub fn reset_for_tests(&mut self) -> (r: String)
        ensures
            r@ == old(self)@.text(),
            final(self)@ == TraceState::initial(),
    {
        let rest = self.close();
        self.assumption_id = 1;
        self.obligation_id = 1;
        self.diagnostic_id = 1;
        rest
    }

    /// Records the line of an event, if the trace is enabled.
    fn write_event(&mut self, event: &TraceEvent)
        ensures
            final(self)@ == old(self)@.written(seq![event@]),
    {
        match self.sink.take() {
            Some(mut sink) => {
                sink.pending.append(event.to_json().as_str());
                sink.pending.push('\n');
                proof {
                    let one = seq![event@];
                    assert(one.drop_last() =~= seq![]);
                    assert(lines(one.drop_last()) =~= seq![]);
                    assert(sink.pending@ =~= old(self)@.text() + lines(one));
                }
                self.sink = Some(sink);
            },
            None => {},
        }
    }

    /// Gives out the numbers for a comparison and builds its events.
    fn type_obligation_events(
        &mut self,
        module: &Module,
        loc: DisplayRange,
        context: &TypeCheckContext,
        got: String,
        want: String,
        result: &'static str,
    ) -> (r: Vec<TraceEvent>)
        ensures
            contents(r@) == old(self)@.check_events(
                (Check {
                    module: *module,
                    loc,
                    context: *context,
                    got: got@,
                    want: want@,
                    result: result@,
                }),
            ),
            final(self)@ == old(self)@.after_check(
                (Check {
                    module: *module,
                    loc,
                    context: *context,
                    got: got@,
                    want: want@,
                    result: result@,
                }),
            ),
    {
        let ghost check = Check {
            module: *module,
            loc,
            context: *context,
            got: got@,
            want: want@,
            result: result@,
        };
        let obligation_id = next_id("O", &mut self.obligation_id);
        let actual_id = next_id("A", &mut self.assumption_id);
        let expected_id = next_id("A", &mut self.assumption_id);
        let diagnostic_id = if result.to_owned() == "error".to_owned() {
            Some(next_id("E", &mut self.diagnostic_id))
        } else {
            None
        };
        let actual = actual_slot(module, loc, &context.kind);
        let expected = match &context.slot {
            Some(slot) => slot.clone(),
            None => expected_slot(module, loc, &context.kind),
        };
        let range = trace_range(loc);
        let mut events = vec![
            TraceEvent::Assumption(
                AssumptionEvent {
                    id: actual_id.clone(),
                    module: module.name.clone(),
                    file: module.path.clone(),
                    range,
                    kind: "local_inferred_type",
                    slot: actual.clone(),
                    typ: got.clone(),
                    source: TraceSource { kind: "pyrefly_check", text: got.clone() },
                    editable: false,
                    weight: 100,
                },
            ),
            TraceEvent::Assumption(
                AssumptionEvent {
                    id: expected_id.clone(),
                    module: module.name.clone(),
                    file: module.path.clone(),
                    range,
                    kind: "explicit_annotation",
                    slot: expected.clone(),
                    typ: want.clone(),
                    source: TraceSource { kind: "pyrefly_check", text: want.clone() },
                    editable: true,
                    weight: 5,
                },
            ),
            TraceEvent::Obligation(
                ObligationEvent {
                    id: obligation_id.clone(),
                    module: module.name.clone(),
                    file: module.path.clone(),
                    range,
                    kind: obligation_kind(&context.kind),
                    relation: "assignable",
                    got: got.clone(),
                    want: want.clone(),
                    slots: ObligationSlots { actual, expected },
                    dependencies: vec![actual_id, expected_id],
                    result,
                    diagnostic_id: diagnostic_id.clone(),
                },
            ),
        ];
        if let Some(diagnostic_id) = diagnostic_id {
            let mut message = "Type `".to_owned();
            message.append(got.as_str());
            message.append("` is not assignable to `");
            message.append(want.as_str());
            message.append("`");
            events.push(
                TraceEvent::Diagnostic(
                    DiagnosticEvent {
                        id: diagnostic_id,
                        obligation: Some(obligation_id),
                        error_kind: context.error_kind.clone(),
                        message,
                        file: module.path.clone(),
                        range,
                    },
                ),
            );
        }
        assert(contents(events@) =~~= old(self)@.check_events(check));
        events
    }

    /// Records a comparison, if the trace is enabled.
    pub fn record_type_obligation(
        &mut self,
        module: &Module,
        loc: DisplayRange,
        context: &TypeCheckContext,
        got: String,
        want: String,
        result: &'static str,
    )
        ensures
            final(self)@ == old(self)@.after(
                Request::Check(
                    (Check {
                        module: *module,
                        loc,
                        context: *context,
                        got: got@,
                        want: want@,
                        result: result@,
                    }),
                ),
            ),
    {
        if !self.is_enabled() {
            return;
        }
        let events = self.type_obligation_events(module, loc, context, got, want, result);
        let ghost numbered = self@;
        let ghost all = contents(events@);
        assert(all.take(0) =~= seq![]);
        assert(numbered.written(all.take(0)) =~= numbered);
        let mut i: usize = 0;
        while i < events.len()
            invariant
                i <= events.len(),
                all == contents(events@),
                self@ == numbered.written(all.take(i as int)),
            decreases events.len() - i,
        {
            self.write_event(&events[i]);
            proof {
                lemma_lines_snoc(all.take(i as int), all[i as int]);
                assert(all.take(i + 1) =~= all.take(i as int).push(all[i as int]));
                lemma_lines_snoc(seq![], all[i as int]);
                assert(seq![].push(all[i as int]) =~= seq![all[i as int]]);
            }
            i = i + 1;
        }
        assert(all.take(i as int) =~= all);
    }

    /// Records a reported error, if the trace is enabled.
    pub fn record_diagnostic(&mut self, error: &ReportedError)
        ensures
            final(self)@ == old(self)@.after(Request::Report(*error)),
    {
        if !self.is_enabled() {
            return;
        }
        let event = TraceEvent::Diagnostic(
            DiagnosticEvent {
                id: next_id("E", &mut self.diagnostic_id),
                obligation: None,
                error_kind: error.error_kind.clone(),
                message: error.msg.clone(),
                file: error.path.clone(),
                range: trace_range(error.display_range),
            },
        );
        assert(event@ == old(self)@.report_event(*error));
        self.write_event(&event);
    }
}

/// The line of the last event stands at the end.
proof fn lemma_lines_snoc(events: Seq<Event>, last: Event)
    ensures
        lines(events.push(last)) == lines(events) + last.line(),
{
    assert(events.push(last).drop_last() =~= events);
}

} // verus!
