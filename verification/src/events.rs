//! The events of a trace.

use vstd::prelude::*;
use crate::slots::TraceRange;

verus! {

/// Where an assumption comes from.
pub struct TraceSource {
    pub kind: &'static str,
    pub text: String,
}

/// A type that a check takes for granted.
pub struct AssumptionEvent {
    pub id: String,
    pub module: String,
    pub file: String,
    pub range: TraceRange,
    pub kind: &'static str,
    pub slot: String,
    pub typ: String,
    pub source: TraceSource,
    /// Whether the user can change the assumption.
    pub editable: bool,
    /// How reluctantly the assumption is given up.
    pub weight: u32,
}

/// The slots of the two types that an obligation compares.
pub struct ObligationSlots {
    pub actual: String,
    pub expected: String,
}

/// A comparison that a check makes.
pub struct ObligationEvent {
    pub id: String,
    pub module: String,
    pub file: String,
    pub range: TraceRange,
    pub kind: &'static str,
    pub relation: &'static str,
    pub got: String,
    pub want: String,
    pub slots: ObligationSlots,
    /// The identifiers of the assumptions that the comparison rests on.
    pub dependencies: Vec<String>,
    pub result: &'static str,
    /// The identifier of the diagnostic that reports the failure, where there is one.
    pub diagnostic_id: Option<String>,
}

/// An error that is reported to the user.
pub struct DiagnosticEvent {
    pub id: String,
    /// The identifier of the obligation that failed, where one is known.
    pub obligation: Option<String>,
    pub error_kind: String,
    pub message: String,
    pub file: String,
    pub range: TraceRange,
}

/// An event of a trace.
pub enum TraceEvent {
    Assumption(AssumptionEvent),
    Obligation(ObligationEvent),
    Diagnostic(DiagnosticEvent),
}

/// The text of an optional string.
pub open spec fn option_text(s: Option<String>) -> Option<Seq<char>> {
    match s {
        Some(t) => Some(t@),
        None => None,
    }
}

/// The contents of an [`AssumptionEvent`].
#[verifier::ext_equal]
pub struct Assumption {
    pub id: Seq<char>,
    pub module: Seq<char>,
    pub file: Seq<char>,
    pub range: TraceRange,
    pub kind: Seq<char>,
    pub slot: Seq<char>,
    pub typ: Seq<char>,
    pub source_kind: Seq<char>,
    pub source_text: Seq<char>,
    pub editable: bool,
    pub weight: u32,
}

/// The contents of an [`ObligationEvent`].
#[verifier::ext_equal]
pub struct Obligation {
    pub id: Seq<char>,
    pub module: Seq<char>,
    pub file: Seq<char>,
    pub range: TraceRange,
    pub kind: Seq<char>,
    pub relation: Seq<char>,
    pub got: Seq<char>,
    pub want: Seq<char>,
    pub actual: Seq<char>,
    pub expected: Seq<char>,
    pub dependencies: Seq<Seq<char>>,
    pub result: Seq<char>,
    pub diagnostic_id: Option<Seq<char>>,
}

/// The contents of a [`DiagnosticEvent`].
#[verifier::ext_equal]
pub struct Diagnostic {
    pub id: Seq<char>,
    pub obligation: Option<Seq<char>>,
    pub error_kind: Seq<char>,
    pub message: Seq<char>,
    pub file: Seq<char>,
    pub range: TraceRange,
}

/// The contents of a [`TraceEvent`].
#[verifier::ext_equal]
pub enum Event {
    Assumption(Assumption),
    Obligation(Obligation),
    Diagnostic(Diagnostic),
}

impl Event {
    /// The identifier of the event.
    pub open spec fn id(self) -> Seq<char> {
        match self {
            Event::Assumption(a) => a.id,
            Event::Obligation(o) => o.id,
            Event::Diagnostic(d) => d.id,
        }
    }
}

impl View for AssumptionEvent {
    type V = Assumption;

    open spec fn view(&self) -> Assumption {
        Assumption {
            id: self.id@,
            module: self.module@,
            file: self.file@,
            range: self.range,
            kind: self.kind@,
            slot: self.slot@,
            typ: self.typ@,
            source_kind: self.source.kind@,
            source_text: self.source.text@,
            editable: self.editable,
            weight: self.weight,
        }
    }
}

impl View for ObligationEvent {
    type V = Obligation;

    open spec fn view(&self) -> Obligation {
        Obligation {
            id: self.id@,
            module: self.module@,
            file: self.file@,
            range: self.range,
            kind: self.kind@,
            relation: self.relation@,
            got: self.got@,
            want: self.want@,
            actual: self.slots.actual@,
            expected: self.slots.expected@,
            dependencies: self.dependencies@.map_values(|d: String| d@),
            result: self.result@,
            diagnostic_id: option_text(self.diagnostic_id),
        }
    }
}

impl View for DiagnosticEvent {
    type V = Diagnostic;

    open spec fn view(&self) -> Diagnostic {
        Diagnostic {
            id: self.id@,
            obligation: option_text(self.obligation),
            error_kind: self.error_kind@,
            message: self.message@,
            file: self.file@,
            range: self.range,
        }
    }
}

impl View for TraceEvent {
    type V = Event;

    open spec fn view(&self) -> Event {
        match self {
            TraceEvent::Assumption(a) => Event::Assumption(a@),
            TraceEvent::Obligation(o) => Event::Obligation(o@),
            TraceEvent::Diagnostic(d) => Event::Diagnostic(d@),
        }
    }
}

} // verus!
