//! A verified recorder of type-checking diagnosis traces.
//!
//! A type checker hands over each comparison of an inferred type against an expected one, and
//! each diagnostic that it reports. The recorder turns them into numbered events (assumptions,
//! obligations, diagnostics) that refer to one another, and each event into one line of JSON.
//!
//! - `text`: decimal numerals.
//! - `slots`: the names of the places that a check is about.
//! - `events`: the three kinds of event.
//! - `json`: the line of JSON that stands for an event.
//! - `trace`: the recorder itself.
//! - `reading`: the JSON of an event determines it.
//! - `one_line`: the lines of a trace determine its events.
//! - `laws`: what else holds of slots and of a trace as a whole.
//! - `numerals`: what decimal numerals denote.
//! - `slot_laws`: what slots say, and what they tell apart.
//! - `parsing`: a reader of JSON, and what it finds in a trace.
//! - `record_laws`: what a request leaves behind, and how two requests relate.

pub mod text;
pub mod slots;
pub mod events;
pub mod json;
pub mod trace;
pub mod reading;
pub mod one_line;
pub mod laws;
pub mod numerals;
pub mod slot_laws;
pub mod parsing;
pub mod record_laws;
