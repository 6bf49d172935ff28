# diagnosis_trace

A verified recorder of type-checking diagnosis traces, written in Verus.

A type checker hands over every comparison of the type that it found against the type that was
asked for, and every error that it reports. While the trace is enabled, each comparison leaves two
assumptions and an obligation that depends on them, followed by a diagnostic where it failed; each
report leaves a diagnostic. An event is one line of JSON.

- `src/slots.rs`: slots, the names of the places that a check is about.
- `src/events.rs`: the events and what they hold.
- `src/json.rs`: the JSON of an event. Strings are escaped by `serde_json`.
- `src/trace.rs`: the recorder.
- `src/reading.rs`, `src/one_line.rs`: the text of a trace determines its events.
- `src/laws.rs`: identifiers are consecutive and distinct, references resolve, no text is lost.
- `src/text.rs`: decimal numerals.
- `app/`: one recorder per process, with the file that it writes to.
