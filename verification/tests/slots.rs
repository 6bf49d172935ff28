use diagnosis_trace::slots::{
    actual_slot, expected_slot, function_slot_name, obligation_kind, range_slot,
    sanitize_slot_part, trace_range, DisplayPos, DisplayRange, Module, TraceRange, TypeCheckKind,
};

fn module() -> Module {
    Module { name: "pkg.mod".to_owned(), path: "src/pkg/mod.py".to_owned() }
}

fn loc() -> DisplayRange {
    DisplayRange {
        start: DisplayPos { line_within_file: 12, column: 1 },
        end: DisplayPos { line_within_file: 4294967295, column: 0 },
    }
}

fn some(s: &str) -> Option<String> {
    Some(s.to_owned())
}

fn check(kind: TypeCheckKind, actual: &str, expected: &str, group: &str) {
    assert_eq!(actual_slot(&module(), loc(), &kind), actual);
    assert_eq!(expected_slot(&module(), loc(), &kind), expected);
    assert_eq!(obligation_kind(&kind), group);
    assert_ne!(actual, expected);
}

#[test]
fn slots_of_calls() {
    check(
        TypeCheckKind::CallArgument(None, None),
        "call:pkg.mod:arg:_",
        "function:pkg.mod:param:_",
        "call_argument",
    );
    check(
        TypeCheckKind::CallVarArgs(some("args"), some("C.f")),
        "call:C.f:arg:args",
        "function:C.f:param:args",
        "call_argument",
    );
    check(
        TypeCheckKind::CallKwArgs(some("k"), some("kwargs"), some("f")),
        "call:f:kwarg:k",
        "function:f:param:kwargs",
        "call_argument",
    );
    check(
        TypeCheckKind::CallKwArgs(None, None, some("f")),
        "call:f:kwarg:_",
        "function:f:param:_",
        "call_argument",
    );
    check(
        TypeCheckKind::CallUnpackKwArg("x".to_owned(), None),
        "call:pkg.mod:unpack_kwarg:x",
        "function:pkg.mod:param:x",
        "call_argument",
    );
}

#[test]
fn slots_of_assignments() {
    check(
        TypeCheckKind::AnnotatedName("x".to_owned()),
        "local:x:value",
        "local:x:annotation",
        "assignment",
    );
    check(
        TypeCheckKind::Attribute("a".to_owned()),
        "attribute:a:value",
        "attribute:a:annotation",
        "assignment",
    );
    check(
        TypeCheckKind::AnnAssign,
        "assignment:src/pkg/mod.py:12:1:value",
        "assignment:src/pkg/mod.py:12:1:annotation",
        "assignment",
    );
    check(
        TypeCheckKind::UnpackedAssign,
        "expr:src/pkg/mod.py:12:1:actual",
        "expr:src/pkg/mod.py:12:1:expected",
        "assignment",
    );
}

#[test]
fn slots_of_returns() {
    for kind in [
        TypeCheckKind::ExplicitFunctionReturn,
        TypeCheckKind::ImplicitFunctionReturn,
        TypeCheckKind::MagicMethodReturn,
        TypeCheckKind::TypeGuardReturn,
    ] {
        check(
            kind,
            "return:src/pkg/mod.py:12:1:expr",
            "function:pkg.mod:return:src/pkg/mod.py:12:1",
            "return",
        );
    }
}

#[test]
fn slots_of_other_checks() {
    check(
        TypeCheckKind::Container,
        "expr:src/pkg/mod.py:12:1:actual",
        "expr:src/pkg/mod.py:12:1:expected",
        "container_element",
    );
    check(
        TypeCheckKind::Other,
        "expr:src/pkg/mod.py:12:1:actual",
        "expr:src/pkg/mod.py:12:1:expected",
        "assignability",
    );
}

#[test]
fn sanitize_drops_outer_underscores() {
    assert_eq!(sanitize_slot_part("_a b_"), "a_b");
    assert_eq!(sanitize_slot_part("__init__"), "init");
    assert_eq!(sanitize_slot_part("Foo[int].bar-1"), "Foo_int_.bar-1");
    assert_eq!(sanitize_slot_part("<lambda>"), "lambda");
    assert_eq!(sanitize_slot_part("caf\u{e9}"), "caf");
    assert_eq!(sanitize_slot_part("\u{e9}t\u{e9}"), "t");
    assert_eq!(sanitize_slot_part("?!"), "");
    assert_eq!(sanitize_slot_part(""), "");
}

#[test]
fn sanitize_is_idempotent() {
    for s in ["_a b_", "x.y", "a__b", "(f)", "-._-", "0:9"] {
        let once = sanitize_slot_part(s);
        assert_eq!(sanitize_slot_part(&once), once);
    }
}

#[test]
fn function_names_are_sanitized() {
    assert_eq!(function_slot_name(&module(), &some("a.<b>")), "a._b");
    assert_eq!(function_slot_name(&module(), &None), "pkg.mod");
}

#[test]
fn ranges() {
    assert_eq!(
        trace_range(loc()),
        TraceRange { start_line: 12, start_col: 1, end_line: 4294967295, end_col: 0 }
    );
    assert_eq!(range_slot(&module(), loc()), "src/pkg/mod.py:12:1");
}
