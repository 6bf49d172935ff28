//! Slots: names for the places that a type check is about.

use vstd::prelude::*;
use vstd::string::*;
use crate::text::{decimal, push_decimal};

verus! {

/// A source module, as a trace names it.
pub struct Module {
    /// The dotted module name.
    pub name: String,
    /// The path of its file.
    pub path: String,
}

/// A position in a file, as it is shown to a user.
#[derive(Clone, Copy, Debug, PartialEq, Eq, Structural)]
pub struct DisplayPos {
    pub line_within_file: u32,
    pub column: u32,
}

/// A range in a file, as it is shown to a user.
#[derive(Clone, Copy, Debug, PartialEq, Eq, Structural)]
pub struct DisplayRange {
    pub start: DisplayPos,
    pub end: DisplayPos,
}

/// A range in a file, as a trace records it.
#[derive(Clone, Copy, Debug, PartialEq, Eq, Structural)]
pub struct TraceRange {
    pub start_line: u32,
    pub start_col: u32,
    pub end_line: u32,
    pub end_col: u32,
}

/// What a type check compares. A function is given by its name as it reads from within the
/// checked module, and is absent where the call has no known callee.
pub enum TypeCheckKind {
    /// An argument against a parameter: the parameter's name, the function.
    CallArgument(Option<String>, Option<String>),
    /// An argument against a `*args` parameter: the parameter's name, the function.
    CallVarArgs(Option<String>, Option<String>),
    /// A keyword argument: its name, the parameter's name, the function.
    CallKwArgs(Option<String>, Option<String>, Option<String>),
    /// An unpacked keyword argument against a named parameter: its name, the function.
    CallUnpackKwArg(String, Option<String>),
    /// A value against the annotation of the name that it is bound to.
    AnnotatedName(String),
    /// A value against the type of the attribute that it is stored in.
    Attribute(String),
    /// The value of an annotated assignment.
    AnnAssign,
    /// The value of an unpacking assignment.
    UnpackedAssign,
    /// A `return` statement.
    ExplicitFunctionReturn,
    /// The end of a body without a `return` statement.
    ImplicitFunctionReturn,
    /// The result of a magic method.
    MagicMethodReturn,
    /// The result of a type guard.
    TypeGuardReturn,
    /// An element of a container.
    Container,
    /// Any other comparison.
    Other,
}

/// A type check together with what its report needs.
pub struct TypeCheckContext {
    pub kind: TypeCheckKind,
    /// The slot of the expected type, where the checker knows a better one than the kind gives.
    pub slot: Option<String>,
    /// The name of the error kind under which a failure of this check is reported.
    pub error_kind: String,
}

/// The characters that a slot keeps: ASCII letters and digits, `_`, `.` and `-`.
pub open spec fn is_slot_char(c: char) -> bool {
    ||| 'a' <= c <= 'z'
    ||| 'A' <= c <= 'Z'
    ||| '0' <= c <= '9'
    ||| c == '_'
    ||| c == '.'
    ||| c == '-'
}

/// `s` with `_` in place of each character that a slot does not keep.
pub open spec fn slot_chars(s: Seq<char>) -> Seq<char> {
    s.map_values(|c: char| if is_slot_char(c) { c } else { '_' })
}

/// `s` without its leading underscores.
pub open spec fn trim_start(s: Seq<char>) -> Seq<char>
    decreases s.len(),
{
    if s.len() > 0 && s.first() == '_' {
        trim_start(s.drop_first())
    } else {
        s
    }
}

/// `s` without its trailing underscores.
pub open spec fn trim_end(s: Seq<char>) -> Seq<char>
    decreases s.len(),
{
    if s.len() > 0 && s.last() == '_' {
        trim_end(s.drop_last())
    } else {
        s
    }
}

/// `s` made fit to be a part of a slot.
pub open spec fn sanitized(s: Seq<char>) -> Seq<char> {
    trim_start(trim_end(slot_chars(s)))
}

/// Replaces the characters that a slot does not keep by underscores, and drops the underscores
/// at both ends.
pub fn sanitize_slot_part(x: &str) -> (r: String)
    ensures
        r@ == sanitized(x@),
{
    let mut chars: Vec<char> = Vec::new();
    for c in it: x.chars()
        invariant
            it.seq() == x@,
            chars@ == slot_chars(x@.take(it.index())),
    {
        assert(x@.take(it.index() + 1) =~= x@.take(it.index()).push(c));
        if ('a' <= c && c <= 'z') || ('A' <= c && c <= 'Z') || ('0' <= c && c <= '9') || c == '_'
            || c == '.' || c == '-' {
            chars.push(c);
        } else {
            chars.push('_');
        }
    }
    assert(x@.take(x@.len() as int) =~= x@);
    let mut hi: usize = chars.len();
    assert(chars@.take(hi as int) =~= chars@);
    while hi > 0 && chars[hi - 1] == '_'
        invariant
            hi <= chars@.len(),
            trim_end(chars@) == trim_end(chars@.take(hi as int)),
        decreases hi,
    {
        assert(chars@.take(hi as int).drop_last() =~= chars@.take(hi - 1));
        hi = hi - 1;
    }
    let ghost kept = chars@.take(hi as int);
    let mut lo: usize = 0;
    assert(kept.skip(0) =~= kept);
    while lo < hi && chars[lo] == '_'
        invariant
            lo <= hi <= chars@.len(),
            kept == chars@.take(hi as int),
            trim_start(kept) == trim_start(kept.skip(lo as int)),
        decreases hi - lo,
    {
        assert(kept.skip(lo as int).drop_first() =~= kept.skip(lo + 1));
        lo = lo + 1;
    }
    let mut out = String::new();
    let mut i: usize = lo;
    while i < hi
        invariant
            lo <= i <= hi <= chars@.len(),
            kept == chars@.take(hi as int),
            out@ == kept.subrange(lo as int, i as int),
        decreases hi - i,
    {
        out.push(chars[i]);
        i = i + 1;
    }
    assert(out@ =~= kept.skip(lo as int));
    out
}

/// What stands for a name in a slot: the name itself, or `_` where there is none.
pub open spec fn name_text(name: Option<String>) -> Seq<char> {
    match name {
        Some(n) => n@,
        None => "_"@,
    }
}

/// What stands for a function in a slot: its name, or that of the module where there is no
/// function.
pub open spec fn function_text(module: Module, func: Option<String>) -> Seq<char> {
    match func {
        Some(f) => sanitized(f@),
        None => sanitized(module.name@),
    }
}

/// The name of a function in a slot.
pub fn function_slot_name(module: &Module, func: &Option<String>) -> (r: String)
    ensures
        r@ == function_text(*module, *func),
{
    match func {
        Some(f) => sanitize_slot_part(f.as_str()),
        None => sanitize_slot_part(module.name.as_str()),
    }
}

/// The line and column numbers of a displayed range.
pub fn trace_range(display: DisplayRange) -> (r: TraceRange)
    ensures
        r == recorded_range(display),
{
    TraceRange {
        start_line: display.start.line_within_file,
        start_col: display.start.column,
        end_line: display.end.line_within_file,
        end_col: display.end.column,
    }
}

/// The range that a trace records for a displayed range.
pub open spec fn recorded_range(display: DisplayRange) -> TraceRange {
    TraceRange {
        start_line: display.start.line_within_file,
        start_col: display.start.column,
        end_line: display.end.line_within_file,
        end_col: display.end.column,
    }
}

/// `path:line:column`, of the start of a range.
pub open spec fn range_text(module: Module, loc: DisplayRange) -> Seq<char> {
    module.path@ + ":"@ + decimal(loc.start.line_within_file as nat) + ":"@ + decimal(
        loc.start.column as nat,
    )
}

/// The slot of a place that has no name: its path, line and column.
pub fn range_slot(module: &Module, loc: DisplayRange) -> (r: String)
    ensures
        r@ == range_text(*module, loc),
{
    let range = trace_range(loc);
    let mut out = module.path.clone();
    out.append(":");
    push_decimal(&mut out, range.start_line as usize);
    out.append(":");
    push_decimal(&mut out, range.start_col as usize);
    out
}

/// `prefix`, `middle` and `suffix` in a row.
fn enclose(prefix: &str, middle: &str, suffix: &str) -> (r: String)
    ensures
        r@ == prefix@ + middle@ + suffix@,
{
    let mut out = prefix.to_owned();
    out.append(middle);
    out.append(suffix);
    out
}

/// The name in a slot of something that may have no name.
fn name_or_underscore(name: &Option<String>) -> (r: String)
    ensures
        r@ == name_text(*name),
{
    match name {
        Some(n) => n.clone(),
        None => "_".to_owned(),
    }
}

/// The slot of the type that was found.
pub open spec fn actual_text(module: Module, loc: DisplayRange, kind: TypeCheckKind) -> Seq<char> {
    match kind {
        TypeCheckKind::CallArgument(name, func) => "call:"@ + function_text(module, func)
            + ":arg:"@ + name_text(name),
        TypeCheckKind::CallVarArgs(name, func) => "call:"@ + function_text(module, func)
            + ":arg:"@ + name_text(name),
        TypeCheckKind::CallKwArgs(arg, param, func) => "call:"@ + function_text(module, func)
            + ":kwarg:"@ + name_text(arg),
        TypeCheckKind::CallUnpackKwArg(name, func) => "call:"@ + function_text(module, func)
            + ":unpack_kwarg:"@ + name@,
        TypeCheckKind::AnnotatedName(name) => "local:"@ + name@ + ":value"@,
        TypeCheckKind::Attribute(name) => "attribute:"@ + name@ + ":value"@,
        TypeCheckKind::AnnAssign => "assignment:"@ + range_text(module, loc) + ":value"@,
        TypeCheckKind::ExplicitFunctionReturn
        | TypeCheckKind::ImplicitFunctionReturn
        | TypeCheckKind::MagicMethodReturn
        | TypeCheckKind::TypeGuardReturn => "return:"@ + range_text(module, loc) + ":expr"@,
        TypeCheckKind::UnpackedAssign
        | TypeCheckKind::Container
        | TypeCheckKind::Other => "expr:"@ + range_text(module, loc) + ":actual"@,
    }
}

/// The slot of the type that was found.
pub fn actual_slot(module: &Module, loc: DisplayRange, kind: &TypeCheckKind) -> (r: String)
    ensures
        r@ == actual_text(*module, loc, *kind),
{
    match kind {
        TypeCheckKind::CallArgument(name, func) | TypeCheckKind::CallVarArgs(name, func) => {
            let mut out = enclose("call:", function_slot_name(module, func).as_str(), ":arg:");
            out.append(name_or_underscore(name).as_str());
            out
        },
        TypeCheckKind::CallKwArgs(arg, _, func) => {
            let mut out = enclose("call:", function_slot_name(module, func).as_str(), ":kwarg:");
            out.append(name_or_underscore(arg).as_str());
            out
        },
        TypeCheckKind::CallUnpackKwArg(name, func) => {
            let mut out = enclose(
                "call:",
                function_slot_name(module, func).as_str(),
                ":unpack_kwarg:",
            );
            out.append(name.as_str());
            out
        },
        TypeCheckKind::AnnotatedName(name) => enclose("local:", name.as_str(), ":value"),
        TypeCheckKind::Attribute(name) => enclose("attribute:", name.as_str(), ":value"),
        TypeCheckKind::AnnAssign => enclose(
            "assignment:",
            range_slot(module, loc).as_str(),
            ":value",
        ),
        TypeCheckKind::ExplicitFunctionReturn
        | TypeCheckKind::ImplicitFunctionReturn
        | TypeCheckKind::MagicMethodReturn
        | TypeCheckKind::TypeGuardReturn => enclose(
            "return:",
            range_slot(module, loc).as_str(),
            ":expr",
        ),
        _ => enclose("expr:", range_slot(module, loc).as_str(), ":actual"),
    }
}

/// The slot of the type that was asked for, as the kind of check gives it.
pub open spec fn expected_text(
    module: Module,
    loc: DisplayRange,
    kind: TypeCheckKind,
) -> Seq<char> {
    match kind {
        TypeCheckKind::CallArgument(name, func) => "function:"@ + function_text(module, func)
            + ":param:"@ + name_text(name),
        TypeCheckKind::CallVarArgs(name, func) => "function:"@ + function_text(module, func)
            + ":param:"@ + name_text(name),
        TypeCheckKind::CallKwArgs(arg, param, func) => "function:"@ + function_text(module, func)
            + ":param:"@ + name_text(param),
        TypeCheckKind::CallUnpackKwArg(name, func) => "function:"@ + function_text(module, func)
            + ":param:"@ + name@,
        TypeCheckKind::AnnotatedName(name) => "local:"@ + name@ + ":annotation"@,
        TypeCheckKind::Attribute(name) => "attribute:"@ + name@ + ":annotation"@,
        TypeCheckKind::AnnAssign => "assignment:"@ + range_text(module, loc) + ":annotation"@,
        TypeCheckKind::ExplicitFunctionReturn
        | TypeCheckKind::ImplicitFunctionReturn
        | TypeCheckKind::MagicMethodReturn
        | TypeCheckKind::TypeGuardReturn => "function:"@ + module.name@ + ":return:"@ + range_text(
            module,
            loc,
        ),
        TypeCheckKind::UnpackedAssign
        | TypeCheckKind::Container
        | TypeCheckKind::Other => "expr:"@ + range_text(module, loc) + ":expected"@,
    }
}

/// The slot of the type that was asked for, as the kind of check gives it.
pub fn expected_slot(module: &Module, loc: DisplayRange, kind: &TypeCheckKind) -> (r: String)
    ensures
        r@ == expected_text(*module, loc, *kind),
{
    match kind {
        TypeCheckKind::CallArgument(name, func) | TypeCheckKind::CallVarArgs(name, func) => {
            let mut out = enclose(
                "function:",
                function_slot_name(module, func).as_str(),
                ":param:",
            );
            out.append(name_or_underscore(name).as_str());
            out
        },
        TypeCheckKind::CallKwArgs(_, param, func) => {
            let mut out = enclose(
                "function:",
                function_slot_name(module, func).as_str(),
                ":param:",
            );
            out.append(name_or_underscore(param).as_str());
            out
        },
        TypeCheckKind::CallUnpackKwArg(name, func) => {
            let mut out = enclose(
                "function:",
                function_slot_name(module, func).as_str(),
                ":param:",
            );
            out.append(name.as_str());
            out
        },
        TypeCheckKind::AnnotatedName(name) => enclose("local:", name.as_str(), ":annotation"),
        TypeCheckKind::Attribute(name) => enclose("attribute:", name.as_str(), ":annotation"),
        TypeCheckKind::AnnAssign => enclose(
            "assignment:",
            range_slot(module, loc).as_str(),
            ":annotation",
        ),
        TypeCheckKind::ExplicitFunctionReturn
        | TypeCheckKind::ImplicitFunctionReturn
        | TypeCheckKind::MagicMethodReturn
        | TypeCheckKind::TypeGuardReturn => {
            let mut out = enclose("function:", module.name.as_str(), ":return:");
            out.append(range_slot(module, loc).as_str());
            out
        },
        _ => enclose("expr:", range_slot(module, loc).as_str(), ":expected"),
    }
}

/// The name of the group that a kind of check belongs to.
pub open spec fn kind_text(kind: TypeCheckKind) -> Seq<char> {
    match kind {
        TypeCheckKind::ExplicitFunctionReturn
        | TypeCheckKind::ImplicitFunctionReturn
        | TypeCheckKind::MagicMethodReturn
        | TypeCheckKind::TypeGuardReturn => "return"@,
        TypeCheckKind::CallArgument(..)
        | TypeCheckKind::CallVarArgs(..)
        | TypeCheckKind::CallKwArgs(..)
        | TypeCheckKind::CallUnpackKwArg(..) => "call_argument"@,
        TypeCheckKind::AnnAssign
        | TypeCheckKind::AnnotatedName(_)
        | TypeCheckKind::Attribute(_)
        | TypeCheckKind::UnpackedAssign => "assignment"@,
        TypeCheckKind::Container => "container_element"@,
        TypeCheckKind::Other => "assignability"@,
    }
}

/// The name of the group that a kind of check belongs to.
pub fn obligation_kind(kind: &TypeCheckKind) -> (r: &'static str)
    ensures
        r@ == kind_text(*kind),
{
    match kind {
        TypeCheckKind::ExplicitFunctionReturn
        | TypeCheckKind::ImplicitFunctionReturn
        | TypeCheckKind::MagicMethodReturn
        | TypeCheckKind::TypeGuardReturn => "return",
        TypeCheckKind::CallArgument(..)
        | TypeCheckKind::CallVarArgs(..)
        | TypeCheckKind::CallKwArgs(..)
        | TypeCheckKind::CallUnpackKwArg(..) => "call_argument",
        TypeCheckKind::AnnAssign
        | TypeCheckKind::AnnotatedName(_)
        | TypeCheckKind::Attribute(_)
        | TypeCheckKind::UnpackedAssign => "assignment",
        TypeCheckKind::Container => "container_element",
        _ => "assignability",
    }
}

} // verus!
