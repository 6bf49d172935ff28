//! What slots are for: they name a place so that it can be told from others, and the two slots of
//! a check name the same place. All of it is stated by characters and parts, from the outside.

use vstd::prelude::*;
use crate::numerals::{all_digits, law_decimal_denotes, law_numeral_is_unique, numeral};
use crate::slots::{DisplayRange, Module, TypeCheckKind};
use crate::slots::{actual_text, expected_text, kind_text, range_text, recorded_range};
use crate::slots::{function_text, name_text, sanitized, slot_chars, trim_end, trim_start};
use crate::text::{decimal, lemma_decimal_injective};

verus! {

/// Whether `c` is an ASCII letter or digit, an underscore, a full stop or a hyphen, by code point.
pub open spec fn kept(c: char) -> bool {
    let n = c as int;
    ||| 97 <= n <= 122
    ||| 65 <= n <= 90
    ||| 48 <= n <= 57
    ||| n == 95
    ||| n == 46
    ||| n == 45
}

/// Whether `c` is an underscore, or becomes one.
pub open spec fn blank(c: char) -> bool {
    !kept(c) || c as int == 95
}

/// Whether `r` is the part of `s` from `lo` on that lies between its outermost characters that are
/// not blank, with underscores in place of the characters that are not kept.
pub open spec fn cleaned_from(s: Seq<char>, r: Seq<char>, lo: int) -> bool {
    &&& 0 <= lo && lo + r.len() <= s.len()
    &&& forall|i: int| 0 <= i < lo ==> blank(#[trigger] s[i])
    &&& forall|i: int| lo + r.len() <= i < s.len() ==> blank(#[trigger] s[i])
    &&& forall|i: int|
        0 <= i < r.len() ==> (#[trigger] r[i]) as int == (if kept(s[lo + i]) {
            s[lo + i] as int
        } else {
            95
        })
    &&& r.len() > 0 ==> !blank(s[lo]) && !blank(s[lo + r.len() - 1])
}

/// Whether `r` is `s`, cleaned.
pub open spec fn cleaned(s: Seq<char>, r: Seq<char>) -> bool {
    exists|lo: int| cleaned_from(s, r, lo)
}

proof fn lemma_trim_end(s: Seq<char>)
    ensures
        trim_end(s).len() <= s.len(),
        trim_end(s) == s.take(trim_end(s).len() as int),
        forall|i: int| trim_end(s).len() <= i < s.len() ==> (#[trigger] s[i]) as int == 95,
        trim_end(s).len() > 0 ==> trim_end(s).last() as int != 95,
    decreases s.len(),
{
    if s.len() > 0 && s.last() == '_' {
        let t = s.drop_last();
        lemma_trim_end(t);
        assert(trim_end(s) =~= s.take(trim_end(s).len() as int));
        assert forall|i: int| trim_end(s).len() <= i < s.len() implies (#[trigger] s[i]) as int
            == 95 by {
            if i < t.len() {
                assert(t[i] == s[i]);
            }
        }
    } else {
        assert(s.take(s.len() as int) =~= s);
    }
}

proof fn lemma_trim_start(s: Seq<char>)
    ensures
        trim_start(s).len() <= s.len(),
        trim_start(s) == s.skip(s.len() - trim_start(s).len()),
        forall|i: int| 0 <= i < s.len() - trim_start(s).len() ==> (#[trigger] s[i]) as int == 95,
        trim_start(s).len() > 0 ==> trim_start(s).first() as int != 95,
    decreases s.len(),
{
    if s.len() > 0 && s.first() == '_' {
        let t = s.drop_first();
        lemma_trim_start(t);
        assert(trim_start(s) =~= s.skip(s.len() - trim_start(s).len()));
        assert forall|i: int| 0 <= i < s.len() - trim_start(s).len() implies (#[trigger] s[i]) as int
            == 95 by {
            if i > 0 {
                assert(t[i - 1] == s[i]);
            }
        }
    } else {
        assert(s.skip(0) =~= s);
    }
}

/// A part of a slot keeps every ASCII letter and digit, underscore, full stop and hyphen of the
/// text that it is made from, has an underscore for every other character, and leaves out nothing
/// but what is blank at the two ends.
pub proof fn law_sanitized_is_cleaned(s: Seq<char>)
    ensures
        cleaned(s, sanitized(s)),
{
    let m = slot_chars(s);
    let t = trim_end(m);
    let r = sanitized(s);
    lemma_trim_end(m);
    lemma_trim_start(t);
    let lo = t.len() - r.len();
    assert forall|i: int| 0 <= i < s.len() implies (#[trigger] m[i]) as int == (if kept(s[i]) {
        s[i] as int
    } else {
        95
    }) by {}
    assert forall|i: int| 0 <= i < lo implies blank(#[trigger] s[i]) by {
        assert(t[i] == m[i]);
    }
    assert forall|i: int| lo + r.len() <= i < s.len() implies blank(#[trigger] s[i]) by {
        assert(m[i] as int == 95);
    }
    assert forall|i: int| 0 <= i < r.len() implies r[i] == #[trigger] m[lo + i] by {}
    if r.len() > 0 {
        assert(r.first() == m[lo]);
        assert(r.last() == t.last());
        assert(t.last() == m[lo + r.len() - 1]);
    }
    assert(cleaned_from(s, r, lo));
}

/// There is one way only to clean a text.
pub proof fn law_cleaned_is_sanitized(s: Seq<char>, r: Seq<char>)
    requires
        cleaned(s, r),
    ensures
        r == sanitized(s),
{
    law_sanitized_is_cleaned(s);
    let q = sanitized(s);
    let a = choose|lo: int| cleaned_from(s, r, lo);
    let b = choose|lo: int| cleaned_from(s, q, lo);
    if r.len() > 0 {
        assert(!blank(s[a]) && !blank(s[a + r.len() - 1]));
    }
    if q.len() > 0 {
        assert(!blank(s[b]) && !blank(s[b + q.len() - 1]));
    }
    assert forall|i: int| 0 <= i < r.len() && r.len() == q.len() && a == b implies r[i] == q[i] by {
        assert(r[i] as int == q[i] as int);
    }
    assert(r =~= q);
}

/// A text of ASCII letters, digits, underscores, full stops and hyphens (code points 97 to 122, 65
/// to 90, 48 to 57, 95, 46 and 45) that has no underscore at either end is a part of a slot as it
/// is. Nothing else is.
pub proof fn law_sanitize_fixes_exactly_clean_text(s: Seq<char>)
    ensures
        sanitized(s) == s <==> {
            &&& forall|i: int|
                #![trigger s[i]]
                0 <= i < s.len() ==> {
                    let n = s[i] as int;
                    ||| 97 <= n <= 122
                    ||| 65 <= n <= 90
                    ||| 48 <= n <= 57
                    ||| n == 95
                    ||| n == 46
                    ||| n == 45
                }
            &&& s.len() > 0 ==> s[0] as int != 95 && s[s.len() - 1] as int != 95
        },
{
    law_sanitized_is_cleaned(s);
    if sanitized(s) == s {
        let lo = choose|lo: int| cleaned_from(s, s, lo);
        assert(lo == 0);
        assert forall|i: int| 0 <= i < s.len() implies kept(#[trigger] s[i]) by {
            assert(s[i] as int == (if kept(s[lo + i]) {
                s[lo + i] as int
            } else {
                95
            }));
        }
    }
    if (forall|i: int| 0 <= i < s.len() ==> kept(#[trigger] s[i])) && (s.len() > 0 ==> s[0] as int
        != 95 && s[s.len() - 1] as int != 95) {
        assert(cleaned_from(s, s, 0));
        law_cleaned_is_sanitized(s, s);
    }
}

/// Whether `s` is `p` followed by `q`.
pub open spec fn is_row(s: Seq<char>, p: Seq<char>, q: Seq<char>) -> bool {
    &&& s.len() == p.len() + q.len()
    &&& forall|i: int| 0 <= i < p.len() ==> #[trigger] s[i] == p[i]
    &&& forall|i: int| 0 <= i < q.len() ==> s[p.len() + i] == #[trigger] q[i]
}

/// Whether `s` has no colon in it.
pub open spec fn no_colon(s: Seq<char>) -> bool {
    forall|i: int| 0 <= i < s.len() ==> #[trigger] s[i] != ':'
}

/// What a colon separates is read off the text.
proof fn lemma_first_colon(u: Seq<char>, x: Seq<char>, v: Seq<char>, y: Seq<char>)
    requires
        no_colon(u),
        no_colon(v),
        u + (seq![':'] + x) == v + (seq![':'] + y),
    ensures
        u == v,
        x == y,
{
    let l = u + (seq![':'] + x);
    let r = v + (seq![':'] + y);
    let m = u.len() as int;
    let n = v.len() as int;
    assert(l[m] == ':' && r[n] == ':');
    if m < n {
        assert(r[m] == v[m]);
    } else if n < m {
        assert(l[n] == u[n]);
    }
    assert(u =~= l.take(m) && v =~= r.take(m));
    assert(x =~= l.skip(m + 1) && y =~= r.skip(m + 1));
}

/// What the last colon separates is read off the text.
proof fn lemma_last_colon(u: Seq<char>, x: Seq<char>, v: Seq<char>, y: Seq<char>)
    requires
        no_colon(x),
        no_colon(y),
        u + (seq![':'] + x) == v + (seq![':'] + y),
    ensures
        u == v,
        x == y,
{
    let l = u + (seq![':'] + x);
    let r = v + (seq![':'] + y);
    let m = u.len() as int;
    let n = v.len() as int;
    assert(l.len() == m + 1 + x.len() && r.len() == n + 1 + y.len());
    assert(l[m] == ':' && r[n] == ':');
    if m < n {
        assert(l[n] == x[n - m - 1]);
    } else if n < m {
        assert(r[m] == y[m - n - 1]);
    }
    assert(u =~= l.take(m) && v =~= r.take(m));
    assert(x =~= l.skip(m + 1) && y =~= r.skip(m + 1));
}

/// A part of a slot has no colon in it.
pub proof fn law_sanitized_has_no_colon(s: Seq<char>)
    ensures
        no_colon(sanitized(s)),
{
    law_sanitized_is_cleaned(s);
    let r = sanitized(s);
    let lo = choose|lo: int| cleaned_from(s, r, lo);
    assert forall|i: int| 0 <= i < r.len() implies #[trigger] r[i] != ':' by {
        assert(r[i] as int == (if kept(s[lo + i]) {
            s[lo + i] as int
        } else {
            95
        }));
    }
}

/// A function stands in a slot by its own cleaned name, whatever the module; where there is no
/// function, the module stands there by its cleaned name.
pub proof fn law_function_part(module: Module, func: Option<String>)
    ensures
        func matches Some(f) ==> cleaned(f@, function_text(module, func)),
        func is None ==> cleaned(module.name@, function_text(module, func)),
{
    match func {
        Some(f) => law_sanitized_is_cleaned(f@),
        None => law_sanitized_is_cleaned(module.name@),
    }
}

/// Whether a check is about an argument of a call.
pub open spec fn is_call(kind: TypeCheckKind) -> bool {
    kind is CallArgument || kind is CallVarArgs || kind is CallKwArgs || kind is CallUnpackKwArg
}

/// The callee of a call.
pub open spec fn callee(kind: TypeCheckKind) -> Option<String> {
    match kind {
        TypeCheckKind::CallArgument(_, func) => func,
        TypeCheckKind::CallVarArgs(_, func) => func,
        TypeCheckKind::CallKwArgs(_, _, func) => func,
        TypeCheckKind::CallUnpackKwArg(_, func) => func,
        _ => None,
    }
}

/// Whether `t` is the given name, or a single underscore (code point 95) where there is none.
pub open spec fn is_name(t: Seq<char>, name: Option<String>) -> bool {
    match name {
        Some(n) => t == n@,
        None => t.len() == 1 && t[0] as int == 95,
    }
}

/// Whether `t` is the name on the caller's side of a call: that of the keyword for a keyword
/// argument, else that of the parameter.
pub open spec fn is_argument(t: Seq<char>, kind: TypeCheckKind) -> bool {
    match kind {
        TypeCheckKind::CallArgument(name, _) => is_name(t, name),
        TypeCheckKind::CallVarArgs(name, _) => is_name(t, name),
        TypeCheckKind::CallKwArgs(keyword, _, _) => is_name(t, keyword),
        TypeCheckKind::CallUnpackKwArg(name, _) => t == name@,
        _ => false,
    }
}

/// Whether `t` is the name of the parameter of a call.
pub open spec fn is_parameter(t: Seq<char>, kind: TypeCheckKind) -> bool {
    match kind {
        TypeCheckKind::CallArgument(name, _) => is_name(t, name),
        TypeCheckKind::CallVarArgs(name, _) => is_name(t, name),
        TypeCheckKind::CallKwArgs(_, param, _) => is_name(t, param),
        TypeCheckKind::CallUnpackKwArg(name, _) => t == name@,
        _ => false,
    }
}

/// What the actual slot of a call says of how the argument is passed.
pub open spec fn role(kind: TypeCheckKind) -> Seq<char> {
    if kind is CallKwArgs {
        "kwarg:"@
    } else if kind is CallUnpackKwArg {
        "unpack_kwarg:"@
    } else {
        "arg:"@
    }
}

proof fn lemma_call_words()
    ensures
        ":arg:"@ == ":"@ + "arg:"@,
        ":kwarg:"@ == ":"@ + "kwarg:"@,
        ":unpack_kwarg:"@ == ":"@ + "unpack_kwarg:"@,
        ":param:"@ == ":"@ + "param:"@,
{
    reveal_strlit(":");
    reveal_strlit("arg:");
    reveal_strlit(":arg:");
    reveal_strlit("kwarg:");
    reveal_strlit(":kwarg:");
    reveal_strlit("unpack_kwarg:");
    reveal_strlit(":unpack_kwarg:");
    reveal_strlit("param:");
    reveal_strlit(":param:");
    assert(":arg:"@ =~= ":"@ + "arg:"@);
    assert(":kwarg:"@ =~= ":"@ + "kwarg:"@);
    assert(":unpack_kwarg:"@ =~= ":"@ + "unpack_kwarg:"@);
    assert(":param:"@ =~= ":"@ + "param:"@);
}

proof fn lemma_name(t: Seq<char>, name: Option<String>)
    requires
        is_name(t, name),
    ensures
        t == name_text(name),
{
    reveal_strlit("_");
    if name is None {
        assert(t =~= "_"@);
    }
}

proof fn lemma_regroup(p: Seq<char>, f: Seq<char>, x: Seq<char>, r: Seq<char>, a: Seq<char>)
    ensures
        is_row(p + f + (x + r) + a, p + f + x, r + a),
{
    let s = p + f + (x + r) + a;
    assert(s =~= (p + f + x) + (r + a));
}

/// The two slots of a call name the same function, the one as `call:` and the other as
/// `function:`: the callee, cleaned, where it is known, and the module, cleaned, only where it is
/// not. Behind it the one slot says how the argument is passed and the caller's name for it, and
/// the other says the parameter's name.
pub proof fn law_call_slots(
    module: Module,
    loc: DisplayRange,
    kind: TypeCheckKind,
    f: Seq<char>,
    argument: Seq<char>,
    parameter: Seq<char>,
)
    requires
        is_call(kind),
        match callee(kind) {
            Some(g) => cleaned(g@, f),
            None => cleaned(module.name@, f),
        },
        is_argument(argument, kind),
        is_parameter(parameter, kind),
    ensures
        is_row(actual_text(module, loc, kind), "call:"@ + f + ":"@, role(kind) + argument),
        is_row(expected_text(module, loc, kind), "function:"@ + f + ":"@, "param:"@ + parameter),
{
    match callee(kind) {
        Some(g) => law_cleaned_is_sanitized(g@, f),
        None => law_cleaned_is_sanitized(module.name@, f),
    }
    lemma_call_words();
    match kind {
        TypeCheckKind::CallArgument(name, _) => {
            lemma_name(argument, name);
            lemma_name(parameter, name);
        },
        TypeCheckKind::CallVarArgs(name, _) => {
            lemma_name(argument, name);
            lemma_name(parameter, name);
        },
        TypeCheckKind::CallKwArgs(keyword, param, _) => {
            lemma_name(argument, keyword);
            lemma_name(parameter, param);
        },
        _ => {},
    }
    lemma_regroup("call:"@, f, ":"@, role(kind), argument);
    lemma_regroup("function:"@, f, ":"@, "param:"@, parameter);
}

/// The cleaned name, argument and parameter of a call.
proof fn lemma_call_parts(module: Module, kind: TypeCheckKind) -> (r: (
    Seq<char>,
    Seq<char>,
    Seq<char>,
))
    requires
        is_call(kind),
    ensures
        match callee(kind) {
            Some(g) => cleaned(g@, r.0),
            None => cleaned(module.name@, r.0),
        },
        no_colon(r.0),
        is_argument(r.1, kind),
        is_parameter(r.2, kind),
{
    let source = match callee(kind) {
        Some(g) => g@,
        None => module.name@,
    };
    law_sanitized_is_cleaned(source);
    law_sanitized_has_no_colon(source);
    let argument = choose|t: Seq<char>| is_argument(t, kind);
    let parameter = choose|t: Seq<char>| is_parameter(t, kind);
    let one = seq!['_'];
    assert(kind matches TypeCheckKind::CallArgument(Some(n), _) ==> is_argument(n@, kind)
        && is_parameter(n@, kind));
    assert(kind matches TypeCheckKind::CallArgument(None, _) ==> is_argument(one, kind)
        && is_parameter(one, kind));
    assert(kind matches TypeCheckKind::CallVarArgs(Some(n), _) ==> is_argument(n@, kind)
        && is_parameter(n@, kind));
    assert(kind matches TypeCheckKind::CallVarArgs(None, _) ==> is_argument(one, kind)
        && is_parameter(one, kind));
    assert(kind matches TypeCheckKind::CallKwArgs(Some(n), _, _) ==> is_argument(n@, kind));
    assert(kind matches TypeCheckKind::CallKwArgs(None, _, _) ==> is_argument(one, kind));
    assert(kind matches TypeCheckKind::CallKwArgs(_, Some(n), _) ==> is_parameter(n@, kind));
    assert(kind matches TypeCheckKind::CallKwArgs(_, None, _) ==> is_parameter(one, kind));
    assert(kind matches TypeCheckKind::CallUnpackKwArg(n, _) ==> is_argument(n@, kind)
        && is_parameter(n@, kind));
    (sanitized(source), argument, parameter)
}

proof fn lemma_row(s: Seq<char>, p: Seq<char>, q: Seq<char>)
    requires
        is_row(s, p, q),
    ensures
        s == p + q,
{
    assert forall|i: int| 0 <= i < s.len() implies s[i] == (p + q)[i] by {
        if i >= p.len() {
            assert(s[p.len() + (i - p.len())] == q[i - p.len()]);
        }
    }
    assert(s =~= p + q);
}

/// The actual slot of a call tells apart cleaned callees, ways to pass an argument, and names of
/// arguments; the expected slot tells apart cleaned callees and names of parameters.
pub proof fn law_call_slots_tell_apart(
    m: Module,
    l: DisplayRange,
    k: TypeCheckKind,
    n: Module,
    h: DisplayRange,
    j: TypeCheckKind,
)
    requires
        is_call(k),
        is_call(j),
    ensures
        actual_text(m, l, k) == actual_text(n, h, j) ==> {
            &&& function_text(m, callee(k)) == function_text(n, callee(j))
            &&& role(k) == role(j)
            &&& exists|t: Seq<char>| is_argument(t, k) && is_argument(t, j)
        },
        expected_text(m, l, k) == expected_text(n, h, j) ==> {
            &&& function_text(m, callee(k)) == function_text(n, callee(j))
            &&& exists|t: Seq<char>| is_parameter(t, k) && is_parameter(t, j)
        },
{
    let (f, a, p) = lemma_call_parts(m, k);
    let (g, b, q) = lemma_call_parts(n, j);
    law_call_slots(m, l, k, f, a, p);
    law_call_slots(n, h, j, g, b, q);
    lemma_function_part(m, callee(k), f);
    lemma_function_part(n, callee(j), g);
    if actual_text(m, l, k) == actual_text(n, h, j) {
        lemma_rows_apart(actual_text(m, l, k), "call:"@, f, role(k) + a, g, role(j) + b);
        lemma_roles(k, a, j, b);
    }
    if expected_text(m, l, k) == expected_text(n, h, j) {
        lemma_rows_apart(expected_text(m, l, k), "function:"@, f, "param:"@ + p, g, "param:"@ + q);
        let e = "param:"@.len() as int;
        assert(p =~= ("param:"@ + p).skip(e));
        assert(q =~= ("param:"@ + q).skip(e));
    }
}

proof fn lemma_function_part(m: Module, func: Option<String>, f: Seq<char>)
    requires
        match func {
            Some(g) => cleaned(g@, f),
            None => cleaned(m.name@, f),
        },
    ensures
        f == function_text(m, func),
{
    match func {
        Some(g) => law_cleaned_is_sanitized(g@, f),
        None => law_cleaned_is_sanitized(m.name@, f),
    }
}

proof fn lemma_rows_apart(
    s: Seq<char>,
    word: Seq<char>,
    f: Seq<char>,
    x: Seq<char>,
    g: Seq<char>,
    y: Seq<char>,
)
    requires
        is_row(s, word + f + ":"@, x),
        is_row(s, word + g + ":"@, y),
        no_colon(f),
        no_colon(g),
    ensures
        f == g,
        x == y,
{
    reveal_strlit(":");
    assert(":"@ =~= seq![':']);
    lemma_row(s, word + f + ":"@, x);
    lemma_row(s, word + g + ":"@, y);
    let n = word.len() as int;
    assert(s.skip(n) =~= f + (seq![':'] + x));
    assert(s.skip(n) =~= g + (seq![':'] + y));
    lemma_first_colon(f, x, g, y);
}

proof fn lemma_roles(k: TypeCheckKind, a: Seq<char>, j: TypeCheckKind, b: Seq<char>)
    requires
        role(k) + a == role(j) + b,
    ensures
        role(k) == role(j),
        a == b,
{
    reveal_strlit("arg:");
    reveal_strlit("kwarg:");
    reveal_strlit("unpack_kwarg:");
    assert((role(k) + a)[0] == role(k)[0]);
    assert((role(j) + b)[0] == role(j)[0]);
    let n = role(k).len() as int;
    assert(a =~= (role(k) + a).skip(n));
    assert(b =~= (role(j) + b).skip(n));
}

/// Whether a check is about a named variable or attribute.
pub open spec fn is_named(kind: TypeCheckKind) -> bool {
    kind is AnnotatedName || kind is Attribute
}

/// The name of a variable or attribute.
pub open spec fn name_of(kind: TypeCheckKind) -> Seq<char> {
    match kind {
        TypeCheckKind::AnnotatedName(name) => name@,
        TypeCheckKind::Attribute(name) => name@,
        _ => seq![],
    }
}

/// The two slots of a named variable or attribute are the same up to their last part, `:value` and
/// `:annotation`, and what they share says which of the two it is and then its name, character for
/// character. The module and the place do not matter.
pub proof fn law_named_slots(module: Module, loc: DisplayRange, kind: TypeCheckKind)
    requires
        is_named(kind),
    ensures
        ({
            let stem = (if kind is Attribute {
                "attribute:"@
            } else {
                "local:"@
            }) + name_of(kind);
            &&& is_row(actual_text(module, loc, kind), stem, ":value"@)
            &&& is_row(expected_text(module, loc, kind), stem, ":annotation"@)
        }),
{
}

/// Different names, or a variable and an attribute, have different slots.
pub proof fn law_named_slots_tell_apart(
    m: Module,
    l: DisplayRange,
    k: TypeCheckKind,
    n: Module,
    h: DisplayRange,
    j: TypeCheckKind,
)
    requires
        is_named(k),
        is_named(j),
    ensures
        actual_text(m, l, k) == actual_text(n, h, j) <==> k is Attribute == j is Attribute
            && name_of(k) == name_of(j),
        expected_text(m, l, k) == expected_text(n, h, j) <==> k is Attribute == j is Attribute
            && name_of(k) == name_of(j),
{
    reveal_strlit("attribute:");
    reveal_strlit("local:");
    let u = actual_text(m, l, k);
    let v = actual_text(n, h, j);
    let x = expected_text(m, l, k);
    let y = expected_text(n, h, j);
    assert(u[0] == x[0] && (u[0] == 'a' <==> k is Attribute));
    assert(v[0] == y[0] && (v[0] == 'a' <==> j is Attribute));
    if k is Attribute == j is Attribute {
        let d = if k is Attribute {
            10int
        } else {
            6int
        };
        let c = ":value"@.len() as int;
        let e = ":annotation"@.len() as int;
        assert(name_of(k) =~= u.subrange(d, u.len() - c));
        assert(name_of(j) =~= v.subrange(d, v.len() - c));
        assert(name_of(k) =~= x.subrange(d, x.len() - e));
        assert(name_of(j) =~= y.subrange(d, y.len() - e));
    }
}

/// Whether `t` is the path, a colon, the numeral `line`, a colon and the numeral `column`.
pub open spec fn is_position_of(
    t: Seq<char>,
    path: Seq<char>,
    line: Seq<char>,
    column: Seq<char>,
) -> bool {
    t == path + seq![':'] + line + seq![':'] + column
}

/// Whether `t` says where `loc` starts in `module`: the path, and the line and the column as
/// numerals, with colons between them.
pub open spec fn is_position(t: Seq<char>, module: Module, loc: DisplayRange) -> bool {
    exists|line: Seq<char>, column: Seq<char>| #[trigger]
        is_position_of(t, module.path@, line, column) && numeral(
            line,
            loc.start.line_within_file as nat,
        ) && numeral(column, loc.start.column as nat)
}

/// The slot of a place says its path and where it starts.
pub proof fn law_range_is_position(module: Module, loc: DisplayRange)
    ensures
        is_position(range_text(module, loc), module, loc),
{
    let line = decimal(loc.start.line_within_file as nat);
    let column = decimal(loc.start.column as nat);
    law_decimal_denotes(loc.start.line_within_file as nat);
    law_decimal_denotes(loc.start.column as nat);
    reveal_strlit(":");
    assert(":"@ =~= seq![':']);
    assert(is_position_of(range_text(module, loc), module.path@, line, column));
}

/// There is one way only to say where a place starts.
pub proof fn law_position_is_unique(t: Seq<char>, module: Module, loc: DisplayRange)
    requires
        is_position(t, module, loc),
    ensures
        t == range_text(module, loc),
{
    let (line, column) = choose|line: Seq<char>, column: Seq<char>| #[trigger]
        is_position_of(t, module.path@, line, column) && numeral(
            line,
            loc.start.line_within_file as nat,
        ) && numeral(column, loc.start.column as nat);
    law_numeral_is_unique(line, loc.start.line_within_file as nat);
    law_numeral_is_unique(column, loc.start.column as nat);
    reveal_strlit(":");
    assert(":"@ =~= seq![':']);
}

/// Two places have the same slot exactly if they are in the same file and start at the same line
/// and column. Where they end does not matter.
pub proof fn law_positions_tell_apart(m: Module, l: DisplayRange, n: Module, h: DisplayRange)
    ensures
        range_text(m, l) == range_text(n, h) <==> m.path@ == n.path@ && l.start == h.start,
{
    reveal_strlit(":");
    assert(":"@ =~= seq![':']);
    let a = decimal(l.start.line_within_file as nat);
    let b = decimal(l.start.column as nat);
    let c = decimal(h.start.line_within_file as nat);
    let d = decimal(h.start.column as nat);
    law_decimal_denotes(l.start.line_within_file as nat);
    law_decimal_denotes(l.start.column as nat);
    law_decimal_denotes(h.start.line_within_file as nat);
    law_decimal_denotes(h.start.column as nat);
    lemma_digits_no_colon(a);
    lemma_digits_no_colon(b);
    lemma_digits_no_colon(c);
    lemma_digits_no_colon(d);
    if range_text(m, l) == range_text(n, h) {
        let p = m.path@ + (seq![':'] + a);
        let q = n.path@ + (seq![':'] + c);
        assert(range_text(m, l) =~= p + (seq![':'] + b));
        assert(range_text(n, h) =~= q + (seq![':'] + d));
        lemma_last_colon(p, b, q, d);
        lemma_last_colon(m.path@, a, n.path@, c);
        lemma_decimal_injective(l.start.line_within_file as nat, h.start.line_within_file as nat);
        lemma_decimal_injective(l.start.column as nat, h.start.column as nat);
    }
}

proof fn lemma_digits_no_colon(t: Seq<char>)
    requires
        all_digits(t),
    ensures
        no_colon(t),
{
    assert forall|i: int| 0 <= i < t.len() implies #[trigger] t[i] != ':' by {
        assert(t[i] as int <= 57);
    }
}

/// Whether a check is about a function's result.
pub open spec fn is_return(kind: TypeCheckKind) -> bool {
    kind is ExplicitFunctionReturn || kind is ImplicitFunctionReturn || kind is MagicMethodReturn
        || kind is TypeGuardReturn
}

/// A place without a name stands in both slots by the same position. The slots of an annotated
/// assignment, and those of any other expression, are the same up to their last part. The slots of
/// a result say the position of what is returned, and the expected one the module's name before
/// it, character for character.
pub proof fn law_place_slots(
    module: Module,
    loc: DisplayRange,
    kind: TypeCheckKind,
    position: Seq<char>,
)
    requires
        !is_call(kind),
        !is_named(kind),
        is_position(position, module, loc),
    ensures
        kind is AnnAssign ==> {
            &&& is_row(actual_text(module, loc, kind), "assignment:"@ + position, ":value"@)
            &&& is_row(expected_text(module, loc, kind), "assignment:"@ + position, ":annotation"@)
        },
        is_return(kind) ==> {
            &&& is_row(actual_text(module, loc, kind), "return:"@ + position, ":expr"@)
            &&& is_row(
                expected_text(module, loc, kind),
                "function:"@ + module.name@,
                ":return:"@ + position,
            )
        },
        !(kind is AnnAssign) && !is_return(kind) ==> {
            &&& is_row(actual_text(module, loc, kind), "expr:"@ + position, ":actual"@)
            &&& is_row(expected_text(module, loc, kind), "expr:"@ + position, ":expected"@)
        },
{
    law_position_is_unique(position, module, loc);
    if is_return(kind) {
        let e = expected_text(module, loc, kind);
        assert(e =~= ("function:"@ + module.name@) + (":return:"@ + position));
    }
}

/// A place without a name has different slots in different files or at different starts.
pub proof fn law_place_slots_tell_apart(
    m: Module,
    l: DisplayRange,
    n: Module,
    h: DisplayRange,
    kind: TypeCheckKind,
)
    requires
        !is_call(kind),
        !is_named(kind),
    ensures
        actual_text(m, l, kind) == actual_text(n, h, kind) <==> m.path@ == n.path@ && l.start
            == h.start,
        !is_return(kind) ==> (expected_text(m, l, kind) == expected_text(n, h, kind) <==> m.path@
            == n.path@ && l.start == h.start),
{
    law_range_is_position(m, l);
    law_range_is_position(n, h);
    let p = range_text(m, l);
    let q = range_text(n, h);
    law_positions_tell_apart(m, l, n, h);
    law_place_slots(m, l, kind, p);
    law_place_slots(n, h, kind, q);
    let (pre, post, other) = if kind is AnnAssign {
        ("assignment:"@, ":value"@, ":annotation"@)
    } else if is_return(kind) {
        ("return:"@, ":expr"@, seq![])
    } else {
        ("expr:"@, ":actual"@, ":expected"@)
    };
    let u = actual_text(m, l, kind);
    let v = actual_text(n, h, kind);
    lemma_row(u, pre + p, post);
    lemma_row(v, pre + q, post);
    assert(p =~= u.subrange(pre.len() as int, u.len() - post.len()));
    assert(q =~= v.subrange(pre.len() as int, v.len() - post.len()));
    if !is_return(kind) {
        let x = expected_text(m, l, kind);
        let y = expected_text(n, h, kind);
        lemma_row(x, pre + p, other);
        lemma_row(y, pre + q, other);
        assert(p =~= x.subrange(pre.len() as int, x.len() - other.len()));
        assert(q =~= y.subrange(pre.len() as int, y.len() - other.len()));
    }
}

/// Each group has exactly its own kinds of check, whatever names and functions they hold.
pub proof fn law_groups(kind: TypeCheckKind)
    ensures
        kind_text(kind) == "return"@ <==> is_return(kind),
        kind_text(kind) == "call_argument"@ <==> is_call(kind),
        kind_text(kind) == "assignment"@ <==> is_named(kind) || kind is AnnAssign
            || kind is UnpackedAssign,
        kind_text(kind) == "container_element"@ <==> kind is Container,
        kind_text(kind) == "assignability"@ <==> kind is Other,
{
    reveal_strlit("return");
    reveal_strlit("call_argument");
    reveal_strlit("assignment");
    reveal_strlit("container_element");
    reveal_strlit("assignability");
    let k = kind_text(kind);
    assert("return"@.len() == 6 && "call_argument"@.len() == 13 && "assignment"@.len() == 10);
    assert("container_element"@.len() == 17 && "assignability"@.len() == 13);
    assert("call_argument"@[0] == 'c' && "assignability"@[0] == 'a');
}

/// A recorded range says where the displayed one starts and ends, and so tells ranges apart.
pub proof fn law_recorded_range(l: DisplayRange, h: DisplayRange)
    ensures
        recorded_range(l).start_line == l.start.line_within_file,
        recorded_range(l).start_col == l.start.column,
        recorded_range(l).end_line == l.end.line_within_file,
        recorded_range(l).end_col == l.end.column,
        recorded_range(l) == recorded_range(h) ==> l == h,
{
}

} // verus!
