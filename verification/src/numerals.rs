//! Decimal numerals, described by what they denote.

use vstd::prelude::*;
use crate::text::{decimal, digit, lemma_decimal_len};

verus! {

/// Whether a text consists of the ASCII digits, code points 48 to 57.
pub open spec fn all_digits(t: Seq<char>) -> bool {
    forall|i: int| 0 <= i < t.len() ==> 48 <= (#[trigger] t[i]) as int <= 57
}

/// The number that a row of digits denotes.
pub open spec fn value(t: Seq<char>) -> nat
    decreases t.len(),
{
    if t.len() == 0 {
        0
    } else {
        10 * value(t.drop_last()) + (t.last() as int - 48) as nat
    }
}

/// Whether `t` is how `n` is written: digits that denote `n`, without a leading zero.
pub open spec fn numeral(t: Seq<char>, n: nat) -> bool {
    &&& t.len() > 0
    &&& all_digits(t)
    &&& value(t) == n
    &&& t.len() > 1 ==> t[0] as int != 48
}

proof fn lemma_first_digit(n: nat)
    requires
        n > 0,
    ensures
        decimal(n).len() > 0,
        decimal(n)[0] as int != 48,
    decreases n,
{
    if n >= 10 {
        lemma_first_digit(n / 10);
    }
}

/// What is written for a number denotes that number, without a leading zero.
pub proof fn law_decimal_denotes(n: nat)
    ensures
        numeral(decimal(n), n),
    decreases n,
{
    lemma_decimal_len(n);
    if n >= 10 {
        law_decimal_denotes(n / 10);
        lemma_first_digit(n);
        assert(decimal(n).drop_last() =~= decimal(n / 10));
    } else {
        assert(decimal(n).drop_last() =~= seq![]);
        assert(value(decimal(n).drop_last()) == 0);
    }
}

proof fn lemma_value_positive(t: Seq<char>)
    requires
        t.len() > 0,
        all_digits(t),
        t[0] as int != 48,
    ensures
        value(t) > 0,
    decreases t.len(),
{
    if t.len() > 1 {
        lemma_value_positive(t.drop_last());
    }
}

/// A number is written in one way only.
pub proof fn law_numeral_is_unique(t: Seq<char>, n: nat)
    requires
        numeral(t, n),
    ensures
        t == decimal(n),
    decreases t.len(),
{
    let front = t.drop_last();
    let d = (t.last() as int - 48) as nat;
    assert(t.last() == digit(d));
    assert(t =~= front.push(t.last()));
    if t.len() == 1 {
        assert(value(front) == 0);
        assert(t =~= seq![digit(n)]);
    } else {
        lemma_value_positive(front);
        law_numeral_is_unique(front, value(front));
        assert(n / 10 == value(front) && n % 10 == d);
    }
}

} // verus!
