//! Non-negative integers as sums of coerced literals.

use vstd::prelude::*;
use vstd::string::*;

verus! {

/// The expression that coerces an empty array to the number zero.
pub open spec fn zero_expr() -> Seq<char> {
    "+[]"@
}

/// The expression that coerces a doubly negated empty array to the number one.
/// It opens with the addition sign, so copies written one after another add up.
pub open spec fn one_expr() -> Seq<char> {
    "+!![]"@
}

/// `count` copies of `unit`, one after another.
pub open spec fn repeat(unit: Seq<char>, count: nat) -> Seq<char>
    decreases count,
{
    if count == 0 {
        Seq::empty()
    } else {
        repeat(unit, (count - 1) as nat) + unit
    }
}

/// The expression that stands for `n`: the zero literal, or `n` ones added up.
pub open spec fn number_spec(n: nat) -> Seq<char> {
    if n == 0 {
        zero_expr()
    } else {
        repeat(one_expr(), n)
    }
}

/// Writes `n` as an expression that evaluates to it. The output grows
/// linearly with `n`.
pub fn number(n: usize) -> (out: String)
    ensures
        out@ == number_spec(n as nat),
{
    if n == 0 {
        return String::from_str("+[]");
    }
    let mut out = String::new();
    let mut done: usize = 0;
    while done < n
        invariant
            done <= n,
            out@ == repeat(one_expr(), done as nat),
        decreases n - done,
    {
        out.append("+!![]");
        done = done + 1;
    }
    out
}

/// The length of a repetition is the unit's length times the count.
pub proof fn lemma_repeat_len(unit: Seq<char>, count: nat)
    ensures
        repeat(unit, count).len() == count * unit.len(),
    decreases count,
{
    if count > 0 {
        lemma_repeat_len(unit, (count - 1) as nat);
        assert(count * unit.len() == (count - 1) * unit.len() + unit.len())
            by (nonlinear_arith);
    } else {
        assert(count * unit.len() == 0) by (nonlinear_arith)
            requires
                count == 0,
        ;
    }
}

/// A numeral is three characters long for zero and five per unit otherwise,
/// so its length tells the number back.
pub proof fn lemma_number_len(n: nat)
    ensures
        number_spec(n).len() == if n == 0 { 3 } else { 5 * n },
{
    reveal_strlit("+[]");
    reveal_strlit("+!![]");
    lemma_repeat_len(one_expr(), n);
}

/// Distinct numbers have distinct numerals.
pub proof fn lemma_number_injective(a: nat, b: nat)
    requires
        number_spec(a) == number_spec(b),
    ensures
        a == b,
{
    lemma_number_len(a);
    lemma_number_len(b);
}

/// What a run of coerced literals adds up to under the runtime's arithmetic:
/// each one-literal counts one and each zero-literal nothing. `None` where
/// `expr` is not such a run.
pub open spec fn sum_value(expr: Seq<char>) -> Option<nat>
    decreases expr.len(),
{
    if expr.len() == 0 {
        Some(0nat)
    } else if expr.len() >= 5 && expr.subrange(expr.len() - 5, expr.len() as int) == one_expr() {
        match sum_value(expr.subrange(0, expr.len() - 5)) {
            Some(value) => Some(value + 1),
            None => None,
        }
    } else if expr.len() >= 3 && expr.subrange(expr.len() - 3, expr.len() as int) == zero_expr() {
        sum_value(expr.subrange(0, expr.len() - 3))
    } else {
        None
    }
}

/// The number that a numeral evaluates to: the sum of its literals. The
/// empty text is no numeral.
pub open spec fn numeral_value(expr: Seq<char>) -> Option<nat> {
    if expr.len() == 0 {
        None
    } else {
        sum_value(expr)
    }
}

/// A run of `count` one-literals adds up to `count`.
pub proof fn lemma_ones_value(count: nat)
    ensures
        sum_value(repeat(one_expr(), count)) == Some(count),
    decreases count,
{
    reveal_strlit("+!![]");
    if count > 0 {
        let front = repeat(one_expr(), (count - 1) as nat);
        let whole = repeat(one_expr(), count);
        lemma_ones_value((count - 1) as nat);
        assert(whole.subrange(whole.len() - 5, whole.len() as int) =~= one_expr());
        assert(whole.subrange(0, whole.len() - 5) =~= front);
    }
}

/// Numeric round trip: the numeral of `n` evaluates to `n`.
pub proof fn lemma_number_round_trip(n: nat)
    ensures
        numeral_value(number_spec(n)) == Some(n),
{
    reveal_strlit("+[]");
    reveal_strlit("+!![]");
    if n == 0 {
        let zero = zero_expr();
        assert(zero.subrange(0, 3) =~= zero);
        assert(sum_value(zero.subrange(0, 0)) == Some(0nat));
        assert(sum_value(zero) == Some(0nat));
    } else {
        lemma_ones_value(n);
        lemma_number_len(n);
        assert(number_spec(n).len() > 0);
    }
}

} // verus!
