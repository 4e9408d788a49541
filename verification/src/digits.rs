//! Decimal digit strings read as natural numbers, most significant digit
//! first, with the facts about them that comparing two numbers needs.

use vstd::arithmetic::power::{lemma_pow0, lemma_pow1, lemma_pow_adds, lemma_pow_positive, pow};
use vstd::prelude::*;

verus! {

/// Every entry is a decimal digit.
pub open spec fn all_digits(s: Seq<u8>) -> bool {
    forall|i: int| 0 <= i < s.len() ==> #[trigger] s[i] <= 9
}

/// Every entry is zero.
pub open spec fn all_zero(s: Seq<u8>) -> bool {
    forall|i: int| 0 <= i < s.len() ==> #[trigger] s[i] == 0
}

/// `n` zeros.
pub open spec fn zeros(n: nat) -> Seq<u8> {
    Seq::new(n, |i: int| 0u8)
}

/// The number that the digits spell; the empty string spells zero.
pub open spec fn value(s: Seq<u8>) -> nat
    decreases s.len(),
{
    if s.len() == 0 {
        0
    } else {
        value(s.drop_last()) * 10 + s.last() as nat
    }
}

/// Ten to the power `e`.
pub open spec fn pow10(e: nat) -> nat {
    pow(10, e) as nat
}

/// Every power of ten is positive.
pub proof fn lemma_pow10_positive(e: nat)
    ensures
        pow10(e) > 0,
        pow10(e) == pow(10, e),
{
    lemma_pow_positive(10, e);
}

/// The powers of ten start at one, and each is ten times the one before.
pub proof fn lemma_pow10_step(e: nat)
    ensures
        pow10(e + 1) == pow10(e) * 10,
        pow10(0) == 1,
{
    lemma_pow10_positive(e);
    lemma_pow10_positive(e + 1);
    lemma_pow_adds(10, e, 1);
    lemma_pow1(10);
    lemma_pow0(10);
}

/// Ten to a sum is the product of the two powers.
pub proof fn lemma_pow10_adds(a: nat, b: nat)
    ensures
        pow10(a + b) == pow10(a) * pow10(b),
{
    lemma_pow10_positive(a);
    lemma_pow10_positive(b);
    lemma_pow10_positive(a + b);
    lemma_pow_adds(10, a, b);
}

/// A string of `n` digits spells a number below ten to the `n`.
pub proof fn lemma_value_bound(s: Seq<u8>)
    requires
        all_digits(s),
    ensures
        value(s) < pow10(s.len()),
    decreases s.len(),
{
    if s.len() == 0 {
        lemma_pow10_step(0);
    } else {
        let front = s.drop_last();
        lemma_value_bound(front);
        lemma_pow10_step(front.len());
        assert(s.last() <= 9);
        assert(value(s) <= value(front) * 10 + 9);
        assert((value(front) + 1) * 10 <= pow10(front.len()) * 10) by (nonlinear_arith)
            requires
                value(front) + 1 <= pow10(front.len()),
        ;
    }
}

/// Writing `b` behind `a` shifts `a` by the length of `b`.
pub proof fn lemma_value_concat(a: Seq<u8>, b: Seq<u8>)
    ensures
        value(a + b) == value(a) * pow10(b.len()) + value(b),
    decreases b.len(),
{
    if b.len() == 0 {
        assert(a + b =~= a);
        lemma_pow10_step(0);
        assert(value(a) * pow10(b.len()) == value(a)) by (nonlinear_arith)
            requires
                pow10(b.len()) == 1,
        ;
    } else {
        let front = b.drop_last();
        assert((a + b).drop_last() =~= a + front);
        assert((a + b).last() == b.last());
        lemma_value_concat(a, front);
        lemma_pow10_step(front.len());
        let va = value(a);
        let vf = value(front);
        let p = pow10(front.len());
        assert((va * p + vf) * 10 == va * (p * 10) + vf * 10) by (nonlinear_arith);
        assert(pow10(b.len()) == p * 10);
    }
}

/// A string spells zero exactly when all its digits are zero.
pub proof fn lemma_value_zero(s: Seq<u8>)
    ensures
        value(s) == 0 <==> all_zero(s),
    decreases s.len(),
{
    if s.len() > 0 {
        let front = s.drop_last();
        lemma_value_zero(front);
        if all_zero(s) {
            assert forall|i: int| 0 <= i < front.len() implies #[trigger] front[i] == 0 by {
                assert(front[i] == s[i]);
            }
        }
        if value(s) == 0 {
            assert(value(front) == 0 && s.last() == 0);
            assert forall|i: int| 0 <= i < s.len() implies #[trigger] s[i] == 0 by {
                if i < front.len() {
                    assert(s[i] == front[i]);
                }
            }
        }
    }
}

/// Of two strings of one length that agree up to `at` and differ there, the
/// one with the smaller digit spells the smaller number.
pub proof fn lemma_first_difference(x: Seq<u8>, y: Seq<u8>, at: int)
    requires
        x.len() == y.len(),
        all_digits(x),
        all_digits(y),
        0 <= at < x.len(),
        x.take(at) == y.take(at),
        x[at] < y[at],
    ensures
        value(x) < value(y),
{
    let head = x.take(at);
    let x_tail = x.skip(at + 1);
    let y_tail = y.skip(at + 1);
    let x_head = head.push(x[at]);
    let y_head = head.push(y[at]);
    assert(x =~= x_head + x_tail);
    assert(y =~= y_head + y_tail);
    assert(y.take(at) == head);
    lemma_value_concat(x_head, x_tail);
    lemma_value_concat(y_head, y_tail);
    assert(x_head.drop_last() =~= head);
    assert(y_head.drop_last() =~= head);
    assert(value(x_head) + 1 <= value(y_head));
    assert(all_digits(x_tail)) by {
        assert forall|i: int| 0 <= i < x_tail.len() implies #[trigger] x_tail[i] <= 9 by {
            assert(x_tail[i] == x[at + 1 + i]);
        }
    }
    lemma_value_bound(x_tail);
    let p = pow10(x_tail.len());
    assert(x_tail.len() == y_tail.len());
    assert(value(x_head) * p + p <= value(y_head) * p) by (nonlinear_arith)
        requires
            value(x_head) + 1 <= value(y_head),
    ;
}

} // verus!
