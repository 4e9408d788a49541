//! Whole numbers read from text, as settings give them: an optional sign and
//! decimal digits, nothing before, between or after.

use crate::decimal::{digit_of, is_digit_char};
use crate::digits::{lemma_pow10_positive, lemma_value_concat, pow10, value};
use crate::text::ascii_bytes;
use vstd::prelude::*;

verus! {

/// The digits that the characters of `s` show.
pub open spec fn shown_digits(s: Seq<char>) -> Seq<u8> {
    Seq::new(s.len(), |i: int| digit_of(s[i]))
}

/// `s` is one or more digit characters.
pub open spec fn is_digit_text(s: Seq<char>) -> bool {
    &&& s.len() >= 1
    &&& forall|i: int| 0 <= i < s.len() ==> is_digit_char(#[trigger] s[i])
}

/// `s` starts with a plus or minus sign.
pub open spec fn is_signed(s: Seq<char>) -> bool {
    s.len() > 0 && (s[0] == '-' || s[0] == '+')
}

/// The whole number that `s` writes: digits, with `+` or `-` before them if
/// the writer liked. `None` where `s` is anything else.
pub open spec fn integer_value(s: Seq<char>) -> Option<int> {
    let body = if is_signed(s) { s.skip(1) } else { s };
    if !is_digit_text(body) {
        None
    } else if s[0] == '-' {
        Some(-(value(shown_digits(body)) as int))
    } else {
        Some(value(shown_digits(body)) as int)
    }
}

/// The natural number that `s` writes: digits, with `+` before them if the
/// writer liked. A minus sign makes it `None`, even before zero.
pub open spec fn natural_value(s: Seq<char>) -> Option<nat> {
    let body = if s.len() > 0 && s[0] == '+' { s.skip(1) } else { s };
    if is_digit_text(body) {
        Some(value(shown_digits(body)))
    } else {
        None
    }
}

/// A longer digit string spells no less than the string it starts with.
proof fn lemma_value_grows(s: Seq<u8>, n: int)
    requires
        0 <= n <= s.len(),
    ensures
        value(s.take(n)) <= value(s),
{
    let head = s.take(n);
    let tail = s.skip(n);
    assert(s =~= head + tail);
    lemma_value_concat(head, tail);
    lemma_pow10_positive(tail.len());
    assert(value(head) * pow10(tail.len()) >= value(head)) by (nonlinear_arith)
        requires
            pow10(tail.len()) >= 1,
    ;
}

/// Reads the digits of `bytes` from `from` to the end as one number no
/// greater than `limit`. `None` where there is no digit, where something
/// else than a digit stands among them, and where the number is greater.
fn read_magnitude(bytes: &[u8], from: usize, limit: u64, Ghost(s): Ghost<Seq<char>>) -> (read:
    Option<u64>)
    requires
        from <= bytes@.len(),
        bytes@.len() == s.len(),
        forall|i: int| 0 <= i < s.len() ==> (is_digit_char(#[trigger] s[i]) <==> 48 <= bytes@[i]
            <= 57),
        forall|i: int| 0 <= i < s.len() ==> (#[trigger] s[i]) as u8 == bytes@[i],
    ensures
        read matches Some(m) ==> is_digit_text(s.skip(from as int)) && m == value(
            shown_digits(s.skip(from as int)),
        ) && m <= limit,
        read is None ==> !is_digit_text(s.skip(from as int)) || value(
            shown_digits(s.skip(from as int)),
        ) > limit,
{
    let ghost body = s.skip(from as int);
    let ghost shown = shown_digits(body);
    if from == bytes.len() {
        return None;
    }
    let mut total: u64 = 0;
    let mut at: usize = from;
    while at < bytes.len()
        invariant
            from <= at <= bytes@.len(),
            bytes@.len() == s.len(),
            body == s.skip(from as int),
            shown == shown_digits(body),
            forall|i: int| 0 <= i < s.len() ==> (is_digit_char(#[trigger] s[i]) <==> 48
                <= bytes@[i] <= 57),
            forall|i: int| 0 <= i < s.len() ==> (#[trigger] s[i]) as u8 == bytes@[i],
            forall|i: int| 0 <= i < at - from ==> is_digit_char(#[trigger] body[i]),
            total == value(shown.take(at - from)),
            total <= limit,
        decreases bytes@.len() - at,
    {
        let b = bytes[at];
        assert(body[at - from] == s[at as int]);
        if b < 48 || b > 57 {
            return None;
        }
        let next: u128 = total as u128 * 10 + (b - 48) as u128;
        proof {
            assert(shown.take(at - from + 1).drop_last() =~= shown.take(at - from));
            assert(shown.take(at - from + 1).last() == digit_of(body[at - from]));
            assert(digit_of(body[at - from]) == b - 48);
            assert(value(shown.take(at - from + 1)) == next);
        }
        if next > limit as u128 {
            proof {
                if is_digit_text(body) {
                    lemma_value_grows(shown, at - from + 1);
                }
            }
            return None;
        }
        total = next as u64;
        at += 1;
    }
    proof {
        assert(shown.take(at - from) =~= shown);
    }
    Some(total)
}

/// Reads an `i64` as [`integer_value`] says. `None` where the text writes
/// no whole number or one that an `i64` cannot hold.
pub fn parse_i64(text: &str) -> (parsed: Option<i64>)
    ensures
        parsed matches Some(v) ==> integer_value(text@) == Some(v as int),
        parsed is None ==> (match integer_value(text@) {
            Some(v) => v < i64::MIN || v > i64::MAX,
            None => true,
        }),
{
    let ghost s = text@;
    let bytes = match ascii_bytes(text) {
        Some(b) => b,
        None => {
            proof {
                lemma_not_ascii(s);
            }
            return None;
        },
    };
    proof {
        lemma_bytes_show(s, bytes@);
        assert(s.skip(0) =~= s);
    }
    let negative = bytes.len() > 0 && bytes[0] == 45;
    let signed = bytes.len() > 0 && (bytes[0] == 45 || bytes[0] == 43);
    let from: usize = if signed { 1 } else { 0 };
    assert(signed == is_signed(s));
    assert(negative == (s.len() > 0 && s[0] == '-'));
    if negative {
        match read_magnitude(bytes, from, 9223372036854775808, Ghost(s)) {
            Some(m) => {
                if m == 9223372036854775808 {
                    Some(i64::MIN)
                } else {
                    Some(0 - (m as i64))
                }
            },
            None => None,
        }
    } else {
        match read_magnitude(bytes, from, 9223372036854775807, Ghost(s)) {
            Some(m) => {
                proof {
                    if !signed {
                        assert(s[0] != '-');
                    }
                }
                Some(m as i64)
            },
            None => None,
        }
    }
}

/// Reads a natural number below `bound` as [`natural_value`] says. `None`
/// where the text writes no natural number or one that is `bound` or more.
pub fn parse_below(text: &str, bound: u64) -> (parsed: Option<u64>)
    ensures
        parsed matches Some(v) ==> natural_value(text@) == Some(v as nat) && v < bound,
        parsed is None ==> (match natural_value(text@) {
            Some(v) => v >= bound,
            None => true,
        }),
{
    let ghost s = text@;
    if bound == 0 {
        return None;
    }
    let bytes = match ascii_bytes(text) {
        Some(b) => b,
        None => {
            proof {
                lemma_not_ascii(s);
            }
            return None;
        },
    };
    proof {
        lemma_bytes_show(s, bytes@);
        assert(s.skip(0) =~= s);
    }
    let plus = bytes.len() > 0 && bytes[0] == 43;
    let from: usize = if plus { 1 } else { 0 };
    read_magnitude(bytes, from, bound - 1, Ghost(s))
}

/// A text with a character outside ASCII writes no number.
proof fn lemma_not_ascii(s: Seq<char>)
    requires
        !vstd::utf8::is_ascii_chars(s),
    ensures
        integer_value(s) is None,
        natural_value(s) is None,
{
    let i = choose|i: int| 0 <= i < s.len() && !('\0' <= #[trigger] s[i] <= '\u{7f}');
    if i > 0 {
        assert(s.skip(1)[i - 1] == s[i]);
    }
    if is_signed(s) {
        if i > 0 {
            assert(!is_digit_char(s.skip(1)[i - 1]));
        }
    } else {
        assert(!is_digit_char(s[i]));
    }
    if s.len() > 0 && s[0] == '+' {
        if i > 0 {
            assert(!is_digit_char(s.skip(1)[i - 1]));
        }
    } else {
        assert(!is_digit_char(s[i]));
    }
}

/// How the bytes of an ASCII text tell digits and signs.
proof fn lemma_bytes_show(s: Seq<char>, bytes: Seq<u8>)
    requires
        vstd::utf8::is_ascii_chars(s),
        bytes.len() == s.len(),
        forall|i: int| 0 <= i < bytes.len() ==> #[trigger] bytes[i] == s[i] as u8,
    ensures
        forall|i: int| 0 <= i < s.len() ==> (is_digit_char(#[trigger] s[i]) <==> 48 <= bytes[i]
            <= 57),
        forall|i: int| 0 <= i < s.len() ==> (#[trigger] s[i]) as u8 == bytes[i],
        s.len() > 0 ==> (s[0] == '-' <==> bytes[0] == 45),
        s.len() > 0 ==> (s[0] == '+' <==> bytes[0] == 43),
{
    assert forall|i: int| 0 <= i < s.len() implies (is_digit_char(#[trigger] s[i]) <==> 48
        <= bytes[i] <= 57) && s[i] as u8 == bytes[i] by {
        assert(bytes[i] == s[i] as u8);
        assert('\0' <= s[i] <= '\u{7f}');
    }
    if s.len() > 0 {
        assert(bytes[0] == s[0] as u8);
        assert('\0' <= s[0] <= '\u{7f}');
    }
}

} // verus!
