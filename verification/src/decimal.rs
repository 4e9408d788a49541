//! Decimal numbers kept as written, so that a balance prints as it was read
//! and compares by its exact value.

use crate::digits::{
    all_digits, all_zero, lemma_first_difference, lemma_pow10_adds, lemma_pow10_positive,
    lemma_value_concat, lemma_value_zero, pow10, value, zeros,
};
use crate::text::{ascii_bytes, push_char};
use vstd::prelude::*;

verus! {

/// The character that shows digit `d`.
pub open spec fn digit_char(d: u8) -> char {
    ((d + 48) as u8) as char
}

/// `c` is one of the characters `0` to `9`.
pub open spec fn is_digit_char(c: char) -> bool {
    '0' <= c <= '9'
}

/// The digit that `c` shows.
pub open spec fn digit_of(c: char) -> u8 {
    ((c as u8) - 48) as u8
}

/// The characters that show `s`, digit by digit.
pub open spec fn digit_chars(s: Seq<u8>) -> Seq<char> {
    Seq::new(s.len(), |i: int| digit_char(s[i]))
}

/// A decimal number as it is written: a sign, the digits from the most
/// significant down, and how many of them stand behind the point.
pub struct Number {
    pub negative: bool,
    pub digits: Seq<u8>,
    pub scale: nat,
}

impl Number {
    /// Digits are digits, and at least one stands before the point.
    pub open spec fn wf(self) -> bool {
        &&& all_digits(self.digits)
        &&& self.scale < self.digits.len()
    }

    /// How many digits stand before the point.
    pub open spec fn whole_len(self) -> nat {
        (self.digits.len() - self.scale) as nat
    }

    /// The digits read as one natural number, the point ignored.
    pub open spec fn magnitude(self) -> nat {
        value(self.digits)
    }

    /// The magnitude with the sign applied.
    pub open spec fn signed(self) -> int {
        if self.negative {
            -(self.magnitude() as int)
        } else {
            self.magnitude() as int
        }
    }

    /// `self` is less than `other` as a number: the two are brought to a
    /// common denominator and compared.
    pub open spec fn below(self, other: Number) -> bool {
        self.signed() * pow10(other.scale) < other.signed() * pow10(self.scale)
    }

    /// The digits in a field with `whole` places before the point and `scale`
    /// behind it, filled up with zeros at both ends.
    pub open spec fn aligned(self, whole: nat, scale: nat) -> Seq<u8>
        recommends
            whole >= self.whole_len(),
            scale >= self.scale,
    {
        zeros((whole - self.whole_len()) as nat) + self.digits + zeros(
            (scale - self.scale) as nat,
        )
    }

    /// The number as text: `-` if negative, the digits before the point, and
    /// where digits follow the point, `.` and those digits.
    pub open spec fn text(self) -> Seq<char> {
        let sign = if self.negative { seq!['-'] } else { Seq::<char>::empty() };
        let whole = digit_chars(self.digits.take(self.whole_len() as int));
        let fraction = if self.scale > 0 {
            seq!['.'] + digit_chars(self.digits.skip(self.whole_len() as int))
        } else {
            Seq::<char>::empty()
        };
        sign + whole + fraction
    }
}

/// Where the text of a number starts its digits: behind a leading `-`.
pub open spec fn digits_start(t: Seq<char>) -> int {
    if t.len() > 0 && t[0] == '-' {
        1
    } else {
        0
    }
}

/// What the text of a well-formed number looks like, position by position.
pub proof fn lemma_text_layout(n: Number)
    requires
        n.wf(),
    ensures
        ({
            let t = n.text();
            let k: int = if n.negative { 1 } else { 0 };
            let w = n.whole_len() as int;
            &&& w >= 1
            &&& t.len() == k + w + (if n.scale > 0 { 1 + n.scale as int } else { 0 })
            &&& n.negative ==> t[0] == '-'
            &&& forall|p: int| k <= p < k + w ==> #[trigger] t[p] == digit_char(n.digits[p - k])
            &&& n.scale > 0 ==> t[k + w] == '.'
            &&& forall|p: int|
                k + w + 1 <= p < t.len() ==> #[trigger] t[p] == digit_char(n.digits[p - k - 1])
        }),
{
    let t = n.text();
    let k: int = if n.negative { 1 } else { 0 };
    let w = n.whole_len() as int;
    let sign = if n.negative { seq!['-'] } else { Seq::<char>::empty() };
    let whole = digit_chars(n.digits.take(w));
    let fraction = if n.scale > 0 {
        seq!['.'] + digit_chars(n.digits.skip(w))
    } else {
        Seq::<char>::empty()
    };
    assert(t == sign + whole + fraction);
    assert(sign.len() == k);
    assert(whole.len() == w);
    assert forall|p: int| k <= p < k + w implies #[trigger] t[p] == digit_char(n.digits[p - k]) by {
        assert(t[p] == whole[p - k]);
        assert(n.digits.take(w)[p - k] == n.digits[p - k]);
    }
    if n.scale > 0 {
        assert(t[k + w] == fraction[0]);
        assert forall|p: int| k + w + 1 <= p < t.len() implies #[trigger] t[p] == digit_char(
            n.digits[p - k - 1],
        ) by {
            assert(t[p] == fraction[p - k - w]);
            assert(n.digits.skip(w)[p - k - w - 1] == n.digits[p - k - 1]);
        }
    }
}

/// A digit and the character that shows it determine each other.
pub proof fn lemma_digit_char(d: u8)
    requires
        d <= 9,
    ensures
        is_digit_char(digit_char(d)),
        digit_of(digit_char(d)) == d,
        digit_char(d) != '-',
        digit_char(d) != '.',
        digit_char(d) as u32 == d + 48,
{
}

/// Reading the text of a well-formed number back: the sign, the run of
/// digits before the point and what follows it fix every field.
pub proof fn lemma_text_reading(n: Number, w: int)
    requires
        n.wf(),
        0 <= w,
        digits_start(n.text()) + w <= n.text().len(),
        forall|p: int|
            digits_start(n.text()) <= p < digits_start(n.text()) + w ==> is_digit_char(
                #[trigger] n.text()[p],
            ),
        digits_start(n.text()) + w == n.text().len() || !is_digit_char(
            n.text()[digits_start(n.text()) + w],
        ),
    ensures
        ({
            let t = n.text();
            let k = digits_start(t);
            &&& n.negative == (k == 1)
            &&& n.whole_len() == w
            &&& w >= 1
            &&& k + w == t.len() ==> n.scale == 0
            &&& k + w < t.len() ==> t[k + w] == '.' && n.scale == t.len() - k - w - 1 && n.scale
                >= 1
            &&& forall|p: int| k + w + 1 <= p < t.len() ==> is_digit_char(#[trigger] t[p])
            &&& forall|i: int| 0 <= i < w ==> #[trigger] n.digits[i] == digit_of(t[k + i])
            &&& forall|i: int|
                w <= i < n.digits.len() ==> #[trigger] n.digits[i] == digit_of(t[k + i + 1])
        }),
{
    let t = n.text();
    let k = digits_start(t);
    let kn: int = if n.negative { 1 } else { 0 };
    let wn = n.whole_len() as int;
    lemma_text_layout(n);
    assert forall|i: int| 0 <= i < n.digits.len() implies is_digit_char(
        digit_char(#[trigger] n.digits[i]),
    ) && digit_of(digit_char(n.digits[i])) == n.digits[i] && digit_char(n.digits[i]) != '-'
        && digit_char(n.digits[i]) != '.' by {
        lemma_digit_char(n.digits[i]);
    }
    if !n.negative {
        assert(t[kn] == digit_char(n.digits[0]));
    }
    assert(kn == k);
    if wn > w {
        assert(t[k + w] == digit_char(n.digits[w]));
    }
    if wn < w {
        assert(is_digit_char(t[k + wn]));
    }
    assert(wn == w);
    assert forall|p: int| k + w + 1 <= p < t.len() implies is_digit_char(#[trigger] t[p]) by {
        assert(t[p] == digit_char(n.digits[p - k - 1]));
    }
    assert forall|i: int| 0 <= i < w implies #[trigger] n.digits[i] == digit_of(t[k + i]) by {
        assert(t[k + i] == digit_char(n.digits[k + i - k]));
    }
    assert forall|i: int| w <= i < n.digits.len() implies #[trigger] n.digits[i] == digit_of(
        t[k + i + 1],
    ) by {
        assert(t[k + i + 1] == digit_char(n.digits[k + i + 1 - k - 1]));
    }
}

/// Two well-formed numbers with one text are one number.
pub proof fn lemma_text_injective(a: Number, b: Number)
    requires
        a.wf(),
        b.wf(),
        a.text() == b.text(),
    ensures
        a == b,
{
    let t = a.text();
    let k = digits_start(t);
    let w = a.whole_len() as int;
    lemma_text_layout(a);
    assert forall|p: int| k <= p < k + w implies is_digit_char(#[trigger] t[p]) by {
        lemma_text_reading_start(a);
        lemma_digit_char(a.digits[p - k]);
    }
    lemma_text_reading_start(a);
    if k + w < t.len() {
        assert(t[k + w] == '.');
    }
    lemma_text_reading(a, w);
    lemma_text_reading(b, w);
    assert(a.digits.len() == b.digits.len());
    assert(a.digits =~= b.digits);
}

/// The number that `s` writes: the well-formed number whose text is `s`,
/// where there is one.
pub open spec fn number_of(s: Seq<char>) -> Option<Number> {
    if exists|n: Number| #[trigger] n.wf() && n.text() == s {
        Some(choose|n: Number| #[trigger] n.wf() && n.text() == s)
    } else {
        None
    }
}

/// Reading what was written gives the number back.
pub proof fn lemma_number_of_text(n: Number)
    requires
        n.wf(),
    ensures
        number_of(n.text()) == Some(n),
{
    let found = choose|m: Number| #[trigger] m.wf() && m.text() == n.text();
    lemma_text_injective(found, n);
}

/// Writing what was read gives the text back, and a text that reads as
/// nothing is the text of no number.
pub proof fn lemma_number_of(s: Seq<char>)
    ensures
        number_of(s) matches Some(n) ==> n.wf() && n.text() == s,
        number_of(s) is None ==> forall|n: Number| n.wf() ==> n.text() != s,
{
}

/// The text of a well-formed number starts its digits where its sign says.
pub proof fn lemma_text_reading_start(n: Number)
    requires
        n.wf(),
    ensures
        digits_start(n.text()) == (if n.negative { 1int } else { 0int }),
{
    lemma_text_layout(n);
    if !n.negative {
        assert(n.text()[0] == digit_char(n.digits[0]));
        lemma_digit_char(n.digits[0]);
    }
}

/// The text of a well-formed number holds ASCII characters only.
pub proof fn lemma_text_ascii(n: Number)
    requires
        n.wf(),
    ensures
        vstd::utf8::is_ascii_chars(n.text()),
{
    let t = n.text();
    let k: int = if n.negative { 1 } else { 0 };
    let w = n.whole_len() as int;
    lemma_text_layout(n);
    assert forall|p: int| 0 <= p < t.len() implies '\0' <= #[trigger] t[p] <= '\u{7f}' by {
        if p < k {
        } else if p < k + w {
            lemma_digit_char(n.digits[p - k]);
        } else if p == k + w {
        } else {
            lemma_digit_char(n.digits[p - k - 1]);
        }
    }
}

/// A decimal number: a sign, at least one digit before the point, and any
/// number of digits behind it. It keeps every digit it was given, so `1.50`
/// and `1.5` print differently and compare equal.
pub struct Decimal {
    negative: bool,
    digits: Vec<u8>,
    scale: usize,
}

impl View for Decimal {
    type V = Number;

    closed spec fn view(&self) -> Number {
        Number { negative: self.negative, digits: self.digits@, scale: self.scale as nat }
    }
}

impl DeepView for Decimal {
    type V = Number;

    open spec fn deep_view(&self) -> Number {
        self@
    }
}

/// Appends to `digits` the run of digit characters of `bytes` that starts at
/// `from`, and returns where the run ends.
fn take_digits(bytes: &[u8], from: usize, digits: &mut Vec<u8>) -> (end: usize)
    requires
        from <= bytes@.len(),
    ensures
        from <= end <= bytes@.len(),
        forall|p: int| from <= p < end ==> 48 <= #[trigger] bytes@[p] <= 57,
        end == bytes@.len() || !(48 <= bytes@[end as int] <= 57),
        final(digits)@.len() == old(digits)@.len() + (end - from),
        forall|i: int| 0 <= i < old(digits)@.len() ==> final(digits)@[i] == old(digits)@[i],
        forall|i: int|
            old(digits)@.len() <= i < final(digits)@.len() ==> #[trigger] final(digits)@[i]
                == bytes@[from + i - old(digits)@.len()] - 48,
{
    let mut at: usize = from;
    let ghost before = digits@;
    while at < bytes.len() && 48 <= bytes[at] && bytes[at] <= 57
        invariant
            from <= at <= bytes@.len(),
            forall|p: int| from <= p < at ==> 48 <= #[trigger] bytes@[p] <= 57,
            digits@.len() == before.len() + (at - from),
            forall|i: int| 0 <= i < before.len() ==> digits@[i] == before[i],
            forall|i: int|
                before.len() <= i < digits@.len() ==> #[trigger] digits@[i] == bytes@[from + i
                    - before.len()] - 48,
        decreases bytes@.len() - at,
    {
        digits.push(bytes[at] - 48);
        at += 1;
    }
    at
}

impl Decimal {
    #[verifier::type_invariant]
    spec fn well_formed(&self) -> bool {
        self@.wf()
    }

    /// Reads a number from its text. The text must be exactly what
    /// [`Number::text`] writes for some well-formed number: an optional `-`,
    /// one or more digits, and optionally `.` with one or more digits.
    pub fn parse(text: &str) -> (parsed: Option<Decimal>)
        ensures
            match parsed {
                Some(d) => number_of(text@) == Some(d@),
                None => number_of(text@) is None,
            },
    {
        let parsed = Self::read(text);
        proof {
            if parsed is Some {
                lemma_number_of_text(parsed->Some_0@);
            }
        }
        parsed
    }

    /// Reads a number from its text, or finds that the text is that of no
    /// number.
    fn read(text: &str) -> (parsed: Option<Decimal>)
        ensures
            parsed matches Some(d) ==> d@.wf() && d@.text() == text@,
            parsed is None ==> forall|n: Number| n.wf() ==> n.text() != text@,
    {
        let bytes = match ascii_bytes(text) {
            Some(b) => b,
            None => {
                proof {
                    assert forall|n: Number| n.wf() implies n.text() != text@ by {
                        lemma_text_ascii(n);
                    }
                }
                return None;
            },
        };
        let len = bytes.len();
        let negative = len > 0 && bytes[0] == 45;
        let start: usize = if negative { 1 } else { 0 };
        let ghost t = text@;
        proof {
            assert(forall|p: int| 0 <= p < t.len() ==> (#[trigger] t[p]) as u8 == bytes@[p]);
            assert forall|p: int| 0 <= p < t.len() implies (is_digit_char(#[trigger] t[p]) <==> 48
                <= bytes@[p] <= 57) && (t[p] == '-' <==> bytes@[p] == 45) && (t[p] == '.'
                <==> bytes@[p] == 46) by {
                assert(t[p] as u8 == bytes@[p]);
                assert(bytes@[p] < 128);
            }
            assert(digits_start(t) == start);
        }
        let mut digits: Vec<u8> = Vec::new();
        let mid = take_digits(bytes, start, &mut digits);
        let ghost w = mid - start;
        if mid == start {
            proof {
                assert forall|n: Number| n.wf() implies n.text() != t by {
                    if n.text() == t {
                        lemma_text_reading(n, w);
                    }
                }
            }
            return None;
        }
        if mid == len {
            let d = Decimal { negative, digits, scale: 0 };
            proof {
                lemma_parsed_text(d@, t, start as int, w);
            }
            return Some(d);
        }
        if bytes[mid] != 46 {
            proof {
                assert forall|n: Number| n.wf() implies n.text() != t by {
                    if n.text() == t {
                        lemma_text_reading(n, w);
                    }
                }
            }
            return None;
        }
        let end = take_digits(bytes, mid + 1, &mut digits);
        if end < len || end == mid + 1 {
            proof {
                assert forall|n: Number| n.wf() implies n.text() != t by {
                    if n.text() == t {
                        lemma_text_reading(n, w);
                        if end < len {
                            assert(is_digit_char(t[end as int]));
                        }
                    }
                }
            }
            return None;
        }
        let d = Decimal { negative, digits, scale: end - mid - 1 };
        proof {
            lemma_parsed_text(d@, t, start as int, w);
        }
        Some(d)
    }

    /// The number as text, as [`Number::text`] writes it.
    pub fn to_text(&self) -> (text: String)
        ensures
            text@ == self@.text(),
    {
        proof {
            use_type_invariant(self);
        }
        let mut text = String::new();
        if self.negative {
            push_char(&mut text, '-');
        }
        let ghost sign = text@;
        let whole = self.digits.len() - self.scale;
        let mut i: usize = 0;
        while i < whole
            invariant
                i <= whole <= self.digits@.len(),
                all_digits(self.digits@),
                text@ == sign + digit_chars(self.digits@.take(i as int)),
            decreases whole - i,
        {
            let d = self.digits[i];
            push_char(&mut text, (d + 48) as char);
            assert(self.digits@.take(i + 1) =~= self.digits@.take(i as int).push(d));
            assert(digit_chars(self.digits@.take(i + 1)) =~= digit_chars(
                self.digits@.take(i as int),
            ).push(digit_char(d)));
            i += 1;
        }
        if self.scale > 0 {
            push_char(&mut text, '.');
            let ghost head = text@;
            while i < self.digits.len()
                invariant
                    whole <= i <= self.digits@.len(),
                    all_digits(self.digits@),
                    text@ == head + digit_chars(self.digits@.subrange(whole as int, i as int)),
                decreases self.digits@.len() - i,
            {
                let d = self.digits[i];
                push_char(&mut text, (d + 48) as char);
                assert(self.digits@.subrange(whole as int, i + 1) =~= self.digits@.subrange(
                    whole as int,
                    i as int,
                ).push(d));
                assert(digit_chars(self.digits@.subrange(whole as int, i + 1)) =~= digit_chars(
                    self.digits@.subrange(whole as int, i as int),
                ).push(digit_char(d)));
                i += 1;
            }
            assert(self.digits@.subrange(whole as int, i as int) =~= self.digits@.skip(
                whole as int,
            ));
            assert(text@ =~= self@.text());
        } else {
            assert(text@ =~= self@.text());
        }
        text
    }
}

/// Two strings that agree before place `p` and at it agree before the next.
proof fn lemma_take_step(x: Seq<u8>, y: Seq<u8>, p: int)
    requires
        0 <= p < x.len(),
        p < y.len(),
        x.take(p) == y.take(p),
        x[p] == y[p],
    ensures
        x.take(p + 1) == y.take(p + 1),
{
    assert(x.take(p + 1) =~= x.take(p).push(x[p]));
    assert(y.take(p + 1) =~= y.take(p).push(y[p]));
}

/// How one magnitude stands to another.
enum Order {
    Less,
    Equal,
    Greater,
}

/// Filling a number up with zeros multiplies its magnitude by a power of ten
/// and by nothing else.
proof fn lemma_aligned_value(n: Number, whole: nat, scale: nat)
    requires
        n.wf(),
        whole >= n.whole_len(),
        scale >= n.scale,
    ensures
        n.aligned(whole, scale).len() == whole + scale,
        all_digits(n.aligned(whole, scale)),
        value(n.aligned(whole, scale)) == n.magnitude() * pow10((scale - n.scale) as nat),
{
    let lead = zeros((whole - n.whole_len()) as nat);
    let trail = zeros((scale - n.scale) as nat);
    lemma_value_zero(lead);
    lemma_value_zero(trail);
    lemma_value_concat(lead, n.digits);
    lemma_value_concat(lead + n.digits, trail);
    assert(value(lead) * pow10(n.digits.len()) == 0) by (nonlinear_arith)
        requires
            value(lead) == 0,
    ;
}

/// Two magnitudes brought to the larger of their scales stand to each other
/// as they do when each is multiplied by the other's power of ten.
proof fn lemma_common_scale(ma: nat, mb: nat, sa: nat, sb: nat, scale: nat)
    requires
        scale == (if sa >= sb { sa } else { sb }),
    ensures
        ({
            let va = ma * pow10((scale - sa) as nat);
            let vb = mb * pow10((scale - sb) as nat);
            &&& va < vb <==> ma * pow10(sb) < mb * pow10(sa)
            &&& va == vb <==> ma * pow10(sb) == mb * pow10(sa)
        }),
{
    let low = (sa + sb - scale) as nat;
    let pa = pow10((scale - sa) as nat);
    let pb = pow10((scale - sb) as nat);
    let pl = pow10(low);
    lemma_pow10_adds((scale - sa) as nat, low);
    lemma_pow10_adds((scale - sb) as nat, low);
    lemma_pow10_positive(low);
    assert(pow10(sb) == pa * pl);
    assert(pow10(sa) == pb * pl);
    let va = ma * pa;
    let vb = mb * pb;
    assert(ma * (pa * pl) == va * pl) by (nonlinear_arith)
        requires
            va == ma * pa,
    ;
    assert(mb * (pb * pl) == vb * pl) by (nonlinear_arith)
        requires
            vb == mb * pb,
    ;
    assert((va < vb <==> va * pl < vb * pl) && (va == vb <==> va * pl == vb * pl))
        by (nonlinear_arith)
        requires
            pl > 0,
    ;
}

/// Two numbers filled up to one field stand to each other, digit string to
/// digit string, as their magnitudes do once each is multiplied by the
/// other's power of ten.
proof fn lemma_aligned_order(a: Number, b: Number, whole: nat, scale: nat)
    requires
        a.wf(),
        b.wf(),
        whole >= a.whole_len(),
        whole >= b.whole_len(),
        scale == (if a.scale >= b.scale { a.scale } else { b.scale }),
    ensures
        ({
            let x = a.aligned(whole, scale);
            let y = b.aligned(whole, scale);
            &&& x.len() == whole + scale
            &&& y.len() == whole + scale
            &&& all_digits(x)
            &&& all_digits(y)
            &&& value(x) < value(y) <==> a.magnitude() * pow10(b.scale) < b.magnitude() * pow10(
                a.scale,
            )
            &&& value(x) == value(y) <==> a.magnitude() * pow10(b.scale) == b.magnitude() * pow10(
                a.scale,
            )
        }),
{
    lemma_aligned_value(a, whole, scale);
    lemma_aligned_value(b, whole, scale);
    lemma_common_scale(a.magnitude(), b.magnitude(), a.scale, b.scale, scale);
}

/// The digit of a filled-up number at place `p`.
proof fn lemma_aligned_digit(n: Number, whole: nat, scale: nat, p: int)
    requires
        n.wf(),
        whole >= n.whole_len(),
        scale >= n.scale,
        0 <= p < whole + scale,
    ensures
        p < whole ==> n.aligned(whole, scale)[p] == (zeros((whole - n.whole_len()) as nat)
            + n.digits)[p],
        whole <= p < whole + n.scale ==> n.aligned(whole, scale)[p] == n.digits[n.whole_len() + p
            - whole],
        whole + n.scale <= p ==> n.aligned(whole, scale)[p] == 0,
{
}

/// A number below zero is less than one at or above zero unless both are zero.
proof fn lemma_mixed_signs(ma: nat, mb: nat, pa: nat, pb: nat)
    requires
        pa > 0,
        pb > 0,
    ensures
        -(ma as int) * pb < mb * pa <==> !(ma == 0 && mb == 0),
        !(ma * pb < -(mb as int) * pa),
{
    assert(-(ma as int) * pb < mb * pa <==> !(ma == 0 && mb == 0)) by (nonlinear_arith)
        requires
            pa > 0,
            pb > 0,
    ;
    assert(!(ma * pb < -(mb as int) * pa)) by (nonlinear_arith)
        requires
            pa > 0,
            pb > 0,
    ;
}

/// Among numbers below zero the one with the larger magnitude is less.
proof fn lemma_both_negative(x: int, y: int)
    ensures
        -x < -y <==> y < x,
{
}

impl Decimal {
    /// A number from its parts.
    pub(crate) fn from_parts(negative: bool, digits: Vec<u8>, scale: usize) -> (d: Decimal)
        requires
            all_digits(digits@),
            scale < digits@.len(),
        ensures
            d@ == (Number { negative, digits: digits@, scale: scale as nat }),
            d@.wf(),
    {
        Decimal { negative, digits, scale }
    }

    /// How many digits stand before the point.
    fn whole_len(&self) -> (w: usize)
        ensures
            w == self@.whole_len(),
            self@.wf(),
    {
        proof {
            use_type_invariant(self);
        }
        self.digits.len() - self.scale
    }

    /// The digit at place `p` of a field `width` places wide before the
    /// point.
    fn whole_digit(&self, p: usize, width: usize) -> (d: u8)
        requires
            p < width,
            width >= self@.whole_len(),
        ensures
            d == (zeros((width - self@.whole_len()) as nat) + self@.digits)[p as int],
    {
        proof {
            use_type_invariant(self);
        }
        let lead = width - (self.digits.len() - self.scale);
        if p < lead {
            0
        } else {
            self.digits[p - lead]
        }
    }

    /// The digit at place `q` behind the point, zero where the number has
    /// fewer places.
    fn fraction_digit(&self, q: usize) -> (d: u8)
        ensures
            q < self@.scale ==> d == self@.digits[self@.whole_len() + q],
            q >= self@.scale ==> d == 0,
    {
        proof {
            use_type_invariant(self);
        }
        if q < self.scale {
            self.digits[self.digits.len() - self.scale + q]
        } else {
            0
        }
    }

    /// Whether the number is zero, whatever its sign and its digits.
    pub fn is_zero(&self) -> (zero: bool)
        ensures
            zero == (self@.magnitude() == 0),
    {
        let mut i: usize = 0;
        while i < self.digits.len()
            invariant
                i <= self.digits@.len(),
                all_zero(self.digits@.take(i as int)),
            decreases self.digits@.len() - i,
        {
            if self.digits[i] != 0 {
                proof {
                    lemma_value_zero(self.digits@);
                }
                return false;
            }
            assert(self.digits@.take(i + 1) =~= self.digits@.take(i as int).push(
                self.digits@[i as int],
            ));
            i += 1;
        }
        proof {
            assert(self.digits@.take(i as int) =~= self.digits@);
            lemma_value_zero(self.digits@);
        }
        true
    }

    /// How the magnitude of `self` stands to that of `other`, the point of
    /// each taken into account.
    fn magnitude_order(&self, other: &Decimal) -> (order: Order)
        ensures
            ({
                let a = self@.magnitude() * pow10(other@.scale);
                let b = other@.magnitude() * pow10(self@.scale);
                match order {
                    Order::Less => a < b,
                    Order::Equal => a == b,
                    Order::Greater => a > b,
                }
            }),
    {
        let wa = self.whole_len();
        let wb = other.whole_len();
        let whole = if wa >= wb { wa } else { wb };
        let scale = if self.scale >= other.scale { self.scale } else { other.scale };
        let ghost x = self@.aligned(whole as nat, scale as nat);
        let ghost y = other@.aligned(whole as nat, scale as nat);
        proof {
            lemma_aligned_order(self@, other@, whole as nat, scale as nat);
        }
        let mut p: usize = 0;
        while p < whole
            invariant
                p <= whole,
                whole >= self@.whole_len(),
                whole >= other@.whole_len(),
                scale == (if self@.scale >= other@.scale { self@.scale } else { other@.scale }),
                self@.wf(),
                other@.wf(),
                x == self@.aligned(whole as nat, scale as nat),
                y == other@.aligned(whole as nat, scale as nat),
                x.take(p as int) == y.take(p as int),
            decreases whole - p,
        {
            let a = self.whole_digit(p, whole);
            let b = other.whole_digit(p, whole);
            proof {
                lemma_aligned_order(self@, other@, whole as nat, scale as nat);
                lemma_aligned_digit(self@, whole as nat, scale as nat, p as int);
                lemma_aligned_digit(other@, whole as nat, scale as nat, p as int);
            }
            if a < b {
                proof {
                    lemma_first_difference(x, y, p as int);
                }
                return Order::Less;
            }
            if b < a {
                proof {
                    lemma_first_difference(y, x, p as int);
                }
                return Order::Greater;
            }
            proof {
                lemma_take_step(x, y, p as int);
            }
            p += 1;
        }
        let mut q: usize = 0;
        while q < scale
            invariant
                q <= scale,
                whole >= self@.whole_len(),
                whole >= other@.whole_len(),
                scale == (if self@.scale >= other@.scale { self@.scale } else { other@.scale }),
                self@.wf(),
                other@.wf(),
                x == self@.aligned(whole as nat, scale as nat),
                y == other@.aligned(whole as nat, scale as nat),
                x.take(whole + q) == y.take(whole + q),
            decreases scale - q,
        {
            let a = self.fraction_digit(q);
            let b = other.fraction_digit(q);
            proof {
                lemma_aligned_order(self@, other@, whole as nat, scale as nat);
                lemma_aligned_digit(self@, whole as nat, scale as nat, whole + q);
                lemma_aligned_digit(other@, whole as nat, scale as nat, whole + q);
            }
            if a < b {
                proof {
                    lemma_first_difference(x, y, whole + q);
                }
                return Order::Less;
            }
            if b < a {
                proof {
                    lemma_first_difference(y, x, whole + q);
                }
                return Order::Greater;
            }
            proof {
                lemma_take_step(x, y, whole + q);
            }
            q += 1;
        }
        proof {
            lemma_aligned_order(self@, other@, whole as nat, scale as nat);
            assert(x.take(whole + scale) =~= x);
            assert(y.take(whole + scale) =~= y);
        }
        Order::Equal
    }

    /// Whether `self` is less than `other` as a number.
    pub fn is_below(&self, other: &Decimal) -> (below: bool)
        ensures
            below == self@.below(other@),
    {
        proof {
            use_type_invariant(self);
            use_type_invariant(other);
            lemma_pow10_positive(self@.scale);
            lemma_pow10_positive(other@.scale);
            lemma_mixed_signs(
                self@.magnitude(),
                other@.magnitude(),
                pow10(self@.scale),
                pow10(other@.scale),
            );
            lemma_mixed_signs(
                other@.magnitude(),
                self@.magnitude(),
                pow10(other@.scale),
                pow10(self@.scale),
            );
        }
        if self.negative {
            if other.negative {
                let order = self.magnitude_order(other);
                proof {
                    let a = self@.magnitude() * pow10(other@.scale);
                    let b = other@.magnitude() * pow10(self@.scale);
                    assert(self@.signed() * pow10(other@.scale) == -a) by (nonlinear_arith)
                        requires
                            self@.signed() == -(self@.magnitude() as int),
                            a == self@.magnitude() * pow10(other@.scale),
                    ;
                    assert(other@.signed() * pow10(self@.scale) == -b) by (nonlinear_arith)
                        requires
                            other@.signed() == -(other@.magnitude() as int),
                            b == other@.magnitude() * pow10(self@.scale),
                    ;
                }
                matches!(order, Order::Greater)
            } else {
                !(self.is_zero() && other.is_zero())
            }
        } else {
            if other.negative {
                false
            } else {
                let order = self.magnitude_order(other);
                matches!(order, Order::Less)
            }
        }
    }
}

impl Clone for Decimal {
    fn clone(&self) -> (copy: Self)
        ensures
            copy@ == self@,
            copy@.wf(),
    {
        proof {
            use_type_invariant(self);
        }
        let mut digits: Vec<u8> = Vec::new();
        let mut i: usize = 0;
        while i < self.digits.len()
            invariant
                i <= self.digits@.len(),
                digits@ == self.digits@.take(i as int),
            decreases self.digits@.len() - i,
        {
            digits.push(self.digits[i]);
            assert(self.digits@.take(i + 1) =~= self.digits@.take(i as int).push(
                self.digits@[i as int],
            ));
            i += 1;
        }
        assert(digits@ =~= self.digits@);
        Decimal { negative: self.negative, digits, scale: self.scale }
    }
}

/// No number is less than itself, in whatever digits it is written: of two
/// writings of one value neither is below the other.
pub proof fn lemma_equal_not_below(a: Number, b: Number)
    requires
        a.signed() * pow10(b.scale) == b.signed() * pow10(a.scale),
    ensures
        !a.below(b),
        !b.below(a),
        !a.below(a),
{
}

/// Of two numbers at most one is less than the other.
pub proof fn lemma_below_asymmetric(a: Number, b: Number)
    ensures
        a.below(b) ==> !b.below(a),
{
}

/// Less than is handed on: what is below a number is below whatever that
/// number is below.
pub proof fn lemma_below_transitive(a: Number, b: Number, c: Number)
    requires
        a.below(b),
        b.below(c),
    ensures
        a.below(c),
{
    let pa = pow10(a.scale) as int;
    let pb = pow10(b.scale) as int;
    let pc = pow10(c.scale) as int;
    let x = a.signed();
    let y = b.signed();
    let z = c.signed();
    lemma_pow10_positive(a.scale);
    lemma_pow10_positive(b.scale);
    lemma_pow10_positive(c.scale);
    assert((x * pb) * pc < (y * pa) * pc) by (nonlinear_arith)
        requires
            x * pb < y * pa,
            pc > 0,
    ;
    assert((y * pc) * pa < (z * pb) * pa) by (nonlinear_arith)
        requires
            y * pc < z * pb,
            pa > 0,
    ;
    assert((x * pb) * pc == (x * pc) * pb) by (nonlinear_arith);
    assert((y * pa) * pc == (y * pc) * pa) by (nonlinear_arith);
    assert((z * pb) * pa == (z * pa) * pb) by (nonlinear_arith);
    assert(x * pc < z * pa) by (nonlinear_arith)
        requires
            (x * pc) * pb < (z * pa) * pb,
            pb > 0,
    ;
}

/// A number whose fields were read off `t` as [`lemma_text_reading`] says
/// has `t` as its text.
proof fn lemma_parsed_text(n: Number, t: Seq<char>, k: int, w: int)
    requires
        k == digits_start(t),
        n.negative == (k == 1),
        w >= 1,
        n.digits.len() == w + n.scale,
        t.len() == k + w + (if n.scale > 0 { 1 + n.scale as int } else { 0 }),
        n.scale > 0 ==> t[k + w] == '.',
        forall|p: int| k <= p < k + w ==> is_digit_char(#[trigger] t[p]),
        forall|p: int| k + w + 1 <= p < t.len() ==> is_digit_char(#[trigger] t[p]),
        forall|i: int| 0 <= i < w ==> #[trigger] n.digits[i] == digit_of(t[k + i]),
        forall|i: int| w <= i < n.digits.len() ==> #[trigger] n.digits[i] == digit_of(t[k + i + 1]),
    ensures
        n.wf(),
        n.text() == t,
{
    assert forall|i: int| 0 <= i < n.digits.len() implies #[trigger] n.digits[i] <= 9
        && digit_char(n.digits[i]) == (if i < w { t[k + i] } else { t[k + i + 1] }) by {
        if i < w {
            assert(is_digit_char(t[k + i]));
        } else {
            assert(is_digit_char(t[k + i + 1]));
        }
    }
    assert(n.wf());
    lemma_text_layout(n);
    let u = n.text();
    assert(u.len() == t.len());
    assert forall|p: int| 0 <= p < t.len() implies u[p] == t[p] by {
        if p < k {
        } else if p < k + w {
            assert(u[p] == digit_char(n.digits[p - k]));
        } else if p == k + w {
        } else {
            assert(u[p] == digit_char(n.digits[p - k - 1]));
        }
    }
    assert(u =~= t);
}

} // verus!
