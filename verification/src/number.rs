//! Decimal numbers: what a plot holds in place of a binary floating-point
//! value, and the one notation in which every renderer writes them.

use crate::text::{
    decimal, decimal_digits, is_digit, lemma_decimal_is_digits, push_digits, push_zeros, zeros,
    Render,
};
use vstd::prelude::*;
use vstd::string::*;

verus! {

/// Ten to the power `n`.
pub open spec fn pow10(n: nat) -> nat
    decreases n,
{
    if n == 0 {
        1
    } else {
        10 * pow10((n - 1) as nat)
    }
}

/// How many zeros end the decimal notation of `n`; none for `0`.
pub open spec fn trailing_zeros(n: nat) -> nat
    decreases n,
{
    if n == 0 || n % 10 != 0 {
        0
    } else {
        1 + trailing_zeros(n / 10)
    }
}

/// `n` without the zeros that end its decimal notation.
pub open spec fn stripped(n: nat) -> nat
    decreases n,
{
    if n == 0 || n % 10 != 0 {
        n
    } else {
        stripped(n / 10)
    }
}

/// The sign character of a negative value, nothing otherwise.
pub open spec fn sign(negative: bool) -> Seq<char> {
    if negative {
        seq!['-']
    } else {
        Seq::empty()
    }
}

/// Positional notation of `significand * 10^exponent`: every digit written
/// out, a point only before fraction digits, and a lone `0` before the point
/// of a value below one.
pub open spec fn positional(significand: nat, exponent: int) -> Seq<char> {
    let digits = decimal(significand);
    if exponent >= 0 {
        digits + zeros(exponent as nat)
    } else if digits.len() > -exponent {
        digits.subrange(0, digits.len() + exponent) + seq!['.'] + digits.subrange(
            digits.len() + exponent,
            digits.len() as int,
        )
    } else {
        seq!['0', '.'] + zeros((-exponent - digits.len()) as nat) + digits
    }
}

#[derive(Clone, Copy, Debug, PartialEq, Eq)]
enum Class {
    Finite,
    Infinite,
    NotANumber,
}

/// A signed decimal `significand * 10^exponent`, an infinity, or
/// not-a-number.
///
/// A finite number is kept in lowest terms: its significand does not end in
/// a zero, and zero has exponent zero. Two numbers are therefore equal
/// exactly when they are the same value with the same sign.
#[derive(Clone, Copy, Debug, PartialEq, Eq)]
pub struct Number {
    class: Class,
    negative: bool,
    significand: u64,
    exponent: i32,
}

impl Number {
    /// Whether the number is neither an infinity nor not-a-number.
    pub closed spec fn is_finite(&self) -> bool {
        self.class is Finite
    }

    /// Whether the number is an infinity.
    pub closed spec fn is_infinite(&self) -> bool {
        self.class is Infinite
    }

    /// Whether the number is not-a-number.
    pub closed spec fn is_nan(&self) -> bool {
        self.class is NotANumber
    }

    /// Whether the number carries a minus sign.
    pub closed spec fn is_negative(&self) -> bool {
        self.negative
    }

    /// The significand of a finite number.
    pub closed spec fn significand(&self) -> nat {
        self.significand as nat
    }

    /// The power of ten that scales the significand of a finite number.
    pub closed spec fn exponent(&self) -> int {
        self.exponent as int
    }

    /// The number is in lowest terms.
    #[verifier::type_invariant]
    pub closed spec fn wf(&self) -> bool {
        match self.class {
            Class::Finite => {
                &&& self.significand == 0 ==> self.exponent == 0
                &&& self.significand != 0 ==> self.significand % 10 != 0
                &&& i16::MIN <= self.exponent <= i16::MAX + 19
            },
            Class::Infinite => self.significand == 0 && self.exponent == 0,
            Class::NotANumber => !self.negative && self.significand == 0 && self.exponent == 0,
        }
    }

    /// Whether the value is a whole number: finite, and the significand is a
    /// multiple of the power of ten that a negative exponent divides it by.
    pub open spec fn is_integral(&self) -> bool {
        self.is_finite() && (self.exponent() >= 0 || self.significand() % pow10(
            (-self.exponent()) as nat,
        ) == 0)
    }

    /// Whether the number is the finite `significand * 10^power`, negated if
    /// `negative`, in lowest terms.
    pub open spec fn is_decimal(&self, negative: bool, significand: nat, power: int) -> bool {
        &&& self.is_finite()
        &&& self.is_negative() == negative
        &&& self.significand() == stripped(significand)
        &&& self.exponent() == if significand == 0 {
            0
        } else {
            power + trailing_zeros(significand)
        }
    }

    /// The finite number `significand * 10^exponent`, negated if `negative`.
    pub fn new(negative: bool, significand: u64, exponent: i16) -> (r: Number)
        ensures
            r.wf(),
            r.is_decimal(negative, significand as nat, exponent as int),
    {
        let mut s: u64 = significand;
        let mut e: i32 = exponent as i32;
        if s == 0 {
            e = 0;
        } else {
            proof {
                lemma_trailing_zeros_bound(significand as nat);
            }
            while s % 10 == 0
                invariant
                    s != 0,
                    stripped(s as nat) == stripped(significand as nat),
                    e + trailing_zeros(s as nat) == exponent + trailing_zeros(significand as nat),
                    trailing_zeros(significand as nat) <= 19,
                decreases s,
            {
                s = s / 10;
                e = e + 1;
            }
        }
        Number { class: Class::Finite, negative, significand: s, exponent: e }
    }

    /// Positive or negative infinity.
    pub fn infinity(negative: bool) -> (r: Number)
        ensures
            r.wf(),
            r.is_infinite(),
            r.is_negative() == negative,
    {
        Number { class: Class::Infinite, negative, significand: 0, exponent: 0 }
    }

    /// Not-a-number.
    pub fn nan() -> (r: Number)
        ensures
            r.wf(),
            r.is_nan(),
    {
        Number { class: Class::NotANumber, negative: false, significand: 0, exponent: 0 }
    }
}

impl Render for Number {
    /// `NaN`, or the sign followed by `inf` or by the positional notation of
    /// the value.
    open spec fn text(&self) -> Seq<char> {
        if self.is_nan() {
            "NaN"@
        } else if self.is_infinite() {
            sign(self.is_negative()) + "inf"@
        } else {
            sign(self.is_negative()) + positional(self.significand(), self.exponent())
        }
    }

    fn to_string(&self) -> (r: String) {
        let mut out = String::new();
        if self.negative {
            proof {
                reveal_strlit("-");
            }
            out.append("-");
        }
        assert(out@ =~= sign(self.is_negative()));
        match self.class {
            Class::NotANumber => {
                proof {
                    use_type_invariant(self);
                }
                out.append("NaN");
                assert(out@ =~= "NaN"@);
            },
            Class::Infinite => {
                out.append("inf");
            },
            Class::Finite => {
                proof {
                    use_type_invariant(self);
                    reveal_strlit(".");
                    reveal_strlit("0.");
                }
                let digits = decimal_digits(self.significand);
                let ghost text = decimal(self.significand as nat);
                let ghost start = out@;
                let len = digits.len();
                if self.exponent >= 0 {
                    push_digits(&mut out, &digits, 0, len);
                    push_zeros(&mut out, self.exponent as usize);
                    assert(text.subrange(0, len as int) =~= text);
                } else {
                    let shift = (-self.exponent) as usize;
                    if len > shift {
                        push_digits(&mut out, &digits, 0, len - shift);
                        out.append(".");
                        push_digits(&mut out, &digits, len - shift, len);
                        assert(out@ =~= start + (text.subrange(0, len - shift) + seq!['.']
                            + text.subrange(len - shift, len as int)));
                    } else {
                        out.append("0.");
                        push_zeros(&mut out, shift - len);
                        push_digits(&mut out, &digits, 0, len);
                        assert(text.subrange(0, len as int) =~= text);
                        assert("0."@ =~= seq!['0', '.']);
                        assert(out@ =~= start + (seq!['0', '.'] + zeros((shift - len) as nat)
                            + text));
                    }
                }
                assert(out@ =~= sign(self.is_negative()) + positional(
                    self.significand(),
                    self.exponent(),
                ));
            },
        }
        out
    }
}

/// A number that does not end in a zero is no multiple of a positive power of
/// ten.
proof fn lemma_no_trailing_zero_no_power(n: nat, k: nat)
    requires
        n % 10 != 0,
        k > 0,
    ensures
        n % pow10(k) != 0,
{
    let rest = pow10((k - 1) as nat);
    lemma_pow10_positive((k - 1) as nat);
    if n % pow10(k) == 0 {
        let q = n / pow10(k);
        assert(n == pow10(k) * q) by {
            vstd::arithmetic::div_mod::lemma_fundamental_div_mod(n as int, pow10(k) as int);
        }
        assert(pow10(k) * q == 10 * (rest * q)) by (nonlinear_arith)
            requires
                pow10(k) == 10 * rest,
        ;
    }
}

/// A number is of exactly one kind: finite, infinite, or not a number.
pub proof fn lemma_one_kind(n: Number)
    ensures
        n.is_finite() || n.is_infinite() || n.is_nan(),
        !(n.is_finite() && n.is_infinite()),
        !(n.is_finite() && n.is_nan()),
        !(n.is_infinite() && n.is_nan()),
{
}

/// Two numbers of the same kind, sign, significand and exponent are one
/// number.
pub proof fn lemma_number_by_parts(a: Number, b: Number)
    requires
        a.wf(),
        b.wf(),
        a.is_nan() == b.is_nan(),
        a.is_infinite() == b.is_infinite(),
        !a.is_nan() ==> a.is_negative() == b.is_negative(),
        a.is_finite() ==> a.significand() == b.significand() && a.exponent() == b.exponent(),
    ensures
        a == b,
{
}

/// A finite number is written with a decimal point exactly when it is not a
/// whole number: `1` and `-1`, never `1.0`; `0.5` stays `0.5`.
pub proof fn lemma_point_marks_fraction(n: Number)
    requires
        n.wf(),
        n.is_finite(),
    ensures
        n.text().contains('.') <==> !n.is_integral(),
{
    let digits = decimal(n.significand());
    let body = positional(n.significand(), n.exponent());
    let text = n.text();
    let lead = sign(n.is_negative()).len() as int;
    lemma_decimal_is_digits(n.significand());
    if n.exponent() >= 0 {
        assert forall|i: int| 0 <= i < text.len() implies text[i] != '.' by {
            if i >= lead {
                assert(text[i] == body[i - lead]);
                if i - lead < digits.len() {
                    assert(is_digit(digits[i - lead]));
                }
            }
        }
    } else {
        lemma_no_trailing_zero_no_power(n.significand(), (-n.exponent()) as nat);
        let at = if digits.len() > -n.exponent() {
            digits.len() + n.exponent()
        } else {
            1
        };
        assert(body[at] == '.');
        assert(text[lead + at] == '.');
    }
}

/// Powers of ten are positive.
proof fn lemma_pow10_positive(n: nat)
    ensures
        pow10(n) > 0,
    decreases n,
{
    if n > 0 {
        lemma_pow10_positive((n - 1) as nat);
    }
}

/// Powers of ten grow with the exponent.
proof fn lemma_pow10_grows(a: nat, b: nat)
    requires
        a <= b,
    ensures
        pow10(a) <= pow10(b),
    decreases b,
{
    if a < b {
        lemma_pow10_grows(a, (b - 1) as nat);
        lemma_pow10_positive((b - 1) as nat);
    }
}

/// Stripping trailing zeros divides by a power of ten and keeps the value.
pub proof fn lemma_stripped_value(n: nat)
    ensures
        stripped(n) * pow10(trailing_zeros(n)) == n,
        n != 0 ==> stripped(n) % 10 != 0,
        n == 0 ==> stripped(n) == 0,
    decreases n,
{
    if n != 0 && n % 10 == 0 {
        lemma_stripped_value(n / 10);
        let t = trailing_zeros(n / 10);
        assert(trailing_zeros(n) == t + 1);
        assert(pow10(trailing_zeros(n)) == 10 * pow10(t));
        assert(stripped(n) == stripped(n / 10));
        let a = stripped(n / 10);
        let b = pow10(t);
        assert(a * (10 * b) == 10 * (a * b)) by (nonlinear_arith);
        assert(stripped(n) * pow10(trailing_zeros(n)) == a * (10 * b));
    } else {
        assert(pow10(0) == 1);
        assert(stripped(n) * pow10(trailing_zeros(n)) == n * 1);
    }
}

/// A 64-bit number ends in at most nineteen zeros.
proof fn lemma_trailing_zeros_bound(n: nat)
    requires
        n <= u64::MAX,
    ensures
        trailing_zeros(n) <= 19,
{
    if n != 0 {
        lemma_stripped_value(n);
        let t = trailing_zeros(n);
        if t >= 20 {
            lemma_pow10_grows(20, t);
            assert(pow10(20) == 100_000_000_000_000_000_000nat) by {
                reveal_with_fuel(pow10, 21);
            }
            assert(stripped(n) >= 1);
            assert(stripped(n) * pow10(t) >= pow10(t)) by (nonlinear_arith)
                requires
                    stripped(n) >= 1,
            ;
        }
    }
}

} // verus!
