//! Reading a number in scientific notation, the form in which a binary
//! floating-point value hands over its shortest decimal digits.

use crate::number::{lemma_number_by_parts, lemma_one_kind, sign, Number};
use crate::text::is_digit;
use vstd::prelude::*;
use vstd::string::*;

verus! {

/// The digit that the character `c` writes.
pub open spec fn digit_value(c: char) -> nat {
    if c == '0' {
        0
    } else if c == '1' {
        1
    } else if c == '2' {
        2
    } else if c == '3' {
        3
    } else if c == '4' {
        4
    } else if c == '5' {
        5
    } else if c == '6' {
        6
    } else if c == '7' {
        7
    } else if c == '8' {
        8
    } else {
        9
    }
}

/// Every character of `text` is a digit.
pub open spec fn all_digits(text: Seq<char>) -> bool {
    forall|i: int| 0 <= i < text.len() ==> is_digit(#[trigger] text[i])
}

/// The number that is written by the digits of `before` followed by `digits`.
pub open spec fn appended(before: nat, digits: Seq<char>) -> nat
    decreases digits.len(),
{
    if digits.len() == 0 {
        before
    } else {
        10 * appended(before, digits.drop_last()) + digit_value(digits.last())
    }
}

/// The number that `digits` writes; leading zeros count for nothing.
pub open spec fn digits_value(digits: Seq<char>) -> nat {
    appended(0, digits)
}

/// The parts of a number in scientific notation.
pub struct Scientific {
    /// Whether a minus sign leads.
    pub negative: bool,
    /// The digits before the point.
    pub integer: Seq<char>,
    /// The digits after the point; without a point, none.
    pub fraction: Seq<char>,
    /// Whether a minus sign leads the exponent.
    pub exponent_negative: bool,
    /// The digits of the exponent.
    pub exponent: Seq<char>,
}

impl Scientific {
    /// There is a digit before the point and in the exponent, and all parts
    /// are digits.
    pub open spec fn wf(self) -> bool {
        &&& self.integer.len() > 0
        &&& all_digits(self.integer)
        &&& all_digits(self.fraction)
        &&& self.exponent.len() > 0
        &&& all_digits(self.exponent)
    }

    /// The notation: sign, digits, a point only before fraction digits, `e`,
    /// the exponent with its sign.
    pub open spec fn text(self) -> Seq<char> {
        sign(self.negative) + self.integer + (if self.fraction.len() > 0 {
            seq!['.'] + self.fraction
        } else {
            Seq::empty()
        }) + seq!['e'] + sign(self.exponent_negative) + self.exponent
    }

    /// All digits of the mantissa as one whole number.
    pub open spec fn significand(self) -> nat {
        digits_value(self.integer + self.fraction)
    }

    /// The power of ten that scales the significand: the exponent, less one
    /// for every fraction digit.
    pub open spec fn power(self) -> int {
        (if self.exponent_negative {
            -(digits_value(self.exponent) as int)
        } else {
            digits_value(self.exponent) as int
        }) - self.fraction.len()
    }

    /// The significand fits in 64 bits and the power in 16.
    pub open spec fn fits(self) -> bool {
        self.significand() <= u64::MAX && i16::MIN <= self.power() <= i16::MAX
    }
}

/// `text` is the notation of `parts`, and `parts` can be held.
pub open spec fn parses(text: Seq<char>, parts: Scientific) -> bool {
    parts.wf() && parts.text() == text && parts.fits()
}

/// `text` is one of the three words for what is not finite, or scientific
/// notation of a number that can be held.
pub open spec fn readable(text: Seq<char>) -> bool {
    text == "NaN"@ || text == "inf"@ || text == "-inf"@ || exists|parts: Scientific|
        parses(text, parts)
}

/// `text` writes the number `n`.
pub open spec fn denotes(text: Seq<char>, n: Number) -> bool {
    ||| text == "NaN"@ && n.is_nan()
    ||| text == "inf"@ && n.is_infinite() && !n.is_negative()
    ||| text == "-inf"@ && n.is_infinite() && n.is_negative()
    ||| exists|parts: Scientific|
        parses(text, parts) && n.is_decimal(parts.negative, parts.significand(), parts.power())
}

/// The end of the longest run of digits of `text` that starts at `from`.
spec fn run_end(text: Seq<char>, from: int) -> int
    decreases text.len() - from,
{
    if 0 <= from < text.len() && is_digit(text[from]) {
        run_end(text, from + 1)
    } else {
        from
    }
}

/// The parts of `text`, found from left to right, if it is scientific
/// notation.
spec fn scan(text: Seq<char>) -> Option<Scientific> {
    let negative = text.len() > 0 && text[0] == '-';
    let start: int = if negative {
        1
    } else {
        0
    };
    let point = run_end(text, start);
    let has_fraction = point < text.len() && text[point] == '.';
    let fraction_start = if has_fraction {
        point + 1
    } else {
        point
    };
    let mark = if has_fraction {
        run_end(text, fraction_start)
    } else {
        point
    };
    let exponent_negative = mark + 1 < text.len() && text[mark + 1] == '-';
    let exponent_start = mark + 1 + if exponent_negative {
        1int
    } else {
        0int
    };
    let end = run_end(text, exponent_start);
    if point == start || (has_fraction && mark == fraction_start) || !(mark < text.len()
        && text[mark] == 'e') || end == exponent_start || end != text.len() {
        None
    } else {
        Some(
            Scientific {
                negative,
                integer: text.subrange(start, point),
                fraction: text.subrange(fraction_start, mark),
                exponent_negative,
                exponent: text.subrange(exponent_start, end),
            },
        )
    }
}

/// A run of digits ends where `run_end` says, and nowhere else.
proof fn lemma_run_end(text: Seq<char>, from: int)
    requires
        0 <= from <= text.len(),
    ensures
        from <= run_end(text, from) <= text.len(),
        forall|k: int| from <= k < run_end(text, from) ==> is_digit(#[trigger] text[k]),
        run_end(text, from) < text.len() ==> !is_digit(text[run_end(text, from)]),
    decreases text.len() - from,
{
    if from < text.len() && is_digit(text[from]) {
        lemma_run_end(text, from + 1);
    }
}

/// Digits from `from` up to `to`, and no digit at `to`, make `to` the end of
/// the run.
proof fn lemma_run_end_is(text: Seq<char>, from: int, to: int)
    requires
        0 <= from <= to <= text.len(),
        forall|k: int| from <= k < to ==> is_digit(#[trigger] text[k]),
        to < text.len() ==> !is_digit(text[to]),
    ensures
        run_end(text, from) == to,
    decreases to - from,
{
    if from < to {
        assert(is_digit(text[from]));
        lemma_run_end_is(text, from + 1, to);
    }
}

/// What `scan` finds is a notation of the text that it read.
proof fn lemma_scan_sound(text: Seq<char>)
    requires
        scan(text) is Some,
    ensures
        scan(text)->0.wf(),
        scan(text)->0.text() == text,
{
    let parts = scan(text)->0;
    let start: int = if parts.negative {
        1
    } else {
        0
    };
    lemma_run_end(text, start);
    let point = run_end(text, start);
    let has_fraction = point < text.len() && text[point] == '.';
    let fraction_start = if has_fraction {
        point + 1
    } else {
        point
    };
    if has_fraction {
        lemma_run_end(text, fraction_start);
    }
    let mark = if has_fraction {
        run_end(text, fraction_start)
    } else {
        point
    };
    let exponent_start = mark + 1 + if parts.exponent_negative {
        1int
    } else {
        0int
    };
    lemma_run_end(text, exponent_start);
    assert(parts.fraction.len() > 0 <==> has_fraction);
    assert(parts.text() =~= text);
}

/// A notation is read back as the parts that wrote it: no text has two
/// readings.
proof fn lemma_scan_complete(parts: Scientific)
    requires
        parts.wf(),
    ensures
        scan(parts.text()) == Some(parts),
{
    let text = parts.text();
    let start = sign(parts.negative).len() as int;
    let point = start + parts.integer.len();
    let has_fraction = parts.fraction.len() > 0;
    let fraction_start = if has_fraction {
        point + 1
    } else {
        point
    };
    let mark = fraction_start + parts.fraction.len();
    let exponent_start = mark + 1 + sign(parts.exponent_negative).len();
    let end = exponent_start + parts.exponent.len();
    assert(text.len() == end);
    assert(is_digit(parts.integer[0]));
    assert(text[start] == parts.integer[0]);
    assert(parts.negative <==> text[0] == '-');
    assert forall|k: int| start <= k < point implies is_digit(#[trigger] text[k]) by {
        assert(text[k] == parts.integer[k - start]);
    }
    assert(text[mark] == 'e');
    if has_fraction {
        assert(text[point] == '.');
        assert forall|k: int| fraction_start <= k < mark implies is_digit(#[trigger] text[k]) by {
            assert(text[k] == parts.fraction[k - fraction_start]);
        }
        lemma_run_end_is(text, fraction_start, mark);
    }
    lemma_run_end_is(text, start, point);
    assert(is_digit(parts.exponent[0]));
    assert(text[exponent_start] == parts.exponent[0]);
    assert(parts.exponent_negative <==> text[mark + 1] == '-');
    assert forall|k: int| exponent_start <= k < end implies is_digit(#[trigger] text[k]) by {
        assert(text[k] == parts.exponent[k - exponent_start]);
    }
    lemma_run_end_is(text, exponent_start, end);
    assert(text.subrange(start, point) =~= parts.integer);
    assert(text.subrange(fraction_start, mark) =~= parts.fraction);
    assert(text.subrange(exponent_start, end) =~= parts.exponent);
}

/// Writing digits after digits is writing all of them at once.
proof fn lemma_appended_twice(before: nat, first: Seq<char>, second: Seq<char>)
    ensures
        appended(appended(before, first), second) == appended(before, first + second),
    decreases second.len(),
{
    if second.len() == 0 {
        assert(first + second =~= first);
    } else {
        lemma_appended_twice(before, first, second.drop_last());
        assert((first + second).drop_last() =~= first + second.drop_last());
        assert((first + second).last() == second.last());
    }
}

/// More digits never write a smaller number.
proof fn lemma_appended_grows(before: nat, digits: Seq<char>)
    ensures
        before <= appended(before, digits),
    decreases digits.len(),
{
    if digits.len() > 0 {
        lemma_appended_grows(before, digits.drop_last());
    }
}

/// Whether `c` is a digit.
fn is_digit_char(c: char) -> (r: bool)
    ensures
        r == is_digit(c),
{
    c == '0' || c == '1' || c == '2' || c == '3' || c == '4' || c == '5' || c == '6' || c == '7'
        || c == '8' || c == '9'
}

/// The digit that `c` writes.
fn digit_of(c: char) -> (r: u8)
    requires
        is_digit(c),
    ensures
        r == digit_value(c),
        r <= 9,
{
    if c == '0' {
        0
    } else if c == '1' {
        1
    } else if c == '2' {
        2
    } else if c == '3' {
        3
    } else if c == '4' {
        4
    } else if c == '5' {
        5
    } else if c == '6' {
        6
    } else if c == '7' {
        7
    } else if c == '8' {
        8
    } else {
        9
    }
}

/// The characters of `text`.
fn characters(text: &str) -> (r: Vec<char>)
    ensures
        r@ == text@,
{
    let mut chars: Vec<char> = Vec::new();
    let len = text.unicode_len();
    let mut i: usize = 0;
    while i < len
        invariant
            i <= len,
            len == text@.len(),
            chars@ == text@.subrange(0, i as int),
        decreases len - i,
    {
        chars.push(text.get_char(i));
        i = i + 1;
        assert(chars@ =~= text@.subrange(0, i as int));
    }
    assert(text@.subrange(0, len as int) =~= text@);
    chars
}

/// The end of the longest run of digits that starts at `from`.
fn digit_run(chars: &Vec<char>, from: usize) -> (end: usize)
    requires
        from <= chars@.len(),
    ensures
        end == run_end(chars@, from as int),
        from <= end <= chars@.len(),
{
    let mut end = from;
    while end < chars.len() && is_digit_char(chars[end])
        invariant
            from <= end <= chars@.len(),
            run_end(chars@, from as int) == run_end(chars@, end as int),
        decreases chars@.len() - end,
    {
        end = end + 1;
    }
    end
}

/// The number that the digits `chars[from..to]` write after the digits of
/// `before`, unless it needs more than 128 bits.
fn accumulate(chars: &Vec<char>, from: usize, to: usize, before: u128) -> (r: Option<u128>)
    requires
        from <= to <= chars@.len(),
        forall|k: int| from <= k < to ==> is_digit(#[trigger] chars@[k]),
    ensures
        r is Some ==> r->0 == appended(before as nat, chars@.subrange(from as int, to as int)),
        r is None ==> appended(before as nat, chars@.subrange(from as int, to as int))
            > u128::MAX,
{
    let ghost all = chars@.subrange(from as int, to as int);
    let mut value = before;
    let mut i = from;
    while i < to
        invariant
            from <= i <= to <= chars@.len(),
            forall|k: int| from <= k < to ==> is_digit(#[trigger] chars@[k]),
            all == chars@.subrange(from as int, to as int),
            value == appended(before as nat, chars@.subrange(from as int, i as int)),
        decreases to - i,
    {
        let digit = digit_of(chars[i]) as u128;
        proof {
            let read = chars@.subrange(from as int, i + 1);
            let rest = chars@.subrange(i + 1, to as int);
            assert(read.drop_last() =~= chars@.subrange(from as int, i as int));
            assert(read.last() == chars@[i as int]);
            assert(read + rest =~= all);
            lemma_appended_twice(before as nat, read, rest);
            lemma_appended_grows(appended(before as nat, read), rest);
        }
        if value > (u128::MAX - digit) / 10 {
            return None;
        }
        value = value * 10 + digit;
        i = i + 1;
    }
    assert(chars@.subrange(from as int, i as int) =~= all);
    Some(value)
}

/// A text has at most one reading as scientific notation.
pub proof fn lemma_one_reading(text: Seq<char>, first: Scientific, second: Scientific)
    requires
        first.wf() && first.text() == text,
        second.wf() && second.text() == text,
    ensures
        first == second,
{
    lemma_scan_complete(first);
    lemma_scan_complete(second);
}

/// A text writes at most one number.
pub proof fn lemma_denotes_one_number(text: Seq<char>, first: Number, second: Number)
    requires
        first.wf() && denotes(text, first),
        second.wf() && denotes(text, second),
    ensures
        first == second,
{
    reveal_strlit("NaN");
    reveal_strlit("inf");
    reveal_strlit("-inf");
    assert forall|parts: Scientific| parts.wf() && parts.text() == text implies scan(text)
        == Some(parts) by {
        lemma_scan_complete(parts);
    }
    if text == "NaN"@ || text == "inf"@ || text == "-inf"@ {
        assert(scan(text) is None) by {
            reveal_with_fuel(run_end, 2);
        }
    }
    lemma_one_kind(first);
    lemma_one_kind(second);
    lemma_number_by_parts(first, second);
}

/// Where the parts of a notation lie in its text.
struct Layout {
    negative: bool,
    start: usize,
    point: usize,
    fraction_start: usize,
    mark: usize,
    exponent_negative: bool,
    exponent_start: usize,
    end: usize,
}

impl Layout {
    /// The parts that lie there.
    spec fn parts(self, text: Seq<char>) -> Scientific {
        Scientific {
            negative: self.negative,
            integer: text.subrange(self.start as int, self.point as int),
            fraction: text.subrange(self.fraction_start as int, self.mark as int),
            exponent_negative: self.exponent_negative,
            exponent: text.subrange(self.exponent_start as int, self.end as int),
        }
    }

    /// The places are in order and within the text, and digits lie where
    /// digits are read.
    spec fn wf(self, text: Seq<char>) -> bool {
        &&& self.start <= self.point <= self.fraction_start <= self.mark < self.exponent_start
            <= self.end == text.len()
        &&& forall|k: int| self.start <= k < self.point ==> is_digit(#[trigger] text[k])
        &&& forall|k: int| self.fraction_start <= k < self.mark ==> is_digit(#[trigger] text[k])
        &&& forall|k: int| self.exponent_start <= k < self.end ==> is_digit(#[trigger] text[k])
    }
}

/// The places of the parts of `chars`, if it is scientific notation.
fn locate(chars: &Vec<char>) -> (r: Option<Layout>)
    ensures
        r is Some <==> scan(chars@) is Some,
        r is Some ==> r->0.wf(chars@) && scan(chars@) == Some(r->0.parts(chars@)),
{
    let len = chars.len();
    let negative = len > 0 && chars[0] == '-';
    let start: usize = if negative {
        1
    } else {
        0
    };
    let point = digit_run(chars, start);
    if point == start {
        return None;
    }
    let has_fraction = point < len && chars[point] == '.';
    let fraction_start = if has_fraction {
        point + 1
    } else {
        point
    };
    let mark = if has_fraction {
        digit_run(chars, fraction_start)
    } else {
        point
    };
    if has_fraction && mark == fraction_start {
        return None;
    }
    if !(mark < len && chars[mark] == 'e') {
        return None;
    }
    let exponent_negative = mark + 1 < len && chars[mark + 1] == '-';
    let exponent_start = if exponent_negative {
        mark + 2
    } else {
        mark + 1
    };
    let end = digit_run(chars, exponent_start);
    if end == exponent_start || end != len {
        return None;
    }
    proof {
        lemma_run_end(chars@, start as int);
        lemma_run_end(chars@, fraction_start as int);
        lemma_run_end(chars@, exponent_start as int);
    }
    Some(
        Layout {
            negative,
            start,
            point,
            fraction_start,
            mark,
            exponent_negative,
            exponent_start,
            end,
        },
    )
}

/// The number that the parts at `layout` write, if it can be held.
fn evaluate(chars: &Vec<char>, layout: &Layout) -> (r: Option<Number>)
    requires
        layout.wf(chars@),
    ensures
        r is Some <==> layout.parts(chars@).fits(),
        r is Some ==> r->0.wf() && r->0.is_decimal(
            layout.negative,
            layout.parts(chars@).significand(),
            layout.parts(chars@).power(),
        ),
{
    let ghost parts = layout.parts(chars@);
    proof {
        lemma_appended_twice(0, parts.integer, parts.fraction);
        lemma_appended_grows(appended(0, parts.integer), parts.fraction);
    }
    let significand = match accumulate(chars, layout.start, layout.point, 0) {
        Some(integer) => accumulate(chars, layout.fraction_start, layout.mark, integer),
        None => None,
    };
    let exponent = accumulate(chars, layout.exponent_start, layout.end, 0);
    match (significand, exponent) {
        (Some(significand), Some(exponent)) => {
            if significand > u64::MAX as u128 || exponent > 0x1_0000_0000_0000_0000_0000 {
                return None;
            }
            let digits = (layout.mark - layout.fraction_start) as i128;
            let power = if layout.exponent_negative {
                -(exponent as i128) - digits
            } else {
                exponent as i128 - digits
            };
            if power < i16::MIN as i128 || power > i16::MAX as i128 {
                return None;
            }
            Some(Number::new(layout.negative, significand as u64, power as i16))
        },
        _ => None,
    }
}

impl Number {
    /// Reads a number in scientific notation such as `-1.25e-3`, or one of
    /// `NaN`, `inf` and `-inf`.
    pub fn from_scientific(text: &str) -> (r: Option<Number>)
        ensures
            r is Some <==> readable(text@),
            r is Some ==> r->0.wf() && denotes(text@, r->0),
    {
        let chars = characters(text);
        let len = chars.len();
        proof {
            reveal_strlit("NaN");
            reveal_strlit("inf");
            reveal_strlit("-inf");
        }
        if len == 3 && chars[0] == 'N' && chars[1] == 'a' && chars[2] == 'N' {
            assert(text@ =~= "NaN"@);
            return Some(Number::nan());
        }
        if len == 3 && chars[0] == 'i' && chars[1] == 'n' && chars[2] == 'f' {
            assert(text@ =~= "inf"@);
            return Some(Number::infinity(false));
        }
        if len == 4 && chars[0] == '-' && chars[1] == 'i' && chars[2] == 'n' && chars[3] == 'f' {
            assert(text@ =~= "-inf"@);
            return Some(Number::infinity(true));
        }
        assert(text@ != "NaN"@ && text@ != "inf"@ && text@ != "-inf"@);
        proof {
            assert forall|parts: Scientific| parts.wf() && parts.text() == text@ implies scan(
                text@,
            ) == Some(parts) by {
                lemma_scan_complete(parts);
            }
        }
        match locate(&chars) {
            Some(layout) => {
                proof {
                    lemma_scan_sound(text@);
                }
                let number = evaluate(&chars, &layout);
                proof {
                    if number is Some {
                        assert(parses(text@, layout.parts(text@)));
                    }
                }
                number
            },
            None => None,
        }
    }
}

} // verus!
