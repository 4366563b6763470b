//! Building blocks shared by every renderer: decimal digits of a natural
//! number, and the two ways a list of rendered items is laid out.

use vstd::prelude::*;
use vstd::string::*;

verus! {

/// The character that writes the digit `d`.
pub open spec fn digit(d: int) -> char {
    if d == 0 {
        '0'
    } else if d == 1 {
        '1'
    } else if d == 2 {
        '2'
    } else if d == 3 {
        '3'
    } else if d == 4 {
        '4'
    } else if d == 5 {
        '5'
    } else if d == 6 {
        '6'
    } else if d == 7 {
        '7'
    } else if d == 8 {
        '8'
    } else {
        '9'
    }
}

/// Positional decimal notation of `n`, most significant digit first, with no
/// leading zero except for `0` itself.
pub open spec fn decimal(n: nat) -> Seq<char>
    decreases n,
{
    if n < 10 {
        seq![digit(n as int)]
    } else {
        decimal(n / 10).push(digit((n % 10) as int))
    }
}

/// Whether `c` is one of the ten digit characters.
pub open spec fn is_digit(c: char) -> bool {
    c == '0' || c == '1' || c == '2' || c == '3' || c == '4' || c == '5' || c == '6' || c == '7'
        || c == '8' || c == '9'
}

/// Decimal notation is never empty and holds digits only.
pub proof fn lemma_decimal_is_digits(n: nat)
    ensures
        decimal(n).len() >= 1,
        forall|i: int| 0 <= i < decimal(n).len() ==> is_digit(#[trigger] decimal(n)[i]),
    decreases n,
{
    if n >= 10 {
        lemma_decimal_is_digits(n / 10);
    }
}

/// `count` copies of the character `0`.
pub open spec fn zeros(count: nat) -> Seq<char> {
    Seq::new(count, |i: int| '0')
}

/// Each item rendered on a line of its own: `before`, the item, `after`.
pub open spec fn lines(items: Seq<Seq<char>>, before: Seq<char>, after: Seq<char>) -> Seq<char>
    decreases items.len(),
{
    if items.len() == 0 {
        Seq::empty()
    } else {
        lines(items.drop_last(), before, after) + before + items.last() + after
    }
}

/// The items in order with `separator` between neighbours and none at either end.
pub open spec fn joined(items: Seq<Seq<char>>, separator: Seq<char>) -> Seq<char>
    decreases items.len(),
{
    if items.len() == 0 {
        Seq::empty()
    } else if items.len() == 1 {
        items[0]
    } else {
        joined(items.drop_last(), separator) + separator + items.last()
    }
}

/// A value with an exact textual form.
pub trait Render {
    /// The text this value renders to.
    spec fn text(&self) -> Seq<char>;

    /// Renders the value.
    fn to_string(&self) -> (r: String)
        ensures
            r@ == self.text(),
    ;
}

/// Rendering is a function of the value alone: whatever two calls of
/// `to_string` return for one value, unchanged between them, is the same text.
pub proof fn lemma_rendering_is_deterministic<T: Render>(value: &T, first: String, second: String)
    requires
        call_ensures(T::to_string, (value,), first),
        call_ensures(T::to_string, (value,), second),
    ensures
        first@ == second@,
        first@ == value.text(),
{
}

/// The texts of `items`, in order.
pub open spec fn texts<T: Render>(items: Seq<T>) -> Seq<Seq<char>> {
    items.map_values(|item: T| item.text())
}

/// The bracketed block of options that follows the opening of an
/// environment: nothing at all without options, else one option per line
/// between square brackets.
pub open spec fn option_block(options: Seq<Seq<char>>) -> Seq<char> {
    if options.len() == 0 {
        Seq::empty()
    } else {
        "[\n"@ + lines(options, "\t"@, ",\n"@) + "]"@
    }
}

/// The one-character text of a digit.
pub(crate) fn digit_str(d: u8) -> (s: &'static str)
    requires
        d < 10,
    ensures
        s@ == seq![digit(d as int)],
{
    proof {
        reveal_strlit("0");
        reveal_strlit("1");
        reveal_strlit("2");
        reveal_strlit("3");
        reveal_strlit("4");
        reveal_strlit("5");
        reveal_strlit("6");
        reveal_strlit("7");
        reveal_strlit("8");
        reveal_strlit("9");
    }
    let s = if d == 0 {
        "0"
    } else if d == 1 {
        "1"
    } else if d == 2 {
        "2"
    } else if d == 3 {
        "3"
    } else if d == 4 {
        "4"
    } else if d == 5 {
        "5"
    } else if d == 6 {
        "6"
    } else if d == 7 {
        "7"
    } else if d == 8 {
        "8"
    } else {
        "9"
    };
    assert(s@ =~= seq![digit(d as int)]);
    s
}

/// The characters that write the digits `digits`.
pub open spec fn digits_text(digits: Seq<u8>) -> Seq<char> {
    digits.map_values(|d: u8| digit(d as int))
}

/// The decimal digits of `n`, most significant first.
pub(crate) fn decimal_digits(n: u64) -> (r: Vec<u8>)
    ensures
        digits_text(r@) == decimal(n as nat),
        forall|i: int| 0 <= i < r@.len() ==> r@[i] < 10,
    decreases n,
{
    let mut r = if n >= 10 {
        decimal_digits(n / 10)
    } else {
        Vec::new()
    };
    r.push((n % 10) as u8);
    assert(digits_text(r@) =~= decimal(n as nat));
    r
}

/// Appends the characters of `digits[from..to]` to `out`.
pub(crate) fn push_digits(out: &mut String, digits: &Vec<u8>, from: usize, to: usize)
    requires
        from <= to <= digits@.len(),
        forall|i: int| 0 <= i < digits@.len() ==> digits@[i] < 10,
    ensures
        final(out)@ == old(out)@ + digits_text(digits@).subrange(from as int, to as int),
{
    let mut i: usize = from;
    assert(out@ =~= old(out)@ + digits_text(digits@).subrange(from as int, i as int));
    while i < to
        invariant
            from <= i <= to <= digits@.len(),
            forall|i: int| 0 <= i < digits@.len() ==> digits@[i] < 10,
            out@ == old(out)@ + digits_text(digits@).subrange(from as int, i as int),
        decreases to - i,
    {
        out.append(digit_str(digits[i]));
        i = i + 1;
        assert(out@ =~= old(out)@ + digits_text(digits@).subrange(from as int, i as int));
    }
}

/// Appends the decimal notation of `n` to `out`.
pub(crate) fn push_decimal(out: &mut String, n: u64)
    ensures
        final(out)@ == old(out)@ + decimal(n as nat),
    decreases n,
{
    if n >= 10 {
        push_decimal(out, n / 10);
    }
    out.append(digit_str((n % 10) as u8));
    assert(out@ =~= old(out)@ + decimal(n as nat));
}

/// Appends `count` zeros to `out`.
pub(crate) fn push_zeros(out: &mut String, count: usize)
    ensures
        final(out)@ == old(out)@ + zeros(count as nat),
{
    let mut i: usize = 0;
    while i < count
        invariant
            i <= count,
            out@ == old(out)@ + zeros(i as nat),
        decreases count - i,
    {
        proof {
            reveal_strlit("0");
        }
        out.append("0");
        i = i + 1;
        assert(out@ =~= old(out)@ + zeros(i as nat));
    }
}

/// Appends to `out` every item on a line of its own.
pub(crate) fn push_lines<T: Render>(out: &mut String, items: &Vec<T>, before: &str, after: &str)
    ensures
        final(out)@ == old(out)@ + lines(texts(items@), before@, after@),
{
    let mut i: usize = 0;
    while i < items.len()
        invariant
            i <= items.len(),
            out@ == old(out)@ + lines(texts(items@.take(i as int)), before@, after@),
        decreases items.len() - i,
    {
        let item = items[i].to_string();
        out.append(before);
        out.append(item.as_str());
        out.append(after);
        proof {
            let done = texts(items@.take(i as int));
            let next = texts(items@.take(i + 1));
            assert(next.drop_last() =~= done);
            assert(next.last() == items@[i as int].text());
            assert(out@ =~= old(out)@ + lines(next, before@, after@));
        }
        i = i + 1;
    }
    assert(items@.take(items.len() as int) =~= items@);
}

/// Appends to `out` the block of options of an environment.
pub(crate) fn push_option_block<T: Render>(out: &mut String, options: &Vec<T>)
    ensures
        final(out)@ == old(out)@ + option_block(texts(options@)),
{
    if options.len() > 0 {
        out.append("[\n");
        push_lines(out, options, "\t", ",\n");
        out.append("]");
        assert(out@ =~= old(out)@ + option_block(texts(options@)));
    } else {
        assert(out@ =~= old(out)@ + option_block(texts(options@)));
    }
}

/// Appends to `out` the items with `separator` between neighbours.
pub(crate) fn push_joined<T: Render>(out: &mut String, items: &Vec<T>, separator: &str)
    ensures
        final(out)@ == old(out)@ + joined(texts(items@), separator@),
{
    let mut i: usize = 0;
    while i < items.len()
        invariant
            i <= items.len(),
            out@ == old(out)@ + joined(texts(items@.take(i as int)), separator@),
        decreases items.len() - i,
    {
        let item = items[i].to_string();
        if i > 0 {
            out.append(separator);
        }
        out.append(item.as_str());
        proof {
            let done = texts(items@.take(i as int));
            let next = texts(items@.take(i + 1));
            assert(next.drop_last() =~= done);
            assert(next.last() == items@[i as int].text());
            assert(out@ =~= old(out)@ + joined(next, separator@));
        }
        i = i + 1;
    }
    assert(items@.take(items.len() as int) =~= items@);
}

} // verus!
