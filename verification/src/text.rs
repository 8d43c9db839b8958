//! Text as sequences of characters: comparison, decimal numbers and padding.

use vstd::prelude::*;

verus! {

/// The characters of each string of a list.
pub open spec fn texts(strings: Seq<String>) -> Seq<Seq<char>> {
    strings.map_values(|s: String| s@)
}

/// Whether two strings hold the same characters.
pub fn same_text(a: &str, b: &str) -> (same: bool)
    ensures
        same == (a@ == b@),
{
    a.to_owned() == b.to_owned()
}

/// Two texts, one after the other.
pub fn joined(first: &str, second: &str) -> (text: String)
    ensures
        text@ == first@ + second@,
{
    let mut text = first.to_owned();
    text.append(second);
    text
}

/// The character of a decimal digit.
pub open spec fn digit(value: nat) -> char {
    (48 + value) as char
}

/// A number in decimal notation, without leading zeros.
pub open spec fn decimal(number: nat) -> Seq<char>
    decreases number,
{
    if number < 10 {
        seq![digit(number)]
    } else {
        decimal(number / 10).push(digit(number % 10))
    }
}

/// `text` right-aligned in a field of `width` characters, filled up with `fill`.
pub open spec fn right_aligned(text: Seq<char>, width: nat, fill: char) -> Seq<char> {
    Seq::new(
        if text.len() < width {
            (width - text.len()) as nat
        } else {
            0
        },
        |i: int| fill,
    ) + text
}

/// The number that a text of decimal digits denotes.
pub open spec fn decimal_value(text: Seq<char>) -> int
    decreases text.len(),
{
    if text.len() == 0 {
        0
    } else {
        10 * decimal_value(text.drop_last()) + (text.last() as int - 48)
    }
}

/// Decimal notation denotes the number that it was made from.
pub proof fn decimal_denotes(number: nat)
    ensures
        decimal_value(decimal(number)) == number,
        decimal(number).len() > 0,
    decreases number,
{
    if number < 10 {
        assert(decimal(number).drop_last() =~= Seq::<char>::empty());
        assert(decimal_value(Seq::<char>::empty()) == 0);
        assert(decimal(number).last() == digit(number));
    } else {
        decimal_denotes(number / 10);
        assert(decimal(number).drop_last() =~= decimal(number / 10));
        assert(decimal(number).last() == digit(number % 10));
    }
}

/// Zeros on the left do not change the number that is denoted.
pub proof fn leading_zeros_are_void(text: Seq<char>, width: nat)
    ensures
        decimal_value(right_aligned(text, width, '0')) == decimal_value(text),
    decreases text.len(), width,
{
    let padded = right_aligned(text, width, '0');
    if text.len() == 0 {
        if width > 0 {
            leading_zeros_are_void(text, (width - 1) as nat);
            assert(padded.drop_last() =~= right_aligned(text, (width - 1) as nat, '0'));
        } else {
            assert(padded =~= text);
        }
    } else if width == 0 {
        assert(padded =~= text);
    } else {
        leading_zeros_are_void(text.drop_last(), (width - 1) as nat);
        assert(padded.drop_last() =~= right_aligned(text.drop_last(), (width - 1) as nat, '0'));
        assert(padded.last() == text.last());
    }
}

fn digit_text(value: u64) -> (text: &'static str)
    requires
        value < 10,
    ensures
        text@ == seq![digit(value as nat)],
{
    proof {
        reveal_strlit("0");
        reveal_strlit("1");
        reveal_strlit("2");
        reveal_strlit("3");
        reveal_strlit("4");
        reveal_strlit("5");
        reveal_strlit("6");
        reveal_strlit("7");
        reveal_strlit("8");
        reveal_strlit("9");
    }
    let text = match value {
        0 => "0",
        1 => "1",
        2 => "2",
        3 => "3",
        4 => "4",
        5 => "5",
        6 => "6",
        7 => "7",
        8 => "8",
        _ => "9",
    };
    assert(text@ =~= seq![digit(value as nat)]);
    text
}

/// A number in decimal notation, without leading zeros.
pub fn decimal_text(number: u64) -> (text: String)
    ensures
        text@ == decimal(number as nat),
    decreases number,
{
    if number < 10 {
        digit_text(number).to_owned()
    } else {
        let mut text = decimal_text(number / 10);
        text.append(digit_text(number % 10));
        assert(text@ =~= decimal(number as nat));
        text
    }
}

/// `text` right-aligned in a field of `width` characters, filled up with `fill`.
pub fn align_right(text: &str, width: usize, fill: &str) -> (aligned: String)
    requires
        fill@.len() == 1,
    ensures
        aligned@ == right_aligned(text@, width as nat, fill@[0]),
        aligned@.len() == if text@.len() < width {
            width as nat
        } else {
            text@.len()
        },
        aligned@.skip(aligned@.len() - text@.len()) == text@,
        forall|i: int|
            0 <= i < aligned@.len() - text@.len() ==> #[trigger] aligned@[i] == fill@[0],
{
    let length: usize = text.unicode_len();
    let mut aligned = String::new();
    let mut filled: usize = length;
    while filled < width
        invariant
            length == text@.len(),
            length <= filled,
            filled <= width || filled == length,
            fill@.len() == 1,
            aligned@ == Seq::new((filled - length) as nat, |i: int| fill@[0]),
        decreases width - filled,
    {
        aligned.append(fill);
        filled = filled + 1;
        assert(aligned@ =~= Seq::new((filled - length) as nat, |i: int| fill@[0]));
    }
    aligned.append(text);
    assert(aligned@ =~= right_aligned(text@, width as nat, fill@[0]));
    proof {
        alignment_keeps_the_text(text@, width as nat, fill@[0]);
    }
    aligned
}

/// A list of texts has one text for each string, in their order.
pub proof fn texts_are_those_of_the_strings(strings: Seq<String>)
    ensures
        texts(strings).len() == strings.len(),
        forall|i: int| 0 <= i < strings.len() ==> #[trigger] texts(strings)[i] == strings[i]@,
{
}

/// Ten times a number and a digit is written as the number and then the digit.
pub proof fn decimal_grows_digit_by_digit(number: nat, last: nat)
    requires
        last < 10,
    ensures
        decimal(last) == seq![(48 + last) as char],
        number > 0 ==> decimal(10 * number + last) == decimal(number).push((48 + last) as char),
{
    assert((10 * number + last) / 10 == number);
}

/// Decimal notation consists of digits, and does not start with a zero unless it
/// is nothing else.
pub proof fn decimal_is_plain(number: nat)
    ensures
        decimal(number).len() > 0,
        forall|i: int|
            0 <= i < decimal(number).len() ==> '0' <= #[trigger] decimal(number)[i] <= '9',
        decimal(number)[0] == '0' <==> number == 0,
        number < 10 <==> decimal(number).len() == 1,
        number < 100 <==> decimal(number).len() <= 2,
    decreases number,
{
    if number >= 10 {
        decimal_is_plain(number / 10);
        assert(decimal(number) == decimal(number / 10).push(digit(number % 10)));
        assert(number / 10 < 10 <==> number < 100);
    }
}

/// A digit that is added on the right counts for one, what stands on its left for ten.
pub proof fn decimal_value_reads_digits(text: Seq<char>, last: char)
    ensures
        decimal_value(Seq::<char>::empty()) == 0,
        decimal_value(text.push(last)) == 10 * decimal_value(text) + (last as int - 48),
{
    assert(text.push(last).drop_last() =~= text);
}

/// A text that is right-aligned stands at the end of its field, and before it
/// stands nothing but the filling. A text that is wider than its field is not cut.
pub proof fn alignment_keeps_the_text(text: Seq<char>, width: nat, fill: char)
    ensures
        ({
            let aligned = right_aligned(text, width, fill);
            let start = aligned.len() - text.len();
            &&& aligned.len() == if text.len() < width {
                width
            } else {
                text.len()
            }
            &&& aligned.skip(start) == text
            &&& forall|i: int| 0 <= i < start ==> #[trigger] aligned[i] == fill
        }),
{
    let aligned = right_aligned(text, width, fill);
    assert(aligned.skip(aligned.len() - text.len()) =~= text);
}

} // verus!
