//! Prices as text: the zero-padded decimal form that the display reads its
//! digits from, and the reading of one digit out of such a text.

use vstd::arithmetic::div_mod::lemma_basic_div;
use vstd::prelude::*;
use vstd::string::*;
use vstd::utf8::*;

verus! {

/// Digit strips on the display, and the least width of a formatted price.
pub const DISPLAY_DIGITS: usize = 8;

/// Ten to the power `e`.
pub open spec fn pow10(e: nat) -> nat
    decreases e,
{
    if e == 0 {
        1
    } else {
        10 * pow10((e - 1) as nat)
    }
}

/// The decimal digit of `n` at `place`, where place 0 holds the units.
pub open spec fn decimal_digit(n: nat, place: nat) -> nat {
    (n / pow10(place)) % 10
}

/// How many digits the decimal form of `n` has; 0 has one.
pub open spec fn decimal_width(n: nat) -> nat
    decreases n,
{
    if n < 10 {
        1
    } else {
        1 + decimal_width(n / 10)
    }
}

/// How many characters the formatted price has: eight, or more where the
/// price does not fit in eight digits.
pub open spec fn price_width(n: u32) -> nat {
    if decimal_width(n as nat) < DISPLAY_DIGITS {
        DISPLAY_DIGITS as nat
    } else {
        decimal_width(n as nat)
    }
}

/// The numeral for `d`.
pub open spec fn digit_char(d: nat) -> char {
    (('0' as nat) + d) as char
}

/// The decimal form of `n`, filled with zeros on the left up to eight
/// characters. Nothing is cut off: a price of nine or ten digits gives a text
/// of that length.
pub open spec fn formatted_price(n: u32) -> Seq<char> {
    Seq::new(
        price_width(n),
        |i: int| digit_char(decimal_digit(n as nat, (price_width(n) - 1 - i) as nat)),
    )
}

/// Whether `b` is the code of one of the numerals `0` to `9`.
pub open spec fn is_digit_byte(b: u8) -> bool {
    0x30 <= b <= 0x39
}

/// The digit read at byte `position` of a text: the numeral's value where a
/// numeral stands there, and 0 wherever else, past the end included.
pub open spec fn digit_at(bytes: Seq<u8>, position: int) -> u32 {
    if 0 <= position < bytes.len() && is_digit_byte(bytes[position]) {
        (bytes[position] - 0x30) as u32
    } else {
        0
    }
}

/// The digits that the display takes from a text: what is read at each of
/// its first eight positions.
pub open spec fn text_digits(bytes: Seq<u8>) -> Seq<i32> {
    Seq::new(DISPLAY_DIGITS as nat, |i: int| digit_at(bytes, i) as i32)
}

/// The digits that the display shows for a price.
pub open spec fn price_digits(n: u32) -> Seq<i32> {
    text_digits(encode_utf8(formatted_price(n)))
}

/// The number that a sequence of digits writes, most significant first.
pub open spec fn digits_value(digits: Seq<i32>) -> int
    decreases digits.len(),
{
    if digits.len() == 0 {
        0
    } else {
        10 * digits_value(digits.drop_last()) + digits.last()
    }
}

/// The width of a formatted price, by the size of the price.
pub proof fn lemma_price_width(n: u32)
    ensures
        n < 100_000_000 ==> price_width(n) == 8,
        100_000_000 <= n < 1_000_000_000 ==> price_width(n) == 9,
        1_000_000_000 <= n ==> price_width(n) == 10,
{
    reveal_with_fuel(decimal_width, 11);
}

/// A formatted price is made of numerals, one byte each.
pub proof fn lemma_formatted_price_bytes(n: u32)
    ensures
        is_ascii_chars(formatted_price(n)),
        encode_utf8(formatted_price(n)).len() == price_width(n),
        forall|i: int|
            0 <= i < price_width(n) ==> #[trigger] encode_utf8(formatted_price(n))[i] == 0x30
                + decimal_digit(n as nat, (price_width(n) - 1 - i) as nat),
{
    let text = formatted_price(n);
    assert(is_ascii_chars(text));
    is_ascii_chars_encode_utf8(text);
    assert forall|i: int| 0 <= i < price_width(n) implies #[trigger] encode_utf8(text)[i] == 0x30
        + decimal_digit(n as nat, (price_width(n) - 1 - i) as nat) by {
        assert(text[i] as u8 == encode_utf8(text)[i]);
    }
}

/// The numeral for a digit, as a text of one character.
fn digit_str(d: u32) -> (s: &'static str)
    requires
        d < 10,
    ensures
        s@ == seq![digit_char(d as nat)],
{
    proof {
        reveal_strlit("0");
        reveal_strlit("1");
        reveal_strlit("2");
        reveal_strlit("3");
        reveal_strlit("4");
        reveal_strlit("5");
        reveal_strlit("6");
        reveal_strlit("7");
        reveal_strlit("8");
        reveal_strlit("9");
    }
    let s = match d {
        0 => "0",
        1 => "1",
        2 => "2",
        3 => "3",
        4 => "4",
        5 => "5",
        6 => "6",
        7 => "7",
        8 => "8",
        _ => "9",
    };
    assert(s@ =~= seq![digit_char(d as nat)]);
    s
}

/// Writes a price as the display reads it: in decimal, with zeros on the left
/// up to eight characters.
pub fn format_price(rounded: u32) -> (text: String)
    ensures
        text@ == formatted_price(rounded),
{
    let mut width: usize = 8;
    let mut divisor: u32 = 10_000_000;
    if rounded >= 1_000_000_000 {
        width = 10;
        divisor = 1_000_000_000;
    } else if rounded >= 100_000_000 {
        width = 9;
        divisor = 100_000_000;
    }
    proof {
        lemma_price_width(rounded);
        reveal_with_fuel(pow10, 11);
    }
    let mut text = String::new();
    let mut i: usize = 0;
    while i < width
        invariant
            i <= width,
            width == price_width(rounded),
            width <= 10,
            i < width ==> divisor == pow10((width - 1 - i) as nat),
            text@ == formatted_price(rounded).subrange(0, i as int),
        decreases width - i,
    {
        proof {
            reveal_with_fuel(pow10, 11);
        }
        let d: u32 = (rounded / divisor) % 10;
        text.append(digit_str(d));
        proof {
            assert(d == decimal_digit(rounded as nat, (width - 1 - i) as nat));
            assert(text@ =~= formatted_price(rounded).subrange(0, i + 1));
        }
        divisor = divisor / 10;
        i = i + 1;
    }
    assert(text@ =~= formatted_price(rounded));
    text
}

/// The digits shown for a price are its decimal digits, most significant
/// first: the digit at position `i` is the one at place `width - 1 - i`,
/// where `width` is the width of the formatted price.
pub proof fn lemma_price_digits(n: u32)
    ensures
        price_digits(n).len() == DISPLAY_DIGITS,
        forall|i: int|
            0 <= i < DISPLAY_DIGITS ==> #[trigger] price_digits(n)[i] == decimal_digit(
                n as nat,
                (price_width(n) - 1 - i) as nat,
            ),
{
    lemma_formatted_price_bytes(n);
    lemma_price_width(n);
    let bytes = encode_utf8(formatted_price(n));
    assert forall|i: int| 0 <= i < DISPLAY_DIGITS implies #[trigger] price_digits(n)[i]
        == decimal_digit(n as nat, (price_width(n) - 1 - i) as nat) by {
        assert(bytes[i] == 0x30 + decimal_digit(n as nat, (price_width(n) - 1 - i) as nat));
    }
}

/// A price below ten to the power `7 - i` shows 0 at position `i` and at
/// every position before it: the zeros on the left stay where they are.
pub proof fn lemma_leading_zeros(n: u32, i: int)
    requires
        0 <= i < DISPLAY_DIGITS,
        n < pow10((7 - i) as nat),
    ensures
        forall|k: int| 0 <= k <= i ==> #[trigger] price_digits(n)[k] == 0,
{
    lemma_price_digits(n);
    lemma_price_width(n);
    reveal_with_fuel(pow10, 9);
    assert forall|k: int| 0 <= k <= i implies #[trigger] price_digits(n)[k] == 0 by {
        assert(price_digits(n)[k] == decimal_digit(n as nat, (7 - k) as nat));
        assert(pow10((7 - k) as nat) >= pow10((7 - i) as nat));
        lemma_basic_div(n as int, pow10((7 - k) as nat) as int);
    }
}

/// Formatting a price that fits in eight digits and reading the eight digits
/// back gives the formatted text again, numeral by numeral, and the digits
/// write the price.
pub proof fn lemma_format_extract_round_trip(n: u32)
    requires
        n < 100_000_000,
    ensures
        formatted_price(n).len() == DISPLAY_DIGITS,
        formatted_price(n) == Seq::new(
            DISPLAY_DIGITS as nat,
            |i: int| digit_char(price_digits(n)[i] as nat),
        ),
        digits_value(price_digits(n)) == n,
{
    lemma_price_digits(n);
    lemma_price_width(n);
    let digits = price_digits(n);
    assert(formatted_price(n) =~= Seq::new(
        DISPLAY_DIGITS as nat,
        |i: int| digit_char(digits[i] as nat),
    ));
    reveal_with_fuel(pow10, 9);
    let v = n as nat;
    assert(digits[0] == (v / 10_000_000) % 10);
    assert(digits[1] == (v / 1_000_000) % 10);
    assert(digits[2] == (v / 100_000) % 10);
    assert(digits[3] == (v / 10_000) % 10);
    assert(digits[4] == (v / 1_000) % 10);
    assert(digits[5] == (v / 100) % 10);
    assert(digits[6] == (v / 10) % 10);
    assert(digits[7] == (v / 1) % 10);
    lemma_digits_value_prefix(digits, 0);
    lemma_digits_value_prefix(digits, 1);
    lemma_digits_value_prefix(digits, 2);
    lemma_digits_value_prefix(digits, 3);
    lemma_digits_value_prefix(digits, 4);
    lemma_digits_value_prefix(digits, 5);
    lemma_digits_value_prefix(digits, 6);
    lemma_digits_value_prefix(digits, 7);
    assert(digits.subrange(0, 0).len() == 0);
    assert(digits_value(digits.subrange(0, 0)) == 0);
    assert(digits_value(digits.subrange(0, 1)) == v / 10_000_000);
    assert(digits_value(digits.subrange(0, 2)) == v / 1_000_000);
    assert(digits_value(digits.subrange(0, 3)) == v / 100_000);
    assert(digits_value(digits.subrange(0, 4)) == v / 10_000);
    assert(digits_value(digits.subrange(0, 5)) == v / 1_000);
    assert(digits_value(digits.subrange(0, 6)) == v / 100);
    assert(digits_value(digits.subrange(0, 7)) == v / 10);
    assert(digits_value(digits.subrange(0, 8)) == v);
    assert(digits.subrange(0, 8) =~= digits);
}

/// The value of the first `k + 1` digits: ten times the value of the first
/// `k`, plus the digit that follows them.
proof fn lemma_digits_value_prefix(digits: Seq<i32>, k: int)
    requires
        0 <= k < digits.len(),
    ensures
        digits_value(digits.subrange(0, k + 1)) == 10 * digits_value(digits.subrange(0, k))
            + digits[k],
{
    let longer = digits.subrange(0, k + 1);
    assert(longer.drop_last() =~= digits.subrange(0, k));
}

} // verus!
