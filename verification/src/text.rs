//! Digit rendering used by identifiers, file names and sequence numbers.

use vstd::prelude::*;

verus! {

/// The lowercase hexadecimal digit for `d` (`0 <= d < 16`).
pub open spec fn hex_char(d: nat) -> char {
    if d < 10 {
        (('0' as nat) + d) as char
    } else {
        (('a' as nat) + (d - 10)) as char
    }
}

/// True for `0-9`, `a-f` and `A-F`.
pub open spec fn is_ascii_hex_digit(c: char) -> bool {
    ('0' <= c && c <= '9') || ('a' <= c && c <= 'f') || ('A' <= c && c <= 'F')
}

/// The `width` least significant hexadecimal digits of `value`, most
/// significant first, zero padded.
pub open spec fn hex_digits(value: nat, width: nat) -> Seq<char>
    decreases width,
{
    if width == 0 {
        Seq::empty()
    } else {
        hex_digits(value / 16, (width - 1) as nat).push(hex_char(value % 16))
    }
}

/// The decimal rendering of `n`, without leading zeros.
pub open spec fn decimal_digits(n: nat) -> Seq<char>
    decreases n,
{
    if n < 10 {
        seq![hex_char(n)]
    } else {
        decimal_digits(n / 10).push(hex_char(n % 10))
    }
}

pub proof fn lemma_hex_digits_len(value: nat, width: nat)
    ensures
        hex_digits(value, width).len() == width,
    decreases width,
{
    if width > 0 {
        lemma_hex_digits_len(value / 16, (width - 1) as nat);
    }
}

pub proof fn lemma_hex_digits_are_hex(value: nat, width: nat)
    ensures
        forall|i: int|
            0 <= i < hex_digits(value, width).len() ==> is_ascii_hex_digit(
                #[trigger] hex_digits(value, width)[i],
            ),
    decreases width,
{
    if width > 0 {
        lemma_hex_digits_are_hex(value / 16, (width - 1) as nat);
        lemma_hex_digits_len(value / 16, (width - 1) as nat);
        let d = value % 16;
        assert(is_ascii_hex_digit(hex_char(d)));
    }
}

/// A one-character string holding the digit `d`.
fn digit_str(d: u64) -> (s: &'static str)
    requires
        d < 16,
    ensures
        s@ == seq![hex_char(d as nat)],
{
    proof {
        reveal_strlit("0");
        reveal_strlit("1");
        reveal_strlit("2");
        reveal_strlit("3");
        reveal_strlit("4");
        reveal_strlit("5");
        reveal_strlit("6");
        reveal_strlit("7");
        reveal_strlit("8");
        reveal_strlit("9");
        reveal_strlit("a");
        reveal_strlit("b");
        reveal_strlit("c");
        reveal_strlit("d");
        reveal_strlit("e");
        reveal_strlit("f");
    }
    match d {
        0 => "0",
        1 => "1",
        2 => "2",
        3 => "3",
        4 => "4",
        5 => "5",
        6 => "6",
        7 => "7",
        8 => "8",
        9 => "9",
        10 => "a",
        11 => "b",
        12 => "c",
        13 => "d",
        14 => "e",
        _ => "f",
    }
}

/// Appends the `width` least significant hexadecimal digits of `value`.
pub fn push_hex(out: &mut String, value: u64, width: usize)
    ensures
        final(out)@ == old(out)@ + hex_digits(value as nat, width as nat),
    decreases width,
{
    if width > 0 {
        push_hex(out, value / 16, width - 1);
        out.append(digit_str(value % 16));
        assert(final(out)@ =~= old(out)@ + hex_digits(value as nat, width as nat));
    }
}

/// Appends the decimal rendering of `value`.
pub fn push_decimal(out: &mut String, value: u64)
    ensures
        final(out)@ == old(out)@ + decimal_digits(value as nat),
    decreases value,
{
    if value >= 10 {
        push_decimal(out, value / 10);
    }
    out.append(digit_str(value % 10));
    assert(final(out)@ =~= old(out)@ + decimal_digits(value as nat));
}

/// `value` in decimal.
pub fn u64_to_decimal(value: u64) -> (r: String)
    ensures
        r@ == decimal_digits(value as nat),
{
    let mut out = String::new();
    push_decimal(&mut out, value);
    assert(out@ =~= decimal_digits(value as nat));
    out
}

} // verus!

verus! {

/// Appends one character (`String::push`).
#[verifier::external_body]
pub(crate) fn push_char(out: &mut String, c: char)
    ensures
        final(out)@ == old(out)@.push(c),
{
    out.push(c)
}

} // verus!
