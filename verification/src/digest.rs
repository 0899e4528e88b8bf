//! The checksum of a byte string, the number of one bits in a word, and the
//! decimal text of a number.
//!
//! The checksum is a fold of exclusive-or over the bytes. It is a stand-in
//! for a cryptographic hash and promises nothing about collisions.

use vstd::prelude::*;

verus! {

/// The exclusive-or of all bytes, each widened to 32 bits; 0 for no bytes.
pub open spec fn xor_fold(bytes: Seq<u8>) -> u32
    decreases bytes.len(),
{
    if bytes.len() == 0 {
        0
    } else {
        xor_fold(bytes.drop_last()) ^ (bytes.last() as u32)
    }
}

/// The number of one bits in the binary notation of `value`.
pub open spec fn ones_in(value: nat) -> nat
    decreases value,
{
    if value == 0 {
        0
    } else {
        (value % 2) + ones_in(value / 2)
    }
}

/// The character that stands for the digit `digit`.
pub open spec fn digit_char(digit: nat) -> char
    recommends
        digit < 10,
{
    if digit == 0 {
        '0'
    } else if digit == 1 {
        '1'
    } else if digit == 2 {
        '2'
    } else if digit == 3 {
        '3'
    } else if digit == 4 {
        '4'
    } else if digit == 5 {
        '5'
    } else if digit == 6 {
        '6'
    } else if digit == 7 {
        '7'
    } else if digit == 8 {
        '8'
    } else {
        '9'
    }
}

/// The decimal notation of `value`, most significant digit first, without
/// leading zeros.
pub open spec fn decimal_digits(value: nat) -> Seq<char>
    decreases value,
{
    if value < 10 {
        seq![digit_char(value)]
    } else {
        decimal_digits(value / 10).push(digit_char(value % 10))
    }
}

spec fn two_to(exponent: nat) -> nat
    decreases exponent,
{
    if exponent == 0 {
        1
    } else {
        2 * two_to((exponent - 1) as nat)
    }
}

proof fn lemma_ones_bounded(value: nat, bits: nat)
    requires
        value < two_to(bits),
    ensures
        ones_in(value) <= bits,
    decreases bits,
{
    if bits > 0 && value > 0 {
        lemma_ones_bounded(value / 2, (bits - 1) as nat);
    }
}

/// A 32-bit word has at most 32 one bits.
pub proof fn lemma_ones_in_word(value: u32)
    ensures
        ones_in(value as nat) <= 32,
{
    assert(two_to(32) == 0x1_0000_0000) by {
        reveal_with_fuel(two_to, 33);
    }
    lemma_ones_bounded(value as nat, 32);
}

/// The checksum of `data`.
pub fn simple_hash(data: &[u8]) -> (r: u32)
    ensures
        r == xor_fold(data@),
{
    let mut hash: u32 = 0;
    let mut i: usize = 0;
    while i < data.len()
        invariant
            i <= data@.len(),
            hash == xor_fold(data@.take(i as int)),
        decreases data@.len() - i,
    {
        assert(data@.take(i + 1).drop_last() =~= data@.take(i as int));
        hash = hash ^ (data[i] as u32);
        i += 1;
    }
    assert(data@.take(data@.len() as int) =~= data@);
    hash
}

/// Counts the one bits of `value`.
pub fn count_ones(value: u32) -> (r: u8)
    ensures
        r == ones_in(value as nat),
        r <= 32,
{
    proof {
        lemma_ones_in_word(value);
    }
    let mut rest: u32 = value;
    let mut count: u8 = 0;
    while rest > 0
        invariant
            count + ones_in(rest as nat) == ones_in(value as nat),
            ones_in(value as nat) <= 32,
        decreases rest,
    {
        count = count + (rest % 2) as u8;
        rest = rest / 2;
    }
    count
}

/// The text of one decimal digit.
fn digit_text(digit: u32) -> (r: &'static str)
    requires
        digit < 10,
    ensures
        r@ == seq![digit_char(digit as nat)],
{
    proof {
        reveal_strlit("0");
        reveal_strlit("1");
        reveal_strlit("2");
        reveal_strlit("3");
        reveal_strlit("4");
        reveal_strlit("5");
        reveal_strlit("6");
        reveal_strlit("7");
        reveal_strlit("8");
        reveal_strlit("9");
    }
    let text = if digit == 0 {
        "0"
    } else if digit == 1 {
        "1"
    } else if digit == 2 {
        "2"
    } else if digit == 3 {
        "3"
    } else if digit == 4 {
        "4"
    } else if digit == 5 {
        "5"
    } else if digit == 6 {
        "6"
    } else if digit == 7 {
        "7"
    } else if digit == 8 {
        "8"
    } else {
        "9"
    };
    assert(text@ =~= seq![digit_char(digit as nat)]);
    text
}

/// Writes `value` in decimal notation at the end of `text`.
fn append_decimal(text: &mut String, value: u32)
    ensures
        final(text)@ == old(text)@ + decimal_digits(value as nat),
    decreases value,
{
    if value >= 10 {
        append_decimal(text, value / 10);
    }
    text.append(digit_text(value % 10));
    assert(text@ =~= old(text)@ + decimal_digits(value as nat));
}

/// `value` in decimal notation.
pub fn decimal_text(value: u32) -> (r: String)
    ensures
        r@ == decimal_digits(value as nat),
{
    let mut text = String::new();
    append_decimal(&mut text, value);
    assert(text@ =~= decimal_digits(value as nat));
    text
}

} // verus!
