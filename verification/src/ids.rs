//! Playback identifiers as text.
use crate::playback::job::PlaybackId;
use vstd::prelude::*;

verus! {

/// The lower-case hexadecimal digit for a value below sixteen.
pub open spec fn hex_digit(value: nat) -> char {
    if value < 10 {
        crate::text::digit(value)
    } else if value == 10 {
        'a'
    } else if value == 11 {
        'b'
    } else if value == 12 {
        'c'
    } else if value == 13 {
        'd'
    } else if value == 14 {
        'e'
    } else {
        'f'
    }
}

/// The last digits of a number in hexadecimal, with leading zeros.
pub open spec fn hex_digits(value: nat, count: nat) -> Seq<char>
    decreases count,
{
    if count == 0 {
        Seq::empty()
    } else {
        hex_digits(value / 16, (count - 1) as nat).push(hex_digit(value % 16))
    }
}

/// An identifier in the usual form: 32 digits in groups of 8, 4, 4, 4 and 12.
pub open spec fn hyphenated(id: PlaybackId) -> Seq<char> {
    let digits = hex_digits(id as nat, 32);
    digits.subrange(0, 8) + seq!['-'] + digits.subrange(8, 12) + seq!['-'] + digits.subrange(12, 16)
        + seq!['-'] + digits.subrange(16, 20) + seq!['-'] + digits.subrange(20, 32)
}

/// The identifier that a text stands for, if it stands for one.
pub uninterp spec fn parsed_id(text: Seq<char>) -> Option<PlaybackId>;

/// `uuid::Uuid::parse_str`: the identifier that a text stands for. The usual
/// form of an identifier stands for that identifier.
#[verifier::external_body]
pub(crate) fn parse_id(text: &str) -> (id: Option<PlaybackId>)
    ensures
        id == parsed_id(text@),
        forall|value: PlaybackId| text@ == #[trigger] hyphenated(value) ==> id == Some(value),
{
    match uuid::Uuid::parse_str(text) {
        Ok(id) => Some(id.as_u128()),
        Err(_) => None,
    }
}

/// `uuid::Uuid`'s `to_string`: an identifier in the usual form.
#[verifier::external_body]
pub(crate) fn id_text(id: PlaybackId) -> (text: String)
    ensures
        text@ == hyphenated(id),
{
    uuid::Uuid::from_u128(id).to_string()
}

fn hex_digit_of(value: u8) -> (c: char)
    requires
        value < 16,
    ensures
        c == hex_digit(value as nat),
{
    match value {
        0 => '0',
        1 => '1',
        2 => '2',
        3 => '3',
        4 => '4',
        5 => '5',
        6 => '6',
        7 => '7',
        8 => '8',
        9 => '9',
        10 => 'a',
        11 => 'b',
        12 => 'c',
        13 => 'd',
        14 => 'e',
        _ => 'f',
    }
}

/// Append a byte as two hexadecimal digits.
pub(crate) fn push_byte(text: &mut String, byte: u8)
    ensures
        final(text)@ == old(text)@ + seq![
            hex_digit(byte as nat / 16),
            hex_digit(byte as nat % 16),
        ],
{
    text.push(hex_digit_of(byte / 16));
    text.push(hex_digit_of(byte % 16));
    assert(text@ =~= old(text)@ + seq![hex_digit(byte as nat / 16), hex_digit(byte as nat % 16)]);
}

/// Append the 32 digits of an identifier.
pub(crate) fn push_digits(text: &mut String, id: PlaybackId)
    ensures
        final(text)@ == old(text)@ + hex_digits(id as nat, 32),
{
    push_last_digits(text, id, 32);
}

fn push_last_digits(text: &mut String, value: u128, count: u32)
    ensures
        final(text)@ == old(text)@ + hex_digits(value as nat, count as nat),
    decreases count,
{
    if count > 0 {
        push_last_digits(text, value / 16, count - 1);
        text.push(hex_digit_of((value % 16) as u8));
        assert(text@ =~= old(text)@ + hex_digits(value as nat, count as nat));
    } else {
        assert(old(text)@ + hex_digits(value as nat, 0) =~= old(text)@);
    }
}

/// Numbers with the same digits agree as far as the digits go.
proof fn lemma_digits_tell_numbers_apart(a: nat, b: nat, count: nat)
    requires
        hex_digits(a, count) == hex_digits(b, count),
    ensures
        a % vstd::arithmetic::power::pow(16, count) as nat == b % vstd::arithmetic::power::pow(
            16,
            count,
        ) as nat,
    decreases count,
{
    vstd::arithmetic::power::lemma_pow0(16);
    if count > 0 {
        let fewer = (count - 1) as nat;
        let x = hex_digits(a / 16, fewer);
        let y = hex_digits(b / 16, fewer);
        assert(hex_digits(a, count).drop_last() =~= x);
        assert(hex_digits(b, count).drop_last() =~= y);
        assert(hex_digits(a, count).last() == hex_digit(a % 16));
        assert(hex_digits(b, count).last() == hex_digit(b % 16));
        lemma_digits_tell_numbers_apart(a / 16, b / 16, fewer);
        let p = vstd::arithmetic::power::pow(16, fewer);
        vstd::arithmetic::power::lemma_pow_positive(16, fewer);
        vstd::arithmetic::power::lemma_pow1(16);
        vstd::arithmetic::power::lemma_pow_adds(16, 1, fewer);
        assert(vstd::arithmetic::power::pow(16, count) == 16 * p);
        vstd::arithmetic::div_mod::lemma_mod_breakdown(a as int, 16, p);
        vstd::arithmetic::div_mod::lemma_mod_breakdown(b as int, 16, p);
    }
}

/// Digits are as many as asked for.
proof fn lemma_digit_count(value: nat, count: nat)
    ensures
        hex_digits(value, count).len() == count,
    decreases count,
{
    if count > 0 {
        lemma_digit_count(value / 16, (count - 1) as nat);
    }
}

/// A power of sixteen, squared.
proof fn lemma_squared(exponent: nat, value: int)
    requires
        vstd::arithmetic::power::pow(16, exponent) == value,
    ensures
        vstd::arithmetic::power::pow(16, exponent + exponent) == value * value,
{
    vstd::arithmetic::power::lemma_pow_adds(16, exponent, exponent);
}

/// Distinct identifiers have distinct texts.
pub proof fn law_id_texts_are_distinct(a: PlaybackId, b: PlaybackId)
    requires
        hyphenated(a) == hyphenated(b),
    ensures
        a == b,
{
    let x = hex_digits(a as nat, 32);
    let y = hex_digits(b as nat, 32);
    lemma_digit_count(a as nat, 32);
    lemma_digit_count(b as nat, 32);
    assert forall|i: int| 0 <= i < 32 implies x[i] == y[i] by {
        let at = if i < 8 {
            i
        } else if i < 12 {
            i + 1
        } else if i < 16 {
            i + 2
        } else if i < 20 {
            i + 3
        } else {
            i + 4
        };
        assert(hyphenated(a)[at] == x[i]);
        assert(hyphenated(b)[at] == y[i]);
    }
    assert(x =~= y);
    lemma_digits_tell_numbers_apart(a as nat, b as nat, 32);
    vstd::arithmetic::power::lemma_pow1(16);
    lemma_squared(1, 16);
    lemma_squared(2, 0x100);
    lemma_squared(4, 0x1_0000);
    lemma_squared(8, 0x1_0000_0000);
    lemma_squared(16, 0x1_0000_0000_0000_0000);
    let whole = vstd::arithmetic::power::pow(16, 32);
    assert(whole == 0x1_0000_0000_0000_0000 * 0x1_0000_0000_0000_0000);
    vstd::arithmetic::div_mod::lemma_small_mod(a as nat, whole as nat);
    vstd::arithmetic::div_mod::lemma_small_mod(b as nat, whole as nat);
}

} // verus!
