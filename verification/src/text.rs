//! Small text helpers that the other modules build their messages with.
use vstd::prelude::*;

verus! {

/// `String::push` appends the given character to the end of the string.
pub assume_specification[ String::push ](text: &mut String, c: char)
    ensures
        final(text)@ == old(text)@.push(c),
;

/// The decimal digit for a value below ten.
pub open spec fn digit(value: nat) -> char {
    if value == 0 {
        '0'
    } else if value == 1 {
        '1'
    } else if value == 2 {
        '2'
    } else if value == 3 {
        '3'
    } else if value == 4 {
        '4'
    } else if value == 5 {
        '5'
    } else if value == 6 {
        '6'
    } else if value == 7 {
        '7'
    } else if value == 8 {
        '8'
    } else {
        '9'
    }
}

/// A number in decimal, without leading zeros.
pub open spec fn decimal_text(value: nat) -> Seq<char>
    decreases value,
{
    if value < 10 {
        seq![digit(value)]
    } else {
        decimal_text(value / 10).push(digit(value % 10))
    }
}

fn digit_of(value: u128) -> (c: char)
    requires
        value < 10,
    ensures
        c == digit(value as nat),
{
    match value {
        0 => '0',
        1 => '1',
        2 => '2',
        3 => '3',
        4 => '4',
        5 => '5',
        6 => '6',
        7 => '7',
        8 => '8',
        _ => '9',
    }
}

/// Write a number in decimal.
pub fn decimal_wide(value: u128) -> (text: String)
    ensures
        text@ == decimal_text(value as nat),
    decreases value,
{
    if value < 10 {
        let mut text = String::new();
        text.push(digit_of(value));
        assert(text@ =~= seq![digit(value as nat)]);
        text
    } else {
        let mut text = decimal_wide(value / 10);
        text.push(digit_of(value % 10));
        text
    }
}

/// Write a number in decimal.
pub fn decimal(value: u64) -> (text: String)
    ensures
        text@ == decimal_text(value as nat),
{
    decimal_wide(value as u128)
}

/// Each number has its own decimal text, made of digits.
pub proof fn lemma_decimal_texts_differ(a: nat, b: nat)
    ensures
        decimal_text(a) == decimal_text(b) ==> a == b,
    decreases a,
{
    let left = decimal_text(a);
    let right = decimal_text(b);
    if left == right {
        lemma_decimal_is_digits(a / 10);
        lemma_decimal_is_digits(b / 10);
        if a >= 10 && b >= 10 {
            assert(left.drop_last() =~= decimal_text(a / 10));
            assert(right.drop_last() =~= decimal_text(b / 10));
            lemma_decimal_texts_differ(a / 10, b / 10);
            assert(left.last() == digit(a % 10));
            assert(right.last() == digit(b % 10));
        } else if a < 10 && b < 10 {
            assert(left[0] == right[0]);
        } else {
            assert(left.len() != right.len());
        }
    }
}

/// A decimal text is not empty and holds digits only.
pub proof fn lemma_decimal_is_digits(value: nat)
    ensures
        decimal_text(value).len() >= 1,
        forall|i: int|
            0 <= i < decimal_text(value).len() ==> ascii_digit(#[trigger] decimal_text(value)[i]),
    decreases value,
{
    if value >= 10 {
        lemma_decimal_is_digits(value / 10);
    }
}

/// A number below a power of ten has at most that many digits.
pub proof fn lemma_decimal_length(value: nat, digits: nat)
    requires
        digits >= 1,
        value < vstd::arithmetic::power::pow(10, digits),
    ensures
        decimal_text(value).len() <= digits,
    decreases digits,
{
    reveal(vstd::arithmetic::power::pow);
    if value >= 10 {
        let rest = (digits - 1) as nat;
        assert(value < 10 * vstd::arithmetic::power::pow(10, rest));
        if rest >= 1 {
            assert((value / 10) < vstd::arithmetic::power::pow(10, rest));
            lemma_decimal_length(value / 10, rest);
        } else {
            assert(vstd::arithmetic::power::pow(10, 0) == 1);
        }
    }
}

/// Whether two texts hold the same characters.
pub fn same_text(left: &str, right: &str) -> (same: bool)
    ensures
        same == (left@ == right@),
{
    left.to_string() == right.to_string()
}

/// The characters of a text.
pub fn characters(text: &str) -> (chars: Vec<char>)
    ensures
        chars@ == text@,
{
    broadcast use vstd::string::axiom_spec_iter;

    let mut chars: Vec<char> = Vec::new();
    for c in it: text.chars()
        invariant
            chars@ == it.seq().take(it.index() as int),
            it.seq() == text@,
    {
        chars.push(c);
        assert(it.seq().take(it.index() as int + 1) =~= it.seq().take(it.index() as int).push(c));
    }
    assert(text@.take(text@.len() as int) =~= text@);
    chars
}

/// The text made of the given characters.
pub fn text_of(chars: &Vec<char>) -> (text: String)
    ensures
        text@ == chars@,
{
    let mut text = String::new();
    let mut i: usize = 0;
    while i < chars.len()
        invariant
            i <= chars.len(),
            text@ == chars@.take(i as int),
        decreases chars.len() - i,
    {
        text.push(chars[i]);
        i += 1;
        assert(chars@.take(i as int) =~= chars@.take(i - 1).push(chars@[i - 1]));
    }
    assert(chars@.take(i as int) =~= chars@);
    text
}

/// Two texts, one after the other.
pub fn join(left: &str, right: &str) -> (text: String)
    ensures
        text@ == left@ + right@,
{
    let mut text = left.to_string();
    text.append(right);
    text
}

/// Three texts, one after the other.
pub fn join3(first: &str, second: &str, third: &str) -> (text: String)
    ensures
        text@ == first@ + second@ + third@,
{
    let mut text = first.to_string();
    text.append(second);
    text.append(third);
    text
}

/// A character with the Unicode property `White_Space`.
pub open spec fn whitespace(c: char) -> bool {
    let code = c as u32;
    ||| 0x09 <= code <= 0x0d
    ||| code == 0x20
    ||| code == 0x85
    ||| code == 0xa0
    ||| code == 0x1680
    ||| 0x2000 <= code <= 0x200a
    ||| code == 0x2028
    ||| code == 0x2029
    ||| code == 0x202f
    ||| code == 0x205f
    ||| code == 0x3000
}

pub fn is_whitespace(c: char) -> (white: bool)
    ensures
        white == whitespace(c),
{
    let code: u32 = c as u32;
    (0x09 <= code && code <= 0x0d) || code == 0x20 || code == 0x85 || code == 0xa0 || code == 0x1680
        || (0x2000 <= code && code <= 0x200a) || code == 0x2028 || code == 0x2029 || code == 0x202f
        || code == 0x205f || code == 0x3000
}

/// Nothing but white space, or nothing at all.
pub open spec fn blank(text: Seq<char>) -> bool {
    forall|i: int| 0 <= i < text.len() ==> whitespace(#[trigger] text[i])
}

pub fn is_blank(text: &str) -> (result: bool)
    ensures
        result == blank(text@),
{
    let chars = characters(text);
    let mut i: usize = 0;
    while i < chars.len()
        invariant
            i <= chars@.len(),
            chars@ == text@,
            forall|j: int| 0 <= j < i ==> whitespace(#[trigger] chars@[j]),
        decreases chars@.len() - i,
    {
        if !is_whitespace(chars[i]) {
            return false;
        }
        i += 1;
    }
    true
}

pub open spec fn ascii_lowercase(c: char) -> bool {
    'a' <= c <= 'z'
}

pub open spec fn ascii_digit(c: char) -> bool {
    '0' <= c <= '9'
}

pub open spec fn ascii_alphabetic(c: char) -> bool {
    'a' <= c <= 'z' || 'A' <= c <= 'Z'
}

pub open spec fn ascii_alphanumeric(c: char) -> bool {
    ascii_alphabetic(c) || ascii_digit(c)
}

pub fn is_ascii_lower_or_digit(c: char) -> (result: bool)
    ensures
        result == (ascii_lowercase(c) || ascii_digit(c)),
{
    ('a' <= c && c <= 'z') || ('0' <= c && c <= '9')
}

pub fn is_ascii_letter(c: char) -> (result: bool)
    ensures
        result == ascii_alphabetic(c),
{
    ('a' <= c && c <= 'z') || ('A' <= c && c <= 'Z')
}

pub fn is_ascii_letter_or_digit(c: char) -> (result: bool)
    ensures
        result == ascii_alphanumeric(c),
{
    is_ascii_letter(c) || ('0' <= c && c <= '9')
}

/// A control character: the Unicode category `Cc`.
pub open spec fn control(c: char) -> bool {
    c as u32 <= 0x1f || 0x7f <= c as u32 <= 0x9f
}

/// The text with a space in place of each control character.
pub open spec fn without_controls(text: Seq<char>) -> Seq<char> {
    text.map_values(
        |c: char|
            if control(c) {
                ' '
            } else {
                c
            },
    )
}

/// Keep a text on one line: a space takes the place of each control character.
pub fn single_line(value: &str) -> (line: String)
    ensures
        line@ == without_controls(value@),
{
    let chars = characters(value);
    let mut line = String::new();
    let mut i: usize = 0;
    while i < chars.len()
        invariant
            i <= chars@.len(),
            chars@ == value@,
            line@ == without_controls(chars@.take(i as int)),
        decreases chars@.len() - i,
    {
        let code: u32 = chars[i] as u32;
        let c = if code <= 0x1f || (0x7f <= code && code <= 0x9f) {
            ' '
        } else {
            chars[i]
        };
        line.push(c);
        assert(without_controls(chars@.take(i + 1)) =~= without_controls(
            chars@.take(i as int),
        ).push(c));
        i += 1;
    }
    assert(chars@.take(i as int) =~= chars@);
    line
}

} // verus!
