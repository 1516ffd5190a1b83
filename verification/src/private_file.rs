//! Small shared primitives for private local descriptor files and tokens.
use crate::ids::{push_byte, push_digits};
use crate::paths::{is_absolute, PathStyle};
use crate::playback::job::PlaybackId;
use crate::text::join;
use vstd::prelude::*;

verus! {

/// How many random bytes a token is made of.
pub const TOKEN_BYTES: usize = 32;

#[verifier::external_type_specification]
#[verifier::external_body]
pub struct ExRandomError(getrandom::Error);

/// `getrandom::fill` on a fresh buffer: that many bytes from the system's random
/// source, or its error. Nothing is said of the bytes.
#[verifier::external_body]
fn random_bytes(count: usize) -> (bytes: Result<Vec<u8>, getrandom::Error>)
    requires
        count <= TOKEN_BYTES,
    ensures
        bytes matches Ok(filled) ==> filled@.len() == count,
{
    let mut bytes = vec![0_u8; count];
    getrandom::fill(&mut bytes).map(|()| bytes)
}

/// Bytes as lower-case hexadecimal text.
pub open spec fn hex_text(bytes: Seq<u8>) -> Seq<char>
    decreases bytes.len(),
{
    if bytes.len() == 0 {
        Seq::empty()
    } else {
        hex_text(bytes.drop_last()) + seq![
            crate::ids::hex_digit(bytes.last() as nat / 16),
            crate::ids::hex_digit(bytes.last() as nat % 16),
        ]
    }
}

/// Write bytes as lower-case hexadecimal text.
pub fn token_text(bytes: &Vec<u8>) -> (token: String)
    ensures
        token@ == hex_text(bytes@),
{
    let mut token = String::new();
    let mut i: usize = 0;
    assert(bytes@.take(0) =~= Seq::empty());
    while i < bytes.len()
        invariant
            i <= bytes@.len(),
            token@ == hex_text(bytes@.take(i as int)),
        decreases bytes@.len() - i,
    {
        assert(bytes@.take(i + 1).drop_last() =~= bytes@.take(i as int));
        push_byte(&mut token, bytes[i]);
        i += 1;
    }
    assert(bytes@.take(i as int) =~= bytes@);
    token
}

/// The token that random bytes make, where there are any.
pub fn token_from(filled: Result<Vec<u8>, getrandom::Error>) -> (token: Result<
    String,
    getrandom::Error,
>)
    ensures
        match filled {
            Ok(bytes) => token matches Ok(text) && text@ == hex_text(bytes@),
            Err(error) => token == Err::<String, getrandom::Error>(error),
        },
{
    match filled {
        Ok(bytes) => Ok(token_text(&bytes)),
        Err(error) => Err(error),
    }
}

/// A fresh bearer token: random bytes as hexadecimal text.
pub fn random_token() -> (token: Result<String, getrandom::Error>)
    ensures
        token matches Ok(text) ==> exists|bytes: Seq<u8>|
            bytes.len() == TOKEN_BYTES && text@ == #[trigger] hex_text(bytes),
{
    token_from(random_bytes(TOKEN_BYTES))
}

/// A token made of two random identifiers: 64 hexadecimal digits.
pub fn paired_token(first: PlaybackId, second: PlaybackId) -> (token: String)
    ensures
        token@ == crate::ids::hex_digits(first as nat, 32) + crate::ids::hex_digits(
            second as nat,
            32,
        ),
{
    let mut token = String::new();
    push_digits(&mut token, first);
    push_digits(&mut token, second);
    assert(token@ =~= crate::ids::hex_digits(first as nat, 32) + crate::ids::hex_digits(
        second as nat,
        32,
    ));
    token
}

/// Whether two byte strings of one length are equal. Every byte is looked at.
fn same_bytes(left: &[u8], right: &[u8]) -> (same: bool)
    requires
        left@.len() == right@.len(),
    ensures
        same == (left@ == right@),
{
    let mut difference: u8 = 0;
    let mut i: usize = 0;
    assert(left@.take(0) =~= right@.take(0));
    while i < left.len()
        invariant
            i <= left@.len(),
            left@.len() == right@.len(),
            difference == 0 <==> left@.take(i as int) == right@.take(i as int),
        decreases left@.len() - i,
    {
        let a: u8 = left[i];
        let b: u8 = right[i];
        let before: u8 = difference;
        difference = before | (a ^ b);
        assert((before | (a ^ b)) == 0u8 <==> before == 0u8 && a == b) by (bit_vector);
        proof {
            let x = left@.take(i + 1);
            let y = right@.take(i + 1);
            assert(x =~= left@.take(i as int).push(a));
            assert(y =~= right@.take(i as int).push(b));
            if x == y {
                assert(x.drop_last() == y.drop_last());
                assert(x.drop_last() =~= left@.take(i as int));
                assert(y.drop_last() =~= right@.take(i as int));
                assert(x.last() == y.last());
            }
        }
        i += 1;
    }
    assert(left@.take(i as int) =~= left@);
    assert(right@.take(i as int) =~= right@);
    difference == 0
}

/// Compare texts without stopping at the first difference.
pub fn constant_time_equal(left: &str, right: &str) -> (equal: bool)
    ensures
        equal == (left@ == right@),
{
    let a: &[u8] = left.as_bytes();
    let b: &[u8] = right.as_bytes();
    proof {
        vstd::utf8::encode_utf8_decode_utf8(left@);
        vstd::utf8::encode_utf8_decode_utf8(right@);
    }
    if a.len() != b.len() {
        return false;
    }
    same_bytes(a, b)
}

/// A token has two characters for each of its bytes, and each is a lower-case
/// hexadecimal digit.
pub proof fn law_token_is_fixed_length_hex(bytes: Seq<u8>)
    ensures
        hex_text(bytes).len() == 2 * bytes.len(),
        forall|i: int|
            0 <= i < hex_text(bytes).len() ==> exists|value: nat|
                value < 16 && #[trigger] hex_text(bytes)[i] == #[trigger] crate::ids::hex_digit(
                    value,
                ),
    decreases bytes.len(),
{
    if bytes.len() > 0 {
        let fewer = bytes.drop_last();
        law_token_is_fixed_length_hex(fewer);
        let high = bytes.last() as nat / 16;
        let low = bytes.last() as nat % 16;
        assert forall|i: int| 0 <= i < hex_text(bytes).len() implies exists|value: nat|
            value < 16 && #[trigger] hex_text(bytes)[i] == #[trigger] crate::ids::hex_digit(
                value,
            ) by {
            if i < hex_text(fewer).len() {
                assert(hex_text(bytes)[i] == hex_text(fewer)[i]);
                let value = choose|value: nat|
                    value < 16 && hex_text(fewer)[i] == #[trigger] crate::ids::hex_digit(value);
                assert(hex_text(bytes)[i] == crate::ids::hex_digit(value));
            } else if i == hex_text(fewer).len() {
                assert(hex_text(bytes)[i] == crate::ids::hex_digit(high));
            } else {
                assert(hex_text(bytes)[i] == crate::ids::hex_digit(low));
            }
        }
    }
}

/// What is known of the directory that a descriptor file would stand in.
#[derive(Clone, Copy, Debug, PartialEq, Eq, Structural)]
pub enum ParentDirectory {
    Nowhere,
    Missing,
    Present,
}

/// Why a descriptor file cannot be written where it was asked for.
#[derive(Clone, Copy, Debug, PartialEq, Eq, Structural)]
pub enum DescriptorPathError {
    NotAbsolute,
    NoParent,
    MissingParent,
}

impl DescriptorPathError {
    pub open spec fn message_text(self, label: Seq<char>) -> Seq<char> {
        label + match self {
            DescriptorPathError::NotAbsolute => " descriptor path must be absolute"@,
            DescriptorPathError::NoParent => " descriptor path has no parent directory"@,
            DescriptorPathError::MissingParent => " descriptor parent directory does not exist"@,
        }
    }

    /// What is reported, for the descriptor that `label` names.
    pub fn message(&self, label: &str) -> (message: String)
        ensures
            message@ == self.message_text(label@),
    {
        let rest = match self {
            DescriptorPathError::NotAbsolute => " descriptor path must be absolute",
            DescriptorPathError::NoParent => " descriptor path has no parent directory",
            DescriptorPathError::MissingParent => " descriptor parent directory does not exist",
        };
        join(label, rest)
    }
}

/// What stands against a descriptor file at this path, the first reason of
/// several.
pub open spec fn descriptor_path_fault(
    style: PathStyle,
    path: Seq<char>,
    parent: ParentDirectory,
) -> Option<DescriptorPathError> {
    if !crate::paths::absolute(style, path) {
        Some(DescriptorPathError::NotAbsolute)
    } else {
        match parent {
            ParentDirectory::Nowhere => Some(DescriptorPathError::NoParent),
            ParentDirectory::Missing => Some(DescriptorPathError::MissingParent),
            ParentDirectory::Present => None,
        }
    }
}

/// Check where a descriptor file is to be written: an absolute path in a
/// directory that exists.
pub fn validate_descriptor_path(style: PathStyle, path: &str, parent: ParentDirectory) -> (result:
    Result<(), DescriptorPathError>)
    ensures
        match result {
            Ok(()) => descriptor_path_fault(style, path@, parent) is None,
            Err(error) => descriptor_path_fault(style, path@, parent) == Some(error),
        },
{
    if !is_absolute(style, path) {
        return Err(DescriptorPathError::NotAbsolute);
    }
    match parent {
        ParentDirectory::Nowhere => Err(DescriptorPathError::NoParent),
        ParentDirectory::Missing => Err(DescriptorPathError::MissingParent),
        ParentDirectory::Present => Ok(()),
    }
}

} // verus!
