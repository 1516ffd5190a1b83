//! Authentication and description of the loopback HTTP transport.
use crate::private_file::constant_time_equal;
use crate::text::{join3, text_of};
use vstd::prelude::*;

verus! {

pub const DESCRIPTOR_SCHEMA_VERSION: u32 = 1;

pub const MCP_PATH: &'static str = "/mcp";

pub const MAXIMUM_REQUEST_BYTES: usize = 131_072;

/// What a client needs to reach the server.
pub struct HttpMcpDescriptor {
    pub schema_version: u32,
    pub transport: String,
    pub url: String,
    pub authorization: HttpAuthorizationDescriptor,
}

/// The credential that every request has to carry.
pub struct HttpAuthorizationDescriptor {
    pub scheme: String,
    pub token: String,
}

impl HttpMcpDescriptor {
    /// The descriptor of a server that listens at `address` and accepts `token`.
    pub fn new(address: &str, token: String) -> (descriptor: Self)
        ensures
            descriptor.schema_version == DESCRIPTOR_SCHEMA_VERSION,
            descriptor.transport@ == "streamable_http"@,
            descriptor.url@ == "http://"@ + address@ + MCP_PATH@,
            descriptor.authorization.scheme@ == "Bearer"@,
            descriptor.authorization.token == token,
    {
        HttpMcpDescriptor {
            schema_version: DESCRIPTOR_SCHEMA_VERSION,
            transport: "streamable_http".to_string(),
            url: join3("http://", address, MCP_PATH),
            authorization: HttpAuthorizationDescriptor { scheme: "Bearer".to_string(), token },
        }
    }
}

/// The answer to a request without the credential.
pub struct Refusal {
    pub status: u16,
    pub body: String,
    pub authenticate: String,
    pub cache_control: String,
}

pub fn unauthorized_response() -> (refusal: Refusal)
    ensures
        refusal.status == 401,
        refusal.body@ == "Unauthorized"@,
        refusal.authenticate@ == "Bearer"@,
        refusal.cache_control@ == "no-store"@,
{
    Refusal {
        status: 401,
        body: "Unauthorized".to_string(),
        authenticate: "Bearer".to_string(),
        cache_control: "no-store".to_string(),
    }
}

#[verifier::external_type_specification]
#[verifier::external_body]
#[verifier::reject_recursive_types(T)]
pub struct ExHeaderMap<T>(axum::http::HeaderMap<T>);

#[verifier::external_type_specification]
#[verifier::external_body]
pub struct ExHeaderValue(axum::http::HeaderValue);

/// The bytes of each `authorization` header of a request.
pub uninterp spec fn authorization_values(
    headers: axum::http::HeaderMap<axum::http::HeaderValue>,
) -> Seq<Seq<u8>>;

/// `HeaderMap::get_all` for the `authorization` header: the bytes of each value
/// that the map holds under that name.
#[verifier::external_body]
fn authorization_bytes(headers: &axum::http::HeaderMap<axum::http::HeaderValue>) -> (values: Vec<
    Vec<u8>,
>)
    ensures
        values@.map_values(|value: Vec<u8>| value@) == authorization_values(*headers),
{
    let found = headers.get_all(axum::http::header::AUTHORIZATION);
    found.iter().map(|value| value.as_bytes().to_vec()).collect()
}

/// A byte that a header's text may hold: visible ASCII, a space or a tab.
pub open spec fn header_text_byte(byte: u8) -> bool {
    32 <= byte < 127 || byte == 9
}

/// A header value as text. A value with any other byte in it is none.
pub open spec fn header_text(value: Seq<u8>) -> Option<Seq<char>> {
    if forall|i: int| 0 <= i < value.len() ==> header_text_byte(#[trigger] value[i]) {
        Some(Seq::new(value.len(), |i: int| value[i] as char))
    } else {
        None
    }
}

/// A letter in either case.
pub open spec fn either_case(c: char, lower: char, upper: char) -> bool {
    c == lower || c == upper
}

/// The word `bearer` in any case, a space, and the token.
pub open spec fn is_credential(text: Seq<char>, token: Seq<char>) -> bool {
    &&& text.len() >= 7
    &&& either_case(text[0], 'b', 'B')
    &&& either_case(text[1], 'e', 'E')
    &&& either_case(text[2], 'a', 'A')
    &&& either_case(text[3], 'r', 'R')
    &&& either_case(text[4], 'e', 'E')
    &&& either_case(text[5], 'r', 'R')
    &&& text[6] == ' '
    &&& text.skip(7) == token
}

/// Exactly one header, and it holds the credential.
pub open spec fn accepted(values: Seq<Seq<u8>>, expected: Seq<char>) -> bool {
    values.len() == 1 && match header_text(values[0]) {
        Some(text) => is_credential(text, expected),
        None => false,
    }
}

fn is_either_case(c: char, lower: char, upper: char) -> (result: bool)
    ensures
        result == either_case(c, lower, upper),
{
    c == lower || c == upper
}

/// Read a header value as text.
pub fn read_header_text(value: &Vec<u8>) -> (text: Option<Vec<char>>)
    ensures
        match text {
            Some(chars) => header_text(value@) == Some(chars@),
            None => header_text(value@) is None,
        },
{
    let mut chars: Vec<char> = Vec::new();
    let mut i: usize = 0;
    while i < value.len()
        invariant
            i <= value@.len(),
            chars@.len() == i,
            forall|j: int| 0 <= j < i ==> header_text_byte(#[trigger] value@[j]),
            forall|j: int| 0 <= j < i ==> chars@[j] == #[trigger] value@[j] as char,
        decreases value@.len() - i,
    {
        let byte: u8 = value[i];
        if !((32 <= byte && byte < 127) || byte == 9) {
            return None;
        }
        chars.push(byte as char);
        i += 1;
    }
    assert(chars@ =~= Seq::new(value@.len(), |i: int| value@[i] as char));
    Some(chars)
}

/// Whether a header's text is the expected credential. Every byte of a token of
/// the right length is looked at.
pub fn matches_credential(text: &Vec<char>, expected: &str) -> (result: bool)
    ensures
        result == is_credential(text@, expected@),
{
    if text.len() < 7 {
        return false;
    }
    let scheme = is_either_case(text[0], 'b', 'B') && is_either_case(text[1], 'e', 'E')
        && is_either_case(text[2], 'a', 'A') && is_either_case(text[3], 'r', 'R')
        && is_either_case(text[4], 'e', 'E') && is_either_case(text[5], 'r', 'R') && text[6] == ' ';
    if !scheme {
        return false;
    }
    let mut token: Vec<char> = Vec::new();
    let mut i: usize = 7;
    while i < text.len()
        invariant
            7 <= i <= text@.len(),
            token@ == text@.subrange(7, i as int),
        decreases text@.len() - i,
    {
        token.push(text[i]);
        i += 1;
        assert(text@.subrange(7, i as int) =~= text@.subrange(7, i - 1).push(text@[i - 1]));
    }
    assert(text@.subrange(7, i as int) =~= text@.skip(7));
    constant_time_equal(text_of(&token).as_str(), expected)
}

/// Whether the `authorization` headers of a request, given by their bytes, carry
/// the expected credential.
pub fn accepts(values: &Vec<Vec<u8>>, expected: &str) -> (result: bool)
    ensures
        result == accepted(values@.map_values(|value: Vec<u8>| value@), expected@),
{
    if values.len() != 1 {
        return false;
    }
    match read_header_text(&values[0]) {
        Some(text) => matches_credential(&text, expected),
        None => false,
    }
}

/// Whether a request carries the expected credential, exactly once.
pub fn authorized(
    headers: &axum::http::HeaderMap<axum::http::HeaderValue>,
    expected: &str,
) -> (result: bool)
    ensures
        result == accepted(authorization_values(*headers), expected@),
{
    accepts(&authorization_bytes(headers), expected)
}

/// A credential is accepted for one token only.
pub proof fn law_one_token_per_credential(
    values: Seq<Seq<u8>>,
    first: Seq<char>,
    second: Seq<char>,
)
    requires
        accepted(values, first),
        accepted(values, second),
    ensures
        first == second,
{
}

/// A request with two `authorization` headers, or none, is refused whatever they
/// hold.
pub proof fn law_ambiguous_headers_are_refused(values: Seq<Seq<u8>>, expected: Seq<char>)
    requires
        values.len() != 1,
    ensures
        !accepted(values, expected),
{
}

} // verus!
