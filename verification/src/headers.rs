//! The headers that go out with a relay call.

use vstd::prelude::*;
use vstd::utf8::{encode_utf8, is_ascii_chars, is_ascii_chars_encode_utf8};
use axum::http::header::{HeaderValue, InvalidHeaderValue};

verus! {

/// Name of the header that carries the time at which the request was started,
/// in milliseconds since the Unix epoch.
pub const HEADER_START_TIME_UNIX_MS: &'static str = "X-MEVBoost-StartTimeUnixMS";

/// Name of the header that names the caller's software.
pub const USER_AGENT: &'static str = "user-agent";

#[verifier::external_type_specification]
#[verifier::external_body]
pub struct ExHeaderValue(HeaderValue);

#[verifier::external_type_specification]
#[verifier::external_body]
pub struct ExInvalidHeaderValue(InvalidHeaderValue);

/// One header of an outgoing call.
#[derive(Debug)]
pub struct Header {
    pub name: String,
    pub value: String,
}

/// A header by its text.
pub struct HeaderView {
    pub name: Seq<char>,
    pub value: Seq<char>,
}

impl View for Header {
    type V = HeaderView;

    open spec fn view(&self) -> HeaderView {
        HeaderView { name: self.name@, value: self.value@ }
    }
}

/// Why no headers could be made.
#[derive(Clone, Copy, Debug, PartialEq, Eq, Structural)]
pub enum HeaderError {
    /// The caller's user agent holds a byte that no header value may hold.
    InvalidUserAgent,
}

/// Whether a byte may stand in a header value: a tab, or anything from the
/// space upwards but the delete character.
pub open spec fn header_value_byte(byte: u8) -> bool {
    (byte >= 32 && byte != 127) || byte == 9
}

/// Whether a text, by the bytes of its encoding, may stand as a header value.
pub open spec fn header_value_text(text: Seq<char>) -> bool {
    forall|i: int|
        0 <= i < encode_utf8(text).len() ==> header_value_byte(#[trigger] encode_utf8(text)[i])
}

/// The decimal digit of a number below ten.
pub open spec fn digit(d: nat) -> char {
    if d == 0 {
        '0'
    } else if d == 1 {
        '1'
    } else if d == 2 {
        '2'
    } else if d == 3 {
        '3'
    } else if d == 4 {
        '4'
    } else if d == 5 {
        '5'
    } else if d == 6 {
        '6'
    } else if d == 7 {
        '7'
    } else if d == 8 {
        '8'
    } else {
        '9'
    }
}

/// A number in decimal digits, without a sign or leading zeros.
pub open spec fn decimal(n: nat) -> Seq<char>
    decreases n,
{
    if n < 10 {
        seq![digit(n)]
    } else {
        decimal(n / 10).push(digit(n % 10))
    }
}

/// `HeaderValue::from_str` of the http crate, as axum hands it on. The call
/// succeeds exactly when every byte of the text is a tab or is at least 32
/// and not 127. Nothing is claimed of the value it makes.
#[verifier::external_body]
fn header_value_from_str(text: &str) -> (res: Result<HeaderValue, InvalidHeaderValue>)
    ensures
        res is Ok <==> header_value_text(text@),
{
    HeaderValue::from_str(text)
}

/// `u64::to_string` of the standard library: the number in decimal digits.
#[verifier::external_body]
fn u64_to_string(n: u64) -> (text: String)
    ensures
        text@ == decimal(n as nat),
{
    n.to_string()
}

/// A number in decimal digits may always stand as a header value.
pub proof fn lemma_decimal_is_header_text(n: nat)
    ensures
        is_ascii_chars(decimal(n)),
        forall|i: int| 0 <= i < decimal(n).len() ==> '0' <= #[trigger] decimal(n)[i] <= '9',
        header_value_text(decimal(n)),
    decreases n,
{
    if n >= 10 {
        lemma_decimal_is_header_text(n / 10);
    }
    let text = decimal(n);
    assert forall|i: int| 0 <= i < text.len() implies '0' <= #[trigger] text[i] <= '9' by {}
    is_ascii_chars_encode_utf8(text);
    assert forall|i: int| 0 <= i < encode_utf8(text).len() implies header_value_byte(
        #[trigger] encode_utf8(text)[i],
    ) by {
        assert('0' <= text[i] <= '9');
        assert(text[i] as u8 == encode_utf8(text)[i]);
    }
}

/// The headers of an outgoing call: the start time, then the user agent
/// where the caller named one.
pub open spec fn outgoing(now_ms: u64, user_agent: Option<String>) -> Seq<HeaderView> {
    let start = HeaderView { name: HEADER_START_TIME_UNIX_MS@, value: decimal(now_ms as nat) };
    match user_agent {
        Some(agent) => seq![start, HeaderView { name: USER_AGENT@, value: agent@ }],
        None => seq![start],
    }
}

/// The headers by their text.
pub open spec fn header_views(headers: Seq<Header>) -> Seq<HeaderView> {
    headers.map_values(|h: Header| h@)
}

/// Makes the headers of an outgoing call: the time at which the request was
/// started, and the caller's user agent if it named one. A user agent that
/// cannot stand as a header value is refused; the start time always can.
pub fn send_headers(now_ms: u64, user_agent: Option<String>) -> (res: Result<Vec<Header>, HeaderError>)
    ensures
        res is Ok <==> (user_agent matches Some(agent) ==> header_value_text(agent@)),
        res matches Ok(headers) ==> {
            &&& header_views(headers@) == outgoing(now_ms, user_agent)
            &&& forall|i: int|
                0 <= i < headers@.len() ==> header_value_text((#[trigger] headers@[i]).value@)
        },
        res matches Err(e) ==> e == HeaderError::InvalidUserAgent,
{
    let mut headers: Vec<Header> = Vec::new();
    proof {
        lemma_decimal_is_header_text(now_ms as nat);
    }
    headers.push(
        Header { name: HEADER_START_TIME_UNIX_MS.to_owned(), value: u64_to_string(now_ms) },
    );
    match user_agent {
        Some(agent) => {
            match header_value_from_str(agent.as_str()) {
                Ok(_) => {
                    headers.push(Header { name: USER_AGENT.to_owned(), value: agent });
                },
                Err(_) => {
                    return Err(HeaderError::InvalidUserAgent);
                },
            }
        },
        None => {},
    }
    assert(header_views(headers@) =~= outgoing(now_ms, user_agent));
    Ok(headers)
}

} // verus!
