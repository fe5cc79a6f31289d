//! The one response this server ever sends.

use vstd::prelude::*;
use vstd::string::*;

verus! {

/// The response, as text.
pub const RESPONSE: &'static str = "HTTP/1.1 200 OK\r\nContent-Length: 12\r\n\r\nHello, Rust!";

/// The bytes that go on the wire: the UTF-8 encoding of [`RESPONSE`].
pub open spec fn response_octets() -> Seq<u8> {
    RESPONSE.spec_bytes()
}

/// The response is plain ASCII: 51 bytes, each the code of the character of [`RESPONSE`]
/// in its place.
pub proof fn lemma_response_is_ascii()
    ensures
        RESPONSE@.len() == 51,
        response_octets().len() == 51,
        forall|i: int| 0 <= i < 51 ==> response_octets()[i] == RESPONSE@[i] as u8,
{
    reveal_strlit("HTTP/1.1 200 OK\r\nContent-Length: 12\r\n\r\nHello, Rust!");
    broadcast use is_ascii_spec_bytes;
    assert(is_ascii(RESPONSE));
}

/// Returns a fresh copy of the response bytes.
pub fn response_bytes() -> (out: Vec<u8>)
    ensures
        out@ == response_octets(),
{
    RESPONSE.as_bytes_vec()
}

} // verus!
