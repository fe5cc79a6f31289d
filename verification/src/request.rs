//! The fixed-capacity buffer that one read fills.

use vstd::prelude::*;
use vstd::utf8::*;

verus! {

/// Capacity of the request buffer, and so the most that the one read can take.
pub const BUFFER_SIZE: usize = 512;

/// How many bytes one read takes out of `incoming`.
pub open spec fn taken(incoming: Seq<u8>) -> nat {
    if incoming.len() <= BUFFER_SIZE {
        incoming.len()
    } else {
        BUFFER_SIZE as nat
    }
}

/// A buffer after one read of `incoming`: the bytes taken, then what was there before.
pub open spec fn overlay(before: Seq<u8>, incoming: Seq<u8>) -> Seq<u8> {
    incoming.take(taken(incoming) as int) + before.skip(taken(incoming) as int)
}

/// A buffer nothing has been read into.
pub open spec fn blank() -> Seq<u8> {
    Seq::new(BUFFER_SIZE as nat, |i: int| 0u8)
}

/// A fresh buffer after its one read of `incoming`.
pub open spec fn captured(incoming: Seq<u8>) -> Seq<u8> {
    overlay(blank(), incoming)
}

/// The text that `String::from_utf8_lossy` makes of `bytes`.
pub uninterp spec fn lossy_text(bytes: Seq<u8>) -> Seq<char>;

/// Bytes as best-effort text: the characters they encode where they are valid UTF-8, and
/// what lossy decoding makes of them where they are not.
pub open spec fn as_text(bytes: Seq<u8>) -> Seq<char> {
    if valid_utf8(bytes) {
        decode_utf8(bytes)
    } else {
        lossy_text(bytes)
    }
}

/// Each byte as the character with that code.
pub open spec fn as_chars(bytes: Seq<u8>) -> Seq<char> {
    Seq::new(bytes.len(), |i: int| bytes[i] as char)
}

/// Whether every byte is an ASCII code.
pub open spec fn is_ascii_bytes(bytes: Seq<u8>) -> bool {
    forall|i: int| 0 <= i < bytes.len() ==> #[trigger] bytes[i] < 128
}

/// Calls `String::from_utf8_lossy`, which decodes `bytes` as UTF-8 and puts U+FFFD in place
/// of each sequence that is not valid. The contract names the outcome, and says of valid
/// UTF-8 that the text is the one that `bytes` encodes.
#[verifier::external_body]
fn decode_lossy(bytes: &[u8]) -> (text: String)
    ensures
        text@ == lossy_text(bytes@),
        valid_utf8(bytes@) ==> text@ == decode_utf8(bytes@),
{
    String::from_utf8_lossy(bytes).into_owned()
}

/// ASCII is text as it stands: one character for each byte, with the byte as its code.
pub proof fn lemma_ascii_as_text(bytes: Seq<u8>)
    requires
        is_ascii_bytes(bytes),
    ensures
        valid_utf8(bytes),
        as_text(bytes) == as_chars(bytes),
{
    let chars = as_chars(bytes);
    assert(is_ascii_chars(chars)) by {
        assert forall|i: int| 0 <= i < chars.len() implies '\0' <= #[trigger] chars[i]
            <= '\u{7f}' by {
            assert(bytes[i] < 128);
        }
    }
    is_ascii_chars_encode_utf8(chars);
    assert(encode_utf8(chars) =~= bytes) by {
        assert forall|i: int| 0 <= i < bytes.len() implies encode_utf8(chars)[i] == bytes[i] by {
            assert(bytes[i] < 128);
            assert(chars[i] as u8 == bytes[i]);
        }
    }
    encode_utf8_valid_utf8(chars);
    encode_utf8_decode_utf8(chars);
}

/// The buffer after one read of ASCII is ASCII, whatever the length of what came in.
pub proof fn lemma_captured_ascii(incoming: Seq<u8>)
    requires
        is_ascii_bytes(incoming),
    ensures
        is_ascii_bytes(captured(incoming)),
{
    assert forall|i: int| 0 <= i < captured(incoming).len() implies #[trigger] captured(
        incoming,
    )[i] < 128 by {
        if i < taken(incoming) {
            assert(captured(incoming)[i] == incoming[i]);
        }
    }
}

/// Exactly `BUFFER_SIZE` bytes, zeroed until a read overwrites a prefix of them.
pub struct RequestBuffer {
    bytes: Vec<u8>,
}

impl View for RequestBuffer {
    type V = Seq<u8>;

    closed spec fn view(&self) -> Seq<u8> {
        self.bytes@
    }
}

impl RequestBuffer {
    #[verifier::type_invariant]
    spec fn full_length(&self) -> bool {
        self.bytes@.len() == BUFFER_SIZE
    }

    /// A zeroed buffer.
    pub fn new() -> (buffer: Self)
        ensures
            buffer@ == blank(),
    {
        let mut bytes: Vec<u8> = Vec::new();
        let mut i: usize = 0;
        while i < BUFFER_SIZE
            invariant
                i <= BUFFER_SIZE,
                bytes@.len() == i,
                forall|k: int| 0 <= k < i ==> bytes@[k] == 0u8,
            decreases BUFFER_SIZE - i,
        {
            bytes.push(0u8);
            i += 1;
        }
        assert(bytes@ =~= blank());
        RequestBuffer { bytes }
    }

    /// One read: copies the first `BUFFER_SIZE` bytes of `incoming`, or all of it if it is
    /// shorter, over the start of the buffer, and returns how many were taken.
    pub fn fill(&mut self, incoming: &[u8]) -> (n: usize)
        ensures
            n == taken(incoming@),
            final(self)@ == overlay(old(self)@, incoming@),
    {
        proof {
            use_type_invariant(&*self);
        }
        let n: usize = if incoming.len() <= BUFFER_SIZE {
            incoming.len()
        } else {
            BUFFER_SIZE
        };
        let mut bytes: Vec<u8> = Vec::new();
        let mut i: usize = 0;
        while i < BUFFER_SIZE
            invariant
                i <= BUFFER_SIZE,
                n == taken(incoming@),
                self.bytes@.len() == BUFFER_SIZE,
                bytes@.len() == i,
                forall|k: int| 0 <= k < i && k < n ==> bytes@[k] == incoming@[k],
                forall|k: int| n <= k < i ==> bytes@[k] == self.bytes@[k],
            decreases BUFFER_SIZE - i,
        {
            let byte: u8 = if i < n {
                incoming[i]
            } else {
                self.bytes[i]
            };
            bytes.push(byte);
            i += 1;
        }
        assert(bytes@ =~= overlay(self.bytes@, incoming@));
        self.bytes = bytes;
        n
    }

    /// All `BUFFER_SIZE` bytes.
    pub fn as_slice(&self) -> (bytes: &[u8])
        ensures
            bytes@ == self@,
            bytes@.len() == BUFFER_SIZE,
    {
        proof {
            use_type_invariant(self);
        }
        self.bytes.as_slice()
    }

    /// The whole buffer as best-effort text, for diagnostics.
    pub fn text(&self) -> (text: String)
        ensures
            text@ == as_text(self@),
    {
        decode_lossy(self.bytes.as_slice())
    }
}

} // verus!
