//! Upstream failures and the bodies reported for them.

use vstd::prelude::*;
use vstd::utf8::{decode_utf8, pop_first_scalar, valid_utf8};

verus! {

/// The most bytes of an upstream body that are reported.
pub const MAX_RESPONSE_BODY_BYTES: usize = 4096;

/// What std's `String::from_utf8_lossy` decodes `bytes` to.
pub uninterp spec fn utf8_lossy(bytes: Seq<u8>) -> Seq<char>;

/// Calls std's `String::from_utf8_lossy`. Claimed: the result is the named
/// decoding; valid UTF-8 decodes to its characters (as std documents: valid
/// input is returned as it is); and, since only invalid sequences are
/// replaced, bytes that begin with valid UTF-8 decode to its characters
/// followed by the decoding of the rest. How invalid sequences are replaced
/// is left to the name.
#[verifier::external_body]
pub(crate) fn from_utf8_lossy(bytes: &[u8]) -> (r: String)
    ensures
        r@ == utf8_lossy(bytes@),
        valid_utf8(bytes@) ==> r@ == decode_utf8(bytes@),
        forall|a: Seq<u8>, b: Seq<u8>|
            #![trigger decode_utf8(a), utf8_lossy(b)]
            bytes@ == a + b && valid_utf8(a) ==> r@ == decode_utf8(a) + utf8_lossy(b),
{
    String::from_utf8_lossy(bytes).to_string()
}

/// The part of a body that is reported: its first 4096 bytes.
pub open spec fn body_head(bytes: Seq<u8>) -> Seq<u8> {
    bytes.take(
        if bytes.len() < 4096 {
            bytes.len() as int
        } else {
            4096
        },
    )
}

/// The text of `bytes` as `String::from_utf8_lossy` gives it: their
/// characters when they are valid UTF-8, else the lossy decoding.
pub open spec fn text_of(bytes: Seq<u8>) -> Seq<char> {
    if valid_utf8(bytes) {
        decode_utf8(bytes)
    } else {
        utf8_lossy(bytes)
    }
}

/// The reported text of a body: the text of its head.
pub open spec fn head_text(bytes: Seq<u8>) -> Seq<char> {
    text_of(body_head(bytes))
}

/// The first 4096 bytes of an upstream response body, decoded lossily; when
/// they are valid UTF-8, exactly their characters.
pub fn response_body(bytes: &[u8]) -> (r: String)
    ensures
        r@ == head_text(bytes@),
        r@ == utf8_lossy(body_head(bytes@)),
{
    let n = if bytes.len() < MAX_RESPONSE_BODY_BYTES {
        bytes.len()
    } else {
        MAX_RESPONSE_BODY_BYTES
    };
    let head = &bytes[0..n];
    assert(head@ =~= bytes@.take(n as int));
    from_utf8_lossy(head)
}

/// An error that an upstream service answered with.
#[derive(Debug, Clone)]
pub struct UpstreamError {
    pub status: u16,
    pub code: String,
    pub message: String,
}

/// Bytes that are all ASCII are valid UTF-8 and decode to the same
/// characters, one for one.
pub proof fn lemma_ascii_decodes(bytes: Seq<u8>)
    requires
        forall|i: int| 0 <= i < bytes.len() ==> #[trigger] bytes[i] < 0x80,
    ensures
        valid_utf8(bytes),
        decode_utf8(bytes) == bytes.map_values(|b: u8| b as char),
    decreases bytes.len(),
{
    if bytes.len() > 0 {
        let b = bytes[0];
        assert(b < 0x80);
        assert((b & 0x7f) == b) by (bit_vector)
            requires
                b < 0x80,
        ;
        let rest = bytes.subrange(1, bytes.len() as int);
        assert forall|i: int| 0 <= i < rest.len() implies #[trigger] rest[i] < 0x80 by {
            assert(rest[i] == bytes[i + 1]);
        }
        lemma_ascii_decodes(rest);
        assert(pop_first_scalar(bytes) == rest);
        assert(decode_utf8(bytes) =~= bytes.map_values(|b: u8| b as char));
    }
}

} // verus!
