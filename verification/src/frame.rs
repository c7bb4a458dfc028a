//! The frame codec: text to a fixed-size zero-padded frame, and back.
//!
//! A frame is `MESSAGE_SIZE` bytes: the UTF-8 form of a text, left-aligned, then
//! zero bytes. There is no length prefix, so the first zero byte ends the text.

use vstd::prelude::*;
use vstd::string::*;
use vstd::utf8::*;

verus! {

/// Number of bytes in every frame on the wire.
pub const MESSAGE_SIZE: usize = 1024;

/// Why a frame could not be turned back into text.
#[derive(Clone, Copy, Debug, PartialEq, Eq)]
pub enum DecodeError {
    /// The bytes before the padding are not well-formed UTF-8.
    InvalidEncoding,
}

/// The frame that carries `bytes`: the first `MESSAGE_SIZE` of them, then zeros.
pub open spec fn padded(bytes: Seq<u8>) -> Seq<u8> {
    Seq::new(
        MESSAGE_SIZE as nat,
        |i: int|
            if i < bytes.len() {
                bytes[i]
            } else {
                0u8
            },
    )
}

/// The frame that carries `text`.
pub open spec fn frame_of(text: Seq<char>) -> Seq<u8> {
    padded(encode_utf8(text))
}

/// No byte of `bytes` is the padding byte.
pub open spec fn zero_free(bytes: Seq<u8>) -> bool {
    forall|i: int| 0 <= i < bytes.len() ==> bytes[i] != 0
}

/// No character of `text` is NUL.
pub open spec fn nul_free(text: Seq<char>) -> bool {
    forall|i: int| 0 <= i < text.len() ==> text[i] != '\0'
}

/// Index of the first zero byte of `bytes`, or their number where none is zero.
pub open spec fn payload_len(bytes: Seq<u8>) -> nat
    decreases bytes.len(),
{
    if bytes.len() == 0 || bytes[0] == 0 {
        0
    } else {
        1 + payload_len(bytes.drop_first())
    }
}

/// The bytes of `bytes` that come before its first zero byte.
pub open spec fn payload(bytes: Seq<u8>) -> Seq<u8> {
    bytes.take(payload_len(bytes) as int)
}

/// What a frame decodes to: the text its payload spells, where that is UTF-8.
pub open spec fn decode_spec(frame: Seq<u8>) -> Result<Seq<char>, DecodeError> {
    if valid_utf8(payload(frame)) {
        Ok(decode_utf8(payload(frame)))
    } else {
        Err(DecodeError::InvalidEncoding)
    }
}

/// `n` is the payload length of `bytes` as soon as the `n` bytes before it are
/// non-zero and a zero byte, or the end, follows them.
pub proof fn lemma_payload_len_is(bytes: Seq<u8>, n: int)
    requires
        0 <= n <= bytes.len(),
        zero_free(bytes.take(n)),
        n < bytes.len() ==> bytes[n] == 0,
    ensures
        payload_len(bytes) == n,
        payload(bytes) == bytes.take(n),
    decreases n,
{
    if n > 0 {
        let rest = bytes.drop_first();
        let head = bytes.take(n);
        let rest_head = rest.take(n - 1);
        assert(head[0] != 0);
        assert forall|i: int| 0 <= i < rest_head.len() implies rest_head[i] != 0 by {
            assert(rest_head[i] == head[i + 1]);
        }
        lemma_payload_len_is(rest, n - 1);
        assert(payload(bytes) =~= head);
    }
}

/// `String::from_utf8` accepts exactly the well-formed UTF-8 byte sequences,
/// and the string it then returns is made of the bytes it was given.
pub assume_specification[ String::from_utf8 ](bytes: Vec<u8>) -> (r: Result<
    String,
    std::string::FromUtf8Error,
>)
    ensures
        r is Ok <==> valid_utf8(bytes@),
        r matches Ok(s) ==> encode_utf8(s@) == bytes@,
;

/// The error of `String::from_utf8`; nothing is read from it.
#[verifier::external_type_specification]
#[verifier::external_body]
pub struct ExFromUtf8Error(std::string::FromUtf8Error);

/// Encodes `text` as one frame: its UTF-8 bytes, cut to the frame's capacity
/// where they are longer, and zero bytes after them.
pub fn encode(text: &str) -> (frame: Vec<u8>)
    ensures
        frame@ == frame_of(text@),
        frame@.len() == MESSAGE_SIZE,
{
    let mut frame: Vec<u8> = text.as_bytes_vec();
    frame.resize(MESSAGE_SIZE, 0u8);
    assert(frame@ =~= frame_of(text@));
    frame
}

/// Decodes a received frame: the bytes before the first zero byte (all of them
/// where none is zero), read as UTF-8. A frame of any length is accepted.
///
/// Fails with `InvalidEncoding` exactly when those bytes are not UTF-8. The
/// text returned never holds a NUL character, and its UTF-8 form is those
/// bytes, so it is no longer than the frame.
pub fn decode(frame: &[u8]) -> (r: Result<String, DecodeError>)
    ensures
        match r {
            Ok(text) => {
                &&& decode_spec(frame@) == Ok::<Seq<char>, DecodeError>(text@)
                &&& encode_utf8(text@) == payload(frame@)
                &&& encode_utf8(text@).len() <= frame@.len()
                &&& nul_free(text@)
            },
            Err(e) => decode_spec(frame@) == Err::<Seq<char>, DecodeError>(e),
        },
{
    let mut text: Vec<u8> = Vec::new();
    let mut i: usize = 0;
    while i < frame.len() && frame[i] != 0
        invariant
            i <= frame.len(),
            text@ == frame@.take(i as int),
            zero_free(text@),
        decreases frame.len() - i,
    {
        text.push(frame[i]);
        i += 1;
        assert(text@ =~= frame@.take(i as int));
    }
    proof {
        lemma_payload_len_is(frame@, i as int);
    }
    match String::from_utf8(text) {
        Ok(s) => {
            proof {
                encode_utf8_decode_utf8(s@);
                lemma_nul_free_iff_zero_free(s@);
            }
            Ok(s)
        },
        Err(_) => Err(DecodeError::InvalidEncoding),
    }
}

/// The UTF-8 form of one scalar holds a zero byte only for the scalar zero.
proof fn lemma_scalar_zero_free(c: u32)
    requires
        is_scalar(c),
    ensures
        zero_free(encode_scalar(c)) <==> c != 0,
{
    if has_width_1_encoding(c) {
        assert(((c & 0x7F) as u8 == 0) <==> c == 0) by (bit_vector)
            requires
                c <= 0x7F,
        ;
        assert(encode_scalar(c)[0] == leading_byte_width_1(c));
    } else {
        assert(0xC0u8 | ((c >> 6) & 0x1F) as u8 != 0) by (bit_vector);
        assert(0xE0u8 | ((c >> 12) & 0x0F) as u8 != 0) by (bit_vector);
        assert(0xF0u8 | ((c >> 18) & 0x7) as u8 != 0) by (bit_vector);
        assert(0x80u8 | (c & 0x3F) as u8 != 0) by (bit_vector);
        assert(0x80u8 | ((c >> 6) & 0x3F) as u8 != 0) by (bit_vector);
        assert(0x80u8 | ((c >> 12) & 0x3F) as u8 != 0) by (bit_vector);
    }
}

/// A text holds a NUL character exactly when its UTF-8 form holds a zero byte.
pub proof fn lemma_nul_free_iff_zero_free(text: Seq<char>)
    ensures
        nul_free(text) <==> zero_free(encode_utf8(text)),
    decreases text.len(),
{
    if text.len() > 0 {
        let c = text[0] as u32;
        let head = encode_scalar(c);
        let rest = text.drop_first();
        let tail = encode_utf8(rest);
        let bytes = encode_utf8(text);
        char_is_scalar(text[0]);
        char_u32_cast(text[0], c);
        lemma_scalar_zero_free(c);
        lemma_nul_free_iff_zero_free(rest);
        assert(bytes == head + tail);
        if nul_free(text) {
            assert(text[0] != '\0');
            assert forall|i: int| 0 <= i < rest.len() implies rest[i] != '\0' by {
                assert(rest[i] == text[i + 1]);
            }
            assert(zero_free(bytes));
        }
        if zero_free(bytes) {
            assert forall|i: int| 0 <= i < head.len() implies head[i] != 0 by {
                assert(head[i] == bytes[i]);
            }
            assert forall|i: int| 0 <= i < tail.len() implies tail[i] != 0 by {
                assert(tail[i] == bytes[head.len() + i]);
            }
            assert forall|i: int| 0 <= i < text.len() implies text[i] != '\0' by {
                if i > 0 {
                    assert(text[i] == rest[i - 1]);
                }
            }
        }
    }
}

/// Where a prefix of well-formed UTF-8 is itself well-formed, it ends between
/// two characters.
pub proof fn lemma_valid_prefix_ends_at_boundary(bytes: Seq<u8>, k: int)
    requires
        valid_utf8(bytes),
        0 <= k <= bytes.len(),
        valid_utf8(bytes.take(k)),
    ensures
        is_char_boundary(bytes, k),
    decreases bytes.len(),
{
    if k > 0 {
        let prefix = bytes.take(k);
        let width = length_of_first_scalar(bytes);
        let rest = pop_first_scalar(bytes);
        assert(prefix[0] == bytes[0]);
        assert(valid_first_scalar(prefix));
        assert(length_of_first_scalar(prefix) == width);
        assert(width <= k);
        assert(pop_first_scalar(prefix) =~= rest.take(k - width));
        lemma_valid_prefix_ends_at_boundary(rest, k - width);
    }
}

/// Round trip: a text without a NUL character whose UTF-8 form fits one frame
/// is what its frame decodes to.
pub proof fn lemma_round_trip(text: Seq<char>)
    requires
        encode_utf8(text).len() <= MESSAGE_SIZE,
        nul_free(text),
    ensures
        frame_of(text).len() == MESSAGE_SIZE,
        payload(frame_of(text)) == encode_utf8(text),
        decode_spec(frame_of(text)) == Ok::<Seq<char>, DecodeError>(text),
{
    let bytes = encode_utf8(text);
    let frame = frame_of(text);
    lemma_nul_free_iff_zero_free(text);
    assert(frame.take(bytes.len() as int) =~= bytes);
    lemma_payload_len_is(frame, bytes.len() as int);
    encode_utf8_valid_utf8(text);
    encode_utf8_decode_utf8(text);
}

/// Truncation: a text whose UTF-8 form is longer than a frame, with no zero
/// among its first `MESSAGE_SIZE` bytes, is cut after exactly that many bytes.
/// Its frame decodes if and only if the cut falls between two characters, and
/// then to the characters before the cut; a cut inside a character gives
/// `InvalidEncoding`.
pub proof fn lemma_truncation(text: Seq<char>)
    requires
        encode_utf8(text).len() > MESSAGE_SIZE,
        zero_free(encode_utf8(text).take(MESSAGE_SIZE as int)),
    ensures
        frame_of(text).len() == MESSAGE_SIZE,
        frame_of(text) == encode_utf8(text).take(MESSAGE_SIZE as int),
        payload(frame_of(text)) == frame_of(text),
        decode_spec(frame_of(text)) is Ok <==> is_char_boundary(
            encode_utf8(text),
            MESSAGE_SIZE as int,
        ),
        decode_spec(frame_of(text)) matches Ok(cut) ==> cut.is_prefix_of(text) && encode_utf8(cut)
            == frame_of(text),
        decode_spec(frame_of(text)) matches Err(e) ==> e == DecodeError::InvalidEncoding,
{
    let bytes = encode_utf8(text);
    let frame = frame_of(text);
    let k = MESSAGE_SIZE as int;
    assert(frame =~= bytes.take(k));
    assert(frame.take(k) =~= frame);
    lemma_payload_len_is(frame, k);
    encode_utf8_valid_utf8(text);
    encode_utf8_decode_utf8(text);
    if valid_utf8(frame) {
        lemma_valid_prefix_ends_at_boundary(bytes, k);
    }
    if is_char_boundary(bytes, k) {
        valid_utf8_split(bytes, k);
        decode_utf8_split(bytes, k);
        let cut = decode_utf8(frame);
        let after = decode_utf8(bytes.subrange(k, bytes.len() as int));
        assert(text =~= cut + after);
        assert(cut =~= text.subrange(0, cut.len() as int));
        decode_utf8_encode_utf8(frame);
    }
}

} // verus!
