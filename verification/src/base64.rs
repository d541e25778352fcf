//! Base64, the text form of sealed blobs on disk, of public keys, and of
//! seeds that are imported.
//!
//! The encoding is not part of what this library proves. Its results are
//! given names here, and the two functions below say how the calls relate to
//! those names.

use crate::wire::view_opt;
use subtle_encoding::{Base64, Encoding};
use vstd::prelude::*;
use vstd::utf8::{
    is_leading_byte_width_1, partial_valid_utf8, partial_valid_utf8_extend_ascii_block, valid_utf8,
};

verus! {

/// The most bytes that are encoded at once.
pub const BASE64_MAX: usize = 0x1000_0000;

/// The most characters that are decoded at once. The text of `BASE64_MAX`
/// bytes is shorter.
pub const BASE64_TEXT_MAX: usize = 0x2000_0000;

/// The padding character, `=`.
pub const PAD: u8 = 0x3d;

/// The Base64 text of `bytes`, as bytes.
pub uninterp spec fn base64_text(bytes: Seq<u8>) -> Seq<u8>;

/// The bytes that the Base64 text `text` stands for, or nothing where it is
/// not accepted.
pub uninterp spec fn base64_bytes(text: Seq<u8>) -> Option<Seq<u8>>;

/// Whether a character is one that Base64 text is made of.
pub open spec fn is_base64_char(c: u8) -> bool {
    ||| 0x41 <= c <= 0x5a
    ||| 0x61 <= c <= 0x7a
    ||| 0x30 <= c <= 0x39
    ||| c == 0x2b
    ||| c == 0x2f
    ||| c == PAD
}

/// Where the last group of up to four characters of a text of `len`
/// characters begins.
pub open spec fn last_group(len: nat) -> int {
    4 * ((len - 1) / 4)
}

/// Whether padding stands in the last group of `text` only where it belongs:
/// not at the beginning of the group, and with nothing but padding behind
/// it. Another text cannot be handed to the decoder.
pub open spec fn padded_at_end(text: Seq<u8>) -> bool {
    text.len() == 0 || {
        &&& text[last_group(text.len())] != PAD
        &&& forall|j: int, k: int|
            last_group(text.len()) <= j < k < text.len() && text[j] == PAD ==> text[k] == PAD
    }
}

/// A text that is made of the characters of Base64 is valid UTF-8: each of
/// its characters is one byte below 128.
pub proof fn lemma_base64_text_is_utf8(text: Seq<u8>)
    requires
        forall|i: int| 0 <= i < text.len() ==> is_base64_char(#[trigger] text[i]),
    ensures
        valid_utf8(text),
{
    assert forall|i: int| 0 <= i < text.len() implies #[trigger] is_leading_byte_width_1(
        text[i],
    ) by {
        assert(is_base64_char(text[i]));
    }
    assert(text.subrange(0, 0) =~= Seq::<u8>::empty());
    assert(partial_valid_utf8(text, 0));
    partial_valid_utf8_extend_ascii_block(text, 0, text.len() as int);
    assert(text.subrange(0, text.len() as int) =~= text);
}

/// Calls `Base64::encode`.
///
/// Taken on trust: the result is the named text of the bytes; it has four
/// characters for every three bytes or part of them, so it is no longer than
/// `BASE64_TEXT_MAX`; it is made of the characters of the Base64 alphabet and
/// of padding, and padding stands only at its end and never at the beginning
/// of a group; and decoding it gives the bytes back.
#[verifier::external_body]
pub(crate) fn encode(bytes: &[u8]) -> (text: Vec<u8>)
    requires
        bytes@.len() <= BASE64_MAX,
    ensures
        text@ == base64_text(bytes@),
        text@.len() <= BASE64_TEXT_MAX,
        forall|i: int| 0 <= i < text@.len() ==> is_base64_char(#[trigger] text@[i]),
        padded_at_end(text@),
        base64_bytes(text@) == Some(bytes@),
{
    Base64::default().encode(bytes)
}

/// Calls `Base64::decode`.
///
/// Taken on trust: the result is the named decoding of the text. The decoder
/// faults on a text whose last group begins with padding or holds padding
/// in front of another character, so such a text is not handed to it.
#[verifier::external_body]
pub(crate) fn decode(text: &[u8]) -> (r: Option<Vec<u8>>)
    requires
        text@.len() <= BASE64_TEXT_MAX,
        padded_at_end(text@),
    ensures
        view_opt(r) == base64_bytes(text@),
{
    Base64::default().decode(text).ok()
}

} // verus!
