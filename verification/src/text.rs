//! Text decoding that is left to `encoding_rs` and to `std`.
//!
//! Nothing here is proved: each function states what the decoder it calls is
//! documented to do, and the rest of the library is verified against that.

use vstd::prelude::*;
use vstd::utf8::{decode_utf8, valid_utf8};

verus! {

/// The longest input, in bytes, that the lossy decoders are called with.
///
/// `encoding_rs` panics when the size of its output buffer, at most three
/// times the input and a few bytes more, rounded up to a power of two,
/// overflows `usize`. Below this bound it does not, and the buffer also stays
/// under the `isize::MAX` bytes that `String` can hold.
pub const MAX_TEXT_LEN: usize = usize::MAX / 8;

/// The text that `encoding_rs::Encoding::decode` returns for `bytes`: called
/// on `encoding_rs::UTF_8` where `utf8` holds, on `encoding_rs::UTF_16LE`
/// where it does not. The call sniffs and drops a byte order mark, follows it
/// if it names another encoding, and replaces each malformed sequence with
/// U+FFFD; the text depends on the encoding and the bytes alone.
pub uninterp spec fn decoded_text(utf8: bool, bytes: Seq<u8>) -> Seq<char>;

/// Calls `encoding_rs::Encoding::decode` on `encoding_rs::UTF_8` and keeps
/// the text. Trusted: the result is the one named by [`decoded_text`].
#[verifier::external_body]
pub(crate) fn decode_lossy_utf8(bytes: &[u8]) -> (text: String)
    requires
        bytes@.len() <= MAX_TEXT_LEN,
    ensures
        text@ == decoded_text(true, bytes@),
{
    let (text, _, _) = encoding_rs::UTF_8.decode(bytes);
    String::from(text)
}

/// Calls `encoding_rs::Encoding::decode` on `encoding_rs::UTF_16LE` and keeps
/// the text. Trusted: the result is the one named by [`decoded_text`].
#[verifier::external_body]
pub(crate) fn decode_lossy_utf16le(bytes: &[u8]) -> (text: String)
    requires
        bytes@.len() <= MAX_TEXT_LEN,
    ensures
        text@ == decoded_text(false, bytes@),
{
    let (text, _, _) = encoding_rs::UTF_16LE.decode(bytes);
    String::from(text)
}

/// Calls `String::from_utf8`. Trusted: it succeeds exactly on well-formed
/// UTF-8, and the string then holds the characters that the bytes encode.
#[verifier::external_body]
pub(crate) fn string_from_utf8(bytes: Vec<u8>) -> (text: Option<String>)
    ensures
        text is Some <==> valid_utf8(bytes@),
        text is Some ==> text.unwrap()@ == decode_utf8(bytes@),
{
    String::from_utf8(bytes).ok()
}

} // verus!
