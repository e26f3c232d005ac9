//! Unpadded base32 text, as the `data-encoding` crate writes and reads it.

use vstd::prelude::*;
use crate::text::ascii_lower;
use crate::text::ascii_lower_char;
use crate::text::ascii_upper;
use crate::text::ascii_upper_char;

verus! {

#[verifier::external_type_specification]
#[verifier::external_body]
pub struct ExDecodeError(data_encoding::DecodeError);

/// What `data_encoding::BASE32_NOPAD.encode` gives for `bytes`.
pub uninterp spec fn base32_text(bytes: Seq<u8>) -> Seq<char>;

/// What `data_encoding::BASE32_NOPAD.decode` gives for the bytes of `text`:
/// the decoded bytes, or nothing where it reports an error.
pub uninterp spec fn base32_bytes(text: Seq<char>) -> Option<Seq<u8>>;

/// One of the 32 symbols of the encoding: a capital or a digit from 2 to 7.
pub open spec fn is_base32_symbol(c: char) -> bool {
    ('A' <= c && c <= 'Z') || ('2' <= c && c <= '7')
}

/// Every character is a symbol of the encoding.
pub open spec fn all_base32_symbols(text: Seq<char>) -> bool {
    forall|i: int| 0 <= i < text.len() ==> is_base32_symbol(#[trigger] text[i])
}

/// Symbols that the encoding writes for `len` bytes: one for every five
/// bits, the last for what is left.
pub open spec fn encoded_len(len: nat) -> nat {
    (8 * len + 4) / 5
}

/// Calls `data_encoding::BASE32_NOPAD.encode`. The crate documents that the
/// result depends on the input alone, that decoding it gives the input back,
/// and the encoding's symbols are the capitals and the digits 2 to 7; it
/// writes one symbol for every five bits of the input, rounded up, and no
/// padding. The input is kept under the length from which the crate may
/// panic.
#[verifier::external_body]
pub(crate) fn encode(bytes: &[u8]) -> (text: String)
    requires
        bytes@.len() <= usize::MAX / 512,
    ensures
        text@ == base32_text(bytes@),
        base32_bytes(text@) == Some(bytes@),
        all_base32_symbols(text@),
        text@.len() == encoded_len(bytes@.len()),
{
    data_encoding::BASE32_NOPAD.encode(bytes)
}

/// Calls `data_encoding::BASE32_NOPAD.decode` on the bytes of `text`. The
/// result depends on the input alone. A text of at most `usize::MAX / 32`
/// characters has at most `usize::MAX / 8` bytes, the length from which the
/// crate may panic.
#[verifier::external_body]
pub(crate) fn decode(text: &str) -> (r: Result<Vec<u8>, data_encoding::DecodeError>)
    requires
        text@.len() <= usize::MAX / 32,
    ensures
        match r {
            Ok(bytes) => base32_bytes(text@) == Some(bytes@),
            Err(_) => base32_bytes(text@) is None,
        },
{
    data_encoding::BASE32_NOPAD.decode(text.as_bytes())
}

/// Lower-casing a text of base32 symbols and capitalising it again gives the
/// text back, and the lower-case form holds no `@`.
pub proof fn lemma_case_round_trip(text: Seq<char>)
    requires
        all_base32_symbols(text),
    ensures
        ascii_upper(ascii_lower(text)) == text,
        forall|i: int| 0 <= i < text.len() ==> ascii_lower(text)[i] != '@',
{
    assert forall|i: int| 0 <= i < text.len() implies ascii_upper_char(ascii_lower_char(text[i]))
        == text[i] && ascii_lower_char(text[i]) != '@' by {
        assert(is_base32_symbol(text[i]));
    }
    assert(ascii_upper(ascii_lower(text)) =~= text);
}

} // verus!
