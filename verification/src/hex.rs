//! Hexadecimal text.

use vstd::prelude::*;
use crate::text::string_from_chars;

verus! {

/// The hexadecimal digit of a number below 16, in lower case.
pub open spec fn hex_digit(v: u8) -> char {
    if v < 10 {
        (48u8 + v) as char
    } else {
        (97u8 + (v - 10)) as char
    }
}

/// The bytes in lower-case hexadecimal, two digits each.
pub open spec fn hex_text(bytes: Seq<u8>) -> Seq<char> {
    Seq::new(
        bytes.len() * 2,
        |i: int|
            if i % 2 == 0 {
                hex_digit(bytes[i / 2] / 16)
            } else {
                hex_digit(bytes[i / 2] % 16)
            },
    )
}

pub fn hex_char(v: u8) -> (c: char)
    requires
        v < 16,
    ensures
        c == hex_digit(v),
{
    if v < 10 {
        (48u8 + v) as char
    } else {
        (97u8 + (v - 10)) as char
    }
}

/// The bytes in lower-case hexadecimal.
pub fn hex_string(bytes: &[u8]) -> (s: String)
    requires
        bytes@.len() * 2 <= usize::MAX,
    ensures
        s@ == hex_text(bytes@),
{
    let mut digits: Vec<char> = Vec::new();
    let mut i: usize = 0;
    while i < bytes.len()
        invariant
            0 <= i <= bytes@.len(),
            digits@ == hex_text(bytes@.take(i as int)),
        decreases bytes@.len() - i,
    {
        let b = bytes[i];
        digits.push(hex_char(b / 16));
        digits.push(hex_char(b % 16));
        proof {
            assert(digits@ =~= hex_text(bytes@.take(i + 1)));
        }
        i = i + 1;
    }
    proof {
        assert(bytes@.take(bytes@.len() as int) =~= bytes@);
    }
    string_from_chars(&digits)
}

/// What `data_encoding::HEXLOWER_PERMISSIVE.decode` gives for the bytes of
/// `text`: the decoded bytes, or nothing where it reports an error.
pub uninterp spec fn hex_bytes(text: Seq<char>) -> Option<Seq<u8>>;

/// Calls `data_encoding::HEXLOWER_PERMISSIVE.decode` on the bytes of
/// `text`. The result depends on the input alone. A text of at most
/// `usize::MAX / 32` characters has at most `usize::MAX / 8` bytes, the
/// length from which the crate may panic.
#[verifier::external_body]
pub(crate) fn decode(text: &str) -> (r: Result<Vec<u8>, data_encoding::DecodeError>)
    requires
        text@.len() <= usize::MAX / 32,
    ensures
        match r {
            Ok(bytes) => hex_bytes(text@) == Some(bytes@),
            Err(_) => hex_bytes(text@) is None,
        },
{
    data_encoding::HEXLOWER_PERMISSIVE.decode(text.as_bytes())
}

} // verus!
