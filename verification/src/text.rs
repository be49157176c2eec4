//! Turning bytes back into strings.
//!
//! Encoding a string to bytes is fully specified by vstd (`str::as_bytes`
//! returns `encode_utf8` of the string's characters); this module supplies
//! the decoding direction and a helper for building strings out of ASCII
//! bytes.

use vstd::prelude::*;
use vstd::utf8::{
    decode_utf8, is_leading_byte_width_1, pop_first_scalar, valid_first_scalar, valid_utf8,
};

verus! {

/// Relies on `String::from_utf8`: it succeeds exactly on the byte sequences
/// that are valid UTF-8, and then returns the character sequence they
/// encode, as vstd's `decode_utf8` defines it.
#[verifier::external_body]
pub(crate) fn string_from_utf8(bytes: Vec<u8>) -> (r: Option<String>)
    ensures
        match r {
            Some(s) => valid_utf8(bytes@) && s@ == decode_utf8(bytes@),
            None => !valid_utf8(bytes@),
        },
{
    String::from_utf8(bytes).ok()
}

/// A sequence of bytes below 0x80 is valid UTF-8 and decodes to the same
/// values read as characters.
pub proof fn lemma_ascii_bytes_decode(bytes: Seq<u8>)
    requires
        forall|i: int| 0 <= i < bytes.len() ==> #[trigger] bytes[i] < 0x80,
    ensures
        valid_utf8(bytes),
        decode_utf8(bytes) == bytes.map_values(|b: u8| b as char),
    decreases bytes.len(),
{
    if bytes.len() == 0 {
        assert(decode_utf8(bytes) =~= bytes.map_values(|b: u8| b as char));
    } else {
        let b0 = bytes[0];
        assert(b0 & 0x7f == b0) by (bit_vector)
            requires
                b0 < 0x80,
        ;
        assert(is_leading_byte_width_1(b0));
        assert(valid_first_scalar(bytes));
        assert(pop_first_scalar(bytes) =~= bytes.drop_first());
        assert(forall|i: int|
            0 <= i < bytes.drop_first().len() ==> #[trigger] bytes.drop_first()[i] < 0x80);
        lemma_ascii_bytes_decode(bytes.drop_first());
        assert(decode_utf8(bytes) =~= bytes.map_values(|b: u8| b as char));
    }
}

/// Builds the string whose characters are the given ASCII bytes.
pub fn ascii_to_string(v: Vec<u8>) -> (r: String)
    requires
        forall|i: int| 0 <= i < v@.len() ==> #[trigger] v@[i] < 0x80,
    ensures
        r@ == v@.map_values(|b: u8| b as char),
{
    proof {
        lemma_ascii_bytes_decode(v@);
    }
    match string_from_utf8(v) {
        Some(s) => s,
        None => {
            proof {
                assert(false);
            }
            String::new()
        },
    }
}

} // verus!
