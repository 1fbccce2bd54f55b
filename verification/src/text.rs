//! Telling text from other bytes.

use vstd::prelude::*;
use vstd::utf8::*;

verus! {

/// The bytes as text, where they are text.
///
/// Calls `core::str::from_utf8`. Believed of it: it accepts exactly the
/// byte sequences that are well-formed UTF-8, and the string it returns
/// holds the characters that those bytes encode.
#[verifier::external_body]
pub(crate) fn as_text(bytes: &[u8]) -> (r: Option<&str>)
    ensures
        r is Some <==> valid_utf8(bytes@),
        r matches Some(s) ==> s@ == decode_utf8(bytes@),
{
    core::str::from_utf8(bytes).ok()
}

/// Whether the bytes are text.
pub fn is_text(bytes: &[u8]) -> (r: bool)
    ensures
        r == valid_utf8(bytes@),
{
    as_text(bytes).is_some()
}

/// Text that is cut in front of an ASCII byte is still text.
pub proof fn lemma_text_prefix(bytes: Seq<u8>, i: int)
    requires
        valid_utf8(bytes),
        0 <= i <= bytes.len(),
        i < bytes.len() ==> bytes[i] < 0x80,
    ensures
        valid_utf8(bytes.take(i)),
{
    if i < bytes.len() {
        is_char_boundary_iff_not_is_continuation_byte(bytes, i);
        valid_utf8_split(bytes, i);
    } else {
        assert(bytes.take(i) =~= bytes);
    }
}

} // verus!
