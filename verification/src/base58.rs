//! Base58 decoding, done by the bs58 crate behind a trusted wrapper, with the
//! alphabet rules stated here.

use vstd::prelude::*;

verus! {

/// A character of the Bitcoin Base58 alphabet: the digits one to nine and the
/// ASCII letters in both cases, leaving out zero, uppercase I, uppercase O
/// and lowercase l.
pub open spec fn is_base58_char(c: char) -> bool {
    ||| ('1' as u32) <= (c as u32) <= ('9' as u32)
    ||| (('A' as u32) <= (c as u32) <= ('Z' as u32) && c != 'I' && c != 'O')
    ||| (('a' as u32) <= (c as u32) <= ('z' as u32) && c != 'l')
}

/// A string every character of which belongs to the Base58 alphabet.
pub open spec fn is_base58_string(s: Seq<char>) -> bool {
    forall|i: int| 0 <= i < s.len() ==> is_base58_char(#[trigger] s[i])
}

/// What bs58 decoding returns on a string of alphabet characters: a function
/// of the string alone.
pub uninterp spec fn base58_decoding(s: Seq<char>) -> Seq<u8>;

/// Relies on bs58::decode with its default (Bitcoin) alphabet, decoded into a
/// growable buffer: it fails exactly on a character outside the alphabet, and
/// the decoded bytes depend on the string alone.
#[verifier::external_body]
pub(crate) fn decode_base58(input: &str) -> (r: Option<Vec<u8>>)
    ensures
        r is Some <==> is_base58_string(input@),
        r matches Some(v) ==> v@ == base58_decoding(input@),
{
    bs58::decode(input).into_vec().ok()
}

} // verus!
