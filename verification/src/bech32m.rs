//! Bech32m encoding and decoding, done by the bech32 crate behind trusted
//! wrappers, with the human-readable-part rules verified here.

use vstd::prelude::*;
use vstd::string::StrSliceExecFns;

verus! {

/// A valid human-readable part: non-empty, at most 83 characters, every
/// character in the printable ASCII range 33 to 126, and not mixing
/// uppercase with lowercase letters. These are the exact rules that
/// bech32::Hrp::parse enforces.
pub open spec fn valid_hrp(s: Seq<char>) -> bool {
    &&& 1 <= s.len() <= 83
    &&& forall|i: int| 0 <= i < s.len() ==> 33 <= (#[trigger] s[i]) as u32 <= 126
    &&& !(has_lowercase_letter(s) && has_uppercase_letter(s))
}

/// Some character of the string is a lowercase ASCII letter.
pub open spec fn has_lowercase_letter(s: Seq<char>) -> bool {
    exists|i: int| 0 <= i < s.len() && ('a' as u32) <= (#[trigger] s[i]) as u32 <= ('z' as u32)
}

/// Some character of the string is an uppercase ASCII letter.
pub open spec fn has_uppercase_letter(s: Seq<char>) -> bool {
    exists|i: int| 0 <= i < s.len() && ('A' as u32) <= (#[trigger] s[i]) as u32 <= ('Z' as u32)
}

/// No character of the string is an uppercase ASCII letter, so the encoder
/// reproduces the prefix unchanged at the head of its output.
pub open spec fn lowercase_hrp(s: Seq<char>) -> bool {
    forall|i: int| 0 <= i < s.len() ==> !(('A' as u32) <= (#[trigger] s[i]) as u32 <= ('Z' as u32))
}

/// What bech32::decode returns on a string: the payload bytes when the string
/// parses and carries a valid Bech32 or Bech32m checksum, nothing otherwise.
pub uninterp spec fn bech32_payload(s: Seq<char>) -> Option<Seq<u8>>;

/// What bech32::encode returns for a human-readable part and a payload under
/// the Bech32m checksum: a function of the two arguments alone.
pub uninterp spec fn bech32m_encoding(hrp: Seq<char>, data: Seq<u8>) -> Seq<char>;

/// The encoded form fits the Bech32m code length: the human-readable part,
/// the separator, one character per five payload bits (rounded up) and the
/// six checksum characters together stay within 1023 characters.
pub open spec fn encoding_fits(hrp: Seq<char>, data: Seq<u8>) -> bool {
    hrp.len() + 1 + (data.len() * 8 + 4) / 5 + 6 <= 1023
}

/// Decides the human-readable-part rules.
pub fn check_hrp(s: &str) -> (b: bool)
    ensures
        b == valid_hrp(s@),
{
    let n = s.unicode_len();
    if n < 1 || n > 83 {
        return false;
    }
    let mut has_lower = false;
    let mut has_upper = false;
    let mut i: usize = 0;
    while i < n
        invariant
            n == s@.len(),
            i <= n,
            forall|j: int| 0 <= j < i ==> 33 <= (#[trigger] s@[j]) as u32 <= 126,
            has_lower == (exists|j: int|
                0 <= j < i && ('a' as u32) <= (#[trigger] s@[j]) as u32 <= ('z' as u32)),
            has_upper == (exists|j: int|
                0 <= j < i && ('A' as u32) <= (#[trigger] s@[j]) as u32 <= ('Z' as u32)),
        decreases n - i,
    {
        let c = s.get_char(i) as u32;
        if c < 33 || c > 126 {
            return false;
        }
        if 97 <= c && c <= 122 {
            has_lower = true;
        }
        if 65 <= c && c <= 90 {
            has_upper = true;
        }
        i = i + 1;
    }
    !(has_lower && has_upper)
}

/// Relies on bech32::decode: it returns the payload bytes exactly when the
/// string parses as a Bech32 string and one of the Bech32 or Bech32m
/// checksums is valid, and the result depends on the string alone.
#[verifier::external_body]
pub(crate) fn decode_any(input: &str) -> (r: Option<Vec<u8>>)
    ensures
        r is Some <==> bech32_payload(input@) is Some,
        r matches Some(v) ==> Some(v@) == bech32_payload(input@),
{
    match bech32::decode(input) {
        Ok((_, data)) => Some(data),
        Err(_) => None,
    }
}

/// Relies on bech32::encode with the Bech32m checksum, and on
/// bech32::Hrp::parse to build the human-readable part, which accepts every
/// prefix admitted here. Encoding succeeds exactly when the encoded form fits
/// the code length; its result depends on the arguments alone; bech32::decode
/// recovers the payload from it, as the crate documents and tests; and when
/// the prefix has no uppercase letter the output is that prefix, the
/// separator, and the data characters.
#[verifier::external_body]
pub(crate) fn encode_bech32m(prefix: &str, data: &Vec<u8>) -> (r: Option<String>)
    requires
        valid_hrp(prefix@),
    ensures
        r is Some <==> encoding_fits(prefix@, data@),
        r matches Some(s) ==> s@ == bech32m_encoding(prefix@, data@),
        r matches Some(s) ==> bech32_payload(s@) == Some(data@),
        r matches Some(s) ==> (lowercase_hrp(prefix@) ==> s@.len() > prefix@.len() && s@.subrange(
            0,
            prefix@.len() as int,
        ) == prefix@ && s@[prefix@.len() as int] == '1'),
{
    let hrp = match bech32::Hrp::parse(prefix) {
        Ok(h) => h,
        Err(_) => {
            return None;
        },
    };
    bech32::encode::<bech32::Bech32m>(hrp, data.as_slice()).ok()
}

} // verus!
