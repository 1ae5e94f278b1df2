//! The converter: decode a Bech32m string to hex, or detect the format of a
//! string (Bech32m first, then Base16, then Base58) and re-encode its payload
//! under a fresh Bech32m prefix.

use vstd::prelude::*;
use crate::base16::{hex_of, is_hex_string, parse_hex, lower_hex_of, lemma_hex_normalization};
use crate::base16::{hex_encode, hex_decode};
use crate::base58::{is_base58_string, base58_decoding, decode_base58};
use crate::bech32m::{valid_hrp, bech32_payload, bech32m_encoding, encoding_fits};
use crate::bech32m::{check_hrp, decode_any, encode_bech32m};

verus! {

/// Why a conversion was refused.
#[derive(Debug, Clone, Copy, PartialEq, Eq, Structural)]
pub enum ConvertError {
    /// Encode mode: the prefix breaks the human-readable-part rules.
    InvalidPrefix,
    /// Decode mode: the input is not a valid Bech32m string.
    InvalidEncoding,
    /// Encode mode: the input matches none of the three formats.
    UnrecognizedFormat,
    /// Encode mode: the detected payload is too long for the Bech32m code
    /// length.
    EncodingFailed,
}

/// The result with the successful string replaced by its view.
pub open spec fn view_result(r: Result<String, ConvertError>) -> Result<Seq<char>, ConvertError> {
    match r {
        Ok(s) => Ok(s@),
        Err(e) => Err(e),
    }
}

/// The payload that format detection finds, trying Bech32m first, then
/// Base16, then Base58, and taking the first format that succeeds.
pub open spec fn detected_payload(input: Seq<char>) -> Option<Seq<u8>> {
    if bech32_payload(input) is Some {
        bech32_payload(input)
    } else if is_hex_string(input) {
        Some(parse_hex(input))
    } else if is_base58_string(input) {
        Some(base58_decoding(input))
    } else {
        None
    }
}

/// What re-encoding a payload under a valid prefix returns.
pub open spec fn encode_payload_spec(prefix: Seq<char>, data: Seq<u8>) -> Result<
    Seq<char>,
    ConvertError,
> {
    if encoding_fits(prefix, data) {
        Ok(bech32m_encoding(prefix, data))
    } else {
        Err(ConvertError::EncodingFailed)
    }
}

/// What decode mode returns: the payload of a valid Bech32m string rendered
/// as lowercase hex.
pub open spec fn decode_spec(input: Seq<char>) -> Result<Seq<char>, ConvertError> {
    match bech32_payload(input) {
        Some(data) => Ok(hex_of(data)),
        None => Err(ConvertError::InvalidEncoding),
    }
}

/// What encode mode returns: the detected payload re-encoded under the
/// prefix, or the error naming what failed.
pub open spec fn encode_spec(input: Seq<char>, prefix: Seq<char>) -> Result<
    Seq<char>,
    ConvertError,
> {
    if !valid_hrp(prefix) {
        Err(ConvertError::InvalidPrefix)
    } else {
        match detected_payload(input) {
            Some(data) => encode_payload_spec(prefix, data),
            None => Err(ConvertError::UnrecognizedFormat),
        }
    }
}

/// Decodes a Bech32m string and returns its payload as lowercase hex;
/// `InvalidEncoding` exactly when the string does not carry a valid checksum.
pub fn decode_bech32m(input: &str) -> (r: Result<String, ConvertError>)
    ensures
        view_result(r) == decode_spec(input@),
{
    match decode_any(input) {
        Some(data) => Ok(hex_encode(&data)),
        None => Err(ConvertError::InvalidEncoding),
    }
}

fn encode_payload(prefix: &str, data: &Vec<u8>) -> (r: Result<String, ConvertError>)
    requires
        valid_hrp(prefix@),
    ensures
        view_result(r) == encode_payload_spec(prefix@, data@),
        r matches Ok(s) ==> bech32_payload(s@) == Some(data@),
{
    match encode_bech32m(prefix, data) {
        Some(s) => Ok(s),
        None => Err(ConvertError::EncodingFailed),
    }
}

/// Detects the format of the input and re-encodes its payload as Bech32m
/// under the given prefix. The last two clauses are the round-trip laws: the
/// output decodes to the same hex as a Bech32m input did, and to the
/// lowercase form of a Base16 input.
pub fn encode_to_bech32m(input: &str, prefix: &str) -> (r: Result<String, ConvertError>)
    ensures
        view_result(r) == encode_spec(input@, prefix@),
        r matches Ok(s) ==> bech32_payload(s@) == detected_payload(input@),
        r matches Ok(s) ==> (bech32_payload(input@) is Some ==> decode_spec(s@) == decode_spec(
            input@,
        )),
        r matches Ok(s) ==> (bech32_payload(input@) is None && is_hex_string(input@)
            ==> decode_spec(s@) == Ok::<Seq<char>, ConvertError>(lower_hex_of(input@))),
{
    if !check_hrp(prefix) {
        return Err(ConvertError::InvalidPrefix);
    }
    if let Some(data) = decode_any(input) {
        return encode_payload(prefix, &data);
    }
    if let Some(data) = hex_decode(input) {
        let r = encode_payload(prefix, &data);
        proof {
            lemma_hex_normalization(input@);
        }
        return r;
    }
    if let Some(data) = decode_base58(input) {
        return encode_payload(prefix, &data);
    }
    Err(ConvertError::UnrecognizedFormat)
}

/// Law: a string that is valid Bech32m is treated as Bech32m, whatever else
/// it could be read as — the detected payload is its Bech32m payload even
/// when every character of the string is also a hexadecimal digit.
pub proof fn lemma_detection_priority(input: Seq<char>)
    ensures
        bech32_payload(input) is Some ==> detected_payload(input) == bech32_payload(input),
{
}

} // verus!
