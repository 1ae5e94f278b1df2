//! Conversion between three textual encodings of byte payloads: Base16 (hex),
//! Base58 and Bech32m.
//!
//! The library decodes a Bech32m string to its payload rendered as lowercase
//! hex, and re-encodes a string of any of the three formats under a fresh
//! Bech32m human-readable prefix, detecting the format in a fixed priority
//! order (Bech32m first, then hex, then Base58).

pub mod base16;
pub mod base58;
pub mod bech32m;
pub mod convert;
