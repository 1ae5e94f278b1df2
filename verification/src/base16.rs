//! Base16 (hexadecimal) encoding and decoding of byte payloads, verified
//! against sequence-level specifications.

use vstd::prelude::*;
use vstd::string::StrSliceExecFns;
use vstd::string::StringExecFns;

verus! {

/// The lowercase hexadecimal digit standing for a value below sixteen.
pub open spec fn hex_char_of(n: u8) -> char
    recommends
        n < 16,
{
    if n < 10 {
        (('0' as u8) + n) as char
    } else {
        (('a' as u8) + (n - 10)) as char
    }
}

/// The hexadecimal rendering of a byte sequence: two lowercase digits per
/// byte, high nibble first.
pub open spec fn hex_of(bytes: Seq<u8>) -> Seq<char> {
    Seq::new(
        2 * bytes.len(),
        |i: int|
            if i % 2 == 0 {
                hex_char_of(bytes[i / 2] / 16)
            } else {
                hex_char_of(bytes[i / 2] % 16)
            },
    )
}

/// A character that stands for a hexadecimal digit, in either case.
pub open spec fn is_hex_digit(c: char) -> bool {
    (('0' as u32) <= (c as u32) && (c as u32) <= ('9' as u32)) || (('a' as u32) <= (c as u32) && (c
        as u32) <= ('f' as u32)) || (('A' as u32) <= (c as u32) && (c as u32) <= ('F' as u32))
}

/// The value of a hexadecimal digit character; zero on any other character.
pub open spec fn hex_val(c: char) -> u8 {
    if ('0' as u32) <= (c as u32) && (c as u32) <= ('9' as u32) {
        ((c as u32) - ('0' as u32)) as u8
    } else if ('a' as u32) <= (c as u32) && (c as u32) <= ('f' as u32) {
        ((c as u32) - ('a' as u32) + 10) as u8
    } else if ('A' as u32) <= (c as u32) && (c as u32) <= ('F' as u32) {
        ((c as u32) - ('A' as u32) + 10) as u8
    } else {
        0
    }
}

/// A string is valid Base16 when its length is even and every character is a
/// hexadecimal digit.
pub open spec fn is_hex_string(s: Seq<char>) -> bool {
    s.len() % 2 == 0 && (forall|i: int| 0 <= i < s.len() ==> is_hex_digit(#[trigger] s[i]))
}

/// The bytes a valid Base16 string stands for: one byte per digit pair.
pub open spec fn parse_hex(s: Seq<char>) -> Seq<u8> {
    Seq::new(
        s.len() / 2,
        |k: int| ((hex_val(s[2 * k]) as int) * 16 + (hex_val(s[2 * k + 1]) as int)) as u8,
    )
}

/// The character with any uppercase hexadecimal digit folded to lowercase.
pub open spec fn lower_hex_char(c: char) -> char {
    if ('A' as u32) <= (c as u32) && (c as u32) <= ('F' as u32) {
        ((c as u32) + 32) as char
    } else {
        c
    }
}

/// The string with every uppercase hexadecimal digit folded to lowercase.
pub open spec fn lower_hex_of(s: Seq<char>) -> Seq<char> {
    Seq::new(s.len(), |i: int| lower_hex_char(s[i]))
}

/// Relies on String::push: it appends the one character at the end of the
/// string. vstd does not specify this method of std.
#[verifier::external_body]
fn push_char(s: &mut String, c: char)
    ensures
        final (s)@ == old(s)@.push(c),
{
    s.push(c);
}

fn hex_digit_char(n: u8) -> (c: char)
    requires
        n < 16,
    ensures
        c == hex_char_of(n),
{
    if n < 10 {
        (48 + n) as char
    } else {
        (87 + n) as char
    }
}

fn hex_digit_value(c: char) -> (r: Option<u8>)
    ensures
        r is Some <==> is_hex_digit(c),
        r matches Some(v) ==> v == hex_val(c) && v < 16,
{
    let u = c as u32;
    if 48 <= u && u <= 57 {
        Some((u - 48) as u8)
    } else if 97 <= u && u <= 102 {
        Some((u - 97 + 10) as u8)
    } else if 65 <= u && u <= 70 {
        Some((u - 65 + 10) as u8)
    } else {
        None
    }
}

/// Renders a byte sequence as lowercase hexadecimal text.
pub fn hex_encode(data: &Vec<u8>) -> (r: String)
    ensures
        r@ == hex_of(data@),
{
    let mut r = String::new();
    let mut i: usize = 0;
    while i < data.len()
        invariant
            i <= data@.len(),
            r@ =~= hex_of(data@.subrange(0, i as int)),
        decreases data@.len() - i,
    {
        let b = data[i];
        let hi = hex_digit_char(b / 16);
        let lo = hex_digit_char(b % 16);
        push_char(&mut r, hi);
        push_char(&mut r, lo);
        i = i + 1;
        proof {
            assert(r@ =~= hex_of(data@.subrange(0, i as int)));
        }
    }
    proof {
        assert(data@.subrange(0, data@.len() as int) =~= data@);
    }
    r
}

/// Decodes hexadecimal text to its bytes; `None` exactly when the text is not
/// a valid Base16 string.
pub fn hex_decode(s: &str) -> (r: Option<Vec<u8>>)
    ensures
        r is Some <==> is_hex_string(s@),
        r matches Some(v) ==> v@ == parse_hex(s@),
{
    let n = s.unicode_len();
    if n % 2 != 0 {
        return None;
    }
    let mut out: Vec<u8> = Vec::new();
    let mut i: usize = 0;
    while i < n
        invariant
            n == s@.len(),
            i <= n,
            i % 2 == 0,
            n % 2 == 0,
            forall|j: int| 0 <= j < i ==> is_hex_digit(#[trigger] s@[j]),
            out@.len() == i / 2,
            out@ =~= parse_hex(s@).subrange(0, i as int / 2),
        decreases n - i,
    {
        let c1 = s.get_char(i);
        let c2 = s.get_char(i + 1);
        let v1 = match hex_digit_value(c1) {
            Some(v) => v,
            None => {
                return None;
            },
        };
        let v2 = match hex_digit_value(c2) {
            Some(v) => v,
            None => {
                return None;
            },
        };
        out.push(v1 * 16 + v2);
        i = i + 2;
        proof {
            assert(out@ =~= parse_hex(s@).subrange(0, i as int / 2));
        }
    }
    proof {
        assert(parse_hex(s@).subrange(0, s@.len() as int / 2) =~= parse_hex(s@));
    }
    Some(out)
}

/// A hexadecimal digit character always stands for a value below sixteen.
pub proof fn lemma_hex_val_bound(c: char)
    ensures
        hex_val(c) < 16,
{
}

/// The digit character of a value below sixteen is a hexadecimal digit, and
/// reading it back yields that value.
pub proof fn lemma_hex_char_val(n: u8)
    requires
        n < 16,
    ensures
        is_hex_digit(hex_char_of(n)),
        hex_val(hex_char_of(n)) == n,
{
}

/// Reading a hexadecimal digit and rendering the value again folds the digit
/// to lowercase.
pub proof fn lemma_hex_char_of_val(c: char)
    requires
        is_hex_digit(c),
    ensures
        hex_char_of(hex_val(c)) == lower_hex_char(c),
{
}

/// Law: the rendering of any byte sequence is a valid Base16 string, and
/// parsing it yields the bytes back.
pub proof fn lemma_hex_round_trip(bytes: Seq<u8>)
    ensures
        is_hex_string(hex_of(bytes)),
        parse_hex(hex_of(bytes)) == bytes,
{
    let h = hex_of(bytes);
    assert forall|i: int| 0 <= i < h.len() implies is_hex_digit(#[trigger] h[i]) by {
        if i % 2 == 0 {
            lemma_hex_char_val(bytes[i / 2] / 16);
        } else {
            lemma_hex_char_val(bytes[i / 2] % 16);
        }
    }
    assert forall|k: int| 0 <= k < bytes.len() implies parse_hex(h)[k] == bytes[k] by {
        lemma_hex_char_val(bytes[k] / 16);
        lemma_hex_char_val(bytes[k] % 16);
        assert(h[2 * k] == hex_char_of(bytes[k] / 16));
        assert(h[2 * k + 1] == hex_char_of(bytes[k] % 16));
        assert((bytes[k] / 16) as int * 16 + (bytes[k] % 16) as int == bytes[k] as int);
    }
    assert(parse_hex(h) =~= bytes);
}

/// Law: rendering the bytes of a valid Base16 string reproduces the string
/// with its digits folded to lowercase.
pub proof fn lemma_hex_normalization(s: Seq<char>)
    requires
        is_hex_string(s),
    ensures
        hex_of(parse_hex(s)) == lower_hex_of(s),
{
    let b = parse_hex(s);
    assert forall|i: int| 0 <= i < 2 * b.len() implies hex_of(b)[i] == lower_hex_char(s[i]) by {
        let k = i / 2;
        let hi = hex_val(s[2 * k]) as int;
        let lo = hex_val(s[2 * k + 1]) as int;
        lemma_hex_val_bound(s[2 * k]);
        lemma_hex_val_bound(s[2 * k + 1]);
        assert(b[k] as int == hi * 16 + lo);
        assert(b[k] / 16 == hi && b[k] % 16 == lo) by {
            assert((hi * 16 + lo) / 16 == hi && (hi * 16 + lo) % 16 == lo) by (nonlinear_arith)
                requires
                    0 <= hi < 16,
                    0 <= lo < 16,
            ;
        }
        if i % 2 == 0 {
            lemma_hex_char_of_val(s[2 * k]);
        } else {
            assert(i == 2 * k + 1);
            lemma_hex_char_of_val(s[2 * k + 1]);
        }
    }
    assert(hex_of(b) =~= lower_hex_of(s));
}

} // verus!

