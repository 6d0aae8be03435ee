//! Hexadecimal text for octets.

use vstd::prelude::*;
use vstd::string::StringSliceAdditionalSpecFns;

use crate::text::{hex_lower, hex_text, push_hex_lower};

verus! {

/// Error type for hex decoding.
#[derive(Debug, Clone, Copy, PartialEq, Eq, Structural)]
pub enum HexDecodeError {
    /// Input has odd length (must be pairs of hex digits)
    OddLength,
    /// Invalid hexadecimal character
    InvalidChar,
}

/// The value of a hexadecimal digit, in either case; `None` for any other
/// octet.
pub open spec fn hex_value(c: u8) -> Option<u8> {
    if 48 <= c <= 57 {
        Some((c - 48) as u8)
    } else if 97 <= c <= 102 {
        Some((c - 87) as u8)
    } else if 65 <= c <= 70 {
        Some((c - 55) as u8)
    } else {
        None
    }
}

/// The octet that a pair stands for: two hexadecimal digits, or, as in the
/// number syntax of the standard library, a plus sign and one digit.
pub open spec fn pair_value(a: u8, b: u8) -> Option<u8> {
    match (hex_value(a), hex_value(b)) {
        (Some(hi), Some(lo)) => Some((16 * hi + lo) as u8),
        (None, Some(lo)) => if a == 43 {
            Some(lo)
        } else {
            None
        },
        _ => None,
    }
}

/// Every pair of the text stands for an octet.
pub open spec fn all_pairs_valid(s: Seq<u8>) -> bool {
    forall|i: int| 0 <= i < s.len() / 2 ==> (#[trigger] pair_value(s[2 * i], s[2 * i + 1])) is Some
}

/// The octets that the pairs of a text stand for.
pub open spec fn pair_values(s: Seq<u8>) -> Seq<u8> {
    Seq::new((s.len() / 2) as nat, |i: int| pair_value(s[2 * i], s[2 * i + 1])->0)
}

/// What decoding a hexadecimal text gives: a text of odd length is refused,
/// then a text with a pair that stands for no octet; else each pair gives
/// one octet.
pub open spec fn hex_decode(s: Seq<u8>) -> Result<Seq<u8>, HexDecodeError> {
    if s.len() % 2 != 0 {
        Err(HexDecodeError::OddLength)
    } else if !all_pairs_valid(s) {
        Err(HexDecodeError::InvalidChar)
    } else {
        Ok(pair_values(s))
    }
}

/// The octets of an ASCII text.
pub open spec fn ascii_octets(s: Seq<char>) -> Seq<u8> {
    Seq::new(s.len(), |i: int| s[i] as u8)
}

/// Decoding the hexadecimal text of octets gives the octets back.
pub proof fn lemma_hex_roundtrip(bytes: Seq<u8>)
    ensures
        hex_text(bytes).len() == 2 * bytes.len(),
        forall|i: int| 0 <= i < hex_text(bytes).len() ==> ((#[trigger] hex_text(bytes)[i]) as u32) < 128,
        hex_decode(ascii_octets(hex_text(bytes))) == Ok::<Seq<u8>, HexDecodeError>(bytes),
    decreases bytes.len(),
{
    if bytes.len() > 0 {
        let front = bytes.drop_last();
        lemma_hex_roundtrip(front);
        let b = bytes.last();
        let s = ascii_octets(hex_text(bytes));
        let t = ascii_octets(hex_text(front));
        assert(hex_text(bytes) == hex_text(front).push(hex_lower(b as int / 16)).push(
            hex_lower(b as int % 16),
        ));
        assert forall|i: int| 0 <= i < s.len() / 2 implies (#[trigger] pair_value(
            s[2 * i],
            s[2 * i + 1],
        )) is Some by {
            if i < front.len() {
                assert(s[2 * i] == t[2 * i] && s[2 * i + 1] == t[2 * i + 1]);
                assert(pair_value(t[2 * i], t[2 * i + 1]) is Some);
            }
        }
        assert(pair_values(s) =~= bytes) by {
            assert forall|i: int| 0 <= i < bytes.len() implies pair_values(s)[i] == bytes[i] by {
                if i < front.len() {
                    assert(s[2 * i] == t[2 * i] && s[2 * i + 1] == t[2 * i + 1]);
                    assert(pair_values(t)[i] == front[i]);
                }
            }
        }
    } else {
        assert(pair_values(ascii_octets(hex_text(bytes))) =~= bytes);
    }
}

/// Encode bytes as lowercase hex string.
pub fn encode_hex(bytes: &[u8]) -> (r: String)
    ensures
        r@ == hex_text(bytes@),
{
    let mut out = String::new();
    let n = bytes.len();
    let mut i: usize = 0;
    while i < n
        invariant
            i <= n,
            n == bytes@.len(),
            out@ == hex_text(bytes@.subrange(0, i as int)),
        decreases n - i,
    {
        push_hex_lower(&mut out, bytes[i]);
        proof {
            let after = bytes@.subrange(0, i + 1);
            assert(after.drop_last() =~= bytes@.subrange(0, i as int));
            assert(after.last() == bytes@[i as int]);
        }
        i += 1;
    }
    proof {
        assert(bytes@.subrange(0, n as int) =~= bytes@);
    }
    out
}

/// The value of a hexadecimal digit.
fn digit_value(c: u8) -> (r: Option<u8>)
    ensures
        r == hex_value(c),
{
    if 48 <= c && c <= 57 {
        Some(c - 48)
    } else if 97 <= c && c <= 102 {
        Some(c - 87)
    } else if 65 <= c && c <= 70 {
        Some(c - 55)
    } else {
        None
    }
}

/// Decode the octets of a hexadecimal text.
pub fn decode_hex_octets(s: &[u8]) -> (r: Result<Vec<u8>, HexDecodeError>)
    ensures
        match hex_decode(s@) {
            Ok(bytes) => r matches Ok(v) && v@ == bytes,
            Err(e) => r matches Err(got) && got == e,
        },
{
    let n = s.len();
    if n % 2 != 0 {
        return Err(HexDecodeError::OddLength);
    }
    let mut out: Vec<u8> = Vec::with_capacity(n / 2);
    let mut i: usize = 0;
    while i < n / 2
        invariant
            i <= n / 2,
            n == s@.len(),
            n % 2 == 0,
            out@.len() == i,
            forall|j: int|
                0 <= j < i ==> (#[trigger] pair_value(s@[2 * j], s@[2 * j + 1])) == Some(out@[j]),
        decreases n / 2 - i,
    {
        let a = s[2 * i];
        let b = s[2 * i + 1];
        let value = match (digit_value(a), digit_value(b)) {
            (Some(hi), Some(lo)) => Some(16 * hi + lo),
            (None, Some(lo)) => if a == 43 {
                Some(lo)
            } else {
                None
            },
            _ => None,
        };
        match value {
            None => {
                proof {
                    assert(pair_value(s@[2 * i], s@[2 * i + 1]) is None);
                }
                return Err(HexDecodeError::InvalidChar);
            },
            Some(v) => {
                out.push(v);
            },
        }
        i += 1;
    }
    proof {
        assert(all_pairs_valid(s@));
        assert(out@ =~= pair_values(s@));
    }
    Ok(out)
}

/// Decode hex string to bytes. Returns an error for odd-length strings and
/// for invalid hex characters.
pub fn decode_hex(s: &str) -> (r: Result<Vec<u8>, HexDecodeError>)
    ensures
        match hex_decode(s.spec_bytes()) {
            Ok(bytes) => r matches Ok(v) && v@ == bytes,
            Err(e) => r matches Err(got) && got == e,
        },
{
    decode_hex_octets(s.as_bytes())
}

/// Octets that are written as hexadecimal text.
pub struct HexBytes<'a>(pub &'a [u8]);

impl<'a> HexBytes<'a> {
    /// The octets as lower-case hexadecimal text.
    pub fn to_string(&self) -> (r: String)
        ensures
            r@ == hex_text(self.0@),
    {
        encode_hex(self.0)
    }
}

} // verus!
