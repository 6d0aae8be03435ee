//! BER length octets: short form below 128, long form above.

use vstd::prelude::*;

use crate::error::DecodeErrorKind;
use crate::oid::Parsed;

verus! {

/// The largest length that the decoder accepts: 16 MiB.
pub const MAX_LENGTH: usize = 0x100_0000;

/// The largest number of length octets that the decoder accepts in the long form.
pub const MAX_LENGTH_OCTETS: usize = 4;

/// The number that octets stand for, most significant octet first.
pub open spec fn be_value(s: Seq<u8>) -> nat
    decreases s.len(),
{
    if s.len() == 0 {
        0
    } else {
        be_value(s.drop_last()) * 256 + s.last() as nat
    }
}

/// The shortest run of octets that stands for `n`, most significant first;
/// one octet for 0.
pub open spec fn be_octets(n: nat) -> Seq<u8>
    decreases n,
{
    if n < 256 {
        seq![n as u8]
    } else {
        be_octets(n / 256).push((n % 256) as u8)
    }
}

/// The length octets for a content of `n` octets: `n` itself below 128, else
/// the count of the octets of `n` with the top bit set, then those octets.
pub open spec fn ber_length(n: nat) -> Seq<u8> {
    if n < 128 {
        seq![n as u8]
    } else {
        seq![(128 + be_octets(n).len()) as u8] + be_octets(n)
    }
}

/// The length that the octets at position `i` stand for. Every fault is
/// reported at `i`: no octet there, the indefinite form, more than four
/// length octets, octets missing, or a length above `MAX_LENGTH`.
pub open spec fn parse_length(s: Seq<u8>, i: int) -> Parsed<nat> {
    if i < 0 || i >= s.len() {
        Parsed::Failed { at: i, kind: DecodeErrorKind::TruncatedData }
    } else if s[i] < 128 {
        Parsed::Value { value: s[i] as nat, next: i + 1 }
    } else if s[i] == 128 {
        Parsed::Failed { at: i, kind: DecodeErrorKind::IndefiniteLength }
    } else {
        let count = (s[i] - 128) as int;
        if count > MAX_LENGTH_OCTETS {
            Parsed::Failed {
                at: i,
                kind: DecodeErrorKind::LengthTooLong { octets: count as usize },
            }
        } else if i + 1 + count > s.len() {
            Parsed::Failed { at: i, kind: DecodeErrorKind::TruncatedData }
        } else {
            let value = be_value(s.subrange(i + 1, i + 1 + count));
            if value > MAX_LENGTH {
                Parsed::Failed {
                    at: i,
                    kind: DecodeErrorKind::LengthExceedsMax {
                        length: value as usize,
                        max: MAX_LENGTH,
                    },
                }
            } else {
                Parsed::Value { value, next: i + 1 + count }
            }
        }
    }
}

/// The octets of `n` stand for `n`.
pub proof fn lemma_be_value_of_octets(n: nat)
    ensures
        be_value(be_octets(n)) == n,
        be_octets(n).len() >= 1,
    decreases n,
{
    if n < 256 {
        let s = seq![n as u8];
        assert(s.drop_last() =~= Seq::<u8>::empty());
        assert(be_value(s.drop_last()) == 0);
    } else {
        lemma_be_value_of_octets(n / 256);
        let s = be_octets(n);
        assert(s.drop_last() =~= be_octets(n / 256));
    }
}

/// How many octets a number needs.
pub proof fn lemma_be_octets_len(n: nat)
    ensures
        n < 0x100 ==> be_octets(n).len() == 1,
        0x100 <= n < 0x1_0000 ==> be_octets(n).len() == 2,
        0x1_0000 <= n < 0x100_0000 ==> be_octets(n).len() == 3,
        0x100_0000 <= n < 0x1_0000_0000 ==> be_octets(n).len() == 4,
        0x1_0000_0000 <= n < 0x1_0000_0000_0000_0000 ==> 5 <= be_octets(n).len() <= 8,
{
    reveal_with_fuel(be_octets, 9);
}

/// A value of fewer than `k` octets is below `256^k`, for the counts that the
/// decoder reads.
pub proof fn lemma_be_value_bound(s: Seq<u8>)
    ensures
        s.len() == 0 ==> be_value(s) == 0,
        s.len() == 1 ==> be_value(s) < 0x100,
        s.len() == 2 ==> be_value(s) < 0x1_0000,
        s.len() == 3 ==> be_value(s) < 0x100_0000,
        s.len() == 4 ==> be_value(s) < 0x1_0000_0000,
        s.len() == 5 ==> be_value(s) < 0x100_0000_0000,
    decreases s.len(),
{
    if s.len() > 0 && s.len() <= 5 {
        lemma_be_value_bound(s.drop_last());
    }
}

/// Reading the length octets of `n`, wherever they stand in the data, gives
/// `n` and the position behind them, for every length that the decoder accepts.
pub proof fn lemma_length_roundtrip(s: Seq<u8>, i: int, n: nat)
    requires
        0 <= i,
        n <= MAX_LENGTH,
        i + ber_length(n).len() <= s.len(),
        s.subrange(i, i + ber_length(n).len()) == ber_length(n),
    ensures
        parse_length(s, i) == (Parsed::Value { value: n, next: i + ber_length(n).len() }),
{
    let enc = ber_length(n);
    assert(s[i] == enc[0]) by {
        assert(s.subrange(i, i + enc.len())[0] == s[i]);
    }
    if n >= 128 {
        lemma_be_octets_len(n);
        lemma_be_value_of_octets(n);
        let body = be_octets(n);
        assert(s.subrange(i + 1, i + 1 + body.len()) =~= body) by {
            assert forall|j: int| 0 <= j < body.len() implies s.subrange(i + 1, i + 1 + body.len())[j]
                == body[j] by {
                assert(s.subrange(i, i + enc.len())[j + 1] == enc[j + 1]);
            }
        }
    }
}

/// Appends the shortest big-endian octets of `n`.
fn push_be_octets(out: &mut Vec<u8>, n: u64)
    ensures
        final(out)@ == old(out)@ + be_octets(n as nat),
    decreases n,
{
    if n < 256 {
        out.push(n as u8);
        proof {
            assert(final(out)@ =~= old(out)@ + be_octets(n as nat));
        }
    } else {
        push_be_octets(out, n / 256);
        out.push((n % 256) as u8);
        proof {
            assert(final(out)@ =~= old(out)@ + be_octets(n as nat));
        }
    }
}

/// The length octets for a content of `len` octets.
pub fn encode_length(len: usize) -> (r: Vec<u8>)
    ensures
        r@ == ber_length(len as nat),
{
    let mut out: Vec<u8> = Vec::new();
    if len < 128 {
        out.push(len as u8);
        proof {
            assert(out@ =~= ber_length(len as nat));
        }
    } else {
        let mut body: Vec<u8> = Vec::new();
        push_be_octets(&mut body, len as u64);
        proof {
            lemma_be_octets_len(len as nat);
            assert(body@ =~= be_octets(len as nat));
        }
        out.push((128 + body.len()) as u8);
        out.extend_from_slice(body.as_slice());
        proof {
            assert(out@ =~= ber_length(len as nat));
        }
    }
    out
}

/// Reads the length octets at `pos`. Gives the length and the position
/// behind the length octets.
pub fn decode_length(data: &[u8], pos: usize) -> (r: core::result::Result<
    (usize, usize),
    DecodeErrorKind,
>)
    ensures
        match parse_length(data@, pos as int) {
            Parsed::Value { value, next } => r == Ok::<(usize, usize), DecodeErrorKind>(
                (value as usize, next as usize),
            ) && value <= MAX_LENGTH && pos < next <= data@.len(),
            Parsed::Failed { at, kind } => r == Err::<(usize, usize), DecodeErrorKind>(kind),
        },
{
    let n = data.len();
    if pos >= n {
        return Err(DecodeErrorKind::TruncatedData);
    }
    let first = data[pos];
    if first < 128 {
        return Ok((first as usize, pos + 1));
    }
    if first == 128 {
        return Err(DecodeErrorKind::IndefiniteLength);
    }
    let count: usize = (first - 128) as usize;
    if count > MAX_LENGTH_OCTETS {
        return Err(DecodeErrorKind::LengthTooLong { octets: count });
    }
    if count > n - pos - 1 {
        return Err(DecodeErrorKind::TruncatedData);
    }
    let start = pos + 1;
    let mut value: u64 = 0;
    let mut k: usize = 0;
    while k < count
        invariant
            k <= count <= 4,
            start + count <= n,
            n == data@.len(),
            value == be_value(data@.subrange(start as int, start + k)),
            value < 0x1_0000_0000,
        decreases count - k,
    {
        proof {
            let before = data@.subrange(start as int, start + k);
            let after = data@.subrange(start as int, start + k + 1);
            assert(after.drop_last() =~= before);
            assert(after.last() == data@[start + k]);
            lemma_be_value_bound(before);
            lemma_be_value_bound(after);
        }
        value = value * 256 + data[start + k] as u64;
        k += 1;
    }
    if value > MAX_LENGTH as u64 {
        return Err(
            DecodeErrorKind::LengthExceedsMax { length: value as usize, max: MAX_LENGTH },
        );
    }
    Ok((value as usize, start + count))
}

} // verus!
