//! Object identifiers: ordered sequences of 32-bit arcs, their lexicographic
//! order and their BER sub-identifier encoding.

use vstd::prelude::*;

use crate::error::{DecodeErrorKind, Error, OidErrorKind, Result};
use crate::text::{decimal, push_decimal};

verus! {

/// The largest number of arcs that an OID may have.
pub const MAX_OID_LEN: usize = 128;

/// The largest value of the first sub-identifier: first arc 2 with the
/// largest second arc.
pub const MAX_FIRST_SUBID: u64 = 0xFFFF_FFFF + 80;

/// The largest value of any later sub-identifier.
pub const MAX_SUBID: u64 = 0xFFFF_FFFF;

/// The outcome of comparing two OIDs.
#[derive(Debug, Clone, Copy, PartialEq, Eq, Structural)]
pub enum Comparison {
    /// The first OID comes before the second.
    Less,
    /// The two OIDs have the same arcs.
    Equal,
    /// The first OID comes after the second.
    Greater,
}

/// What parsing bytes from a position gives: a value and the position after
/// it, or the place and kind of the first fault.
pub enum Parsed<T> {
    /// The bytes hold a value, which ends just before `next`.
    Value { value: T, next: int },
    /// The bytes are refused at position `at`.
    Failed { at: int, kind: DecodeErrorKind },
}

// ---------------------------------------------------------------------------
// Order
// ---------------------------------------------------------------------------

/// Lexicographic comparison of two arc sequences from position `i` on, given
/// that they agree before `i`: the first differing arc decides, and a sequence
/// that ends first comes first.
pub open spec fn lex_order_from(a: Seq<u32>, b: Seq<u32>, i: int) -> Comparison
    decreases a.len() - i,
{
    if i < 0 {
        Comparison::Equal
    } else if i >= a.len() && i >= b.len() {
        Comparison::Equal
    } else if i >= a.len() {
        Comparison::Less
    } else if i >= b.len() {
        Comparison::Greater
    } else if a[i] < b[i] {
        Comparison::Less
    } else if a[i] > b[i] {
        Comparison::Greater
    } else {
        lex_order_from(a, b, i + 1)
    }
}

/// Lexicographic comparison of two arc sequences.
pub open spec fn lex_order(a: Seq<u32>, b: Seq<u32>) -> Comparison {
    lex_order_from(a, b, 0)
}

/// `a` comes strictly before `b`.
pub open spec fn lex_lt(a: Seq<u32>, b: Seq<u32>) -> bool {
    lex_order(a, b) == Comparison::Less
}

/// `a` comes before `b` or equals it.
pub open spec fn lex_le(a: Seq<u32>, b: Seq<u32>) -> bool {
    lex_order(a, b) != Comparison::Greater
}

/// `p` is a prefix of `s`: `s` lies in the subtree rooted at `p`.
pub open spec fn is_prefix(p: Seq<u32>, s: Seq<u32>) -> bool {
    p.len() <= s.len() && s.subrange(0, p.len() as int) == p
}

/// The same comparison over sequences of natural numbers, used for the
/// sub-identifiers that the BER encoding holds.
pub open spec fn nat_order_from(a: Seq<nat>, b: Seq<nat>, i: int) -> Comparison
    decreases a.len() - i,
{
    if i < 0 {
        Comparison::Equal
    } else if i >= a.len() && i >= b.len() {
        Comparison::Equal
    } else if i >= a.len() {
        Comparison::Less
    } else if i >= b.len() {
        Comparison::Greater
    } else if a[i] < b[i] {
        Comparison::Less
    } else if a[i] > b[i] {
        Comparison::Greater
    } else {
        nat_order_from(a, b, i + 1)
    }
}

/// What `lex_order_from` says, stated without recursion: when the sequences
/// agree from `i` up to `k`, the comparison from `i` is the comparison from `k`.
pub proof fn lemma_order_skip_equal(a: Seq<u32>, b: Seq<u32>, i: int, k: int)
    requires
        0 <= i <= k,
        k <= a.len(),
        k <= b.len(),
        forall|j: int| i <= j < k ==> a[j] == b[j],
    ensures
        lex_order_from(a, b, i) == lex_order_from(a, b, k),
    decreases k - i,
{
    if i < k {
        lemma_order_skip_equal(a, b, i + 1, k);
    }
}

/// Two sequences compare equal exactly when they are the same sequence.
pub proof fn lemma_order_equal_iff_same(a: Seq<u32>, b: Seq<u32>)
    ensures
        lex_order(a, b) == Comparison::Equal <==> a == b,
{
    lemma_order_equal_from(a, b, 0);
    if a == b {
        lemma_order_skip_equal(a, b, 0, a.len() as int);
    }
}

proof fn lemma_order_equal_from(a: Seq<u32>, b: Seq<u32>, i: int)
    requires
        0 <= i <= a.len(),
        i <= b.len(),
        forall|j: int| 0 <= j < i ==> a[j] == b[j],
    ensures
        lex_order_from(a, b, i) == Comparison::Equal ==> a =~= b,
    decreases a.len() - i,
{
    if i < a.len() && i < b.len() && a[i] == b[i] {
        lemma_order_equal_from(a, b, i + 1);
    }
}

/// Swapping the arguments mirrors the outcome.
pub proof fn lemma_order_mirror(a: Seq<u32>, b: Seq<u32>, i: int)
    requires
        0 <= i,
    ensures
        lex_order_from(a, b, i) == Comparison::Less <==> lex_order_from(b, a, i) == Comparison::Greater,
        lex_order_from(a, b, i) == Comparison::Equal <==> lex_order_from(b, a, i) == Comparison::Equal,
        lex_order_from(a, b, i) == Comparison::Greater <==> lex_order_from(b, a, i) == Comparison::Less,
    decreases a.len() - i,
{
    if i < a.len() && i < b.len() && a[i] == b[i] {
        lemma_order_mirror(a, b, i + 1);
    }
}

/// The strict order is transitive.
pub proof fn lemma_lt_transitive(a: Seq<u32>, b: Seq<u32>, c: Seq<u32>)
    requires
        lex_lt(a, b),
        lex_lt(b, c),
    ensures
        lex_lt(a, c),
{
    lemma_lt_transitive_from(a, b, c, 0);
}

proof fn lemma_lt_transitive_from(a: Seq<u32>, b: Seq<u32>, c: Seq<u32>, i: int)
    requires
        0 <= i,
        lex_order_from(a, b, i) != Comparison::Greater,
        lex_order_from(b, c, i) != Comparison::Greater,
    ensures
        lex_order_from(a, c, i) != Comparison::Greater,
        lex_order_from(a, b, i) == Comparison::Less || lex_order_from(b, c, i) == Comparison::Less
            ==> lex_order_from(a, c, i) == Comparison::Less,
    decreases a.len() - i,
{
    if i < a.len() && i < b.len() && i < c.len() && a[i] == b[i] && b[i] == c[i] {
        lemma_lt_transitive_from(a, b, c, i + 1);
    }
}

/// The order of OIDs is transitive: `<=` followed by `<=` gives `<=`, and
/// with a `<` among the two it gives `<`.
pub proof fn lemma_le_lt_transitive(a: Seq<u32>, b: Seq<u32>, c: Seq<u32>)
    requires
        lex_le(a, b),
        lex_le(b, c),
    ensures
        lex_le(a, c),
        lex_lt(a, b) || lex_lt(b, c) ==> lex_lt(a, c),
{
    lemma_lt_transitive_from(a, b, c, 0);
}

/// An OID comes after each of its proper prefixes, and every OID in the
/// subtree of `p` is at or after `p`.
pub proof fn lemma_prefix_le(p: Seq<u32>, s: Seq<u32>)
    requires
        is_prefix(p, s),
    ensures
        lex_le(p, s),
        p.len() < s.len() ==> lex_lt(p, s),
{
    assert forall|j: int| 0 <= j < p.len() implies p[j] == s[j] by {
        assert(s.subrange(0, p.len() as int)[j] == s[j]);
    }
    lemma_order_skip_equal(p, s, 0, p.len() as int);
}

// ---------------------------------------------------------------------------
// Validity
// ---------------------------------------------------------------------------

/// The arcs form an OID that can stand on the wire: between 2 and 128 arcs,
/// the first arc 0, 1 or 2, and the second at most 39 under a first arc of 0 or 1.
pub open spec fn valid_arcs(arcs: Seq<u32>) -> bool {
    &&& 2 <= arcs.len() <= MAX_OID_LEN
    &&& arcs[0] <= 2
    &&& arcs[0] < 2 ==> arcs[1] <= 39
}

/// Why `validate` refuses the arcs, or `None` when they are valid.
pub open spec fn arcs_fault(arcs: Seq<u32>) -> Option<OidErrorKind> {
    if arcs.len() == 0 {
        Some(OidErrorKind::Empty)
    } else if arcs[0] > 2 {
        Some(OidErrorKind::InvalidFirstArc(arcs[0]))
    } else if arcs.len() == 1 {
        Some(OidErrorKind::TooShort)
    } else if arcs[0] < 2 && arcs[1] > 39 {
        Some(OidErrorKind::InvalidSecondArc { first: arcs[0], second: arcs[1] })
    } else if arcs.len() > MAX_OID_LEN {
        Some(OidErrorKind::TooManyArcs { count: arcs.len() as usize, max: MAX_OID_LEN })
    } else {
        None
    }
}

// ---------------------------------------------------------------------------
// Base-128 sub-identifiers
// ---------------------------------------------------------------------------

/// The leading octets of a sub-identifier: the base-128 digits of `n`, most
/// significant first, each with the continuation bit set. Empty for 0.
pub open spec fn continuation_octets(n: nat) -> Seq<u8>
    decreases n,
{
    if n == 0 {
        Seq::empty()
    } else {
        continuation_octets(n / 128).push((128 + n % 128) as u8)
    }
}

/// The base-128 encoding of one sub-identifier: every octet but the last has
/// the continuation bit set.
pub open spec fn base128(n: nat) -> Seq<u8> {
    continuation_octets(n / 128).push((n % 128) as u8)
}

/// The sub-identifiers that stand for the arcs: the first two arcs packed as
/// `40 * first + second`, then each later arc.
pub open spec fn subids(arcs: Seq<u32>) -> Seq<nat> {
    if arcs.len() == 0 {
        Seq::empty()
    } else if arcs.len() == 1 {
        seq![(40 * arcs[0]) as nat]
    } else {
        seq![(40 * arcs[0] + arcs[1]) as nat] + Seq::new(
            (arcs.len() - 2) as nat,
            |i: int| arcs[i + 2] as nat,
        )
    }
}

/// The concatenation of the base-128 encodings of the given numbers.
pub open spec fn encode_subids(ids: Seq<nat>) -> Seq<u8>
    decreases ids.len(),
{
    if ids.len() == 0 {
        Seq::empty()
    } else {
        encode_subids(ids.drop_last()) + base128(ids.last())
    }
}

/// The content octets of the BER encoding of an OID.
pub open spec fn oid_ber(arcs: Seq<u32>) -> Seq<u8> {
    encode_subids(subids(arcs))
}

/// Reads base-128 digits from position `i`, with `acc` the value of the digits
/// read so far. Gives the value and the position after the octet without a
/// continuation bit, or `None` when the data ends before such an octet.
pub open spec fn scan_subid(s: Seq<u8>, i: int, acc: nat) -> Option<(nat, int)>
    decreases s.len() - i,
{
    if i < 0 || i >= s.len() {
        None
    } else if s[i] < 128 {
        Some((acc * 128 + s[i] as nat, i + 1))
    } else {
        scan_subid(s, i + 1, acc * 128 + (s[i] - 128) as nat)
    }
}

/// One sub-identifier at position `i`. A leading octet 0x80 (a padded
/// encoding) and data that ends inside the sub-identifier are invalid
/// encodings; a value above `limit` is an overflow.
pub open spec fn parse_subid(s: Seq<u8>, i: int, limit: nat) -> Parsed<nat> {
    if 0 <= i < s.len() && s[i] == 0x80 {
        Parsed::Failed { at: i, kind: DecodeErrorKind::InvalidOidEncoding }
    } else {
        match scan_subid(s, i, 0) {
            None => Parsed::Failed { at: i, kind: DecodeErrorKind::InvalidOidEncoding },
            Some((value, next)) => if value > limit {
                Parsed::Failed { at: i, kind: DecodeErrorKind::IntegerOverflow }
            } else {
                Parsed::Value { value, next }
            },
        }
    }
}

/// The sub-identifiers from position `i` to the end of the data, each at most
/// `MAX_SUBID`.
pub open spec fn parse_arcs(s: Seq<u8>, i: int) -> Parsed<Seq<u32>>
    decreases s.len() - i,
{
    if i < 0 || i >= s.len() {
        Parsed::Value { value: Seq::empty(), next: i }
    } else {
        let head = parse_subid(s, i, MAX_SUBID as nat);
        if head is Value && i < head->next <= s.len() {
            let rest = parse_arcs(s, head->next);
            if rest is Value {
                Parsed::Value { value: seq![head->value as u32] + rest->value, next: rest->next }
            } else {
                rest
            }
        } else if head is Value {
            Parsed::Failed { at: i, kind: DecodeErrorKind::InvalidOidEncoding }
        } else {
            Parsed::Failed { at: head->at, kind: head->kind }
        }
    }
}

/// The first two arcs that a first sub-identifier stands for.
pub open spec fn split_first(x: nat) -> Seq<u32> {
    if x < 40 {
        seq![0u32, x as u32]
    } else if x < 80 {
        seq![1u32, (x - 40) as u32]
    } else {
        seq![2u32, (x - 80) as u32]
    }
}

/// The arcs that the content octets of a BER OBJECT IDENTIFIER stand for.
/// Empty content is the empty OID. A fault inside a sub-identifier is
/// reported at its first octet; more than 128 arcs are refused at position 0.
pub open spec fn parse_oid(s: Seq<u8>) -> Parsed<Seq<u32>> {
    if s.len() == 0 {
        Parsed::Value { value: Seq::empty(), next: 0 }
    } else {
        match parse_subid(s, 0, MAX_FIRST_SUBID as nat) {
            Parsed::Failed { at, kind } => Parsed::Failed { at, kind },
            Parsed::Value { value, next } => match parse_arcs(s, next) {
                Parsed::Failed { at, kind } => Parsed::Failed { at, kind },
                Parsed::Value { value: rest, next: end } => {
                    let arcs = split_first(value) + rest;
                    if arcs.len() > MAX_OID_LEN {
                        Parsed::Failed {
                            at: 0,
                            kind: DecodeErrorKind::OidTooLong {
                                count: arcs.len() as usize,
                                max: MAX_OID_LEN,
                            },
                        }
                    } else {
                        Parsed::Value { value: arcs, next: end }
                    }
                },
            },
        }
    }
}

// ---------------------------------------------------------------------------
// Lemmas on the encoding
// ---------------------------------------------------------------------------

/// A scan that succeeds ends after `i` and inside the data.
pub proof fn lemma_scan_advances(s: Seq<u8>, i: int, acc: nat)
    ensures
        scan_subid(s, i, acc) matches Some((_, next)) ==> i < next <= s.len(),
    decreases s.len() - i,
{
    if 0 <= i < s.len() && s[i] >= 128 {
        lemma_scan_advances(s, i + 1, acc * 128 + (s[i] - 128) as nat);
    }
}

/// Scanning over the continuation octets of `m`, starting from nothing,
/// arrives behind them with the value `m`.
proof fn lemma_scan_continuation(s: Seq<u8>, i: int, m: nat)
    requires
        0 <= i,
        i + continuation_octets(m).len() <= s.len(),
        s.subrange(i, i + continuation_octets(m).len()) == continuation_octets(m),
    ensures
        scan_subid(s, i, 0) == scan_subid(s, i + continuation_octets(m).len(), m),
    decreases m,
{
    if m != 0 {
        let head = continuation_octets(m / 128);
        let k = head.len() as int;
        let whole = continuation_octets(m);
        assert(whole == head.push((128 + m % 128) as u8));
        assert(s.subrange(i, i + k) =~= head) by {
            assert forall|j: int| 0 <= j < k implies s.subrange(i, i + k)[j] == head[j] by {
                assert(s.subrange(i, i + whole.len())[j] == whole[j]);
            }
        }
        lemma_scan_continuation(s, i, m / 128);
        assert(s[i + k] == (128 + m % 128) as u8) by {
            assert(s.subrange(i, i + whole.len())[k] == whole[k]);
        }
        assert((m / 128) * 128 + m % 128 == m);
    }
}

/// The first continuation octet of a number that is not 0 is not 0x80.
proof fn lemma_continuation_first(m: nat)
    requires
        m > 0,
    ensures
        continuation_octets(m).len() > 0,
        continuation_octets(m)[0] > 128,
    decreases m,
{
    if m / 128 != 0 {
        lemma_continuation_first(m / 128);
    } else {
        assert(continuation_octets(0).len() == 0);
        assert(m % 128 == m);
    }
}

/// Parsing the encoding of `n`, wherever it stands in the data, gives `n`
/// and the position behind the encoding.
pub proof fn lemma_parse_base128(s: Seq<u8>, i: int, n: nat, limit: nat)
    requires
        0 <= i,
        i + base128(n).len() <= s.len(),
        s.subrange(i, i + base128(n).len()) == base128(n),
        n <= limit,
    ensures
        parse_subid(s, i, limit) == (Parsed::Value { value: n, next: i + base128(n).len() }),
{
    let head = continuation_octets(n / 128);
    let k = head.len() as int;
    let enc = base128(n);
    assert(s.subrange(i, i + k) =~= head) by {
        assert forall|j: int| 0 <= j < k implies s.subrange(i, i + k)[j] == head[j] by {
            assert(s.subrange(i, i + enc.len())[j] == enc[j]);
        }
    }
    lemma_scan_continuation(s, i, n / 128);
    assert(s[i + k] == (n % 128) as u8) by {
        assert(s.subrange(i, i + enc.len())[k] == enc[k]);
    }
    assert((n / 128) * 128 + n % 128 == n);
    if n / 128 != 0 {
        lemma_continuation_first(n / 128);
        assert(s[i] == head[0]) by {
            assert(s.subrange(i, i + k)[0] == s[i]);
        }
    }
}

/// Parsing the encodings of the arcs `arcs[k..]`, which stand at the end of
/// the data, gives those arcs.
proof fn lemma_parse_arcs_encoded(s: Seq<u8>, i: int, ids: Seq<nat>, arcs: Seq<u32>)
    requires
        0 <= i <= s.len(),
        s.subrange(i, s.len() as int) == encode_subids(ids),
        ids.len() == arcs.len(),
        forall|j: int| 0 <= j < ids.len() ==> ids[j] == arcs[j] as nat,
    ensures
        parse_arcs(s, i) == (Parsed::Value { value: arcs, next: s.len() as int }),
    decreases ids.len(),
{
    if ids.len() == 0 {
        assert(encode_subids(ids).len() == 0);
        assert(arcs =~= Seq::empty());
    } else {
        lemma_encode_subids_front(ids);
        let first = base128(ids[0]);
        let tail = encode_subids(ids.skip(1));
        assert(encode_subids(ids) == first + tail);
        assert(s.subrange(i, i + first.len()) =~= first) by {
            assert forall|j: int| 0 <= j < first.len() implies s.subrange(i, i + first.len())[j]
                == first[j] by {
                assert(s.subrange(i, s.len() as int)[j] == (first + tail)[j]);
            }
        }
        lemma_parse_base128(s, i, ids[0], MAX_SUBID as nat);
        let next = i + first.len();
        assert(s.subrange(next, s.len() as int) =~= tail) by {
            assert forall|j: int| 0 <= j < tail.len() implies s.subrange(next, s.len() as int)[j]
                == tail[j] by {
                assert(s.subrange(i, s.len() as int)[first.len() + j] == (first + tail)[first.len()
                    + j]);
            }
        }
        lemma_parse_arcs_encoded(s, next, ids.skip(1), arcs.skip(1));
        assert(seq![ids[0] as u32] + arcs.skip(1) =~= arcs);
    }
}

/// The encoding of a sequence of numbers that is not empty is the encoding
/// of the first, followed by the encoding of the others.
proof fn lemma_encode_subids_front(ids: Seq<nat>)
    requires
        ids.len() > 0,
    ensures
        encode_subids(ids) == base128(ids[0]) + encode_subids(ids.skip(1)),
    decreases ids.len(),
{
    if ids.len() == 1 {
        assert(ids.drop_last().len() == 0);
        assert(ids.skip(1).len() == 0);
        assert(encode_subids(ids.drop_last()) =~= Seq::empty());
        assert(encode_subids(ids.skip(1)) =~= Seq::empty());
        assert(encode_subids(ids) =~= base128(ids[0]) + encode_subids(ids.skip(1)));
    } else {
        lemma_encode_subids_front(ids.drop_last());
        assert(ids.drop_last().skip(1) =~= ids.skip(1).drop_last());
        assert(ids.drop_last()[0] == ids[0]);
        assert(ids.skip(1).last() == ids.last());
        assert(encode_subids(ids) =~= base128(ids[0]) + encode_subids(ids.skip(1)));
    }
}

/// The encoding of a number that fits 33 bits has at most five octets.
pub proof fn lemma_base128_len(n: nat)
    requires
        n <= MAX_FIRST_SUBID,
    ensures
        1 <= base128(n).len() <= 5,
{
    reveal_with_fuel(continuation_octets, 6);
}

/// The encoding of sub-identifiers of at most 33 bits has at most five
/// octets for each.
pub proof fn lemma_encode_subids_len(ids: Seq<nat>)
    requires
        forall|j: int| 0 <= j < ids.len() ==> ids[j] <= MAX_FIRST_SUBID,
    ensures
        encode_subids(ids).len() <= 5 * ids.len(),
    decreases ids.len(),
{
    if ids.len() > 0 {
        lemma_encode_subids_len(ids.drop_last());
        lemma_base128_len(ids.last());
    }
}

/// Decoding the BER encoding of a valid OID gives the OID back, and reads
/// the whole encoding.
pub proof fn lemma_oid_ber_roundtrip(arcs: Seq<u32>)
    requires
        valid_arcs(arcs),
    ensures
        parse_oid(oid_ber(arcs)) == (Parsed::Value {
            value: arcs,
            next: oid_ber(arcs).len() as int,
        }),
{
    let ids = subids(arcs);
    let s = oid_ber(arcs);
    lemma_encode_subids_front(ids);
    let first = base128(ids[0]);
    assert(s == first + encode_subids(ids.skip(1)));
    assert(s.subrange(0, first.len() as int) =~= first);
    lemma_parse_base128(s, 0, ids[0], MAX_FIRST_SUBID as nat);
    let rest = arcs.skip(2);
    assert(s.subrange(first.len() as int, s.len() as int) =~= encode_subids(ids.skip(1)));
    lemma_parse_arcs_encoded(s, first.len() as int, ids.skip(1), rest);
    assert(split_first(ids[0]) =~= arcs.subrange(0, 2));
    assert(arcs.subrange(0, 2) + rest =~= arcs);
}

/// The order of two valid OIDs is the order of the numbers that their BER
/// encodings hold: packing the first two arcs into one sub-identifier keeps
/// the lexicographic order.
pub proof fn lemma_order_agrees_with_subids(a: Seq<u32>, b: Seq<u32>)
    requires
        valid_arcs(a),
        valid_arcs(b),
    ensures
        lex_order(a, b) == nat_order_from(subids(a), subids(b), 0),
{
    let sa = subids(a);
    let sb = subids(b);
    if a[0] == b[0] && a[1] == b[1] {
        lemma_order_tail_agrees(a, b, 2);
        assert(lex_order_from(a, b, 1) == lex_order_from(a, b, 2));
    }
}

proof fn lemma_order_tail_agrees(a: Seq<u32>, b: Seq<u32>, i: int)
    requires
        2 <= i,
        a.len() >= 2,
        b.len() >= 2,
    ensures
        lex_order_from(a, b, i) == nat_order_from(subids(a), subids(b), i - 1),
    decreases a.len() - i,
{
    if i < a.len() && i < b.len() && a[i] == b[i] {
        lemma_order_tail_agrees(a, b, i + 1);
    }
}

/// The arcs in dotted notation: each arc in decimal, with dots between them.
pub open spec fn dotted(arcs: Seq<u32>) -> Seq<char>
    decreases arcs.len(),
{
    if arcs.len() == 0 {
        Seq::empty()
    } else if arcs.len() == 1 {
        decimal(arcs[0] as nat)
    } else {
        dotted(arcs.drop_last()) + seq!['.'] + decimal(arcs.last() as nat)
    }
}

/// The value of a decimal digit.
pub open spec fn digit_of(c: char) -> Option<nat> {
    if '0' <= c && c <= '9' {
        Some((c as u32 - 48) as nat)
    } else {
        None
    }
}

/// The arcs that a text in dotted notation stands for, read from position
/// `i` on: `current` is the value of the digits of the arc that is being
/// read, `done` the arcs before it. Every arc has at least one digit and
/// fits 32 bits; a text that ends in a dot, or holds any other character,
/// stands for nothing.
pub open spec fn parse_dotted_from(
    s: Seq<char>,
    i: int,
    current: Option<nat>,
    done: Seq<u32>,
) -> Option<Seq<u32>>
    decreases s.len() - i,
{
    if i < 0 || i >= s.len() {
        match current {
            Some(v) => Some(done.push(v as u32)),
            None => None,
        }
    } else if s[i] == '.' {
        match current {
            Some(v) => parse_dotted_from(s, i + 1, None, done.push(v as u32)),
            None => None,
        }
    } else {
        match digit_of(s[i]) {
            None => None,
            Some(d) => {
                let v = (match current {
                    Some(v) => v,
                    None => 0,
                }) * 10 + d;
                if v > 0xFFFF_FFFF {
                    None
                } else {
                    parse_dotted_from(s, i + 1, Some(v), done)
                }
            },
        }
    }
}

/// The arcs that a text in dotted notation stands for.
pub open spec fn parse_dotted(s: Seq<char>) -> Option<Seq<u32>> {
    parse_dotted_from(s, 0, None, Seq::empty())
}

// ---------------------------------------------------------------------------
// The type
// ---------------------------------------------------------------------------

/// An object identifier: a sequence of unsigned 32-bit arcs.
#[derive(Debug, Clone, PartialEq, Eq, PartialOrd, Ord, Hash)]
pub struct Oid {
    arcs: Vec<u32>,
}

impl View for Oid {
    type V = Seq<u32>;

    closed spec fn view(&self) -> Seq<u32> {
        self.arcs@
    }
}

impl Oid {
    /// An OID with the given arcs.
    pub fn new(arcs: Vec<u32>) -> (r: Oid)
        ensures
            r@ == arcs@,
    {
        Oid { arcs }
    }

    /// The OID without arcs.
    pub fn empty() -> (r: Oid)
        ensures
            r@ == Seq::<u32>::empty(),
    {
        Oid { arcs: Vec::new() }
    }

    /// An OID with the arcs of the slice.
    pub fn from_slice(arcs: &[u32]) -> (r: Oid)
        ensures
            r@ == arcs@,
    {
        Oid { arcs: vstd::slice::slice_to_vec(arcs) }
    }

    /// The arcs.
    pub fn arcs(&self) -> (r: &[u32])
        ensures
            r@ == self@,
    {
        self.arcs.as_slice()
    }

    /// The number of arcs.
    pub fn len(&self) -> (r: usize)
        ensures
            r == self@.len(),
    {
        self.arcs.len()
    }

    /// Whether the OID has no arcs.
    pub fn is_empty(&self) -> (r: bool)
        ensures
            r == (self@.len() == 0),
    {
        self.arcs.len() == 0
    }

    /// A copy of the OID.
    pub fn duplicate(&self) -> (r: Oid)
        ensures
            r@ == self@,
    {
        Oid { arcs: self.arcs.clone() }
    }

    /// The OID that a text in dotted notation stands for, as `1.3.6.1`. The
    /// empty text and a text that is not dotted notation are refused, with
    /// the text in the error.
    pub fn parse(s: &str) -> (r: Result<Oid>)
        ensures
            match parse_dotted(s@) {
                Some(arcs) => r matches Ok(o) && o@ == arcs,
                None => r matches Err(Error::InvalidOid { kind, input }) && kind == (if s@.len() == 0 {
                    OidErrorKind::Empty
                } else {
                    OidErrorKind::InvalidArc
                }) && (input matches Some(text) && text@ == s@),
            },
    {
        let n = s.unicode_len();
        if n == 0 {
            return Err(Error::invalid_oid_with_input(OidErrorKind::Empty, String::from_str(s)));
        }
        let mut arcs: Vec<u32> = Vec::new();
        let mut current: Option<u64> = None;
        let mut i: usize = 0;
        while i < n
            invariant
                i <= n,
                n == s@.len(),
                n > 0,
                current matches Some(v) ==> v <= 0xFFFF_FFFF,
                parse_dotted(s@) == parse_dotted_from(
                    s@,
                    i as int,
                    match current {
                        Some(v) => Some(v as nat),
                        None => None,
                    },
                    arcs@,
                ),
            decreases n - i,
        {
            let c = s.get_char(i);
            if c == '.' {
                match current {
                    None => {
                        return Err(
                            Error::invalid_oid_with_input(
                                OidErrorKind::InvalidArc,
                                String::from_str(s),
                            ),
                        );
                    },
                    Some(v) => {
                        arcs.push(v as u32);
                        current = None;
                    },
                }
            } else if c >= '0' && c <= '9' {
                let d = (c as u32 - 48) as u64;
                let before: u64 = match current {
                    Some(v) => v,
                    None => 0,
                };
                let v = before * 10 + d;
                if v > 0xFFFF_FFFF {
                    return Err(
                        Error::invalid_oid_with_input(OidErrorKind::InvalidArc, String::from_str(s)),
                    );
                }
                current = Some(v);
            } else {
                return Err(
                    Error::invalid_oid_with_input(OidErrorKind::InvalidArc, String::from_str(s)),
                );
            }
            i += 1;
        }
        match current {
            None => Err(Error::invalid_oid_with_input(OidErrorKind::InvalidArc, String::from_str(s))),
            Some(v) => {
                arcs.push(v as u32);
                Ok(Oid { arcs })
            },
        }
    }

    /// The OID in dotted notation.
    pub fn to_string(&self) -> (r: String)
        ensures
            r@ == dotted(self@),
    {
        let mut out = String::new();
        let n = self.arcs.len();
        let mut i: usize = 0;
        while i < n
            invariant
                i <= n,
                n == self.arcs@.len(),
                out@ == dotted(self.arcs@.subrange(0, i as int)),
            decreases n - i,
        {
            if i > 0 {
                out.push('.');
            }
            push_decimal(&mut out, self.arcs[i] as u64);
            proof {
                let before = self.arcs@.subrange(0, i as int);
                let after = self.arcs@.subrange(0, i + 1);
                assert(after.drop_last() =~= before);
                assert(after.last() == self.arcs@[i as int]);
                if i == 0 {
                    assert(out@ =~= decimal(self.arcs@[0] as nat));
                } else {
                    assert(out@ =~= dotted(before) + seq!['.'] + decimal(self.arcs@[i as int] as nat));
                }
            }
            i += 1;
        }
        proof {
            assert(self.arcs@.subrange(0, n as int) =~= self.arcs@);
        }
        out
    }

    /// Whether this OID lies in the subtree rooted at `prefix`.
    pub fn starts_with(&self, prefix: &Oid) -> (r: bool)
        ensures
            r == is_prefix(prefix@, self@),
    {
        let n = prefix.arcs.len();
        if n > self.arcs.len() {
            return false;
        }
        let mut i: usize = 0;
        while i < n
            invariant
                i <= n,
                n == prefix.arcs@.len(),
                n <= self.arcs@.len(),
                forall|j: int| 0 <= j < i ==> self.arcs@[j] == prefix.arcs@[j],
            decreases n - i,
        {
            if self.arcs[i] != prefix.arcs[i] {
                proof {
                    assert(self@.subrange(0, n as int)[i as int] == self@[i as int]);
                }
                return false;
            }
            i += 1;
        }
        proof {
            assert(self@.subrange(0, n as int) =~= prefix@);
        }
        true
    }

    /// The OID without its last arc, or `None` for the empty OID.
    pub fn parent(&self) -> (r: Option<Oid>)
        ensures
            match r {
                Some(p) => self@.len() > 0 && p@ == self@.drop_last(),
                None => self@.len() == 0,
            },
    {
        if self.arcs.len() == 0 {
            None
        } else {
            let mut arcs = self.arcs.clone();
            arcs.pop();
            Some(Oid { arcs })
        }
    }

    /// The OID with one more arc at its end.
    pub fn child(&self, arc: u32) -> (r: Oid)
        ensures
            r@ == self@.push(arc),
    {
        let mut arcs = self.arcs.clone();
        arcs.push(arc);
        Oid { arcs }
    }

    /// Lexicographic comparison with another OID.
    pub fn compare(&self, other: &Oid) -> (r: Comparison)
        ensures
            r == lex_order(self@, other@),
    {
        let n = self.arcs.len();
        let m = other.arcs.len();
        let mut i: usize = 0;
        while i < n && i < m
            invariant
                i <= n,
                i <= m,
                n == self.arcs@.len(),
                m == other.arcs@.len(),
                lex_order(self@, other@) == lex_order_from(self@, other@, i as int),
            decreases n - i,
        {
            if self.arcs[i] < other.arcs[i] {
                return Comparison::Less;
            }
            if self.arcs[i] > other.arcs[i] {
                return Comparison::Greater;
            }
            i += 1;
        }
        if n < m {
            Comparison::Less
        } else if n > m {
            Comparison::Greater
        } else {
            Comparison::Equal
        }
    }

    /// Whether this OID comes strictly before `other`.
    pub fn precedes(&self, other: &Oid) -> (r: bool)
        ensures
            r == lex_lt(self@, other@),
    {
        match self.compare(other) {
            Comparison::Less => true,
            _ => false,
        }
    }

    /// Whether the two OIDs have the same arcs.
    pub fn equals(&self, other: &Oid) -> (r: bool)
        ensures
            r == (self@ == other@),
    {
        proof {
            lemma_order_equal_iff_same(self@, other@);
        }
        match self.compare(other) {
            Comparison::Equal => true,
            _ => false,
        }
    }

    /// Checks that the OID can stand on the wire.
    pub fn validate(&self) -> (r: Result<()>)
        ensures
            r is Ok <==> valid_arcs(self@),
            match arcs_fault(self@) {
                Some(kind) => r == Err::<(), Error>(Error::InvalidOid { kind, input: None }),
                None => r is Ok,
            },
    {
        let n = self.arcs.len();
        if n == 0 {
            return Err(Error::invalid_oid(OidErrorKind::Empty));
        }
        let first = self.arcs[0];
        if first > 2 {
            return Err(Error::invalid_oid(OidErrorKind::InvalidFirstArc(first)));
        }
        if n == 1 {
            return Err(Error::invalid_oid(OidErrorKind::TooShort));
        }
        let second = self.arcs[1];
        if first < 2 && second > 39 {
            return Err(Error::invalid_oid(OidErrorKind::InvalidSecondArc { first, second }));
        }
        if n > MAX_OID_LEN {
            return Err(Error::invalid_oid(OidErrorKind::TooManyArcs { count: n, max: MAX_OID_LEN }));
        }
        Ok(())
    }

    /// The content octets of the BER encoding.
    pub fn to_ber(&self) -> (r: Vec<u8>)
        ensures
            r@ == oid_ber(self@),
    {
        let mut out: Vec<u8> = Vec::new();
        let n = self.arcs.len();
        if n == 0 {
            proof {
                assert(subids(self@).len() == 0);
            }
            return out;
        }
        let first: u64 = if n == 1 {
            40 * (self.arcs[0] as u64)
        } else {
            40 * (self.arcs[0] as u64) + self.arcs[1] as u64
        };
        push_base128(&mut out, first);
        let ghost ids = subids(self@);
        proof {
            assert(ids.subrange(0, 1) =~= seq![first as nat]);
            assert(ids.subrange(0, 1).drop_last() =~= Seq::<nat>::empty());
            assert(encode_subids(Seq::<nat>::empty()) =~= Seq::<u8>::empty());
            assert(encode_subids(ids.subrange(0, 1)) =~= base128(first as nat));
        }
        let mut i: usize = 2;
        while i < n
            invariant
                2 <= i,
                n == self.arcs@.len(),
                n >= 1,
                ids == subids(self@),
                n >= 2 ==> i <= n,
                out@ == encode_subids(ids.subrange(0, if n == 1 { 1 } else { i as int - 1 })),
            decreases n - i,
        {
            let arc = self.arcs[i];
            push_base128(&mut out, arc as u64);
            proof {
                let before = ids.subrange(0, i as int - 1);
                let after = ids.subrange(0, i as int);
                assert(after.drop_last() =~= before);
                assert(after.last() == arc as nat);
            }
            i += 1;
        }
        proof {
            assert(ids.subrange(0, ids.len() as int) =~= ids);
        }
        out
    }

    /// The OID that the content octets of a BER OBJECT IDENTIFIER stand for.
    /// A fault is reported with its offset in `data`.
    pub fn from_ber(data: &[u8]) -> (r: Result<Oid>)
        ensures
            match parse_oid(data@) {
                Parsed::Value { value, next } => r matches Ok(o) && o@ == value && next
                    == data@.len(),
                Parsed::Failed { at, kind } => 0 <= at <= data@.len() && r == Err::<Oid, Error>(
                    Error::Decode { offset: at as usize, kind },
                ),
            },
    {
        let n = data.len();
        if n == 0 {
            return Ok(Oid { arcs: Vec::new() });
        }
        let (first, mut i) = match read_subid(data, 0, MAX_FIRST_SUBID) {
            Err(kind) => {
                return Err(Error::decode(0, kind));
            },
            Ok(pair) => pair,
        };
        let mut arcs: Vec<u32> = Vec::new();
        if first < 40 {
            arcs.push(0);
            arcs.push(first as u32);
        } else if first < 80 {
            arcs.push(1);
            arcs.push((first - 40) as u32);
        } else {
            arcs.push(2);
            arcs.push((first - 80) as u32);
        }
        let ghost start = i as int;
        let ghost head = arcs@;
        proof {
            assert(head =~= split_first(first as nat));
            lemma_parse_arcs_shape(data@, start);
            match parse_arcs(data@, start) {
                Parsed::Value { value, next } => {
                    assert(arcs@.skip(2) + value =~= value);
                },
                _ => {},
            }
        }
        while i < n
            invariant
                0 < start <= i <= n,
                parse_subid(data@, 0, MAX_FIRST_SUBID as nat) == (Parsed::Value {
                    value: first as nat,
                    next: start,
                }),
                head == split_first(first as nat),
                n == data@.len(),
                head.len() == 2,
                arcs@.len() >= 2,
                arcs@.subrange(0, 2) == head,
                match parse_arcs(data@, i as int) {
                    Parsed::Failed { at, kind } => parse_arcs(data@, start) == (Parsed::Failed::<
                        Seq<u32>,
                    > { at, kind }) && 0 <= at <= n,
                    Parsed::Value { value, next } => parse_arcs(data@, start) == (Parsed::Value {
                        value: arcs@.skip(2) + value,
                        next,
                    }) && next == n,
                },
            decreases n - i,
        {
            proof {
                lemma_parse_arcs_shape(data@, i as int);
            }
            match read_subid(data, i, MAX_SUBID) {
                Err(kind) => {
                    return Err(Error::decode(i, kind));
                },
                Ok((value, next)) => {
                    proof {
                        let ghost before = arcs@;
                        lemma_parse_arcs_shape(data@, next as int);
                        match parse_arcs(data@, next as int) {
                            Parsed::Value { value: rest, next: end } => {
                                assert(before.skip(2) + (seq![value as u32] + rest)
                                    =~= before.push(value as u32).skip(2) + rest);
                            },
                            _ => {},
                        }
                    }
                    arcs.push(value as u32);
                    proof {
                        assert(arcs@.subrange(0, 2) =~= head);
                    }
                    i = next;
                },
            }
        }
        proof {
            lemma_parse_arcs_shape(data@, i as int);
            assert(arcs@.skip(2) + Seq::<u32>::empty() =~= arcs@.skip(2));
            assert(head + arcs@.skip(2) =~= arcs@);
        }
        if arcs.len() > MAX_OID_LEN {
            return Err(
                Error::decode(0, DecodeErrorKind::OidTooLong { count: arcs.len(), max: MAX_OID_LEN }),
            );
        }
        Ok(Oid { arcs })
    }
}

/// Where `parse_oid` reports faults.
pub proof fn lemma_parse_oid_shape(s: Seq<u8>)
    ensures
        match parse_oid(s) {
            Parsed::Failed { at, kind } => 0 <= at <= s.len(),
            Parsed::Value { value, next } => 0 <= next <= s.len(),
        },
{
    if s.len() > 0 {
        lemma_scan_advances(s, 0, 0);
        match parse_subid(s, 0, MAX_FIRST_SUBID as nat) {
            Parsed::Value { value, next } => {
                lemma_parse_arcs_shape(s, next);
            },
            _ => {},
        }
    }
}

/// Where `parse_arcs` ends and where it reports faults.
proof fn lemma_parse_arcs_shape(s: Seq<u8>, i: int)
    requires
        0 <= i <= s.len(),
    ensures
        match parse_arcs(s, i) {
            Parsed::Failed { at, kind } => i <= at < s.len(),
            Parsed::Value { value, next } => next == s.len(),
        },
    decreases s.len() - i,
{
    if i < s.len() {
        lemma_scan_advances(s, i, 0);
        match parse_subid(s, i, MAX_SUBID as nat) {
            Parsed::Value { value, next } => {
                lemma_parse_arcs_shape(s, next);
            },
            _ => {},
        }
    }
}

/// Appends the base-128 encoding of `n`.
fn push_base128(out: &mut Vec<u8>, n: u64)
    ensures
        final(out)@ == old(out)@ + base128(n as nat),
{
    push_continuation(out, n / 128);
    out.push((n % 128) as u8);
    proof {
        assert(final(out)@ =~= old(out)@ + base128(n as nat));
    }
}

/// Appends the continuation octets of `n`.
fn push_continuation(out: &mut Vec<u8>, n: u64)
    ensures
        final(out)@ == old(out)@ + continuation_octets(n as nat),
    decreases n,
{
    if n != 0 {
        push_continuation(out, n / 128);
        out.push((128 + n % 128) as u8);
        proof {
            assert(final(out)@ =~= old(out)@ + continuation_octets(n as nat));
        }
    } else {
        proof {
            assert(final(out)@ =~= old(out)@ + continuation_octets(n as nat));
        }
    }
}

/// Reads one sub-identifier at position `i`, which lies inside the data.
fn read_subid(data: &[u8], i: usize, limit: u64) -> (r: core::result::Result<
    (u64, usize),
    DecodeErrorKind,
>)
    requires
        i < data@.len(),
        limit <= MAX_FIRST_SUBID,
    ensures
        match parse_subid(data@, i as int, limit as nat) {
            Parsed::Value { value, next } => r == Ok::<(u64, usize), DecodeErrorKind>(
                (value as u64, next as usize),
            ) && value <= limit && i < next <= data@.len(),
            Parsed::Failed { at, kind } => r == Err::<(u64, usize), DecodeErrorKind>(kind) && at
                == i,
        },
{
    let n = data.len();
    if data[i] == 0x80 {
        return Err(DecodeErrorKind::InvalidOidEncoding);
    }
    let mut acc: u64 = 0;
    let ghost mut full: nat = 0;
    let mut j: usize = i;
    loop
        invariant
            i <= j <= n,
            n == data@.len(),
            limit <= MAX_FIRST_SUBID,
            data@[i as int] != 0x80,
            scan_subid(data@, i as int, 0) == scan_subid(data@, j as int, full),
            acc <= limit + 1,
            full <= limit ==> acc == full,
            full > limit ==> acc == limit + 1,
        decreases n - j,
    {
        if j >= n {
            return Err(DecodeErrorKind::InvalidOidEncoding);
        }
        let b = data[j];
        let digit: u64 = if b < 128 {
            b as u64
        } else {
            (b - 128) as u64
        };
        let ghost next_full: nat = full * 128 + digit as nat;
        let wide: u64 = acc * 128 + digit;
        let next_acc: u64 = if wide > limit {
            limit + 1
        } else {
            wide
        };
        if b < 128 {
            if next_acc > limit {
                return Err(DecodeErrorKind::IntegerOverflow);
            }
            return Ok((next_acc, j + 1));
        }
        proof {
            full = next_full;
        }
        acc = next_acc;
        j += 1;
    }
}

} // verus!
