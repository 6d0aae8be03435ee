//! BER decoding.
//!
//! A decoder reads elements from a slice of octets and keeps its position.
//! Every reader either reads one whole element and moves behind it, or fails
//! with the offset of the fault in the outermost data and leaves the decoder
//! where it was.

use vstd::prelude::*;

use super::encode::{int_content, lemma_int_content_len, lemma_signed_value_of_content, signed_value, tlv};
use super::length::{
    be_value,
    ber_length,
    decode_length,
    lemma_be_value_bound,
    lemma_length_roundtrip,
    parse_length,
    MAX_LENGTH,
};
use super::tag;
use crate::error::{DecodeErrorKind, Error, Result};
use crate::octets::bytes_contents;
use crate::oid::{parse_oid, Oid, Parsed};

verus! {
// ---------------------------------------------------------------------------
// What the octets of one element stand for
// ---------------------------------------------------------------------------

/// What the content of an element stands for, or why it is refused.
pub type Meaning<T> = core::result::Result<T, DecodeErrorKind>;

/// One element with any tag at position `i`: its tag and its content. The
/// tag must be there; the length octets follow at `i + 1`; the content must
/// lie inside the data, else the element overflows at the place where its
/// content starts. `next` is the position behind the content.
pub open spec fn parse_any(s: Seq<u8>, i: int) -> Parsed<(u8, Seq<u8>)> {
    if i < 0 || i >= s.len() {
        Parsed::Failed { at: i, kind: DecodeErrorKind::TruncatedData }
    } else {
        match parse_length(s, i + 1) {
            Parsed::Failed { at, kind } => Parsed::Failed { at, kind },
            Parsed::Value { value: len, next: start } => if start + len > s.len() {
                Parsed::Failed { at: start, kind: DecodeErrorKind::TlvOverflow }
            } else {
                Parsed::Value { value: (s[i], s.subrange(start, start + len)), next: start + len }
            },
        }
    }
}

/// One element at position `i` that must have the tag `expected`: its
/// content. Another tag is refused at `i`.
pub open spec fn parse_element(s: Seq<u8>, i: int, expected: u8) -> Parsed<Seq<u8>> {
    if i < 0 || i >= s.len() {
        Parsed::Failed { at: i, kind: DecodeErrorKind::TruncatedData }
    } else if s[i] != expected {
        Parsed::Failed { at: i, kind: DecodeErrorKind::UnexpectedTag { expected, actual: s[i] } }
    } else {
        match parse_any(s, i) {
            Parsed::Failed { at, kind } => Parsed::Failed { at, kind },
            Parsed::Value { value, next } => Parsed::Value { value: value.1, next },
        }
    }
}

/// The signed 32-bit number that the content of an INTEGER stands for. The
/// content has one to five octets, and its two's-complement value must fit.
pub open spec fn integer_of(c: Seq<u8>) -> Meaning<int> {
    if c.len() == 0 {
        Err(DecodeErrorKind::ZeroLengthInteger)
    } else if c.len() > 5 || signed_value(c) < -0x8000_0000 || signed_value(c) > 0x7FFF_FFFF {
        Err(DecodeErrorKind::IntegerOverflow)
    } else {
        Ok(signed_value(c))
    }
}

/// The unsigned 32-bit number that a content stands for. The content has one
/// to five octets, read as an unsigned number, so that a leading zero octet
/// before a value with the top bit set is accepted.
pub open spec fn unsigned32_of(c: Seq<u8>) -> Meaning<int> {
    if c.len() == 0 {
        Err(DecodeErrorKind::ZeroLengthInteger)
    } else if c.len() > 5 || be_value(c) > 0xFFFF_FFFF {
        Err(DecodeErrorKind::IntegerOverflow)
    } else {
        Ok(be_value(c) as int)
    }
}

/// The unsigned 64-bit number that a content stands for: one to nine octets,
/// read as an unsigned number.
pub open spec fn counter64_of(c: Seq<u8>) -> Meaning<int> {
    if c.len() == 0 {
        Err(DecodeErrorKind::ZeroLengthInteger)
    } else if c.len() > 9 {
        Err(DecodeErrorKind::Integer64TooLong { length: c.len() as usize })
    } else if be_value(c) > 0xFFFF_FFFF_FFFF_FFFF {
        Err(DecodeErrorKind::IntegerOverflow)
    } else {
        Ok(be_value(c) as int)
    }
}

/// The content of a NULL must be empty.
pub open spec fn null_of(c: Seq<u8>) -> Meaning<()> {
    if c.len() != 0 {
        Err(DecodeErrorKind::InvalidNull)
    } else {
        Ok(())
    }
}

/// The content of an IpAddress must have exactly four octets.
pub open spec fn ip_address_of(c: Seq<u8>) -> Meaning<Seq<u8>> {
    if c.len() != 4 {
        Err(DecodeErrorKind::InvalidIpAddressLength { length: c.len() as usize })
    } else {
        Ok(c)
    }
}

/// An element with the tag `expected` whose content is read by `meaning`. A
/// content that is refused is reported at the place where it starts.
pub open spec fn parse_typed<T>(
    s: Seq<u8>,
    i: int,
    expected: u8,
    meaning: spec_fn(Seq<u8>) -> Meaning<T>,
) -> Parsed<T> {
    match parse_element(s, i, expected) {
        Parsed::Failed { at, kind } => Parsed::Failed { at, kind },
        Parsed::Value { value: content, next } => match meaning(content) {
            Err(kind) => Parsed::Failed { at: next - content.len(), kind },
            Ok(value) => Parsed::Value { value, next },
        },
    }
}

/// An INTEGER at position `i`.
pub open spec fn parse_integer(s: Seq<u8>, i: int) -> Parsed<int> {
    parse_typed(s, i, tag::universal::INTEGER, |c: Seq<u8>| integer_of(c))
}

/// An unsigned 32-bit number with the tag `expected` at position `i`.
pub open spec fn parse_unsigned32(s: Seq<u8>, i: int, expected: u8) -> Parsed<int> {
    parse_typed(s, i, expected, |c: Seq<u8>| unsigned32_of(c))
}

/// A Counter64 at position `i`.
pub open spec fn parse_counter64(s: Seq<u8>, i: int) -> Parsed<int> {
    parse_typed(s, i, tag::application::COUNTER64, |c: Seq<u8>| counter64_of(c))
}

/// An OCTET STRING at position `i`. The constructed form (tag 0x24) is refused.
pub open spec fn parse_octet_string(s: Seq<u8>, i: int) -> Parsed<Seq<u8>> {
    if 0 <= i < s.len() && s[i] == tag::universal::OCTET_STRING_CONSTRUCTED {
        Parsed::Failed { at: i, kind: DecodeErrorKind::ConstructedOctetString }
    } else {
        parse_element(s, i, tag::universal::OCTET_STRING)
    }
}

/// A NULL at position `i`.
pub open spec fn parse_null(s: Seq<u8>, i: int) -> Parsed<()> {
    parse_typed(s, i, tag::universal::NULL, |c: Seq<u8>| null_of(c))
}

/// An IpAddress at position `i`.
pub open spec fn parse_ip_address(s: Seq<u8>, i: int) -> Parsed<Seq<u8>> {
    parse_typed(s, i, tag::application::IP_ADDRESS, |c: Seq<u8>| ip_address_of(c))
}

/// An OBJECT IDENTIFIER at position `i`. A fault inside the content is
/// reported at its place in the data.
pub open spec fn parse_oid_element(s: Seq<u8>, i: int) -> Parsed<Seq<u32>> {
    match parse_element(s, i, tag::universal::OBJECT_IDENTIFIER) {
        Parsed::Failed { at, kind } => Parsed::Failed { at, kind },
        Parsed::Value { value: content, next } => match parse_oid(content) {
            Parsed::Failed { at, kind } => Parsed::Failed {
                at: next - content.len() + at,
                kind,
            },
            Parsed::Value { value, next: _ } => Parsed::Value { value, next },
        },
    }
}

// ---------------------------------------------------------------------------
// Reading back what the encoder writes
// ---------------------------------------------------------------------------

/// Where an OBJECT IDENTIFIER ends and where its faults are reported.
pub proof fn lemma_parse_oid_element_shape(s: Seq<u8>, i: int)
    requires
        0 <= i,
    ensures
        match parse_oid_element(s, i) {
            Parsed::Failed { at, kind } => i <= at && (at <= s.len() || at == i),
            Parsed::Value { value, next } => i + 2 <= next <= s.len(),
        },
{
    match parse_element(s, i, tag::universal::OBJECT_IDENTIFIER) {
        Parsed::Value { value: content, next } => {
            crate::oid::lemma_parse_oid_shape(content);
        },
        _ => {},
    }
}

/// An element that stands at position `i` of the data is read back with its
/// tag and its content, if the content is no longer than the decoder accepts.
pub proof fn lemma_parse_tlv(s: Seq<u8>, i: int, t: u8, content: Seq<u8>)
    requires
        0 <= i,
        content.len() <= MAX_LENGTH,
        i + tlv(t, content).len() <= s.len(),
        s.subrange(i, i + tlv(t, content).len()) == tlv(t, content),
    ensures
        parse_any(s, i) == (Parsed::Value {
            value: (t, content),
            next: i + tlv(t, content).len(),
        }),
        parse_element(s, i, t) == (Parsed::Value { value: content, next: i + tlv(t, content).len() }),
{
    let enc = tlv(t, content);
    let len_octets = ber_length(content.len());
    let whole = i + enc.len();
    assert(s[i] == t) by {
        assert(s.subrange(i, whole)[0] == enc[0]);
    }
    assert(s.subrange(i + 1, i + 1 + len_octets.len()) =~= len_octets) by {
        assert forall|j: int| 0 <= j < len_octets.len() implies s.subrange(
            i + 1,
            i + 1 + len_octets.len(),
        )[j] == len_octets[j] by {
            assert(s.subrange(i, whole)[j + 1] == enc[j + 1]);
        }
    }
    lemma_length_roundtrip(s, i + 1, content.len());
    let start = i + 1 + len_octets.len();
    assert(s.subrange(start, start + content.len()) =~= content) by {
        assert forall|j: int| 0 <= j < content.len() implies s.subrange(
            start,
            start + content.len(),
        )[j] == content[j] by {
            assert(s.subrange(i, whole)[j + 1 + len_octets.len()] == enc[j + 1 + len_octets.len()]);
        }
    }
}

/// Every signed 32-bit number is read back from its INTEGER element,
/// wherever the element stands in the data.
pub proof fn lemma_integer_element_roundtrip_at(s: Seq<u8>, i: int, v: i32)
    requires
        0 <= i,
        i + tlv(tag::universal::INTEGER, int_content(v as int)).len() <= s.len(),
        s.subrange(i, i + tlv(tag::universal::INTEGER, int_content(v as int)).len()) == tlv(
            tag::universal::INTEGER,
            int_content(v as int),
        ),
    ensures
        parse_integer(s, i) == (Parsed::Value {
            value: v as int,
            next: i + tlv(tag::universal::INTEGER, int_content(v as int)).len(),
        }),
{
    lemma_int_content_len(v as int);
    lemma_parse_tlv(s, i, tag::universal::INTEGER, int_content(v as int));
    lemma_integer_roundtrip(v);
}

/// Where an INTEGER ends, where its faults are reported, and that its value
/// fits 32 bits.
pub proof fn lemma_parse_integer_shape(s: Seq<u8>, i: int)
    requires
        0 <= i,
    ensures
        match parse_integer(s, i) {
            Parsed::Failed { at, kind } => i <= at && (at <= s.len() || at == i),
            Parsed::Value { value, next } => i + 2 <= next <= s.len() && -0x8000_0000 <= value
                <= 0x7FFF_FFFF,
        },
{
}

/// The minimal octets of a number that is not negative, read as an unsigned
/// number, stand for that number.
pub proof fn lemma_be_value_of_int_content(v: int)
    requires
        v >= 0,
    ensures
        be_value(int_content(v)) == v,
    decreases v,
{
    if v < 128 {
        let s = int_content(v);
        assert(s.drop_last() =~= Seq::<u8>::empty());
        assert(be_value(s.drop_last()) == 0);
    } else {
        lemma_be_value_of_int_content(v / 256);
        assert(int_content(v).drop_last() =~= int_content(v / 256));
    }
}

/// Every signed 32-bit number is read back from its INTEGER encoding.
pub proof fn lemma_integer_roundtrip(v: i32)
    ensures
        integer_of(int_content(v as int)) == Ok::<int, DecodeErrorKind>(v as int),
{
    lemma_signed_value_of_content(v as int);
    lemma_int_content_len(v as int);
}

/// Every unsigned 32-bit number is read back from its encoding.
pub proof fn lemma_unsigned32_roundtrip(v: u32)
    ensures
        unsigned32_of(int_content(v as int)) == Ok::<int, DecodeErrorKind>(v as int),
{
    lemma_be_value_of_int_content(v as int);
    lemma_signed_value_of_content(v as int);
    lemma_int_content_len(v as int);
}

/// Every unsigned 64-bit number is read back from its encoding.
pub proof fn lemma_counter64_roundtrip(v: u64)
    ensures
        counter64_of(int_content(v as int)) == Ok::<int, DecodeErrorKind>(v as int),
{
    lemma_be_value_of_int_content(v as int);
    lemma_signed_value_of_content(v as int);
    lemma_int_content_len(v as int);
}

/// The range of a two's-complement value, by the number of its octets.
pub proof fn lemma_signed_value_bound(s: Seq<u8>)
    ensures
        s.len() == 1 ==> -0x80 <= signed_value(s) < 0x80,
        s.len() == 2 ==> -0x8000 <= signed_value(s) < 0x8000,
        s.len() == 3 ==> -0x80_0000 <= signed_value(s) < 0x80_0000,
        s.len() == 4 ==> -0x8000_0000 <= signed_value(s) < 0x8000_0000,
        s.len() == 5 ==> -0x80_0000_0000 <= signed_value(s) < 0x80_0000_0000,
    decreases s.len(),
{
    if s.len() > 1 && s.len() <= 5 {
        lemma_signed_value_bound(s.drop_last());
    }
}

/// The range of an unsigned value of six to nine octets.
pub proof fn lemma_be_value_bound_wide(s: Seq<u8>)
    ensures
        s.len() == 6 ==> be_value(s) < 0x1_0000_0000_0000,
        s.len() == 7 ==> be_value(s) < 0x100_0000_0000_0000,
        s.len() == 8 ==> be_value(s) < 0x1_0000_0000_0000_0000,
        s.len() == 9 ==> be_value(s) < 0x100_0000_0000_0000_0000,
    decreases s.len(),
{
    if s.len() > 6 && s.len() <= 9 {
        lemma_be_value_bound_wide(s.drop_last());
    } else if s.len() == 6 {
        lemma_be_value_bound(s.drop_last());
    }
}

// ---------------------------------------------------------------------------
// Reading contents
// ---------------------------------------------------------------------------

/// The signed 32-bit number that the content of an INTEGER stands for.
pub fn decode_integer_content(c: &[u8]) -> (r: Meaning<i32>)
    ensures
        match integer_of(c@) {
            Ok(v) => r == Ok::<i32, DecodeErrorKind>(v as i32),
            Err(kind) => r == Err::<i32, DecodeErrorKind>(kind),
        },
{
    let n = c.len();
    if n == 0 {
        return Err(DecodeErrorKind::ZeroLengthInteger);
    }
    if n > 5 {
        return Err(DecodeErrorKind::IntegerOverflow);
    }
    let mut acc: i64 = if c[0] < 128 {
        c[0] as i64
    } else {
        c[0] as i64 - 256
    };
    let mut k: usize = 1;
    proof {
        assert(c@.subrange(0, 1).len() == 1);
    }
    while k < n
        invariant
            1 <= k <= n <= 5,
            n == c@.len(),
            acc == signed_value(c@.subrange(0, k as int)),
        decreases n - k,
    {
        proof {
            let before = c@.subrange(0, k as int);
            let after = c@.subrange(0, k + 1);
            assert(after.drop_last() =~= before);
            assert(after.last() == c@[k as int]);
            lemma_signed_value_bound(before);
        }
        acc = acc * 256 + c[k] as i64;
        k += 1;
    }
    proof {
        assert(c@.subrange(0, n as int) =~= c@);
    }
    if acc < -0x8000_0000 || acc > 0x7FFF_FFFF {
        return Err(DecodeErrorKind::IntegerOverflow);
    }
    Ok(acc as i32)
}

/// The unsigned number that a content of at most `max_len` octets stands for.
fn decode_unsigned_content(c: &[u8], max_len: usize) -> (r: u128)
    requires
        c@.len() <= max_len <= 9,
    ensures
        r == be_value(c@),
{
    let n = c.len();
    let mut acc: u128 = 0;
    let mut k: usize = 0;
    while k < n
        invariant
            k <= n <= 9,
            n == c@.len(),
            acc == be_value(c@.subrange(0, k as int)),
        decreases n - k,
    {
        proof {
            let before = c@.subrange(0, k as int);
            let after = c@.subrange(0, k + 1);
            assert(after.drop_last() =~= before);
            assert(after.last() == c@[k as int]);
            lemma_be_value_bound(before);
            lemma_be_value_bound_wide(before);
        }
        acc = acc * 256 + c[k] as u128;
        k += 1;
    }
    proof {
        assert(c@.subrange(0, n as int) =~= c@);
    }
    acc
}

/// The unsigned 32-bit number that a content stands for.
pub fn decode_unsigned32_content(c: &[u8]) -> (r: Meaning<u32>)
    ensures
        match unsigned32_of(c@) {
            Ok(v) => r == Ok::<u32, DecodeErrorKind>(v as u32),
            Err(kind) => r == Err::<u32, DecodeErrorKind>(kind),
        },
{
    let n = c.len();
    if n == 0 {
        return Err(DecodeErrorKind::ZeroLengthInteger);
    }
    if n > 5 {
        return Err(DecodeErrorKind::IntegerOverflow);
    }
    let value = decode_unsigned_content(c, 5);
    if value > 0xFFFF_FFFF {
        return Err(DecodeErrorKind::IntegerOverflow);
    }
    Ok(value as u32)
}

/// The unsigned 64-bit number that a content stands for.
pub fn decode_counter64_content(c: &[u8]) -> (r: Meaning<u64>)
    ensures
        match counter64_of(c@) {
            Ok(v) => r == Ok::<u64, DecodeErrorKind>(v as u64),
            Err(kind) => r == Err::<u64, DecodeErrorKind>(kind),
        },
{
    let n = c.len();
    if n == 0 {
        return Err(DecodeErrorKind::ZeroLengthInteger);
    }
    if n > 9 {
        return Err(DecodeErrorKind::Integer64TooLong { length: n });
    }
    let value = decode_unsigned_content(c, 9);
    if value > 0xFFFF_FFFF_FFFF_FFFF {
        return Err(DecodeErrorKind::IntegerOverflow);
    }
    Ok(value as u64)
}

// ---------------------------------------------------------------------------
// The decoder
// ---------------------------------------------------------------------------

/// A reader over BER octets.
pub struct Decoder<'a> {
    data: &'a [u8],
    pos: usize,
    base: usize,
}

impl<'a> Decoder<'a> {
    #[verifier::type_invariant]
    spec fn wf(self) -> bool {
        self.pos <= self.data@.len() && self.base + self.data@.len() <= usize::MAX
    }

    /// The octets that the decoder reads.
    pub closed spec fn data(self) -> Seq<u8> {
        self.data@
    }

    /// The position of the next octet in `data`.
    pub open spec fn position(self) -> int {
        self.index() as int
    }

    /// The position as a natural number.
    pub closed spec fn index(self) -> nat {
        self.pos as nat
    }

    /// The offset of the first octet of `data` in the outermost data.
    pub open spec fn base(self) -> int {
        self.start() as int
    }

    /// The base offset as a natural number.
    pub closed spec fn start(self) -> nat {
        self.base as nat
    }

    /// The position lies inside the data, and offsets fit the machine.
    pub closed spec fn inv(self) -> bool {
        self.pos <= self.data@.len() && self.base + self.data@.len() <= usize::MAX
    }

    /// The decoder `self` is the decoder `before`, moved to `next`.
    pub open spec fn moved(self, before: Decoder<'a>, next: int) -> bool {
        self.data() == before.data() && self.base() == before.base() && self.position() == next
            && self.inv()
    }

    /// The error that a reader gives for a fault at position `at`.
    pub open spec fn fault(self, at: int, kind: DecodeErrorKind) -> Error {
        Error::Decode { offset: (self.base() + at) as usize, kind }
    }

    /// Create a decoder over a byte buffer.
    pub fn new(data: &'a bytes::Bytes) -> (r: Decoder<'a>)
        ensures
            r.data() == bytes_contents(*data),
            r.position() == 0,
            r.base() == 0,
            r.inv(),
    {
        Decoder::from_slice(bytes_as_slice(data))
    }

    /// Create a decoder over a slice.
    pub fn from_slice(data: &'a [u8]) -> (r: Decoder<'a>)
        ensures
            r.data() == data@,
            r.position() == 0,
            r.base() == 0,
            r.inv(),
    {
        let n = data.len();
        Decoder { data, pos: 0, base: 0 }
    }

    /// A second decoder over the same data at the same position, to read
    /// ahead with.
    pub fn fork(&self) -> (r: Decoder<'a>)
        ensures
            r.moved(*self, self.position()),
            self.inv(),
    {
        proof {
            use_type_invariant(self);
        }
        Decoder { data: self.data, pos: self.pos, base: self.base }
    }

    /// Moves to the position of a decoder that read ahead over the same data.
    pub fn advance_to(&mut self, ahead: &Decoder<'a>)
        requires
            ahead.data() == old(self).data(),
            ahead.base() == old(self).base(),
        ensures
            final(self).moved(*old(self), ahead.position()),
    {
        proof {
            use_type_invariant(&*self);
            use_type_invariant(ahead);
        }
        self.pos = ahead.pos;
    }

    /// The offset of the next octet in the outermost data.
    pub fn offset(&self) -> (r: usize)
        ensures
            r == self.base() + self.position(),
            self.inv(),
    {
        proof {
            use_type_invariant(self);
        }
        self.base + self.pos
    }

    /// The number of octets that are left.
    pub fn remaining(&self) -> (r: usize)
        ensures
            r == self.data().len() - self.position(),
            self.inv(),
    {
        proof {
            use_type_invariant(self);
        }
        self.data.len() - self.pos
    }

    /// Whether every octet has been read.
    pub fn is_empty(&self) -> (r: bool)
        ensures
            r == (self.position() == self.data().len()),
            self.inv(),
    {
        proof {
            use_type_invariant(self);
        }
        self.pos >= self.data.len()
    }

    /// The tag of the next element, if an octet is left. Reads nothing.
    pub fn peek_tag(&self) -> (r: Option<u8>)
        ensures
            self.inv(),
            match r {
                Some(t) => self.position() < self.data().len() && t == self.data()[self.position()],
                None => self.position() == self.data().len(),
            },
    {
        proof {
            use_type_invariant(self);
        }
        if self.pos < self.data.len() {
            Some(self.data[self.pos])
        } else {
            None
        }
    }

    /// Reads one element of any tag: its tag and its content.
    pub fn read_any(&mut self) -> (r: Result<(u8, &'a [u8])>)
        ensures
            match parse_any(old(self).data(), old(self).position()) {
                Parsed::Value { value, next } => r matches Ok(pair) && pair.0 == value.0 && pair.1@
                    == value.1 && final(self).moved(*old(self), next),
                Parsed::Failed { at, kind } => r matches Err(e) && e == old(self).fault(at, kind)
                    && final(self).moved(*old(self), old(self).position()),
            },
    {
        proof {
            use_type_invariant(&*self);
        }
        let n = self.data.len();
        if self.pos >= n {
            return Err(Error::decode(self.base + self.pos, DecodeErrorKind::TruncatedData));
        }
        let t = self.data[self.pos];
        let (len, start) = match decode_length(self.data, self.pos + 1) {
            Err(kind) => {
                return Err(Error::decode(self.base + self.pos + 1, kind));
            },
            Ok(pair) => pair,
        };
        if len > n - start {
            return Err(Error::decode(self.base + start, DecodeErrorKind::TlvOverflow));
        }
        let content = vstd::slice::slice_subrange(self.data, start, start + len);
        self.pos = start + len;
        Ok((t, content))
    }

    /// Reads one element that must have the tag `expected`: its content.
    pub fn read_element(&mut self, expected: u8) -> (r: Result<&'a [u8]>)
        ensures
            match parse_element(old(self).data(), old(self).position(), expected) {
                Parsed::Value { value, next } => r matches Ok(c) && c@ == value
                    && final(self).moved(*old(self), next),
                Parsed::Failed { at, kind } => r matches Err(e) && e == old(self).fault(at, kind)
                    && final(self).moved(*old(self), old(self).position()),
            },
    {
        proof {
            use_type_invariant(&*self);
        }
        if self.pos >= self.data.len() {
            return Err(Error::decode(self.base + self.pos, DecodeErrorKind::TruncatedData));
        }
        let actual = self.data[self.pos];
        if actual != expected {
            return Err(
                Error::decode(
                    self.base + self.pos,
                    DecodeErrorKind::UnexpectedTag { expected, actual },
                ),
            );
        }
        match self.read_any() {
            Err(e) => Err(e),
            Ok((_, content)) => Ok(content),
        }
    }

    /// Read an INTEGER.
    pub fn read_integer(&mut self) -> (r: Result<i32>)
        ensures
            match parse_integer(old(self).data(), old(self).position()) {
                Parsed::Value { value, next } => r == Ok::<i32, Error>(value as i32)
                    && final(self).moved(*old(self), next),
                Parsed::Failed { at, kind } => r == Err::<i32, Error>(old(self).fault(at, kind))
                    && final(self).moved(*old(self), old(self).position()),
            },
    {
        proof {
            use_type_invariant(&*self);
        }
        let before = self.pos;
        let c = match self.read_element(tag::universal::INTEGER) {
            Err(e) => {
                return Err(e);
            },
            Ok(c) => c,
        };
        match decode_integer_content(c) {
            Ok(v) => Ok(v),
            Err(kind) => {
                let at = self.pos - c.len();
                self.pos = before;
                Err(Error::decode(self.base + at, kind))
            },
        }
    }

    /// Read an unsigned 32-bit number with the tag `expected` (Counter32,
    /// Gauge32, TimeTicks).
    pub fn read_unsigned32(&mut self, expected: u8) -> (r: Result<u32>)
        ensures
            match parse_unsigned32(old(self).data(), old(self).position(), expected) {
                Parsed::Value { value, next } => r == Ok::<u32, Error>(value as u32)
                    && final(self).moved(*old(self), next),
                Parsed::Failed { at, kind } => r == Err::<u32, Error>(old(self).fault(at, kind))
                    && final(self).moved(*old(self), old(self).position()),
            },
    {
        proof {
            use_type_invariant(&*self);
        }
        let before = self.pos;
        let c = match self.read_element(expected) {
            Err(e) => {
                return Err(e);
            },
            Ok(c) => c,
        };
        match decode_unsigned32_content(c) {
            Ok(v) => Ok(v),
            Err(kind) => {
                let at = self.pos - c.len();
                self.pos = before;
                Err(Error::decode(self.base + at, kind))
            },
        }
    }

    /// Read a Counter64.
    pub fn read_counter64(&mut self) -> (r: Result<u64>)
        ensures
            match parse_counter64(old(self).data(), old(self).position()) {
                Parsed::Value { value, next } => r == Ok::<u64, Error>(value as u64)
                    && final(self).moved(*old(self), next),
                Parsed::Failed { at, kind } => r == Err::<u64, Error>(old(self).fault(at, kind))
                    && final(self).moved(*old(self), old(self).position()),
            },
    {
        proof {
            use_type_invariant(&*self);
        }
        let before = self.pos;
        let c = match self.read_element(tag::application::COUNTER64) {
            Err(e) => {
                return Err(e);
            },
            Ok(c) => c,
        };
        match decode_counter64_content(c) {
            Ok(v) => Ok(v),
            Err(kind) => {
                let at = self.pos - c.len();
                self.pos = before;
                Err(Error::decode(self.base + at, kind))
            },
        }
    }

    /// Read an OCTET STRING: a copy of its content.
    pub fn read_octet_string(&mut self) -> (r: Result<Vec<u8>>)
        ensures
            match parse_octet_string(old(self).data(), old(self).position()) {
                Parsed::Value { value, next } => r matches Ok(v) && v@ == value
                    && final(self).moved(*old(self), next),
                Parsed::Failed { at, kind } => r matches Err(e) && e == old(self).fault(at, kind)
                    && final(self).moved(*old(self), old(self).position()),
            },
    {
        proof {
            use_type_invariant(&*self);
        }
        if self.pos < self.data.len() && self.data[self.pos]
            == tag::universal::OCTET_STRING_CONSTRUCTED {
            return Err(
                Error::decode(self.base + self.pos, DecodeErrorKind::ConstructedOctetString),
            );
        }
        match self.read_element(tag::universal::OCTET_STRING) {
            Err(e) => Err(e),
            Ok(c) => Ok(vstd::slice::slice_to_vec(c)),
        }
    }

    /// Read a NULL.
    pub fn read_null(&mut self) -> (r: Result<()>)
        ensures
            match parse_null(old(self).data(), old(self).position()) {
                Parsed::Value { value, next } => r is Ok && final(self).moved(*old(self), next),
                Parsed::Failed { at, kind } => r == Err::<(), Error>(old(self).fault(at, kind))
                    && final(self).moved(*old(self), old(self).position()),
            },
    {
        proof {
            use_type_invariant(&*self);
        }
        let before = self.pos;
        let c = match self.read_element(tag::universal::NULL) {
            Err(e) => {
                return Err(e);
            },
            Ok(c) => c,
        };
        if c.len() != 0 {
            let at = self.pos - c.len();
            self.pos = before;
            return Err(Error::decode(self.base + at, DecodeErrorKind::InvalidNull));
        }
        Ok(())
    }

    /// Read an IpAddress: its four octets.
    pub fn read_ip_address(&mut self) -> (r: Result<[u8; 4]>)
        ensures
            match parse_ip_address(old(self).data(), old(self).position()) {
                Parsed::Value { value, next } => r matches Ok(a) && a@ == value
                    && final(self).moved(*old(self), next),
                Parsed::Failed { at, kind } => r matches Err(e) && e == old(self).fault(at, kind)
                    && final(self).moved(*old(self), old(self).position()),
            },
    {
        proof {
            use_type_invariant(&*self);
        }
        let before = self.pos;
        let c = match self.read_element(tag::application::IP_ADDRESS) {
            Err(e) => {
                return Err(e);
            },
            Ok(c) => c,
        };
        if c.len() != 4 {
            let at = self.pos - c.len();
            self.pos = before;
            return Err(
                Error::decode(
                    self.base + at,
                    DecodeErrorKind::InvalidIpAddressLength { length: c.len() },
                ),
            );
        }
        let a: [u8; 4] = [c[0], c[1], c[2], c[3]];
        proof {
            assert(a@ =~= c@);
        }
        Ok(a)
    }

    /// Read an OBJECT IDENTIFIER.
    pub fn read_oid(&mut self) -> (r: Result<Oid>)
        ensures
            match parse_oid_element(old(self).data(), old(self).position()) {
                Parsed::Value { value, next } => r matches Ok(o) && o@ == value
                    && final(self).moved(*old(self), next),
                Parsed::Failed { at, kind } => r matches Err(e) && e == old(self).fault(at, kind)
                    && final(self).moved(*old(self), old(self).position()),
            },
    {
        proof {
            use_type_invariant(&*self);
        }
        let before = self.pos;
        let c = match self.read_element(tag::universal::OBJECT_IDENTIFIER) {
            Err(e) => {
                return Err(e);
            },
            Ok(c) => c,
        };
        match Oid::from_ber(c) {
            Ok(o) => Ok(o),
            Err(e) => {
                let start = self.pos - c.len();
                self.pos = before;
                match e {
                    Error::Decode { offset, kind } => Err(
                        Error::decode(self.base + start + offset, kind),
                    ),
                    other => Err(other),
                }
            },
        }
    }

    /// Read a constructed element with the tag `expected`: a decoder over its
    /// content, whose faults carry offsets in the outermost data.
    pub fn read_constructed(&mut self, expected: u8) -> (r: Result<Decoder<'a>>)
        ensures
            match parse_element(old(self).data(), old(self).position(), expected) {
                Parsed::Value { value, next } => r matches Ok(sub) && sub.data() == value
                    && sub.position() == 0 && sub.base() == old(self).base() + next - value.len()
                    && sub.inv() && final(self).moved(*old(self), next),
                Parsed::Failed { at, kind } => r matches Err(e) && e == old(self).fault(at, kind)
                    && final(self).moved(*old(self), old(self).position()),
            },
    {
        proof {
            use_type_invariant(&*self);
        }
        match self.read_element(expected) {
            Err(e) => Err(e),
            Ok(c) => {
                let start = self.pos - c.len();
                Ok(Decoder { data: c, pos: 0, base: self.base + start })
            },
        }
    }

    /// Read a SEQUENCE: a decoder over its content.
    pub fn read_sequence(&mut self) -> (r: Result<Decoder<'a>>)
        ensures
            match parse_element(old(self).data(), old(self).position(), tag::universal::SEQUENCE) {
                Parsed::Value { value, next } => r matches Ok(sub) && sub.data() == value
                    && sub.position() == 0 && sub.base() == old(self).base() + next - value.len()
                    && sub.inv() && final(self).moved(*old(self), next),
                Parsed::Failed { at, kind } => r matches Err(e) && e == old(self).fault(at, kind)
                    && final(self).moved(*old(self), old(self).position()),
            },
    {
        self.read_constructed(tag::universal::SEQUENCE)
    }
}

/// `Bytes` as a slice (`Deref<Target = [u8]>`): the octets that the buffer
/// holds, borrowed for as long as the buffer.
#[verifier::external_body]
fn bytes_as_slice<'a>(b: &'a bytes::Bytes) -> (r: &'a [u8])
    ensures
        r@ == bytes_contents(*b),
{
    &b[..]
}

} // verus!
