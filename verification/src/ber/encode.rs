//! BER encoding.
//!
//! Uses a reverse buffer: content is written first, then the length and the
//! tag are put in front of it, so that no length has to be computed ahead.

use vstd::prelude::*;

use super::length::{ber_length, encode_length};
use super::tag;
use crate::octets::{bytes_contents, bytes_from_vec};
use crate::oid::{oid_ber, Oid};

verus! {

/// The minimal two's-complement octets of `v`, most significant first: no
/// leading octet that only repeats the sign.
pub open spec fn int_content(v: int) -> Seq<u8>
    decreases (if v >= 0 { v } else { -v }),
{
    if -128 <= v < 128 {
        seq![(v % 256) as u8]
    } else {
        int_content(v / 256).push((v % 256) as u8)
    }
}

/// The signed number that two's-complement octets stand for; 0 for no octets.
pub open spec fn signed_value(s: Seq<u8>) -> int
    decreases s.len(),
{
    if s.len() == 0 {
        0
    } else if s.len() == 1 {
        if s[0] < 128 {
            s[0] as int
        } else {
            s[0] - 256
        }
    } else {
        signed_value(s.drop_last()) * 256 + s.last()
    }
}

/// One BER element: the tag, the length octets of the content, the content.
pub open spec fn tlv(tag: u8, content: Seq<u8>) -> Seq<u8> {
    seq![tag] + ber_length(content.len()) + content
}

/// The minimal octets of `v` stand for `v`.
pub proof fn lemma_signed_value_of_content(v: int)
    ensures
        signed_value(int_content(v)) == v,
        int_content(v).len() >= 1,
    decreases (if v >= 0 { v } else { -v }),
{
    if -128 <= v < 128 {
    } else {
        lemma_signed_value_of_content(v / 256);
        let s = int_content(v);
        assert(s.drop_last() =~= int_content(v / 256));
    }
}

/// How many octets the minimal encoding of a number has.
pub proof fn lemma_int_content_len(v: int)
    ensures
        -0x80 <= v < 0x80 ==> int_content(v).len() == 1,
        -0x8000 <= v < 0x8000 ==> int_content(v).len() <= 2,
        -0x80_0000 <= v < 0x80_0000 ==> int_content(v).len() <= 3,
        -0x8000_0000 <= v < 0x8000_0000 ==> int_content(v).len() <= 4,
        0 <= v < 0x1_0000_0000 ==> int_content(v).len() <= 5,
        0 <= v < 0x1_0000_0000_0000_0000 ==> int_content(v).len() <= 9,
{
    reveal_with_fuel(int_content, 10);
}

/// Buffer for BER encoding that writes backwards.
///
/// Whatever is pushed comes to stand in front of what the buffer holds.
pub struct EncodeBuf {
    buf: Vec<u8>,
}

impl View for EncodeBuf {
    type V = Seq<u8>;

    /// The octets of the buffer in the order in which `finish` gives them.
    closed spec fn view(&self) -> Seq<u8> {
        self.buf@.reverse()
    }
}

impl EncodeBuf {
    /// Create a new encode buffer with default capacity.
    pub fn new() -> (r: EncodeBuf)
        ensures
            r@ == Seq::<u8>::empty(),
    {
        EncodeBuf::with_capacity(512)
    }

    /// Create a new encode buffer with specified capacity.
    pub fn with_capacity(capacity: usize) -> (r: EncodeBuf)
        ensures
            r@ == Seq::<u8>::empty(),
    {
        let r = EncodeBuf { buf: Vec::with_capacity(capacity) };
        proof {
            assert(r@ =~= Seq::<u8>::empty());
        }
        r
    }

    /// Push a single byte (prepends to front).
    pub fn push_byte(&mut self, byte: u8)
        ensures
            final(self)@ == seq![byte] + old(self)@,
    {
        self.buf.push(byte);
        proof {
            assert(final(self)@ =~= seq![byte] + old(self)@);
        }
    }

    /// Push multiple bytes: they come to stand, in their order, in front of
    /// what the buffer holds.
    pub fn push_bytes(&mut self, bytes: &[u8])
        ensures
            final(self)@ == bytes@ + old(self)@,
    {
        let n = bytes.len();
        let mut k: usize = n;
        proof {
            assert(bytes@.subrange(n as int, n as int) + old(self)@ =~= old(self)@);
        }
        while k > 0
            invariant
                k <= n,
                n == bytes@.len(),
                self@ == bytes@.subrange(k as int, n as int) + old(self)@,
            decreases k,
        {
            k -= 1;
            let ghost before = self@;
            self.push_byte(bytes[k]);
            proof {
                assert(self@ =~= bytes@.subrange(k as int, n as int) + old(self)@);
            }
        }
        proof {
            assert(bytes@.subrange(0, n as int) =~= bytes@);
        }
    }

    /// Push bytes that are already in wire order; the same as `push_bytes`.
    pub fn push_bytes_raw(&mut self, bytes: &[u8])
        ensures
            final(self)@ == bytes@ + old(self)@,
    {
        self.push_bytes(bytes);
    }

    /// Push a BER length encoding.
    pub fn push_length(&mut self, len: usize)
        ensures
            final(self)@ == ber_length(len as nat) + old(self)@,
    {
        let octets = encode_length(len);
        self.push_bytes(octets.as_slice());
    }

    /// Push a BER tag.
    pub fn push_tag(&mut self, tag: u8)
        ensures
            final(self)@ == seq![tag] + old(self)@,
    {
        self.push_byte(tag);
    }

    /// Get the current length of encoded data.
    pub fn len(&self) -> (r: usize)
        ensures
            r == self@.len(),
    {
        self.buf.len()
    }

    /// Check if buffer is empty.
    pub fn is_empty(&self) -> (r: bool)
        ensures
            r == (self@.len() == 0),
    {
        self.buf.len() == 0
    }

    /// Puts the length of what was pushed since the buffer held `start`
    /// octets, and then the tag, in front of it: what was pushed becomes the
    /// content of one element.
    pub fn wrap(&mut self, tag: u8, start: usize)
        requires
            start <= old(self)@.len(),
        ensures
            final(self)@ == tlv(tag, old(self)@.subrange(0, old(self)@.len() - start))
                + old(self)@.subrange(old(self)@.len() - start, old(self)@.len() as int),
    {
        let content_len = self.len() - start;
        self.push_length(content_len);
        self.push_tag(tag);
        proof {
            let whole = old(self)@;
            let cut = whole.len() - start;
            assert(whole =~= whole.subrange(0, cut) + whole.subrange(cut, whole.len() as int));
            assert(final(self)@ =~= tlv(tag, whole.subrange(0, cut)) + whole.subrange(
                cut,
                whole.len() as int,
            ));
        }
    }

    /// Encode a constructed type (SEQUENCE, PDU, etc).
    ///
    /// Calls the closure to encode contents, then wraps with length and tag.
    /// The closure may only push: what the buffer held stays behind what the
    /// closure writes.
    pub fn push_constructed<F>(&mut self, tag: u8, f: F) where F: FnOnce(&mut EncodeBuf)
        requires
            forall|b: &mut EncodeBuf| call_requires(f, (b,)),
            forall|b: &mut EncodeBuf| #[trigger]
                call_ensures(f, (b,), ()) ==> b@.len() <= final(b)@.len() && final(b)@.subrange(
                    final(b)@.len() - b@.len(),
                    final(b)@.len() as int,
                ) == b@,
        ensures
            final(self)@.len() >= old(self)@.len() + 2,
            final(self)@[0] == tag,
            final(self)@.subrange(
                final(self)@.len() - old(self)@.len(),
                final(self)@.len() as int,
            ) == old(self)@,
            forall|content: Seq<u8>|
                (forall|b: &mut EncodeBuf| #[trigger]
                    call_ensures(f, (b,), ()) ==> final(b)@ == content + b@) ==> final(self)@
                    == tlv(tag, content) + old(self)@,
    {
        let start_len = self.len();
        f(self);
        let ghost mid = self@;
        self.wrap(tag, start_len);
        proof {
            let cut = mid.len() - start_len;
            assert(mid.subrange(cut, mid.len() as int) == old(self)@);
            assert(final(self)@ == tlv(tag, mid.subrange(0, cut)) + old(self)@);
            assert(final(self)@.subrange(
                final(self)@.len() - old(self)@.len(),
                final(self)@.len() as int,
            ) =~= old(self)@);
            assert forall|content: Seq<u8>|
                (forall|b: &mut EncodeBuf| #[trigger]
                    call_ensures(f, (b,), ()) ==> final(b)@ == content + b@) implies final(self)@
                == tlv(tag, content) + old(self)@ by {
                assert(mid == content + old(self)@);
                assert(mid.subrange(0, cut) =~= content);
            }
        }
    }

    /// Encode a SEQUENCE.
    pub fn push_sequence<F>(&mut self, f: F) where F: FnOnce(&mut EncodeBuf)
        requires
            forall|b: &mut EncodeBuf| call_requires(f, (b,)),
            forall|b: &mut EncodeBuf| #[trigger]
                call_ensures(f, (b,), ()) ==> b@.len() <= final(b)@.len() && final(b)@.subrange(
                    final(b)@.len() - b@.len(),
                    final(b)@.len() as int,
                ) == b@,
        ensures
            final(self)@.len() >= old(self)@.len() + 2,
            final(self)@[0] == tag::universal::SEQUENCE,
            final(self)@.subrange(
                final(self)@.len() - old(self)@.len(),
                final(self)@.len() as int,
            ) == old(self)@,
            forall|content: Seq<u8>|
                (forall|b: &mut EncodeBuf| #[trigger]
                    call_ensures(f, (b,), ()) ==> final(b)@ == content + b@) ==> final(self)@
                    == tlv(tag::universal::SEQUENCE, content) + old(self)@,
    {
        self.push_constructed(tag::universal::SEQUENCE, f);
    }

    /// Pushes the minimal octets of a number that is not negative. Gives
    /// their count.
    fn push_nonneg_content(&mut self, value: u64) -> (n: usize)
        ensures
            final(self)@ == int_content(value as int) + old(self)@,
            n == int_content(value as int).len(),
            1 <= n <= 9,
    {
        let mut rest: u64 = value;
        let mut n: usize = 0;
        let ghost mut done: Seq<u8> = Seq::empty();
        proof {
            assert(done + old(self)@ =~= old(self)@);
            assert(int_content(rest as int) + done =~= int_content(value as int));
        }
        while rest >= 128
            invariant
                self@ == done + old(self)@,
                int_content(value as int) == int_content(rest as int) + done,
                n == done.len(),
                n <= 8,
            decreases rest,
        {
            let low = (rest % 256) as u8;
            self.push_byte(low);
            proof {
                let ghost next_done = seq![low] + done;
                assert(int_content(rest as int) == int_content(rest as int / 256).push(low));
                assert(int_content(rest as int / 256).push(low) + done =~= int_content(
                    rest as int / 256,
                ) + next_done);
                done = next_done;
                lemma_int_content_len(value as int);
                lemma_signed_value_of_content(rest as int / 256);
            }
            rest = rest / 256;
            n += 1;
        }
        self.push_byte(rest as u8);
        proof {
            assert(int_content(rest as int) =~= seq![rest as u8]);
            assert(final(self)@ =~= int_content(value as int) + old(self)@);
            lemma_int_content_len(value as int);
        }
        n + 1
    }

    /// Pushes the minimal octets of a negative number. Gives their count.
    fn push_negative_content(&mut self, value: i64) -> (n: usize)
        requires
            -0x8000_0000 <= value < 0,
        ensures
            final(self)@ == int_content(value as int) + old(self)@,
            n == int_content(value as int).len(),
            1 <= n <= 4,
    {
        let mut rest: i64 = value;
        let mut n: usize = 0;
        let ghost mut done: Seq<u8> = Seq::empty();
        proof {
            assert(done + old(self)@ =~= old(self)@);
            assert(int_content(rest as int) + done =~= int_content(value as int));
        }
        while rest < -128
            invariant
                -0x8000_0000 <= value <= rest < 0,
                self@ == done + old(self)@,
                int_content(value as int) == int_content(rest as int) + done,
                n == done.len(),
                n <= 8,
            decreases -rest,
        {
            // floor division and remainder, through the magnitude of rest + 1
            let m: u64 = (-(rest + 1)) as u64;
            let low: u8 = (255 - (m % 256)) as u8;
            let next: i64 = -((m / 256) as i64) - 1;
            proof {
                assert(next == rest as int / 256);
                assert(low == rest as int % 256);
            }
            self.push_byte(low);
            proof {
                let ghost next_done = seq![low] + done;
                assert(int_content(rest as int) == int_content(rest as int / 256).push(low));
                assert(int_content(rest as int / 256).push(low) + done =~= int_content(
                    rest as int / 256,
                ) + next_done);
                done = next_done;
                lemma_int_content_len(value as int);
                lemma_signed_value_of_content(next as int);
            }
            rest = next;
            n += 1;
        }
        let last: u8 = (rest + 256) as u8;
        self.push_byte(last);
        proof {
            assert(last == rest as int % 256);
            assert(int_content(rest as int) =~= seq![last]);
            assert(final(self)@ =~= int_content(value as int) + old(self)@);
            lemma_int_content_len(value as int);
        }
        n + 1
    }

    /// Encode an INTEGER.
    pub fn push_integer(&mut self, value: i32)
        ensures
            final(self)@ == tlv(tag::universal::INTEGER, int_content(value as int)) + old(self)@,
    {
        let n = if value >= 0 {
            self.push_nonneg_content(value as u64)
        } else {
            self.push_negative_content(value as i64)
        };
        self.push_length(n);
        self.push_tag(tag::universal::INTEGER);
        proof {
            assert(final(self)@ =~= tlv(tag::universal::INTEGER, int_content(value as int)) + old(self)@);
        }
    }

    /// Encode a 64-bit integer (for Counter64).
    pub fn push_integer64(&mut self, value: u64)
        ensures
            final(self)@ == tlv(tag::application::COUNTER64, int_content(value as int)) + old(self)@,
    {
        let n = self.push_nonneg_content(value);
        self.push_length(n);
        self.push_tag(tag::application::COUNTER64);
        proof {
            assert(final(self)@ =~= tlv(tag::application::COUNTER64, int_content(value as int))
                + old(self)@);
        }
    }

    /// Encode an unsigned 32-bit integer with a specific tag.
    pub fn push_unsigned32(&mut self, tag: u8, value: u32)
        ensures
            final(self)@ == tlv(tag, int_content(value as int)) + old(self)@,
    {
        let n = self.push_nonneg_content(value as u64);
        self.push_length(n);
        self.push_tag(tag);
        proof {
            assert(final(self)@ =~= tlv(tag, int_content(value as int)) + old(self)@);
        }
    }

    /// Encode an OCTET STRING.
    pub fn push_octet_string(&mut self, data: &[u8])
        ensures
            final(self)@ == tlv(tag::universal::OCTET_STRING, data@) + old(self)@,
    {
        self.push_bytes(data);
        self.push_length(data.len());
        self.push_tag(tag::universal::OCTET_STRING);
        proof {
            assert(final(self)@ =~= tlv(tag::universal::OCTET_STRING, data@) + old(self)@);
        }
    }

    /// Encode a NULL.
    pub fn push_null(&mut self)
        ensures
            final(self)@ == tlv(tag::universal::NULL, Seq::<u8>::empty()) + old(self)@,
    {
        self.push_length(0);
        self.push_tag(tag::universal::NULL);
        proof {
            assert(final(self)@ =~= tlv(tag::universal::NULL, Seq::<u8>::empty()) + old(self)@);
        }
    }

    /// Encode an OBJECT IDENTIFIER.
    pub fn push_oid(&mut self, oid: &Oid)
        ensures
            final(self)@ == tlv(tag::universal::OBJECT_IDENTIFIER, oid_ber(oid@)) + old(self)@,
    {
        let ber = oid.to_ber();
        self.push_bytes(ber.as_slice());
        self.push_length(ber.len());
        self.push_tag(tag::universal::OBJECT_IDENTIFIER);
        proof {
            assert(final(self)@ =~= tlv(tag::universal::OBJECT_IDENTIFIER, oid_ber(oid@)) + old(self)@);
        }
    }

    /// Encode an IP address.
    pub fn push_ip_address(&mut self, addr: [u8; 4])
        ensures
            final(self)@ == tlv(tag::application::IP_ADDRESS, addr@) + old(self)@,
    {
        self.push_bytes(addr.as_slice());
        self.push_length(4);
        self.push_tag(tag::application::IP_ADDRESS);
        proof {
            assert(final(self)@ =~= tlv(tag::application::IP_ADDRESS, addr@) + old(self)@);
        }
    }

    /// Finalize and return the encoded bytes.
    pub fn finish(self) -> (r: bytes::Bytes)
        ensures
            bytes_contents(r) == self@,
    {
        bytes_from_vec(self.finish_vec())
    }

    /// Finalize and return as `Vec<u8>`.
    pub fn finish_vec(self) -> (r: Vec<u8>)
        ensures
            r@ == self@,
    {
        let n = self.buf.len();
        let mut out: Vec<u8> = Vec::with_capacity(n);
        let mut k: usize = n;
        while k > 0
            invariant
                k <= n,
                n == self.buf@.len(),
                out@.len() == n - k,
                forall|j: int| 0 <= j < out@.len() ==> out@[j] == self.buf@[n - 1 - j],
            decreases k,
        {
            k -= 1;
            out.push(self.buf[k]);
        }
        proof {
            assert(out@ =~= self@);
        }
        out
    }
}

/// The minimal two's-complement octets of a signed 32-bit number.
pub fn integer_content(value: i32) -> (r: Vec<u8>)
    ensures
        r@ == int_content(value as int),
{
    let mut buf = EncodeBuf::new();
    if value >= 0 {
        buf.push_nonneg_content(value as u64);
    } else {
        buf.push_negative_content(value as i64);
    }
    proof {
        assert(buf@ =~= int_content(value as int));
    }
    buf.finish_vec()
}

/// The minimal octets of an unsigned 32-bit number: a zero octet stands in
/// front of a number whose top bit is set.
pub fn unsigned32_content(value: u32) -> (r: Vec<u8>)
    ensures
        r@ == int_content(value as int),
{
    let mut buf = EncodeBuf::new();
    buf.push_nonneg_content(value as u64);
    proof {
        assert(buf@ =~= int_content(value as int));
    }
    buf.finish_vec()
}

/// The minimal octets of an unsigned 64-bit number.
pub fn unsigned64_content(value: u64) -> (r: Vec<u8>)
    ensures
        r@ == int_content(value as int),
{
    let mut buf = EncodeBuf::new();
    buf.push_nonneg_content(value);
    proof {
        assert(buf@ =~= int_content(value as int));
    }
    buf.finish_vec()
}

impl Default for EncodeBuf {
    fn default() -> (r: EncodeBuf)
        ensures
            r@ == Seq::<u8>::empty(),
    {
        EncodeBuf::new()
    }
}

} // verus!
