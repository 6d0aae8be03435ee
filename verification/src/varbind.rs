//! Variable bindings: an OID paired with a value, and lists of them.

use vstd::prelude::*;

use crate::ber::decode::{lemma_parse_tlv, parse_element, parse_oid_element, Decoder};
use crate::ber::encode::{tlv, EncodeBuf};
use crate::ber::length::MAX_LENGTH;
use crate::ber::tag;
use crate::error::Result;
use crate::oid::{lemma_oid_ber_roundtrip, oid_ber, valid_arcs, Oid, Parsed};
use crate::value::{
    lemma_oid_ber_len, lemma_value_roundtrip_at, parse_value, value_ber, value_round_trips, Value,
    ValueView,
};

verus! {

/// Variable binding - an OID-value pair.
#[derive(Debug, Clone, PartialEq, Eq)]
pub struct VarBind {
    /// The object identifier.
    pub oid: Oid,
    /// The value.
    pub value: Value,
}

/// What a variable binding is: the arcs of its OID and its value.
pub struct VarBindView {
    pub oid: Seq<u32>,
    pub value: ValueView,
}

impl View for VarBind {
    type V = VarBindView;

    open spec fn view(&self) -> VarBindView {
        VarBindView { oid: self.oid@, value: self.value@ }
    }
}

/// The views of the variable bindings of a list.
pub open spec fn views(vbs: Seq<VarBind>) -> Seq<VarBindView> {
    Seq::new(vbs.len(), |i: int| vbs[i]@)
}

/// The bindings of the OIDs of a list to NULL, as in a read request.
pub open spec fn null_bindings(oids: Seq<Oid>) -> Seq<VarBindView> {
    Seq::new(oids.len(), |i: int| VarBindView { oid: oids[i]@, value: ValueView::Null })
}

/// The content of the SEQUENCE of a variable binding: the OID, then the value.
pub open spec fn varbind_content(vb: VarBindView) -> Seq<u8> {
    tlv(tag::universal::OBJECT_IDENTIFIER, oid_ber(vb.oid)) + value_ber(vb.value)
}

/// The BER element of a variable binding: a SEQUENCE of the OID and the value.
pub open spec fn varbind_ber(vb: VarBindView) -> Seq<u8> {
    tlv(tag::universal::SEQUENCE, varbind_content(vb))
}

/// The elements of the variable bindings of a list, one after the other.
pub open spec fn varbinds_content(vbs: Seq<VarBindView>) -> Seq<u8>
    decreases vbs.len(),
{
    if vbs.len() == 0 {
        Seq::empty()
    } else {
        varbind_ber(vbs[0]) + varbinds_content(vbs.skip(1))
    }
}

/// The BER element of a list of variable bindings: a SEQUENCE of SEQUENCEs.
pub open spec fn varbind_list_ber(vbs: Seq<VarBindView>) -> Seq<u8> {
    tlv(tag::universal::SEQUENCE, varbinds_content(vbs))
}

/// The variable binding at position `i`: a SEQUENCE that holds an OID and
/// then a value. What follows the value inside the SEQUENCE is passed over.
/// A fault inside the SEQUENCE is reported at its place in the data.
#[verifier::opaque]
pub open spec fn parse_varbind(s: Seq<u8>, i: int) -> Parsed<VarBindView> {
    match parse_element(s, i, tag::universal::SEQUENCE) {
        Parsed::Failed { at, kind } => Parsed::Failed { at, kind },
        Parsed::Value { value: content, next } => {
            let start = next - content.len();
            match parse_oid_element(content, 0) {
                Parsed::Failed { at, kind } => Parsed::Failed { at: start + at, kind },
                Parsed::Value { value: oid, next: after_oid } => match parse_value(
                    content,
                    after_oid,
                ) {
                    Parsed::Failed { at, kind } => Parsed::Failed { at: start + at, kind },
                    Parsed::Value { value, next: _ } => Parsed::Value {
                        value: VarBindView { oid, value },
                        next,
                    },
                },
            }
        },
    }
}

/// The variable bindings from position `i` to the end of the data.
pub open spec fn parse_varbinds(s: Seq<u8>, i: int) -> Parsed<Seq<VarBindView>>
    decreases s.len() - i,
{
    if i < 0 || i >= s.len() {
        Parsed::Value { value: Seq::empty(), next: i }
    } else {
        let head = parse_varbind(s, i);
        if head is Value && i < head->next <= s.len() {
            let rest = parse_varbinds(s, head->next);
            if rest is Value {
                Parsed::Value { value: seq![head->value] + rest->value, next: rest->next }
            } else {
                rest
            }
        } else if head is Value {
            Parsed::Failed { at: i, kind: crate::error::DecodeErrorKind::TlvOverflow }
        } else {
            Parsed::Failed { at: head->at, kind: head->kind }
        }
    }
}

/// The list of variable bindings at position `i`: a SEQUENCE whose content
/// is variable bindings up to its end.
pub open spec fn parse_varbind_list(s: Seq<u8>, i: int) -> Parsed<Seq<VarBindView>> {
    match parse_element(s, i, tag::universal::SEQUENCE) {
        Parsed::Failed { at, kind } => Parsed::Failed { at, kind },
        Parsed::Value { value: content, next } => match parse_varbinds(content, 0) {
            Parsed::Failed { at, kind } => Parsed::Failed { at: next - content.len() + at, kind },
            Parsed::Value { value, next: _ } => Parsed::Value { value, next },
        },
    }
}

/// The variable bindings that decoding gives back from their encoding: the
/// OID is valid or empty, the value is one that decoding gives back, and the
/// content is no longer than the decoder accepts.
pub open spec fn varbind_round_trips(vb: VarBindView) -> bool {
    &&& valid_arcs(vb.oid) || vb.oid.len() == 0
    &&& value_round_trips(vb.value)
    &&& varbind_content(vb).len() <= MAX_LENGTH
}

/// The lists whose every variable binding is given back, and whose content
/// is no longer than the decoder accepts.
pub open spec fn varbinds_round_trip(vbs: Seq<VarBindView>) -> bool {
    &&& forall|k: int| 0 <= k < vbs.len() ==> varbind_round_trips(#[trigger] vbs[k])
    &&& varbinds_content(vbs).len() <= MAX_LENGTH
}

/// An element has at least two octets: a tag and one length octet.
pub proof fn lemma_tlv_len(t: u8, content: Seq<u8>)
    ensures
        tlv(t, content).len() >= content.len() + 2,
        tlv(t, content)[0] == t,
{
    crate::ber::length::lemma_be_value_of_octets(content.len());
}

/// Decoding the encoding of a variable binding gives it back, wherever the
/// encoding stands in the data.
pub proof fn lemma_varbind_roundtrip_at(s: Seq<u8>, i: int, vb: VarBindView)
    requires
        varbind_round_trips(vb),
        0 <= i,
        i + varbind_ber(vb).len() <= s.len(),
        s.subrange(i, i + varbind_ber(vb).len()) == varbind_ber(vb),
    ensures
        parse_varbind(s, i) == (Parsed::Value { value: vb, next: i + varbind_ber(vb).len() }),
{
    reveal(parse_varbind);
    let content = varbind_content(vb);
    lemma_parse_tlv(s, i, tag::universal::SEQUENCE, content);
    let oid_part = tlv(tag::universal::OBJECT_IDENTIFIER, oid_ber(vb.oid));
    let value_part = value_ber(vb.value);
    lemma_oid_ber_len(vb.oid);
    assert(content.subrange(0, oid_part.len() as int) =~= oid_part);
    lemma_parse_tlv(content, 0, tag::universal::OBJECT_IDENTIFIER, oid_ber(vb.oid));
    if vb.oid.len() != 0 {
        lemma_oid_ber_roundtrip(vb.oid);
    } else {
        assert(crate::oid::subids(vb.oid).len() == 0);
        assert(oid_ber(vb.oid).len() == 0);
        assert(vb.oid =~= Seq::<u32>::empty());
    }
    assert(content.subrange(oid_part.len() as int, (oid_part.len() + value_part.len()) as int)
        =~= value_part);
    lemma_value_roundtrip_at(content, oid_part.len() as int, vb.value);
}

/// Decoding the encodings of variable bindings that stand at the end of the
/// data gives the bindings back.
pub proof fn lemma_varbinds_roundtrip_at(s: Seq<u8>, i: int, vbs: Seq<VarBindView>)
    requires
        forall|k: int| 0 <= k < vbs.len() ==> varbind_round_trips(#[trigger] vbs[k]),
        0 <= i <= s.len(),
        s.subrange(i, s.len() as int) == varbinds_content(vbs),
    ensures
        parse_varbinds(s, i) == (Parsed::Value { value: vbs, next: s.len() as int }),
    decreases vbs.len(),
{
    if vbs.len() == 0 {
        assert(varbinds_content(vbs).len() == 0);
        assert(vbs =~= Seq::<VarBindView>::empty());
    } else {
        let first = varbind_ber(vbs[0]);
        let tail = varbinds_content(vbs.skip(1));
        lemma_tlv_len(tag::universal::SEQUENCE, varbind_content(vbs[0]));
        assert(varbinds_content(vbs) == first + tail);
        assert(s.subrange(i, s.len() as int).len() == first.len() + tail.len());
        assert(s.subrange(i, i + first.len()) =~= first) by {
            assert forall|j: int| 0 <= j < first.len() implies s.subrange(i, i + first.len())[j]
                == first[j] by {
                assert(s.subrange(i, s.len() as int)[j] == (first + tail)[j]);
            }
        }
        lemma_varbind_roundtrip_at(s, i, vbs[0]);
        let next = i + first.len();
        assert(s.subrange(next, s.len() as int) =~= tail) by {
            assert forall|j: int| 0 <= j < tail.len() implies s.subrange(next, s.len() as int)[j]
                == tail[j] by {
                assert(s.subrange(i, s.len() as int)[first.len() + j] == (first + tail)[first.len()
                    + j]);
            }
        }
        assert forall|k: int| 0 <= k < vbs.skip(1).len() implies varbind_round_trips(
            #[trigger] vbs.skip(1)[k],
        ) by {
            assert(vbs.skip(1)[k] == vbs[k + 1]);
        }
        lemma_varbinds_roundtrip_at(s, next, vbs.skip(1));
        assert(seq![vbs[0]] + vbs.skip(1) =~= vbs);
    }
}

/// Decoding the encoding of a list of variable bindings gives the list back,
/// wherever the encoding stands in the data.
pub proof fn lemma_varbind_list_roundtrip_at(s: Seq<u8>, i: int, vbs: Seq<VarBindView>)
    requires
        varbinds_round_trip(vbs),
        0 <= i,
        i + varbind_list_ber(vbs).len() <= s.len(),
        s.subrange(i, i + varbind_list_ber(vbs).len()) == varbind_list_ber(vbs),
    ensures
        parse_varbind_list(s, i) == (Parsed::Value {
            value: vbs,
            next: i + varbind_list_ber(vbs).len(),
        }),
{
    let content = varbinds_content(vbs);
    lemma_parse_tlv(s, i, tag::universal::SEQUENCE, content);
    assert(content.subrange(0, content.len() as int) =~= content);
    lemma_varbinds_roundtrip_at(content, 0, vbs);
}

/// Where `parse_varbinds` ends and where it reports faults.
proof fn lemma_parse_varbinds_shape(s: Seq<u8>, i: int)
    requires
        0 <= i <= s.len(),
    ensures
        match parse_varbinds(s, i) {
            Parsed::Failed { at, kind } => i <= at <= s.len(),
            Parsed::Value { value, next } => next == s.len(),
        },
    decreases s.len() - i,
{
    if i < s.len() {
        lemma_parse_varbind_shape(s, i);
        match parse_varbind(s, i) {
            Parsed::Value { value, next } => {
                lemma_parse_varbinds_shape(s, next);
            },
            _ => {},
        }
    }
}

/// Where a variable binding ends and where its faults are reported.
pub proof fn lemma_parse_varbind_shape(s: Seq<u8>, i: int)
    requires
        0 <= i,
    ensures
        match parse_varbind(s, i) {
            Parsed::Failed { at, kind } => i <= at && (at <= s.len() || at == i),
            Parsed::Value { value, next } => i + 2 <= next <= s.len(),
        },
{
    reveal(parse_varbind);
    match parse_element(s, i, tag::universal::SEQUENCE) {
        Parsed::Value { value: content, next } => {
            crate::value::lemma_parse_value_shape(content, 0);
            crate::ber::decode::lemma_parse_oid_element_shape(content, 0);
            match parse_oid_element(content, 0) {
                Parsed::Value { value: oid, next: after_oid } => {
                    crate::value::lemma_parse_value_shape(content, after_oid);
                },
                _ => {},
            }
        },
        _ => {},
    }
}

/// A variable binding as text: the OID, ` = `, the value.
pub open spec fn varbind_text(vb: VarBindView) -> Seq<char> {
    crate::oid::dotted(vb.oid) + " = "@ + crate::value::value_text(vb.value)
}

impl VarBind {
    /// The variable binding as text.
    pub fn to_string(&self) -> (r: String)
        ensures
            r@ == varbind_text(self@),
    {
        let mut out = self.oid.to_string();
        out.append(" = ");
        let value = self.value.to_string();
        out.append(value.as_str());
        out
    }

    /// Create a new VarBind.
    pub fn new(oid: Oid, value: Value) -> (r: VarBind)
        ensures
            r.oid == oid,
            r.value == value,
    {
        VarBind { oid, value }
    }

    /// Create a VarBind with a NULL value (for GET requests).
    pub fn null(oid: Oid) -> (r: VarBind)
        ensures
            r.oid == oid,
            r.value == Value::Null,
    {
        VarBind { oid, value: Value::Null }
    }

    /// A copy of the variable binding.
    pub fn duplicate(&self) -> (r: VarBind)
        ensures
            r@ == self@,
    {
        VarBind { oid: self.oid.duplicate(), value: self.value.duplicate() }
    }

    /// Encode to BER.
    pub fn encode(&self, buf: &mut EncodeBuf)
        ensures
            final(buf)@ == varbind_ber(self@) + old(buf)@,
    {
        let start = buf.len();
        self.value.encode(buf);
        buf.push_oid(&self.oid);
        proof {
            assert(buf@ =~= varbind_content(self@) + old(buf)@);
            assert(buf@.subrange(0, buf@.len() - start) =~= varbind_content(self@));
            assert(buf@.subrange(buf@.len() - start, buf@.len() as int) =~= old(buf)@);
        }
        buf.wrap(tag::universal::SEQUENCE, start);
    }

    /// Returns the exact encoded size of this VarBind in bytes.
    pub fn encoded_size(&self) -> (r: usize)
        ensures
            r == varbind_ber(self@).len(),
    {
        let mut buf = EncodeBuf::new();
        self.encode(&mut buf);
        proof {
            assert(buf@ =~= varbind_ber(self@));
        }
        buf.len()
    }

    /// Decode from BER.
    pub fn decode(decoder: &mut Decoder) -> (r: Result<VarBind>)
        ensures
            match parse_varbind(old(decoder).data(), old(decoder).position()) {
                Parsed::Value { value, next } => r matches Ok(vb) && vb@ == value
                    && final(decoder).moved(*old(decoder), next),
                Parsed::Failed { at, kind } => r matches Err(e) && e == old(decoder).fault(at, kind)
                    && final(decoder).moved(*old(decoder), old(decoder).position()),
            },
    {
        proof {
            reveal(parse_varbind);
        }
        let mut probe = decoder.fork();
        let mut seq = match probe.read_sequence() {
            Err(e) => {
                return Err(e);
            },
            Ok(seq) => seq,
        };
        let oid = match seq.read_oid() {
            Err(e) => {
                return Err(e);
            },
            Ok(oid) => oid,
        };
        let value = match Value::decode(&mut seq) {
            Err(e) => {
                return Err(e);
            },
            Ok(value) => value,
        };
        decoder.advance_to(&probe);
        Ok(VarBind { oid, value })
    }
}

/// Encode a list of VarBinds.
pub fn encode_varbind_list(buf: &mut EncodeBuf, varbinds: &[VarBind])
    ensures
        final(buf)@ == varbind_list_ber(views(varbinds@)) + old(buf)@,
{
    let start = buf.len();
    let n = varbinds.len();
    let ghost all = views(varbinds@);
    let mut k: usize = n;
    proof {
        assert(all.subrange(n as int, n as int).len() == 0);
        assert(varbinds_content(all.subrange(n as int, n as int)) + old(buf)@ =~= old(buf)@);
    }
    while k > 0
        invariant
            k <= n,
            n == varbinds@.len(),
            all == views(varbinds@),
            buf@ == varbinds_content(all.subrange(k as int, n as int)) + old(buf)@,
        decreases k,
    {
        k -= 1;
        varbinds[k].encode(buf);
        proof {
            let now = all.subrange(k as int, n as int);
            assert(now.skip(1) =~= all.subrange(k + 1, n as int));
            assert(now[0] == varbinds@[k as int]@);
            assert(buf@ =~= varbinds_content(now) + old(buf)@);
        }
    }
    proof {
        assert(all.subrange(0, n as int) =~= all);
        let content = varbinds_content(all);
        assert(buf@.subrange(0, buf@.len() - start) =~= content);
        assert(buf@.subrange(buf@.len() - start, buf@.len() as int) =~= old(buf)@);
    }
    buf.wrap(tag::universal::SEQUENCE, start);
}

/// Decode a list of VarBinds.
pub fn decode_varbind_list(decoder: &mut Decoder) -> (r: Result<Vec<VarBind>>)
    ensures
        match parse_varbind_list(old(decoder).data(), old(decoder).position()) {
            Parsed::Value { value, next } => r matches Ok(list) && views(list@) == value
                && final(decoder).moved(*old(decoder), next),
            Parsed::Failed { at, kind } => r matches Err(e) && e == old(decoder).fault(at, kind)
                && final(decoder).moved(*old(decoder), old(decoder).position()),
        },
{
    let ghost orig = *decoder;
    let mut probe = decoder.fork();
    let mut seq = match probe.read_sequence() {
        Err(e) => {
            return Err(e);
        },
        Ok(seq) => seq,
    };
    let mut varbinds: Vec<VarBind> = Vec::new();
    let ghost content = seq.data();
    let ghost inner = seq;
    proof {
        lemma_parse_varbinds_shape(content, 0);
        match parse_varbinds(content, 0) {
            Parsed::Value { value, next } => {
                assert(views(varbinds@) + value =~= value);
            },
            _ => {},
        }
    }
    while !seq.is_empty()
        invariant
            seq.moved(inner, seq.position()),
            inner.data() == content,
            decoder.moved(orig, orig.position()),
            probe.moved(orig, probe.position()),
            parse_element(orig.data(), orig.position(), tag::universal::SEQUENCE) == (Parsed::Value {
                value: content,
                next: probe.position(),
            }),
            inner.base() == orig.base() + probe.position() - content.len(),
            0 <= seq.position() <= content.len(),
            match parse_varbinds(content, seq.position()) {
                Parsed::Failed { at, kind } => parse_varbinds(content, 0) == (Parsed::Failed::<
                    Seq<VarBindView>,
                > { at, kind }),
                Parsed::Value { value, next } => parse_varbinds(content, 0) == (Parsed::Value {
                    value: views(varbinds@) + value,
                    next,
                }),
            },
        decreases content.len() - seq.position(),
    {
        let ghost here = seq.position();
        proof {
            lemma_parse_varbind_shape(content, here);
        }
        match VarBind::decode(&mut seq) {
            Err(e) => {
                return Err(e);
            },
            Ok(vb) => {
                proof {
                    let before = views(varbinds@);
                    let after = views(varbinds@.push(vb));
                    lemma_parse_varbinds_shape(content, seq.position());
                    match parse_varbinds(content, seq.position()) {
                        Parsed::Value { value: rest, next: end } => {
                            assert(before + (seq![vb@] + rest) =~= after + rest);
                        },
                        _ => {},
                    }
                }
                varbinds.push(vb);
            },
        }
    }
    proof {
        assert(views(varbinds@) + Seq::<VarBindView>::empty() =~= views(varbinds@));
    }
    decoder.advance_to(&probe);
    Ok(varbinds)
}

/// Encode a list of OIDs as VarBinds with NULL values (for GET requests).
pub fn encode_null_varbinds(buf: &mut EncodeBuf, oids: &[Oid])
    ensures
        final(buf)@ == varbind_list_ber(null_bindings(oids@)) + old(buf)@,
{
    let start = buf.len();
    let n = oids.len();
    let ghost all = null_bindings(oids@);
    let mut k: usize = n;
    proof {
        assert(all.subrange(n as int, n as int).len() == 0);
        assert(varbinds_content(all.subrange(n as int, n as int)) + old(buf)@ =~= old(buf)@);
    }
    while k > 0
        invariant
            k <= n,
            n == oids@.len(),
            all == null_bindings(oids@),
            buf@ == varbinds_content(all.subrange(k as int, n as int)) + old(buf)@,
        decreases k,
    {
        k -= 1;
        let inner = buf.len();
        let ghost before = buf@;
        buf.push_null();
        buf.push_oid(&oids[k]);
        proof {
            let vb = all[k as int];
            assert(buf@ =~= varbind_content(vb) + before);
            assert(buf@.subrange(0, buf@.len() - inner) =~= varbind_content(vb));
            assert(buf@.subrange(buf@.len() - inner, buf@.len() as int) =~= before);
        }
        buf.wrap(tag::universal::SEQUENCE, inner);
        proof {
            let now = all.subrange(k as int, n as int);
            assert(now.skip(1) =~= all.subrange(k + 1, n as int));
            assert(now[0] == all[k as int]);
            assert(buf@ =~= varbinds_content(now) + old(buf)@);
        }
    }
    proof {
        assert(all.subrange(0, n as int) =~= all);
        let content = varbinds_content(all);
        assert(buf@.subrange(0, buf@.len() - start) =~= content);
        assert(buf@.subrange(buf@.len() - start, buf@.len() as int) =~= old(buf)@);
    }
    buf.wrap(tag::universal::SEQUENCE, start);
}

} // verus!
