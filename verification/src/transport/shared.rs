//! Request correlation for a UDP socket that many clients share.
//!
//! Every request that awaits a reply has an entry in the pending table under
//! its request-id. A datagram that comes in is looked at just far enough to
//! find its request-id; the entry under that id is taken out and its
//! completion slot is handed to the caller, who fires it. Entries whose
//! deadline has passed are reaped after each receive.

use std::collections::HashMap;
use vstd::prelude::*;

use crate::addr::SocketAddress;
use crate::ber::decode::{parse_any, parse_element, parse_integer, parse_octet_string, Decoder};
use crate::ber::tag;
use crate::oid::Parsed;

verus! {

broadcast use vstd::std_specs::hash::group_hash_axioms;

/// Configuration for shared UDP transport.
#[derive(Debug, Clone, Copy, PartialEq, Eq, Structural)]
pub struct SharedTransportConfig {
    /// Log warning when response source differs from target (default: true)
    pub warn_on_source_mismatch: bool,
    /// Maximum message size (default: 65535)
    pub max_message_size: usize,
}

impl Default for SharedTransportConfig {
    fn default() -> (r: SharedTransportConfig)
        ensures
            r == (SharedTransportConfig { warn_on_source_mismatch: true, max_message_size: 65535 }),
    {
        SharedTransportConfig { warn_on_source_mismatch: true, max_message_size: 65535 }
    }
}

/// Builder for the shared transport: the address to bind and the
/// configuration.
pub struct SharedUdpTransportBuilder {
    bind_addr: String,
    config: SharedTransportConfig,
}

impl SharedUdpTransportBuilder {
    /// The address that the transport will bind.
    pub closed spec fn bind_addr(self) -> Seq<char> {
        self.bind_addr@
    }

    /// The configuration that the transport will have.
    pub closed spec fn config(self) -> SharedTransportConfig {
        self.config
    }

    /// Create a new builder with default settings: any IPv4 address, an
    /// ephemeral port.
    pub fn new() -> (r: SharedUdpTransportBuilder)
        ensures
            r.bind_addr() == "0.0.0.0:0"@,
            r.config() == (SharedTransportConfig {
                warn_on_source_mismatch: true,
                max_message_size: 65535,
            }),
    {
        SharedUdpTransportBuilder {
            bind_addr: String::from_str("0.0.0.0:0"),
            config: SharedTransportConfig::default(),
        }
    }

    /// Set the local bind address.
    pub fn bind(self, addr: &str) -> (r: SharedUdpTransportBuilder)
        ensures
            r.bind_addr() == addr@,
            r.config() == self.config(),
    {
        SharedUdpTransportBuilder { bind_addr: String::from_str(addr), config: self.config }
    }

    /// Configure warning on source address mismatch (default: true).
    pub fn warn_on_source_mismatch(self, warn: bool) -> (r: SharedUdpTransportBuilder)
        ensures
            r.bind_addr() == self.bind_addr(),
            r.config() == (SharedTransportConfig { warn_on_source_mismatch: warn, ..self.config() }),
    {
        let mut b = self;
        b.config.warn_on_source_mismatch = warn;
        b
    }

    /// Set maximum receive buffer size (default: 65535).
    pub fn max_message_size(self, size: usize) -> (r: SharedUdpTransportBuilder)
        ensures
            r.bind_addr() == self.bind_addr(),
            r.config() == (SharedTransportConfig { max_message_size: size, ..self.config() }),
    {
        let mut b = self;
        b.config.max_message_size = size;
        b
    }

    /// The address and the configuration that were set.
    pub fn into_parts(self) -> (r: (String, SharedTransportConfig))
        ensures
            r.0@ == self.bind_addr(),
            r.1 == self.config(),
    {
        (self.bind_addr, self.config)
    }
}

impl Default for SharedUdpTransportBuilder {
    fn default() -> (r: SharedUdpTransportBuilder)
        ensures
            r.bind_addr() == "0.0.0.0:0"@,
            r.config() == (SharedTransportConfig {
                warn_on_source_mismatch: true,
                max_message_size: 65535,
            }),
    {
        SharedUdpTransportBuilder::new()
    }
}

/// The first request-id of a transport, from a number that differs between
/// runs: its magnitude, and 1 where the magnitude is not positive.
pub fn initial_request_id(seed: i32) -> (r: i32)
    ensures
        r >= 1,
        seed >= 1 ==> r == seed,
        -0x7FFF_FFFF <= seed <= -1 ==> r == -seed,
        seed == 0 || seed == -0x8000_0000 ==> r == 1,
{
    if seed >= 1 {
        seed
    } else if seed == 0 || seed == i32::MIN {
        1
    } else {
        -seed
    }
}

/// The request-id of a message, found without decoding the message: in a v3
/// message the msgID, the first INTEGER of the header; in a v1 or v2c
/// message the first INTEGER of the PDU. `None` when the octets do not have
/// that shape.
pub open spec fn request_id_of(s: Seq<u8>) -> Option<int> {
    match parse_element(s, 0, tag::universal::SEQUENCE) {
        Parsed::Failed { .. } => None,
        Parsed::Value { value: c, next: _ } => match parse_integer(c, 0) {
            Parsed::Failed { .. } => None,
            Parsed::Value { value: version, next: j1 } => if version == 3 {
                match parse_element(c, j1, tag::universal::SEQUENCE) {
                    Parsed::Failed { .. } => None,
                    Parsed::Value { value: header, next: _ } => match parse_integer(header, 0) {
                        Parsed::Failed { .. } => None,
                        Parsed::Value { value: id, next: _ } => Some(id),
                    },
                }
            } else {
                match parse_octet_string(c, j1) {
                    Parsed::Failed { .. } => None,
                    Parsed::Value { value: _, next: j2 } => match parse_any(c, j2) {
                        Parsed::Failed { .. } => None,
                        Parsed::Value { value: pdu, next: _ } => match parse_integer(pdu.1, 0) {
                            Parsed::Failed { .. } => None,
                            Parsed::Value { value: id, next: _ } => Some(id),
                        },
                    },
                }
            },
        },
    }
}

/// Extracts the request-id of a message.
pub fn extract_request_id(data: &[u8]) -> (r: Option<i32>)
    ensures
        match request_id_of(data@) {
            Some(id) => r == Some(id as i32) && -0x8000_0000 <= id <= 0x7FFF_FFFF,
            None => r is None,
        },
{
    let mut decoder = Decoder::from_slice(data);
    let mut body = match decoder.read_sequence() {
        Err(_) => {
            return None;
        },
        Ok(b) => b,
    };
    let ghost c = body.data();
    let version = match body.read_integer() {
        Err(_) => {
            return None;
        },
        Ok(v) => v,
    };
    proof {
        crate::ber::decode::lemma_parse_integer_shape(c, 0);
    }
    if version == 3 {
        let mut header = match body.read_sequence() {
            Err(_) => {
                return None;
            },
            Ok(h) => h,
        };
        proof {
            crate::ber::decode::lemma_parse_integer_shape(header.data(), 0);
        }
        match header.read_integer() {
            Err(_) => None,
            Ok(id) => Some(id),
        }
    } else {
        match body.read_octet_string() {
            Err(_) => {
                return None;
            },
            Ok(_) => {},
        }
        let (_, content) = match body.read_any() {
            Err(_) => {
                return None;
            },
            Ok(pair) => pair,
        };
        let mut pdu = Decoder::from_slice(content);
        proof {
            crate::ber::decode::lemma_parse_integer_shape(content@, 0);
        }
        match pdu.read_integer() {
            Err(_) => None,
            Ok(id) => Some(id),
        }
    }
}

/// A request that awaits its reply.
#[derive(Debug)]
pub struct PendingRequest<S> {
    /// The peer that the request was sent to.
    pub target: SocketAddress,
    /// The completion slot, which takes the reply; it is used once.
    pub sender: S,
    /// The time after which the request is given up.
    pub deadline: u64,
}

/// What the correlator makes of a datagram.
#[derive(Debug)]
pub enum Dispatch<S> {
    /// The datagram answers a pending request: fire the slot with the
    /// datagram. `source_mismatch` says that a warning is due, because the
    /// datagram came from another address than the request went to.
    Deliver { request_id: i32, pending: PendingRequest<S>, source_mismatch: bool },
    /// No request is pending under the request-id: drop the datagram.
    Unknown { request_id: i32 },
    /// The datagram has no request-id: drop it.
    Malformed,
}

/// The pending requests of a shared socket, by request-id, and the
/// request-id counter.
pub struct Correlator<S> {
    pending: HashMap<i32, PendingRequest<S>>,
    config: SharedTransportConfig,
    next_request_id: i32,
}

/// The request-ids under which a table holds an entry, in the order in
/// which the table is walked.
fn pending_ids<S>(table: &HashMap<i32, PendingRequest<S>>) -> (r: Vec<i32>)
    ensures
        forall|id: i32| table@.dom().contains(id) <==> r@.contains(id),
{
    let mut out: Vec<i32> = Vec::new();
    for id in walk: table.keys()
        invariant
            walk.seq().unref().to_set() == table@.dom(),
            forall|j: int| 0 <= j < out@.len() ==> table@.dom().contains(#[trigger] out@[j]),
            forall|j: int|
                0 <= j < walk.index() ==> out@.contains(#[trigger] walk.seq().unref()[j]),
    {
        let ghost before = out@;
        out.push(*id);
        proof {
            let keys = walk.seq().unref();
            let at = walk.index();
            assert(keys[at] == *id);
            assert(keys.to_set().contains(keys[at]));
            assert(out@[out@.len() - 1] == *id);
            assert forall|j: int| 0 <= j < at + 1 implies out@.contains(#[trigger] keys[j]) by {
                if j < at {
                    let w = choose|w: int| 0 <= w < before.len() && before[w] == keys[j];
                    assert(out@[w] == keys[j]);
                }
            }
        }
    }
    out
}

impl<S> Correlator<S> {
    /// The pending requests, by request-id.
    pub closed spec fn pending(self) -> Map<i32, PendingRequest<S>> {
        self.pending@
    }

    /// The request-id that the next allocation gives.
    pub closed spec fn next_id(self) -> i32 {
        self.next_request_id
    }

    /// The configuration.
    pub closed spec fn config(self) -> SharedTransportConfig {
        self.config
    }

    /// A correlator without pending requests, whose first request-id is
    /// `first_request_id`.
    pub fn new(config: SharedTransportConfig, first_request_id: i32) -> (r: Correlator<S>)
        ensures
            r.pending() == Map::<i32, PendingRequest<S>>::empty(),
            r.next_id() == first_request_id,
            r.config() == config,
    {
        Correlator { pending: HashMap::new(), config, next_request_id: first_request_id }
    }

    /// The number of pending requests.
    pub fn len(&self) -> (r: usize)
        ensures
            r == self.pending().dom().len(),
            self.pending().dom().finite(),
    {
        self.pending.len()
    }

    /// Allocate a request-id from the shared counter: the ids are handed out
    /// in turn, and the counter wraps around after the largest id.
    pub fn alloc_request_id(&mut self) -> (r: i32)
        ensures
            r == old(self).next_id(),
            final(self).next_id() == (if r == 0x7FFF_FFFF {
                -0x8000_0000
            } else {
                r + 1
            }),
            final(self).pending() == old(self).pending(),
            final(self).config() == old(self).config(),
    {
        let id = self.next_request_id;
        self.next_request_id = if id == i32::MAX {
            i32::MIN
        } else {
            id + 1
        };
        id
    }

    /// Registers a pending request under its request-id. An entry that was
    /// pending under the same id is replaced and given back.
    pub fn register(&mut self, request_id: i32, pending: PendingRequest<S>) -> (r: Option<
        PendingRequest<S>,
    >)
        ensures
            final(self).pending() == old(self).pending().insert(request_id, pending),
            r == (if old(self).pending().dom().contains(request_id) {
                Some(old(self).pending()[request_id])
            } else {
                None
            }),
            final(self).next_id() == old(self).next_id(),
            final(self).config() == old(self).config(),
    {
        self.pending.insert(request_id, pending)
    }

    /// Takes the entry under a request-id out of the table, as when the
    /// wait for its reply is given up.
    pub fn cancel(&mut self, request_id: i32) -> (r: Option<PendingRequest<S>>)
        ensures
            final(self).pending() == old(self).pending().remove(request_id),
            r == (if old(self).pending().dom().contains(request_id) {
                Some(old(self).pending()[request_id])
            } else {
                None
            }),
            final(self).next_id() == old(self).next_id(),
            final(self).config() == old(self).config(),
    {
        self.pending.remove(&request_id)
    }

    /// Routes a datagram. A datagram without a request-id is malformed; one
    /// whose request-id has no pending entry is unknown; else the entry is
    /// taken out of the table and handed over, with a warning due when the
    /// configuration asks for it and the source is not the target.
    pub fn dispatch(&mut self, data: &[u8], source: SocketAddress) -> (r: Dispatch<S>)
        ensures
            final(self).next_id() == old(self).next_id(),
            final(self).config() == old(self).config(),
            match request_id_of(data@) {
                None => r is Malformed && final(self).pending() == old(self).pending(),
                Some(id) => if old(self).pending().dom().contains(id as i32) {
                    r matches Dispatch::Deliver { request_id, pending, source_mismatch }
                        && request_id == id && pending == old(self).pending()[id as i32]
                        && source_mismatch == (old(self).config().warn_on_source_mismatch && source
                        != pending.target) && final(self).pending() == old(self).pending().remove(
                        id as i32,
                    )
                } else {
                    r matches Dispatch::Unknown { request_id } && request_id == id
                        && final(self).pending() == old(self).pending()
                },
            },
    {
        let request_id = match extract_request_id(data) {
            None => {
                return Dispatch::Malformed;
            },
            Some(id) => id,
        };
        let warn = self.config.warn_on_source_mismatch;
        match self.cancel(request_id) {
            None => {
                proof {
                    assert(final(self).pending() =~= old(self).pending());
                }
                Dispatch::Unknown { request_id }
            },
            Some(pending) => {
                let source_mismatch = warn && !same_address(&source, &pending.target);
                Dispatch::Deliver { request_id, pending, source_mismatch }
            },
        }
    }

    /// Whether the entry under a request-id has a deadline that has passed.
    fn expired(&self, request_id: i32, now: u64) -> (r: bool)
        ensures
            r == (self.pending().dom().contains(request_id) && self.pending()[request_id].deadline
                <= now),
    {
        match self.pending.get(&request_id) {
            Some(pending) => pending.deadline <= now,
            None => false,
        }
    }

    /// Reaps the entries whose deadline has passed: an entry stays exactly
    /// when its deadline is after `now`, and it stays as it is. The slots of
    /// the entries that are reaped are dropped with them.
    pub fn reap(&mut self, now: u64)
        ensures
            final(self).next_id() == old(self).next_id(),
            final(self).config() == old(self).config(),
            forall|id: i32| #[trigger]
                final(self).pending().dom().contains(id) <==> old(self).pending().dom().contains(id)
                    && old(self).pending()[id].deadline > now,
            forall|id: i32| #[trigger]
                final(self).pending().dom().contains(id) ==> final(self).pending()[id] == old(self).pending()[id],
    {
        let ids = pending_ids(&self.pending);
        let ghost before = self.pending@;
        let n = ids.len();
        let mut k: usize = 0;
        while k < n
            invariant
                k <= n,
                n == ids@.len(),
                self.next_request_id == old(self).next_request_id,
                self.config == old(self).config,
                before == old(self).pending(),
                forall|id: i32| before.dom().contains(id) <==> ids@.contains(id),
                forall|id: i32| #[trigger]
                    self.pending@.dom().contains(id) ==> before.dom().contains(id)
                        && self.pending@[id] == before[id],
                forall|id: i32|
                    before.dom().contains(id) && before[id].deadline > now
                        ==> #[trigger] self.pending@.dom().contains(id),
                forall|j: int|
                    0 <= j < k && before[#[trigger] ids@[j]].deadline <= now
                        ==> !self.pending@.dom().contains(ids@[j]),
            decreases n - k,
        {
            let id = ids[k];
            if self.expired(id, now) {
                let _ = self.pending.remove(&id);
            }
            k += 1;
        }
        proof {
            assert forall|id: i32| #[trigger]
                self.pending@.dom().contains(id) implies before[id].deadline > now by {
                let j = choose|j: int| 0 <= j < ids@.len() && ids@[j] == id;
                assert(ids@.contains(id));
            }
        }
    }
}

/// Whether two addresses are the same.
pub fn same_address(a: &SocketAddress, b: &SocketAddress) -> (r: bool)
    ensures
        r == (*a == *b),
{
    a.port == b.port && match (a.ip, b.ip) {
        (crate::addr::IpAddress::V4(a0, a1, a2, a3), crate::addr::IpAddress::V4(b0, b1, b2, b3)) => {
            a0 == b0 && a1 == b1 && a2 == b2 && a3 == b3
        },
        (
            crate::addr::IpAddress::V6(a0, a1, a2, a3, a4, a5, a6, a7),
            crate::addr::IpAddress::V6(b0, b1, b2, b3, b4, b5, b6, b7),
        ) => {
            a0 == b0 && a1 == b1 && a2 == b2 && a3 == b3 && a4 == b4 && a5 == b5 && a6 == b6 && a7
                == b7
        },
        _ => false,
    }
}

} // verus!
