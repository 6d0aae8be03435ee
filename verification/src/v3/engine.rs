//! Engine discovery and time synchronization of USM.
//!
//! A client keeps, for every peer, what it knows of the peer's engine: its
//! id, its boots and time, and when the time was learned. A message of the
//! engine is timely when its boots and time fit what is known.

use vstd::prelude::*;

use super::message::V3Message;
use crate::addr::SocketAddress;
use crate::error::{AuthErrorKind, CryptoErrorKind, Error, Result};
use crate::oid::Oid;
use crate::pdu::{Pdu, PduType};
use crate::transport::shared::same_address;

verus! {

/// The `msgMaxSize` that messages of this library carry by default.
pub const DEFAULT_MSG_MAX_SIZE: u32 = 65507;

/// The largest engine time and the largest engine boots: 2^31 - 1.
pub const MAX_ENGINE_TIME: u32 = 2147483647;

/// The number of seconds by which the time of a message may differ from the
/// time that is known.
pub const TIME_WINDOW: u32 = 150;

/// What a client knows of an authoritative engine.
#[derive(Debug, Clone, PartialEq, Eq)]
pub struct EngineState {
    /// The id of the engine.
    pub engine_id: Vec<u8>,
    /// The boots of the engine.
    pub engine_boots: u32,
    /// The time of the engine when it was learned.
    pub engine_time: u32,
    /// The highest engine time that a message of these boots has carried.
    pub latest_received_engine_time: u32,
    /// The local time, in seconds, at which the engine time was learned.
    pub synced_at: u64,
}

/// The time of the engine at the local time `now`, as far as it is known:
/// the time that was learned and the seconds that have passed since, at most
/// the largest engine time.
pub open spec fn estimated_time(engine_time: u32, synced_at: u64, now: u64) -> int {
    let passed = if now > synced_at {
        now - synced_at
    } else {
        0
    };
    if engine_time + passed > MAX_ENGINE_TIME {
        MAX_ENGINE_TIME as int
    } else {
        engine_time + passed
    }
}

/// Whether a message with the given boots and time is timely: its boots
/// are not below the boots that are known, its time differs from the time of
/// the engine by at most 150 seconds, and under the same boots its time is
/// not below the highest time received.
pub open spec fn in_time_window(state: EngineState, now: u64, boots: u32, time: u32) -> bool {
    let local = estimated_time(state.engine_time, state.synced_at, now);
    &&& boots >= state.engine_boots
    &&& time - local <= TIME_WINDOW
    &&& local - time <= TIME_WINDOW
    &&& boots == state.engine_boots ==> time >= state.latest_received_engine_time
}

/// Whether a message with the given boots and time brings news of the
/// engine: higher boots, or under the same boots a higher time than any
/// received.
pub open spec fn is_news(state: EngineState, boots: u32, time: u32) -> bool {
    boots > state.engine_boots || (boots == state.engine_boots && time
        > state.latest_received_engine_time)
}

impl EngineState {
    /// The state of an engine that was just discovered.
    pub fn new(engine_id: Vec<u8>, engine_boots: u32, engine_time: u32, now: u64) -> (r:
        EngineState)
        ensures
            r.engine_id == engine_id,
            r.engine_boots == engine_boots,
            r.engine_time == engine_time,
            r.latest_received_engine_time == engine_time,
            r.synced_at == now,
    {
        EngineState {
            engine_id,
            engine_boots,
            engine_time,
            latest_received_engine_time: engine_time,
            synced_at: now,
        }
    }

    /// The state by which an engine judges the messages that are sent to
    /// it: its own boots and time at `now`. It has received no time from
    /// anyone, so a message is timely when its boots are not below the
    /// engine's and its time is within the window.
    pub fn authoritative(engine_id: Vec<u8>, engine_boots: u32, engine_time: u32, now: u64) -> (r:
        EngineState)
        ensures
            r.engine_id == engine_id,
            r.engine_boots == engine_boots,
            r.engine_time == engine_time,
            r.latest_received_engine_time == 0,
            r.synced_at == now,
    {
        EngineState {
            engine_id,
            engine_boots,
            engine_time,
            latest_received_engine_time: 0,
            synced_at: now,
        }
    }

    /// The time of the engine at the local time `now`.
    pub fn estimated_time(&self, now: u64) -> (r: u32)
        ensures
            r == estimated_time(self.engine_time, self.synced_at, now),
    {
        let passed: u64 = if now > self.synced_at {
            now - self.synced_at
        } else {
            0
        };
        if self.engine_time >= MAX_ENGINE_TIME {
            MAX_ENGINE_TIME
        } else if passed > (MAX_ENGINE_TIME - self.engine_time) as u64 {
            MAX_ENGINE_TIME
        } else {
            self.engine_time + passed as u32
        }
    }

    /// Whether a message with the given boots and time is timely.
    pub fn is_in_time_window(&self, msg_boots: u32, msg_time: u32, now: u64) -> (r: bool)
        ensures
            r == in_time_window(*self, now, msg_boots, msg_time),
    {
        let local = self.estimated_time(now);
        if msg_boots < self.engine_boots {
            return false;
        }
        let diff = if msg_time > local {
            msg_time - local
        } else {
            local - msg_time
        };
        if diff > TIME_WINDOW {
            return false;
        }
        if msg_boots == self.engine_boots && msg_time < self.latest_received_engine_time {
            return false;
        }
        true
    }

    /// Takes the boots and time of a message that was authenticated. News
    /// of the engine replaces what was known, with `now` as the time of
    /// learning; anything else changes nothing. Says whether it was news.
    pub fn update_time(&mut self, msg_boots: u32, msg_time: u32, now: u64) -> (r: bool)
        ensures
            r == is_news(*old(self), msg_boots, msg_time),
            r ==> *final(self) == (EngineState {
                engine_boots: msg_boots,
                engine_time: msg_time,
                latest_received_engine_time: msg_time,
                synced_at: now,
                ..*old(self)
            }),
            !r ==> *final(self) == *old(self),
    {
        if msg_boots > self.engine_boots || (msg_boots == self.engine_boots && msg_time
            > self.latest_received_engine_time) {
            self.engine_boots = msg_boots;
            self.engine_time = msg_time;
            self.latest_received_engine_time = msg_time;
            self.synced_at = now;
            true
        } else {
            false
        }
    }

    /// A copy of the state.
    pub fn duplicate(&self) -> (r: EngineState)
        ensures
            r.engine_id@ == self.engine_id@,
            r.engine_boots == self.engine_boots,
            r.engine_time == self.engine_time,
            r.latest_received_engine_time == self.latest_received_engine_time,
            r.synced_at == self.synced_at,
    {
        EngineState {
            engine_id: self.engine_id.clone(),
            engine_boots: self.engine_boots,
            engine_time: self.engine_time,
            latest_received_engine_time: self.latest_received_engine_time,
            synced_at: self.synced_at,
        }
    }
}

/// One peer of the cache.
struct CachedEngine {
    peer: SocketAddress,
    state: EngineState,
}

/// The engines that are known, by the address of the peer. The cache is
/// shared by the clients of a process, so that discovery is paid once for
/// each peer.
pub struct EngineCache {
    entries: Vec<CachedEngine>,
}

/// The position of the first entry for a peer from position `i` on, or the
/// number of entries when there is none.
spec fn peer_position(entries: Seq<CachedEngine>, peer: SocketAddress, i: int) -> int
    decreases entries.len() - i,
{
    if i < 0 || i >= entries.len() {
        entries.len() as int
    } else if entries[i].peer == peer {
        i
    } else {
        peer_position(entries, peer, i + 1)
    }
}

proof fn lemma_peer_position(entries: Seq<CachedEngine>, peer: SocketAddress, i: int)
    requires
        0 <= i <= entries.len(),
    ensures
        i <= peer_position(entries, peer, i) <= entries.len(),
        peer_position(entries, peer, i) < entries.len() ==> entries[peer_position(
            entries,
            peer,
            i,
        )].peer == peer,
    decreases entries.len() - i,
{
    if i < entries.len() && entries[i].peer != peer {
        lemma_peer_position(entries, peer, i + 1);
    }
}

proof fn lemma_peer_position_is(entries: Seq<CachedEngine>, peer: SocketAddress, i: int, p: int)
    requires
        0 <= i <= p <= entries.len(),
        p < entries.len() ==> entries[p].peer == peer,
        forall|j: int| i <= j < p ==> entries[j].peer != peer,
    ensures
        peer_position(entries, peer, i) == p,
    decreases p - i,
{
    if i < p {
        lemma_peer_position_is(entries, peer, i + 1, p);
    }
}

/// The peers without one peer, in their order.
pub open spec fn without(peers: Seq<SocketAddress>, peer: SocketAddress) -> Seq<SocketAddress>
    decreases peers.len(),
{
    if peers.len() == 0 {
        peers
    } else if peers.last() == peer {
        without(peers.drop_last(), peer)
    } else {
        without(peers.drop_last(), peer).push(peers.last())
    }
}

/// Taking out one occurrence of a peer changes nothing of the peers
/// without that peer.
proof fn lemma_without_after_remove(peers: Seq<SocketAddress>, peer: SocketAddress, k: int)
    requires
        0 <= k < peers.len(),
        peers[k] == peer,
    ensures
        without(peers.remove(k), peer) == without(peers, peer),
    decreases peers.len(),
{
    let shorter = peers.remove(k);
    if k == peers.len() - 1 {
        assert(shorter =~= peers.drop_last());
    } else {
        assert(shorter.last() == peers.last());
        assert(shorter.drop_last() =~= peers.drop_last().remove(k));
        lemma_without_after_remove(peers.drop_last(), peer, k);
    }
}

/// Where a peer does not occur, the peers without it are all the peers.
proof fn lemma_without_absent(peers: Seq<SocketAddress>, peer: SocketAddress)
    requires
        forall|j: int| 0 <= j < peers.len() ==> peers[j] != peer,
    ensures
        without(peers, peer) == peers,
    decreases peers.len(),
{
    if peers.len() > 0 {
        lemma_without_absent(peers.drop_last(), peer);
        assert(peers.drop_last().push(peers.last()) =~= peers);
    }
}

/// The peers of the entries, in their order.
spec fn peers_of(entries: Seq<CachedEngine>) -> Seq<SocketAddress> {
    Seq::new(entries.len(), |i: int| entries[i].peer)
}

impl EngineCache {
    /// The peers that the cache holds, in the order in which they came in.
    pub closed spec fn peers(self) -> Seq<SocketAddress> {
        peers_of(self.entries@)
    }

    /// No peer is held twice. A new cache holds none, and `insert` and
    /// `remove` keep it so.
    pub open spec fn distinct(self) -> bool {
        self.peers().no_duplicates()
    }

    /// The peers that the cache holds are the peers of whose engine
    /// something is known.
    pub proof fn lemma_held_iff_known(self, peer: SocketAddress)
        ensures
            self.peers().contains(peer) <==> self.state_of(peer) is Some,
    {
        let entries = self.entries@;
        lemma_peer_position(entries, peer, 0);
        let p = peer_position(entries, peer, 0);
        if p < entries.len() {
            assert(self.peers()[p] == peer);
        } else {
            assert forall|j: int| 0 <= j < entries.len() implies entries[j].peer != peer by {
                lemma_peer_position_prefix(entries, peer, 0, j);
            }
            if self.peers().contains(peer) {
                let j = choose|j: int| 0 <= j < self.peers().len() && self.peers()[j] == peer;
                assert(entries[j].peer == peer);
            }
        }
    }

    /// What is known of the engine of a peer, if anything.
    pub closed spec fn state_of(self, peer: SocketAddress) -> Option<EngineState> {
        let p = peer_position(self.entries@, peer, 0);
        if p < self.entries@.len() {
            Some(self.entries@[p].state)
        } else {
            None
        }
    }

    /// A cache without engines.
    pub fn new() -> (r: EngineCache)
        ensures
            r.peers() == Seq::<SocketAddress>::empty(),
            forall|peer: SocketAddress| r.state_of(peer) is None,
    {
        let r = EngineCache { entries: Vec::new() };
        proof {
            assert(r.peers() =~= Seq::<SocketAddress>::empty());
        }
        r
    }

    /// The position of the entry for a peer.
    fn find(&self, peer: &SocketAddress) -> (r: Option<usize>)
        ensures
            match r {
                Some(k) => k == peer_position(self.entries@, *peer, 0) && k < self.entries@.len(),
                None => peer_position(self.entries@, *peer, 0) == self.entries@.len(),
            },
    {
        let n = self.entries.len();
        let mut k: usize = 0;
        while k < n
            invariant
                k <= n,
                n == self.entries@.len(),
                forall|j: int| 0 <= j < k ==> self.entries@[j].peer != *peer,
            decreases n - k,
        {
            if same_address(&self.entries[k].peer, peer) {
                proof {
                    lemma_peer_position_is(self.entries@, *peer, 0, k as int);
                }
                return Some(k);
            }
            k += 1;
        }
        proof {
            lemma_peer_position_is(self.entries@, *peer, 0, n as int);
        }
        None
    }

    /// What is known of the engine of a peer.
    pub fn get(&self, peer: &SocketAddress) -> (r: Option<&EngineState>)
        ensures
            match r {
                Some(state) => self.state_of(*peer) == Some(*state),
                None => self.state_of(*peer) is None,
            },
    {
        match self.find(peer) {
            Some(k) => Some(&self.entries[k].state),
            None => None,
        }
    }

    /// Sets what is known of the engine of a peer: a peer that the cache
    /// holds keeps its place, and a new peer comes in behind the others.
    pub fn insert(&mut self, peer: SocketAddress, state: EngineState)
        ensures
            final(self).state_of(peer) == Some(state),
            forall|other: SocketAddress|
                other != peer ==> final(self).state_of(other) == old(self).state_of(other),
            final(self).peers() == (if old(self).peers().contains(peer) {
                old(self).peers()
            } else {
                old(self).peers().push(peer)
            }),
            old(self).distinct() ==> final(self).distinct(),
    {
        let found = self.find(&peer);
        let ghost before = self.entries@;
        let entry = CachedEngine { peer, state };
        let k = match found {
            Some(k) => {
                self.entries.set(k, entry);
                k
            },
            None => {
                self.entries.push(entry);
                self.entries.len() - 1
            },
        };
        proof {
            let after = self.entries@;
            lemma_peer_position(before, peer, 0);
            assert forall|j: int| 0 <= j < k implies after[j].peer != peer by {
                lemma_peer_position_prefix(before, peer, 0, j);
            }
            match found {
                Some(_) => {
                    assert(peers_of(before)[k as int] == peer);
                    assert(peers_of(after) =~= peers_of(before));
                },
                None => {
                    assert(!peers_of(before).contains(peer)) by {
                        if peers_of(before).contains(peer) {
                            let j = choose|j: int|
                                0 <= j < peers_of(before).len() && peers_of(before)[j] == peer;
                            lemma_peer_position_prefix(before, peer, 0, j);
                        }
                    }
                    assert(peers_of(after) =~= peers_of(before).push(peer));
                },
            }
            lemma_peer_position_is(after, peer, 0, k as int);
            assert forall|other: SocketAddress| other != peer implies final(self).state_of(other)
                == old(self).state_of(other) by {
                lemma_peer_position(before, other, 0);
                let p = peer_position(before, other, 0);
                assert forall|j: int| 0 <= j < p && j < after.len() implies after[j].peer
                    != other by {
                    if j < before.len() {
                        lemma_peer_position_prefix(before, other, 0, j);
                    }
                }
                if p < before.len() {
                    lemma_peer_position_is(after, other, 0, p);
                } else {
                    lemma_peer_position_is(after, other, 0, after.len() as int);
                }
            }
        }
    }

    /// Forgets the engine of a peer, as when it has to be discovered again.
    /// The other peers keep their order.
    pub fn remove(&mut self, peer: &SocketAddress) -> (r: Option<EngineState>)
        ensures
            r == old(self).state_of(*peer),
            final(self).state_of(*peer) is None,
            forall|other: SocketAddress|
                other != *peer ==> final(self).state_of(other) == old(self).state_of(other),
            final(self).peers() == without(old(self).peers(), *peer),
    {
        let mut first: Option<EngineState> = None;
        let mut found = self.find(peer);
        let ghost mut removed_any = false;
        while found.is_some()
            invariant
                match found {
                    Some(k) => k == peer_position(self.entries@, *peer, 0) && k < self.entries@.len(),
                    None => peer_position(self.entries@, *peer, 0) == self.entries@.len(),
                },
                forall|other: SocketAddress|
                    other != *peer ==> self.state_of(other) == old(self).state_of(other),
                removed_any ==> first == old(self).state_of(*peer) && first is Some,
                !removed_any ==> first is None && self.state_of(*peer) == old(self).state_of(*peer),
                without(self.peers(), *peer) == without(old(self).peers(), *peer),
            decreases self.entries@.len(),
        {
            let k = match found {
                Some(k) => k,
                None => 0,
            };
            let ghost before = self.entries@;
            let entry = self.entries.remove(k);
            proof {
                lemma_peer_position(before, *peer, 0);
                assert forall|other: SocketAddress| other != *peer implies self.state_of(other)
                    == old(self).state_of(other) by {
                    lemma_remove_other(before, k as int, other);
                }
                assert(peers_of(before)[k as int] == *peer);
                assert(peers_of(self.entries@) =~= peers_of(before).remove(k as int));
                lemma_without_after_remove(peers_of(before), *peer, k as int);
            }
            match first {
                None => {
                    first = Some(entry.state);
                },
                Some(_) => {},
            }
            proof {
                removed_any = true;
            }
            found = self.find(peer);
        }
        proof {
            let entries = self.entries@;
            assert forall|j: int| 0 <= j < self.peers().len() implies self.peers()[j] != *peer by {
                lemma_peer_position_prefix(entries, *peer, 0, j);
            }
            lemma_without_absent(self.peers(), *peer);
        }
        first
    }

    /// The number of peers that the cache holds. While no peer is held
    /// twice, it is the number of peers of whose engine something is known.
    pub fn len(&self) -> (r: usize)
        ensures
            r == self.peers().len(),
            r == 0 <==> forall|peer: SocketAddress| self.state_of(peer) is None,
            self.distinct() ==> r == self.peers().to_set().len(),
    {
        proof {
            if self.entries@.len() == 0 {
                assert forall|peer: SocketAddress| self.state_of(peer) is None by {
                    lemma_peer_position(self.entries@, peer, 0);
                }
            } else {
                let first = self.entries@[0].peer;
                lemma_peer_position_is(self.entries@, first, 0, 0);
                assert(self.state_of(first) is Some);
            }
            if self.distinct() {
                self.peers().unique_seq_to_set();
            }
        }
        self.entries.len()
    }
}

/// No entry before the first position for a peer is for the peer.
proof fn lemma_peer_position_prefix(entries: Seq<CachedEngine>, peer: SocketAddress, i: int, j: int)
    requires
        0 <= i <= j < peer_position(entries, peer, i),
        peer_position(entries, peer, i) <= entries.len(),
    ensures
        entries[j].peer != peer,
    decreases j - i,
{
    if i < j {
        lemma_peer_position_prefix(entries, peer, i + 1, j);
    }
}

/// Taking out an entry for one peer changes nothing of what is found for
/// another peer.
proof fn lemma_remove_other(entries: Seq<CachedEngine>, k: int, other: SocketAddress)
    requires
        0 <= k < entries.len(),
        entries[k].peer != other,
    ensures
        ({
            let after = entries.remove(k);
            let p = peer_position(entries, other, 0);
            let q = peer_position(after, other, 0);
            (p < entries.len()) == (q < after.len()) && (p < entries.len() ==> entries[p].state
                == after[q].state)
        }),
{
    let after = entries.remove(k);
    lemma_peer_position(entries, other, 0);
    let p = peer_position(entries, other, 0);
    let target = if p < k {
        p
    } else {
        p - 1
    };
    assert forall|j: int| 0 <= j < target implies after[j].peer != other by {
        let src = if j < k {
            j
        } else {
            j + 1
        };
        assert(after[j] == entries[src]);
        lemma_peer_position_prefix(entries, other, 0, src);
    }
    if p < entries.len() {
        assert(after[target] == entries[p]);
    }
    lemma_peer_position_is(after, other, 0, target);
}

/// The OID of a counter of `usmStats`: `1.3.6.1.6.3.15.1.1.n.0`.
pub open spec fn usm_stats(n: u32) -> Seq<u32> {
    seq![1u32, 3, 6, 1, 6, 3, 15, 1, 1, n, 0]
}

/// The reports of USM.
#[derive(Debug, Clone, Copy, PartialEq, Eq, Structural)]
pub enum Report {
    UnsupportedSecLevels,
    NotInTimeWindows,
    UnknownUserNames,
    UnknownEngineIds,
    WrongDigests,
    DecryptionErrors,
}

impl Report {
    /// The number of the counter under `usmStats`.
    pub open spec fn number(self) -> u32 {
        match self {
            Report::UnsupportedSecLevels => 1,
            Report::NotInTimeWindows => 2,
            Report::UnknownUserNames => 3,
            Report::UnknownEngineIds => 4,
            Report::WrongDigests => 5,
            Report::DecryptionErrors => 6,
        }
    }

    /// The OID of the counter that the report carries.
    pub fn oid(self) -> (r: Oid)
        ensures
            r@ == usm_stats(self.number()),
    {
        let n: u32 = match self {
            Report::UnsupportedSecLevels => 1,
            Report::NotInTimeWindows => 2,
            Report::UnknownUserNames => 3,
            Report::UnknownEngineIds => 4,
            Report::WrongDigests => 5,
            Report::DecryptionErrors => 6,
        };
        let arcs: [u32; 11] = [1, 3, 6, 1, 6, 3, 15, 1, 1, n, 0];
        let r = Oid::from_slice(arcs.as_slice());
        proof {
            assert(r@ =~= usm_stats(n));
        }
        r
    }
}

/// Whether a PDU is the given report: a Report PDU with a variable binding
/// for the counter.
pub open spec fn is_report(pdu: Pdu, report: Report) -> bool {
    pdu.pdu_type == PduType::Report && exists|i: int|
        0 <= i < pdu.varbinds@.len() && (#[trigger] pdu.varbinds@[i]).oid@ == usm_stats(
            report.number(),
        )
}

/// Whether a PDU is the given report.
pub fn is_report_of(pdu: &Pdu, report: Report) -> (r: bool)
    ensures
        r == is_report(*pdu, report),
{
    match pdu.pdu_type {
        PduType::Report => {},
        _ => {
            return false;
        },
    }
    let wanted = report.oid();
    let n = pdu.varbinds.len();
    let mut k: usize = 0;
    while k < n
        invariant
            k <= n,
            n == pdu.varbinds@.len(),
            wanted@ == usm_stats(report.number()),
            pdu.pdu_type == PduType::Report,
            forall|i: int| 0 <= i < k ==> (#[trigger] pdu.varbinds@[i]).oid@ != wanted@,
        decreases n - k,
    {
        if pdu.varbinds[k].oid.equals(&wanted) {
            return true;
        }
        k += 1;
    }
    false
}

/// Whether a PDU reports an unknown engine id.
pub fn is_unknown_engine_id_report(pdu: &Pdu) -> (r: bool)
    ensures
        r == is_report(*pdu, Report::UnknownEngineIds),
{
    is_report_of(pdu, Report::UnknownEngineIds)
}

/// Whether a PDU reports a message outside the time window.
pub fn is_not_in_time_window_report(pdu: &Pdu) -> (r: bool)
    ensures
        r == is_report(*pdu, Report::NotInTimeWindows),
{
    is_report_of(pdu, Report::NotInTimeWindows)
}

/// Whether a PDU reports an unknown user name.
pub fn is_unknown_user_name_report(pdu: &Pdu) -> (r: bool)
    ensures
        r == is_report(*pdu, Report::UnknownUserNames),
{
    is_report_of(pdu, Report::UnknownUserNames)
}

/// Whether a PDU reports an unsupported security level.
pub fn is_unsupported_sec_level_report(pdu: &Pdu) -> (r: bool)
    ensures
        r == is_report(*pdu, Report::UnsupportedSecLevels),
{
    is_report_of(pdu, Report::UnsupportedSecLevels)
}

/// Whether a PDU reports a wrong digest.
pub fn is_wrong_digest_report(pdu: &Pdu) -> (r: bool)
    ensures
        r == is_report(*pdu, Report::WrongDigests),
{
    is_report_of(pdu, Report::WrongDigests)
}

/// Whether a PDU reports a decryption error.
pub fn is_decryption_error_report(pdu: &Pdu) -> (r: bool)
    ensures
        r == is_report(*pdu, Report::DecryptionErrors),
{
    is_report_of(pdu, Report::DecryptionErrors)
}

/// The error that a Report PDU stands for at the client; `None` for a PDU
/// that is none of the reports of USM. An unknown engine id asks for
/// discovery, a message outside the time window for a new estimate of the
/// time; a wrong digest, an unknown user and an unsupported level fail
/// authentication; a decryption error fails decryption.
pub open spec fn report_fault(pdu: Pdu, target: Option<SocketAddress>) -> Option<Error> {
    if is_report(pdu, Report::UnknownEngineIds) {
        Some(Error::UnknownEngineId { target })
    } else if is_report(pdu, Report::NotInTimeWindows) {
        Some(Error::NotInTimeWindow { target })
    } else if is_report(pdu, Report::WrongDigests) {
        Some(Error::AuthenticationFailed { target, kind: AuthErrorKind::HmacMismatch })
    } else if is_report(pdu, Report::UnknownUserNames) {
        Some(Error::AuthenticationFailed { target, kind: AuthErrorKind::NoUser })
    } else if is_report(pdu, Report::UnsupportedSecLevels) {
        Some(Error::AuthenticationFailed { target, kind: AuthErrorKind::NoCredentials })
    } else if is_report(pdu, Report::DecryptionErrors) {
        Some(Error::DecryptionFailed { target, kind: CryptoErrorKind::CipherError })
    } else {
        None
    }
}

/// The error that a Report PDU stands for at the client.
pub fn report_error(pdu: &Pdu, target: Option<SocketAddress>) -> (r: Option<Error>)
    ensures
        r == report_fault(*pdu, target),
{
    if is_report_of(pdu, Report::UnknownEngineIds) {
        Some(Error::UnknownEngineId { target })
    } else if is_report_of(pdu, Report::NotInTimeWindows) {
        Some(Error::NotInTimeWindow { target })
    } else if is_report_of(pdu, Report::WrongDigests) {
        Some(Error::AuthenticationFailed { target, kind: AuthErrorKind::HmacMismatch })
    } else if is_report_of(pdu, Report::UnknownUserNames) {
        Some(Error::AuthenticationFailed { target, kind: AuthErrorKind::NoUser })
    } else if is_report_of(pdu, Report::UnsupportedSecLevels) {
        Some(Error::AuthenticationFailed { target, kind: AuthErrorKind::NoCredentials })
    } else if is_report_of(pdu, Report::DecryptionErrors) {
        Some(Error::DecryptionFailed { target, kind: CryptoErrorKind::CipherError })
    } else {
        None
    }
}

/// What the answer to a discovery request tells of the engine: the id,
/// boots and time of its security parameters, learned at `now`. An answer
/// without an engine id tells nothing.
pub fn parse_discovery_response(message: &V3Message, now: u64) -> (r: Result<EngineState>)
    ensures
        message.security_params.engine_id@.len() == 0 ==> r == Err::<EngineState, Error>(
            Error::UnknownEngineId { target: None },
        ),
        message.security_params.engine_id@.len() > 0 ==> (r matches Ok(state) && state.engine_id@
            == message.security_params.engine_id@ && state.engine_boots as int == (
        if message.security_params.engine_boots < 0 {
            0
        } else {
            message.security_params.engine_boots as int
        }) && state.engine_time as int == (if message.security_params.engine_time < 0 {
            0
        } else {
            message.security_params.engine_time as int
        }) && state.latest_received_engine_time == state.engine_time && state.synced_at == now),
{
    let params = &message.security_params;
    if params.engine_id.len() == 0 {
        return Err(Error::UnknownEngineId { target: None });
    }
    let boots: u32 = if params.engine_boots < 0 {
        0
    } else {
        params.engine_boots as u32
    };
    let time: u32 = if params.engine_time < 0 {
        0
    } else {
        params.engine_time as u32
    };
    Ok(EngineState::new(params.engine_id.clone(), boots, time, now))
}

} // verus!
