use async_snmp::client::request::{
    check_response, get_bulk_request, get_next_request, next_request_id, timeout_error,
};
use async_snmp::client::walk::{BulkStep, BulkWalk, Walk};
use async_snmp::error::{Error, Result};
use async_snmp::message::CommunityMessage;
use async_snmp::oid::Oid;
use async_snmp::pdu::{Pdu, PduType};
use async_snmp::transport::shared::initial_request_id;
use async_snmp::value::Value;
use async_snmp::varbind::VarBind;
use async_snmp::version::Version;

/// What the peer does in answer to one request.
enum Reply {
    Response(Vec<u8>),
    Timeout,
}

/// Builds the octets of a v2c response.
struct ResponseBuilder {
    request_id: i32,
    varbinds: Vec<VarBind>,
}

impl ResponseBuilder {
    fn new(request_id: i32) -> Self {
        ResponseBuilder { request_id, varbinds: Vec::new() }
    }

    fn varbind(mut self, oid: Oid, value: Value) -> Self {
        self.varbinds.push(VarBind::new(oid, value));
        self
    }

    fn build_v2c(self, community: &[u8]) -> Reply {
        let pdu = Pdu::new(PduType::Response, self.request_id, self.varbinds);
        Reply::Response(CommunityMessage::new(Version::V2c, community.to_vec(), pdu).encode_vec())
    }
}

/// A peer that gives its queued replies in turn, and a client's side of one
/// request: the request is encoded, the reply decoded and checked.
struct MockPeer {
    replies: std::collections::VecDeque<Reply>,
    next_id: i32,
}

impl MockPeer {
    fn new() -> Self {
        MockPeer { replies: std::collections::VecDeque::new(), next_id: 1 }
    }

    fn queue_response(&mut self, reply: Reply) {
        self.replies.push_back(reply);
    }

    fn queue_timeout(&mut self) {
        self.replies.push_back(Reply::Timeout);
    }

    fn request(&mut self, pdu: Pdu) -> Result<Vec<VarBind>> {
        let request_id = pdu.request_id;
        let sent = CommunityMessage::new(Version::V2c, b"public".to_vec(), pdu).encode_vec();
        assert!(CommunityMessage::decode_slice(&sent).is_ok());
        match self.replies.pop_front() {
            Some(Reply::Response(bytes)) => {
                let answer = CommunityMessage::decode_slice(&bytes)?;
                check_response(Version::V2c, request_id, answer.version, &answer.pdu, None)
            }
            Some(Reply::Timeout) | None => Err(timeout_error(None, 1000, request_id, 0)),
        }
    }

    fn alloc_id(&mut self) -> i32 {
        let id = self.next_id;
        self.next_id = next_request_id(id);
        id
    }

    fn get_next(&mut self, oid: &Oid) -> Result<VarBind> {
        let id = self.alloc_id();
        let mut varbinds = self.request(get_next_request(id, std::slice::from_ref(oid)))?;
        Ok(varbinds.remove(0))
    }

    fn get_bulk(
        &mut self,
        oid: &Oid,
        non_repeaters: i32,
        max_repetitions: i32,
    ) -> Result<Vec<VarBind>> {
        let id = self.alloc_id();
        self.request(get_bulk_request(id, non_repeaters, max_repetitions, std::slice::from_ref(oid)))
    }
}

fn collect_walk(peer: &mut MockPeer, base: Oid, limit: usize) -> Vec<Result<VarBind>> {
    let mut walk = Walk::new(base);
    let mut results = Vec::new();
    while results.len() < limit {
        let oid = match walk.next_request() {
            Some(oid) => oid,
            None => break,
        };
        let reply = peer.get_next(&oid);
        match walk.on_reply(reply) {
            Some(item) => results.push(item),
            None => break,
        }
    }
    results
}

fn collect_bulk_walk(
    peer: &mut MockPeer,
    base: Oid,
    max_repetitions: i32,
    limit: usize,
) -> Vec<Result<VarBind>> {
    let mut walk = BulkWalk::new(base, max_repetitions);
    let mut results = Vec::new();
    while results.len() < limit {
        match walk.poll() {
            BulkStep::Yield(Some(item)) => results.push(item),
            BulkStep::Yield(None) => break,
            BulkStep::Fetch { oid, non_repeaters, max_repetitions } => {
                let reply = peer.get_bulk(&oid, non_repeaters, max_repetitions);
                walk.on_reply(reply);
            }
        }
    }
    results
}

#[test]
fn test_walk_terminates_on_end_of_mib_view() {
    let mut mock = MockPeer::new();

    // First response: a valid binding in the subtree
    mock.queue_response(
        ResponseBuilder::new(1)
            .varbind(Oid::from_slice(&[1, 3, 6, 1, 2, 1, 1, 1, 0]), Value::OctetString(b"test".to_vec()))
            .build_v2c(b"public"),
    );

    // Second response: EndOfMibView
    mock.queue_response(
        ResponseBuilder::new(2)
            .varbind(Oid::from_slice(&[1, 3, 6, 1, 2, 1, 1, 1, 0]), Value::EndOfMibView)
            .build_v2c(b"public"),
    );

    let results = collect_walk(&mut mock, Oid::from_slice(&[1, 3, 6, 1, 2, 1, 1]), 10);

    assert_eq!(results.len(), 1);
    assert!(results[0].is_ok());
}

#[test]
fn test_walk_terminates_when_leaving_subtree() {
    let mut mock = MockPeer::new();

    // Response with OID outside the walked subtree (interfaces, not system)
    mock.queue_response(
        ResponseBuilder::new(1)
            .varbind(Oid::from_slice(&[1, 3, 6, 1, 2, 1, 2, 1, 0]), Value::Integer(1))
            .build_v2c(b"public"),
    );

    let results = collect_walk(&mut mock, Oid::from_slice(&[1, 3, 6, 1, 2, 1, 1]), 10);

    // Should terminate immediately with no results
    assert_eq!(results.len(), 0);
}

#[test]
fn test_walk_returns_oids_in_sequence() {
    let mut mock = MockPeer::new();

    // Queue three responses in lexicographic order
    mock.queue_response(
        ResponseBuilder::new(1)
            .varbind(Oid::from_slice(&[1, 3, 6, 1, 2, 1, 1, 1, 0]), Value::OctetString(b"desc".to_vec()))
            .build_v2c(b"public"),
    );
    mock.queue_response(
        ResponseBuilder::new(2)
            .varbind(
                Oid::from_slice(&[1, 3, 6, 1, 2, 1, 1, 2, 0]),
                Value::ObjectIdentifier(Oid::from_slice(&[1, 3, 6, 1, 4, 1, 99])),
            )
            .build_v2c(b"public"),
    );
    mock.queue_response(
        ResponseBuilder::new(3)
            .varbind(Oid::from_slice(&[1, 3, 6, 1, 2, 1, 1, 3, 0]), Value::TimeTicks(12345))
            .build_v2c(b"public"),
    );
    // Fourth response leaves subtree
    mock.queue_response(
        ResponseBuilder::new(4)
            .varbind(Oid::from_slice(&[1, 3, 6, 1, 2, 1, 2, 1, 0]), Value::Integer(1))
            .build_v2c(b"public"),
    );

    let results = collect_walk(&mut mock, Oid::from_slice(&[1, 3, 6, 1, 2, 1, 1]), 10);

    assert_eq!(results.len(), 3);

    // Verify lexicographic ordering
    let oids: Vec<_> = results.iter().filter_map(|r| r.as_ref().ok()).map(|vb| &vb.oid).collect();
    for i in 1..oids.len() {
        assert!(oids[i] > oids[i - 1], "OIDs should be strictly increasing");
    }
}

#[test]
fn test_walk_propagates_errors() {
    let mut mock = MockPeer::new();

    // First response succeeds
    mock.queue_response(
        ResponseBuilder::new(1)
            .varbind(Oid::from_slice(&[1, 3, 6, 1, 2, 1, 1, 1, 0]), Value::OctetString(b"test".to_vec()))
            .build_v2c(b"public"),
    );

    // Second request times out
    mock.queue_timeout();

    let results = collect_walk(&mut mock, Oid::from_slice(&[1, 3, 6, 1, 2, 1, 1]), 10);

    assert_eq!(results.len(), 2);
    assert!(results[0].is_ok());
    assert!(results[1].is_err());
}

#[test]
fn test_bulk_walk_terminates_on_end_of_mib_view() {
    let mut mock = MockPeer::new();

    // GETBULK response with multiple varbinds, last one is EndOfMibView
    mock.queue_response(
        ResponseBuilder::new(1)
            .varbind(Oid::from_slice(&[1, 3, 6, 1, 2, 1, 1, 1, 0]), Value::OctetString(b"desc".to_vec()))
            .varbind(
                Oid::from_slice(&[1, 3, 6, 1, 2, 1, 1, 2, 0]),
                Value::ObjectIdentifier(Oid::from_slice(&[1, 3, 6, 1, 4, 1, 99])),
            )
            .varbind(Oid::from_slice(&[1, 3, 6, 1, 2, 1, 1, 3, 0]), Value::EndOfMibView)
            .build_v2c(b"public"),
    );

    let results = collect_bulk_walk(&mut mock, Oid::from_slice(&[1, 3, 6, 1, 2, 1, 1]), 10, 20);

    // Should return 2 valid results before EndOfMibView terminates
    assert_eq!(results.len(), 2);
    assert!(results.iter().all(|r| r.is_ok()));
}

#[test]
fn test_bulk_walk_terminates_when_leaving_subtree() {
    let mut mock = MockPeer::new();

    // GETBULK returns varbinds, some in subtree, one outside
    mock.queue_response(
        ResponseBuilder::new(1)
            .varbind(Oid::from_slice(&[1, 3, 6, 1, 2, 1, 1, 1, 0]), Value::OctetString(b"desc".to_vec()))
            .varbind(
                Oid::from_slice(&[1, 3, 6, 1, 2, 1, 1, 2, 0]),
                Value::ObjectIdentifier(Oid::from_slice(&[1, 3, 6, 1, 4, 1, 99])),
            )
            .varbind(Oid::from_slice(&[1, 3, 6, 1, 2, 1, 2, 1, 0]), Value::Integer(1))
            .build_v2c(b"public"),
    );

    let results = collect_bulk_walk(&mut mock, Oid::from_slice(&[1, 3, 6, 1, 2, 1, 1]), 10, 20);

    // Should return 2 results (third OID is outside subtree)
    assert_eq!(results.len(), 2);
}

#[test]
fn test_bulk_walk_handles_empty_response() {
    let mut mock = MockPeer::new();

    // Empty GETBULK response (no varbinds)
    mock.queue_response(ResponseBuilder::new(1).build_v2c(b"public"));

    let results = collect_bulk_walk(&mut mock, Oid::from_slice(&[1, 3, 6, 1, 2, 1, 1]), 10, 20);

    // Should return empty
    assert_eq!(results.len(), 0);
}

#[test]
fn test_walk_errors_on_decreasing_oid() {
    let mut mock = MockPeer::new();

    // First response: .1.3.6.1.2.1.1.5.0
    mock.queue_response(
        ResponseBuilder::new(1)
            .varbind(Oid::from_slice(&[1, 3, 6, 1, 2, 1, 1, 5, 0]), Value::OctetString(b"host1".to_vec()))
            .build_v2c(b"public"),
    );

    // Second response: .1.3.6.1.2.1.1.4.0 (decreasing: goes backwards)
    mock.queue_response(
        ResponseBuilder::new(2)
            .varbind(Oid::from_slice(&[1, 3, 6, 1, 2, 1, 1, 4, 0]), Value::OctetString(b"admin".to_vec()))
            .build_v2c(b"public"),
    );

    let results = collect_walk(&mut mock, Oid::from_slice(&[1, 3, 6, 1, 2, 1, 1]), 10);

    // Should get first result OK, then error on second
    assert_eq!(results.len(), 2);
    assert!(results[0].is_ok());
    assert!(matches!(
        &results[1],
        Err(Error::NonIncreasingOid { previous, current })
        if previous == &Oid::from_slice(&[1, 3, 6, 1, 2, 1, 1, 5, 0])
           && current == &Oid::from_slice(&[1, 3, 6, 1, 2, 1, 1, 4, 0])
    ));
}

#[test]
fn test_walk_errors_on_same_oid_returned_twice() {
    let mut mock = MockPeer::new();

    // First response: .1.3.6.1.2.1.1.1.0
    mock.queue_response(
        ResponseBuilder::new(1)
            .varbind(Oid::from_slice(&[1, 3, 6, 1, 2, 1, 1, 1, 0]), Value::OctetString(b"desc".to_vec()))
            .build_v2c(b"public"),
    );

    // Second response: same OID again (would cause an infinite loop)
    mock.queue_response(
        ResponseBuilder::new(2)
            .varbind(Oid::from_slice(&[1, 3, 6, 1, 2, 1, 1, 1, 0]), Value::OctetString(b"desc".to_vec()))
            .build_v2c(b"public"),
    );

    let results = collect_walk(&mut mock, Oid::from_slice(&[1, 3, 6, 1, 2, 1, 1]), 10);

    // Should get first result OK, then error on second
    assert_eq!(results.len(), 2);
    assert!(results[0].is_ok());
    assert!(matches!(
        &results[1],
        Err(Error::NonIncreasingOid { previous, current })
        if previous == current
    ));
}

#[test]
fn test_bulk_walk_errors_on_non_increasing_oid() {
    let mut mock = MockPeer::new();

    // First GETBULK response with non-increasing OID in the batch
    mock.queue_response(
        ResponseBuilder::new(1)
            .varbind(Oid::from_slice(&[1, 3, 6, 1, 2, 1, 1, 1, 0]), Value::OctetString(b"desc".to_vec()))
            .varbind(Oid::from_slice(&[1, 3, 6, 1, 2, 1, 1, 3, 0]), Value::TimeTicks(12345))
            .varbind(
                // Non-increasing: .1.2.0 < .3.0 (goes backwards)
                Oid::from_slice(&[1, 3, 6, 1, 2, 1, 1, 2, 0]),
                Value::ObjectIdentifier(Oid::from_slice(&[1, 3, 6, 1, 4, 1, 99])),
            )
            .build_v2c(b"public"),
    );

    let results = collect_bulk_walk(&mut mock, Oid::from_slice(&[1, 3, 6, 1, 2, 1, 1]), 10, 20);

    // Should get first two results OK, then error on third
    assert_eq!(results.len(), 3);
    assert!(results[0].is_ok());
    assert!(results[1].is_ok());
    assert!(matches!(
        &results[2],
        Err(Error::NonIncreasingOid { previous, current })
        if previous == &Oid::from_slice(&[1, 3, 6, 1, 2, 1, 1, 3, 0])
           && current == &Oid::from_slice(&[1, 3, 6, 1, 2, 1, 1, 2, 0])
    ));
}

#[test]
fn test_initial_request_id_randomized() {
    // Two transports that start a moment apart take their first request-id
    // from different clock readings.
    let id1 = initial_request_id(1_234_567);
    let id2 = initial_request_id(-1_234_568);
    assert_ne!(id1, id2, "request IDs should be randomized");
    assert!(id1 != 1 || id2 != 1, "at least one ID should not be 1");
    assert!(id1 >= 1 && id2 >= 1);
}
