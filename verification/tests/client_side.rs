use async_snmp::addr::SocketAddress;
use async_snmp::client::builder::{
    Client, ClientConfig, V1ClientBuilder, V2cClientBuilder, V3ClientBuilder, V3SecurityConfig,
};
use async_snmp::client::request::{
    after_timeout, check_response, discover_again, get_bulk_request, get_next_request,
    get_request, next_request_id, set_request, timeout_error, RetryDecision,
};
use async_snmp::client::walk::{BulkStep, BulkWalk, Walk};
use async_snmp::error::{Error, ErrorStatus};
use async_snmp::message::SecurityLevel;
use async_snmp::oid::Oid;
use async_snmp::pdu::{Pdu, PduType};
use async_snmp::v3::{AuthProtocol, PrivProtocol};
use async_snmp::value::Value;
use async_snmp::varbind::VarBind;
use async_snmp::version::Version;

fn system(n: u32) -> Oid {
    Oid::from_slice(&[1, 3, 6, 1, 2, 1, 1, n, 0])
}

fn binding(n: u32) -> VarBind {
    VarBind::new(system(n), Value::Integer(n as i32))
}

#[test]
fn walk_ends_at_end_of_mib_view_after_seven_items() {
    let base = Oid::from_slice(&[1, 3, 6, 1, 2, 1, 1]);
    let mut walk = Walk::new(base.clone());
    let mut items = Vec::new();
    let mut requested = Vec::new();
    for n in 1..=8u32 {
        let oid = walk.next_request().unwrap();
        requested.push(oid);
        let reply = if n <= 7 {
            binding(n)
        } else {
            VarBind::new(system(n), Value::EndOfMibView)
        };
        match walk.on_reply(Ok(reply)) {
            Some(item) => items.push(item.unwrap()),
            None => break,
        }
    }
    assert_eq!(items.len(), 7);
    assert_eq!(items, (1..=7).map(binding).collect::<Vec<_>>());
    assert_eq!(requested[0], base);
    assert_eq!(requested[1..], (1..=7).map(system).collect::<Vec<_>>()[..]);
    assert!(walk.is_done());
    assert_eq!(walk.next_request(), None);
    assert_eq!(walk.on_reply(Ok(binding(9))), None);
}

#[test]
fn walk_detects_a_loop() {
    let mut walk = Walk::new(Oid::from_slice(&[1, 3, 6, 1, 2, 1, 1]));
    assert_eq!(walk.on_reply(Ok(binding(5))), Some(Ok(binding(5))));
    assert_eq!(walk.next_request(), Some(system(5)));
    assert_eq!(
        walk.on_reply(Ok(binding(4))),
        Some(Err(Error::NonIncreasingOid { previous: system(5), current: system(4) }))
    );
    assert_eq!(walk.next_request(), None);
    assert_eq!(walk.on_reply(Ok(binding(6))), None);
}

#[test]
fn walk_refuses_the_same_oid_twice() {
    let mut walk = Walk::new(Oid::from_slice(&[1, 3, 6, 1, 2, 1, 1]));
    assert_eq!(walk.on_reply(Ok(binding(1))), Some(Ok(binding(1))));
    assert_eq!(
        walk.on_reply(Ok(binding(1))),
        Some(Err(Error::NonIncreasingOid { previous: system(1), current: system(1) }))
    );
}

#[test]
fn walk_ends_when_the_subtree_is_left() {
    let mut walk = Walk::new(Oid::from_slice(&[1, 3, 6, 1, 2, 1, 1]));
    assert_eq!(walk.on_reply(Ok(binding(1))), Some(Ok(binding(1))));
    let outside = VarBind::new(Oid::from_slice(&[1, 3, 6, 1, 2, 1, 2, 1, 0]), Value::Integer(3));
    assert_eq!(walk.on_reply(Ok(outside)), None);
    assert!(walk.is_done());
}

#[test]
fn walk_hands_on_errors_and_ends() {
    let mut walk = Walk::new(Oid::from_slice(&[1, 3, 6, 1, 2, 1, 1]));
    let error = timeout_error(None, 5000, 3, 2);
    assert_eq!(walk.on_reply(Err(error.clone())), Some(Err(error)));
    assert!(walk.is_done());
}

#[test]
fn walk_emits_in_order_inside_the_subtree() {
    let base = Oid::from_slice(&[1, 3, 6, 1, 2, 1, 1]);
    let replies = [3u32, 5, 6, 9, 2, 11];
    let mut walk = Walk::new(base.clone());
    let mut emitted: Vec<Oid> = Vec::new();
    for n in replies {
        if let Some(Ok(vb)) = walk.on_reply(Ok(binding(n))) {
            emitted.push(vb.oid);
        }
    }
    assert_eq!(emitted, vec![system(3), system(5), system(6), system(9)]);
    for pair in emitted.windows(2) {
        assert!(pair[0] < pair[1]);
    }
    assert!(emitted.iter().all(|oid| oid.starts_with(&base)));
}

fn drain(walk: &mut BulkWalk, replies: Vec<Result<Vec<VarBind>, Error>>) -> (Vec<Result<VarBind, Error>>, Vec<Oid>) {
    let mut replies = replies.into_iter();
    let mut items = Vec::new();
    let mut fetched = Vec::new();
    loop {
        match walk.poll() {
            BulkStep::Yield(None) => return (items, fetched),
            BulkStep::Yield(Some(item)) => items.push(item),
            BulkStep::Fetch { oid, non_repeaters, max_repetitions } => {
                assert_eq!(non_repeaters, 0);
                assert_eq!(max_repetitions, 10);
                fetched.push(oid);
                walk.on_reply(replies.next().unwrap_or(Ok(vec![])));
            }
        }
    }
}

#[test]
fn bulk_walk_drains_each_reply_by_the_rules() {
    let base = Oid::from_slice(&[1, 3, 6, 1, 2, 1, 1]);
    let mut walk = BulkWalk::new(base.clone(), 10);
    let (items, fetched) = drain(
        &mut walk,
        vec![
            Ok(vec![binding(1), binding(2), binding(3)]),
            Ok(vec![binding(4), VarBind::new(system(5), Value::EndOfMibView), binding(6)]),
        ],
    );
    assert_eq!(items, (1..=4).map(|n| Ok(binding(n))).collect::<Vec<_>>());
    assert_eq!(fetched, vec![base, system(3)]);
}

#[test]
fn bulk_walk_ends_on_an_empty_reply() {
    let mut walk = BulkWalk::new(Oid::from_slice(&[1, 3, 6, 1, 2, 1, 1]), 10);
    let (items, fetched) = drain(&mut walk, vec![Ok(vec![])]);
    assert!(items.is_empty());
    assert_eq!(fetched.len(), 1);
    assert!(matches!(walk.poll(), BulkStep::Yield(None)));
}

#[test]
fn bulk_walk_detects_a_loop_inside_a_reply() {
    let mut walk = BulkWalk::new(Oid::from_slice(&[1, 3, 6, 1, 2, 1, 1]), 10);
    let (items, _) = drain(&mut walk, vec![Ok(vec![binding(2), binding(3), binding(3), binding(4)])]);
    assert_eq!(
        items,
        vec![
            Ok(binding(2)),
            Ok(binding(3)),
            Err(Error::NonIncreasingOid { previous: system(3), current: system(3) }),
        ]
    );
}

#[test]
fn bulk_walk_yields_the_error_of_a_request_and_ends() {
    let mut walk = BulkWalk::new(Oid::from_slice(&[1, 3, 6, 1, 2, 1, 1]), 10);
    let error = timeout_error(None, 1000, 5, 0);
    let (items, _) = drain(&mut walk, vec![Ok(vec![binding(1)]), Err(error.clone())]);
    assert_eq!(items, vec![Ok(binding(1)), Err(error)]);
}

#[test]
fn requests_bind_null() {
    let oids = [system(1), system(3)];
    let get = get_request(5, &oids);
    assert_eq!(get.pdu_type, PduType::GetRequest);
    assert_eq!(get.request_id, 5);
    assert_eq!(get.varbinds, vec![VarBind::null(system(1)), VarBind::null(system(3))]);
    assert_eq!(get_next_request(6, &oids).pdu_type, PduType::GetNextRequest);
    let bulk = get_bulk_request(7, 1, 25, &oids);
    assert_eq!((bulk.pdu_type, bulk.error_status, bulk.error_index), (PduType::GetBulkRequest, 1, 25));
    let set = set_request(8, vec![binding(4)]);
    assert_eq!((set.pdu_type, set.varbinds), (PduType::SetRequest, vec![binding(4)]));
}

#[test]
fn request_ids_wrap_around() {
    assert_eq!(next_request_id(41), 42);
    assert_eq!(next_request_id(-1), 0);
    assert_eq!(next_request_id(i32::MAX), i32::MIN);
}

#[test]
fn retries_only_on_datagram_transports() {
    assert_eq!(after_timeout(0, 3, false), RetryDecision::Retransmit);
    assert_eq!(after_timeout(2, 3, false), RetryDecision::Retransmit);
    assert_eq!(after_timeout(3, 3, false), RetryDecision::GiveUp);
    assert_eq!(after_timeout(0, 0, false), RetryDecision::GiveUp);
    assert_eq!(after_timeout(0, 3, true), RetryDecision::GiveUp);
    assert_eq!(
        timeout_error(None, 20000, 9, 3),
        Error::Timeout { target: None, elapsed_ms: 20000, request_id: 9, retries: 3 }
    );
}

fn response(request_id: i32, status: i32, index: i32) -> Pdu {
    Pdu {
        pdu_type: PduType::Response,
        request_id,
        error_status: status,
        error_index: index,
        varbinds: vec![binding(1), binding(2)],
    }
}

#[test]
fn response_checks() {
    let target = Some(SocketAddress::v4(10, 0, 0, 1, 161));
    assert_eq!(
        check_response(Version::V2c, 42, Version::V2c, &response(42, 0, 0), target),
        Ok(vec![binding(1), binding(2)])
    );
    assert_eq!(
        check_response(Version::V2c, 42, Version::V2c, &response(43, 0, 0), target),
        Err(Error::RequestIdMismatch { expected: 42, actual: 43 })
    );
    assert_eq!(
        check_response(Version::V2c, 42, Version::V1, &response(42, 0, 0), target),
        Err(Error::VersionMismatch { expected: Version::V2c, actual: Version::V1 })
    );
    assert_eq!(
        check_response(Version::V2c, 42, Version::V2c, &response(42, 17, 2), target),
        Err(Error::Snmp { target, status: ErrorStatus::NotWritable, index: 2, oid: Some(system(2)) })
    );
    assert_eq!(
        check_response(Version::V2c, 42, Version::V2c, &response(42, 5, 0), target),
        Err(Error::Snmp { target, status: ErrorStatus::GenErr, index: 0, oid: None })
    );
    assert_eq!(
        check_response(Version::V2c, 42, Version::V2c, &response(42, 99, 3), None),
        Err(Error::Snmp { target: None, status: ErrorStatus::Unknown(99), index: 3, oid: None })
    );
}

#[test]
fn v1_no_such_name_becomes_an_exception_value() {
    assert_eq!(
        check_response(Version::V1, 42, Version::V1, &response(42, 2, 2), None),
        Ok(vec![binding(1), VarBind::new(system(2), Value::NoSuchObject)])
    );
    // under v2c the same status is an error
    assert_eq!(
        check_response(Version::V2c, 42, Version::V2c, &response(42, 2, 2), None),
        Err(Error::Snmp { target: None, status: ErrorStatus::NoSuchName, index: 2, oid: Some(system(2)) })
    );
}

#[test]
fn builders_make_configurations() {
    let v1 = V1ClientBuilder::new("192.168.1.1:161").community(b"private").retries(1).build(());
    assert_eq!(
        v1.config,
        ClientConfig {
            version: Version::V1,
            community: b"private".to_vec(),
            timeout_ms: 5000,
            retries: 1,
            max_oids_per_request: 10,
            v3_security: None,
        }
    );
    let v2c = V2cClientBuilder::new("host:161").timeout(250).max_oids_per_request(40).build(7u8);
    assert_eq!(v2c.transport, 7);
    assert_eq!(v2c.config.version, Version::V2c);
    assert_eq!(v2c.config.community, b"public".to_vec());
    assert_eq!((v2c.config.timeout_ms, v2c.config.retries, v2c.config.max_oids_per_request), (250, 3, 40));
    assert_eq!(Client::v2c("h:1").target(), "h:1");
    assert_eq!(Client::v1("h:2").build(()).config.version, Version::V1);
    assert_eq!(ClientConfig::default().community, b"public".to_vec());
}

#[test]
fn v3_builders_keep_privacy_behind_authentication() {
    let plain = V3ClientBuilder::new("h:161", b"admin").build(());
    let security = plain.config.v3_security.clone().unwrap();
    assert_eq!(security, V3SecurityConfig::new(b"admin".to_vec()));
    assert_eq!(security.security_level(), SecurityLevel::NoAuthNoPriv);
    assert_eq!(plain.config.version, Version::V3);
    assert!(plain.config.community.is_empty());

    let auth = Client::v3("h:161", b"admin").auth(AuthProtocol::Sha256, b"authpass123".to_vec());
    let client = auth.build(());
    let security = client.config.v3_security.unwrap();
    assert_eq!(security.auth, Some((AuthProtocol::Sha256, b"authpass123".to_vec())));
    assert_eq!(security.security_level(), SecurityLevel::AuthNoPriv);

    let client = Client::v3("h:161", b"admin")
        .auth(AuthProtocol::Sha1, b"a".to_vec())
        .privacy(PrivProtocol::Aes128, b"p".to_vec())
        .retries(0)
        .build(());
    let security = client.config.v3_security.unwrap();
    assert_eq!(security.privacy, Some((PrivProtocol::Aes128, b"p".to_vec())));
    assert_eq!(security.security_level(), SecurityLevel::AuthPriv);
    assert_eq!(client.config.retries, 0);
}

#[test]
fn discovery_is_repeated_once_for_an_unknown_engine_or_time() {
    let unknown = Error::UnknownEngineId { target: None };
    let late = Error::NotInTimeWindow { target: None };
    let other = Error::InvalidCommunity { target: None };
    assert!(discover_again(&unknown, false));
    assert!(discover_again(&late, false));
    assert!(!discover_again(&other, false));
    assert!(!discover_again(&unknown, true));
    assert!(!discover_again(&late, true));
}

#[test]
fn walk_fails_when_the_agent_answers_with_the_base_itself() {
    let base = Oid::from_slice(&[1, 3, 6, 1, 2, 1, 1]);
    let mut walk = Walk::new(base.clone());
    assert_eq!(walk.next_request(), Some(base.clone()));
    let item = walk.on_reply(Ok(VarBind::new(base.clone(), Value::Integer(1))));
    assert_eq!(
        item,
        Some(Err(Error::NonIncreasingOid { previous: base.clone(), current: base.clone() }))
    );
    assert!(walk.is_done());
    assert_eq!(walk.next_request(), None);
    assert_eq!(walk.on_reply(Ok(binding(1))), None);
}

#[test]
fn bulk_walk_fails_when_the_agent_answers_with_the_base_itself() {
    let base = Oid::from_slice(&[1, 3, 6, 1, 2, 1, 1]);
    let mut walk = BulkWalk::new(base.clone(), 10);
    match walk.poll() {
        BulkStep::Fetch { oid, non_repeaters, max_repetitions } => {
            assert_eq!((oid, non_repeaters, max_repetitions), (base.clone(), 0, 10));
        }
        BulkStep::Yield(item) => panic!("the walk yielded {:?} before it asked", item),
    }
    walk.on_reply(Ok(vec![VarBind::new(base.clone(), Value::Integer(1)), binding(1)]));
    match walk.poll() {
        BulkStep::Yield(item) => assert_eq!(
            item,
            Some(Err(Error::NonIncreasingOid { previous: base.clone(), current: base.clone() }))
        ),
        BulkStep::Fetch { .. } => panic!("the walk asked again"),
    }
    assert!(matches!(walk.poll(), BulkStep::Yield(None)));
}
