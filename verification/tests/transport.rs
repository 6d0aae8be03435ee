use async_snmp::addr::SocketAddress;
use async_snmp::error::DecodeErrorKind;
use async_snmp::message::CommunityMessage;
use async_snmp::oid::Oid;
use async_snmp::pdu::{Pdu, PduType};
use async_snmp::transport::shared::{
    extract_request_id, initial_request_id, same_address, Correlator, Dispatch, PendingRequest,
    SharedTransportConfig, SharedUdpTransportBuilder,
};
use async_snmp::transport::tcp::{frame_length, Frame};
use async_snmp::varbind::VarBind;
use async_snmp::version::Version;

fn message(request_id: i32) -> Vec<u8> {
    let pdu = Pdu::new(
        PduType::Response,
        request_id,
        vec![VarBind::null(Oid::from_slice(&[1, 3, 6, 1, 2, 1, 1, 1, 0]))],
    );
    CommunityMessage::new(Version::V2c, b"public".to_vec(), pdu).encode_vec()
}

fn pending(target: SocketAddress, slot: &'static str, deadline: u64) -> PendingRequest<&'static str> {
    PendingRequest { target, sender: slot, deadline }
}

#[test]
fn request_id_is_found_without_decoding() {
    assert_eq!(extract_request_id(&message(42)), Some(42));
    assert_eq!(extract_request_id(&message(-5)), Some(-5));
    assert_eq!(extract_request_id(&message(i32::MAX)), Some(i32::MAX));
    assert_eq!(extract_request_id(&[]), None);
    assert_eq!(extract_request_id(&[0x30, 0x03, 0x02, 0x01, 0x01]), None);
    assert_eq!(extract_request_id(&[0x04, 0x01, 0x00]), None);
    let mut cut = message(42);
    cut.truncate(20);
    assert_eq!(extract_request_id(&cut), None);
}

#[test]
fn request_id_of_a_v3_message_is_its_msg_id() {
    // SEQUENCE { INTEGER 3, SEQUENCE { INTEGER 77, ... } }
    let bytes = [0x30, 0x0A, 0x02, 0x01, 0x03, 0x30, 0x05, 0x02, 0x01, 0x4D, 0x04, 0x00];
    assert_eq!(extract_request_id(&bytes), Some(77));
}

#[test]
fn initial_request_id_is_positive() {
    assert_eq!(initial_request_id(12345), 12345);
    assert_eq!(initial_request_id(-12345), 12345);
    assert_eq!(initial_request_id(0), 1);
    assert_eq!(initial_request_id(i32::MIN), 1);
    assert_eq!(initial_request_id(i32::MAX), i32::MAX);
    assert_eq!(initial_request_id(-i32::MAX), i32::MAX);
}

#[test]
fn correlator_routes_by_request_id() {
    let a = SocketAddress::v4(10, 0, 0, 1, 161);
    let b = SocketAddress::v4(10, 0, 0, 2, 161);
    let mut correlator: Correlator<&'static str> = Correlator::new(SharedTransportConfig::default(), 100);
    assert!(correlator.register(1, pending(a, "first", 50)).is_none());
    assert!(correlator.register(2, pending(b, "second", 50)).is_none());
    assert_eq!(correlator.len(), 2);

    match correlator.dispatch(&message(2), b) {
        Dispatch::Deliver { request_id, pending, source_mismatch } => {
            assert_eq!(request_id, 2);
            assert_eq!(pending.sender, "second");
            assert_eq!(pending.target, b);
            assert!(!source_mismatch);
        }
        other => panic!("unexpected {:?}", other),
    }
    assert_eq!(correlator.len(), 1);
    // a second reply to the same request finds nothing
    assert!(matches!(correlator.dispatch(&message(2), b), Dispatch::Unknown { request_id: 2 }));
    assert!(matches!(correlator.dispatch(&[0xFF, 0x00], b), Dispatch::Malformed));
    assert_eq!(correlator.len(), 1);
    // a reply from another address is delivered, with a warning due
    match correlator.dispatch(&message(1), b) {
        Dispatch::Deliver { pending, source_mismatch, .. } => {
            assert_eq!(pending.sender, "first");
            assert!(source_mismatch);
        }
        other => panic!("unexpected {:?}", other),
    }
    assert_eq!(correlator.len(), 0);
}

#[test]
fn correlator_warns_only_when_asked() {
    let a = SocketAddress::v4(10, 0, 0, 1, 161);
    let b = SocketAddress::v4(10, 0, 0, 2, 161);
    let config = SharedTransportConfig { warn_on_source_mismatch: false, max_message_size: 1500 };
    let mut correlator: Correlator<u8> = Correlator::new(config, 1);
    correlator.register(9, PendingRequest { target: a, sender: 0, deadline: 1 });
    assert!(matches!(
        correlator.dispatch(&message(9), b),
        Dispatch::Deliver { source_mismatch: false, .. }
    ));
}

#[test]
fn correlator_reaps_what_has_expired() {
    let a = SocketAddress::v4(10, 0, 0, 1, 161);
    let mut correlator: Correlator<&'static str> = Correlator::new(SharedTransportConfig::default(), 1);
    correlator.register(1, pending(a, "early", 10));
    correlator.register(2, pending(a, "at the deadline", 20));
    correlator.register(3, pending(a, "late", 30));
    correlator.reap(9);
    assert_eq!(correlator.len(), 3);
    correlator.reap(20);
    assert_eq!(correlator.len(), 1);
    assert!(correlator.cancel(1).is_none());
    assert!(correlator.cancel(2).is_none());
    assert_eq!(correlator.cancel(3).map(|p| p.sender), Some("late"));
    assert_eq!(correlator.len(), 0);
    correlator.reap(1000);
    assert_eq!(correlator.len(), 0);
}

#[test]
fn correlator_replaces_an_entry_under_the_same_id() {
    let a = SocketAddress::v4(10, 0, 0, 1, 161);
    let mut correlator: Correlator<&'static str> = Correlator::new(SharedTransportConfig::default(), 1);
    assert!(correlator.register(5, pending(a, "old", 10)).is_none());
    assert_eq!(correlator.register(5, pending(a, "new", 10)).map(|p| p.sender), Some("old"));
    assert_eq!(correlator.len(), 1);
    assert_eq!(correlator.cancel(5).map(|p| p.sender), Some("new"));
}

#[test]
fn correlator_hands_out_request_ids_in_turn() {
    let mut correlator: Correlator<()> = Correlator::new(SharedTransportConfig::default(), i32::MAX - 1);
    assert_eq!(correlator.alloc_request_id(), i32::MAX - 1);
    assert_eq!(correlator.alloc_request_id(), i32::MAX);
    assert_eq!(correlator.alloc_request_id(), i32::MIN);
    assert_eq!(correlator.alloc_request_id(), i32::MIN + 1);
}

#[test]
fn addresses_compare_by_value() {
    let a = SocketAddress::v4(10, 0, 0, 1, 161);
    assert!(same_address(&a, &SocketAddress::v4(10, 0, 0, 1, 161)));
    assert!(!same_address(&a, &SocketAddress::v4(10, 0, 0, 1, 162)));
    assert!(!same_address(&a, &SocketAddress::v4(10, 0, 1, 1, 161)));
    assert!(a.is_ipv4() && !a.is_ipv6());
}

#[test]
fn shared_transport_builder_settings() {
    let (addr, config) = SharedUdpTransportBuilder::new().into_parts();
    assert_eq!(addr, "0.0.0.0:0");
    assert_eq!(config, SharedTransportConfig { warn_on_source_mismatch: true, max_message_size: 65535 });
    let (addr, config) = SharedUdpTransportBuilder::new()
        .bind("[::]:16100")
        .warn_on_source_mismatch(false)
        .max_message_size(8192)
        .into_parts();
    assert_eq!(addr, "[::]:16100");
    assert_eq!(config, SharedTransportConfig { warn_on_source_mismatch: false, max_message_size: 8192 });
}

#[test]
fn stream_framing_follows_the_outer_length() {
    let bytes = message(42);
    assert_eq!(frame_length(&bytes), Frame::Complete { len: bytes.len() });
    assert_eq!(frame_length(&bytes[..bytes.len() - 1]), Frame::Incomplete);
    assert_eq!(frame_length(&bytes[..1]), Frame::Incomplete);
    assert_eq!(frame_length(&[]), Frame::Incomplete);
    let mut two = bytes.clone();
    two.extend_from_slice(&message(43));
    assert_eq!(frame_length(&two), Frame::Complete { len: bytes.len() });
    assert_eq!(frame_length(&[0x30, 0x82, 0x01]), Frame::Incomplete);
    assert_eq!(
        frame_length(&[0x30, 0x80, 0x00]),
        Frame::Invalid { kind: DecodeErrorKind::IndefiniteLength }
    );
    assert_eq!(
        frame_length(&[0x30, 0x85, 0, 0, 0, 0, 1]),
        Frame::Invalid { kind: DecodeErrorKind::LengthTooLong { octets: 5 } }
    );
}
