use async_snmp::agent::admission::{find_user, receive, report_of_error, Admission};
use async_snmp::client::builder::V3SecurityConfig;
use async_snmp::client::request::get_request;
use async_snmp::error::{AuthErrorKind, CryptoErrorKind, DecodeErrorKind, Error};
use async_snmp::message::SecurityLevel;
use async_snmp::oid::Oid;
use async_snmp::v3::auth::LocalizedKey;
use async_snmp::v3::discovery::discovery_request;
use async_snmp::v3::engine::{EngineState, Report};
use async_snmp::v3::message::ScopedPdu;
use async_snmp::v3::privacy::PrivKey;
use async_snmp::v3::transform::{outbound, Outbound, UsmUser};
use async_snmp::v3::{AuthProtocol, PrivProtocol};

const ENGINE_ID: [u8; 6] = [0x80, 0x00, 0x1F, 0x88, 0x04, 0x61];

fn engine() -> EngineState {
    EngineState::new(ENGINE_ID.to_vec(), 3, 1000, 0)
}

fn users() -> Vec<UsmUser> {
    vec![
        UsmUser { user_name: b"guest".to_vec(), auth_key: None, priv_key: None },
        UsmUser {
            user_name: b"admin".to_vec(),
            auth_key: Some(LocalizedKey::from_bytes(AuthProtocol::Sha1, vec![7; 20])),
            priv_key: PrivKey::from_bytes(PrivProtocol::Aes128, vec![9; 16]),
        },
        UsmUser {
            user_name: b"admin".to_vec(),
            auth_key: Some(LocalizedKey::from_bytes(AuthProtocol::Sha1, vec![8; 20])),
            priv_key: None,
        },
    ]
}

fn message(user: &UsmUser, level: SecurityLevel, reportable: bool, time: u32) -> Vec<u8> {
    let scoped = ScopedPdu::new(
        ENGINE_ID.to_vec(),
        Vec::new(),
        get_request(5, &[Oid::from_slice(&[1, 3, 6, 1, 2, 1, 1, 1, 0])]),
    );
    outbound(
        Outbound {
            msg_id: 41,
            msg_max_size: 65507,
            reportable,
            level,
            engine_boots: 3,
            engine_time: time,
            salt: 17,
        },
        &ENGINE_ID,
        user,
        &scoped,
    )
    .unwrap()
}

fn report_of(admission: Admission) -> Option<(Report, i32)> {
    match admission {
        Admission::Reject { report, msg_id } => Some((report, msg_id)),
        _ => None,
    }
}

#[test]
fn a_discovery_request_is_answered_with_the_engine() {
    let (bytes, _) = discovery_request(9, 1).encode();
    assert_eq!(
        report_of(receive(&bytes, &engine(), &users(), 0)),
        Some((Report::UnknownEngineIds, 9))
    );
}

#[test]
fn a_request_of_a_known_user_is_accepted() {
    let all = users();
    let bytes = message(&all[1], SecurityLevel::AuthPriv, true, 1000);
    match receive(&bytes, &engine(), &all, 0) {
        Admission::Accept { inbound, user, level } => {
            assert_eq!(user, 1);
            assert_eq!(level, SecurityLevel::AuthPriv);
            assert_eq!(inbound.global_data.msg_id, 41);
            assert_eq!(inbound.scoped_pdu.pdu.request_id, 5);
            assert_eq!(inbound.scoped_pdu.context_engine_id, ENGINE_ID);
        }
        other => panic!("the request was not accepted: {:?}", other),
    }
    let bytes = message(&all[0], SecurityLevel::NoAuthNoPriv, true, 1000);
    match receive(&bytes, &engine(), &all, 0) {
        Admission::Accept { user, level, .. } => {
            assert_eq!(user, 0);
            assert_eq!(level, SecurityLevel::NoAuthNoPriv);
        }
        other => panic!("the request was not accepted: {:?}", other),
    }
}

#[test]
fn what_is_refused_is_reported() {
    let all = users();
    let stranger = UsmUser { user_name: b"nobody".to_vec(), auth_key: None, priv_key: None };
    let bytes = message(&stranger, SecurityLevel::NoAuthNoPriv, true, 1000);
    assert_eq!(
        report_of(receive(&bytes, &engine(), &all, 0)),
        Some((Report::UnknownUserNames, 41))
    );

    // The first user of the name counts: the second one's key does not verify.
    let bytes = message(&all[2], SecurityLevel::AuthNoPriv, true, 1000);
    assert_eq!(report_of(receive(&bytes, &engine(), &all, 0)), Some((Report::WrongDigests, 41)));

    // A user without keys cannot be asked for authentication.
    let armed = UsmUser {
        user_name: b"guest".to_vec(),
        auth_key: Some(LocalizedKey::from_bytes(AuthProtocol::Md5, vec![1; 16])),
        priv_key: None,
    };
    let bytes = message(&armed, SecurityLevel::AuthNoPriv, true, 1000);
    assert_eq!(
        report_of(receive(&bytes, &engine(), &all, 0)),
        Some((Report::UnsupportedSecLevels, 41))
    );

    // A message from long ago is outside the time window.
    let bytes = message(&all[1], SecurityLevel::AuthNoPriv, true, 1000);
    assert_eq!(
        report_of(receive(&bytes, &engine(), &all, 151)),
        Some((Report::NotInTimeWindows, 41))
    );
    assert!(matches!(receive(&bytes, &engine(), &all, 150), Admission::Accept { .. }));

    // An engine takes a message with a time a little behind its own.
    let own = EngineState::authoritative(ENGINE_ID.to_vec(), 3, 1100, 0);
    assert!(matches!(receive(&bytes, &own, &all, 0), Admission::Accept { .. }));
    assert_eq!(report_of(receive(&bytes, &own, &all, 51)), Some((Report::NotInTimeWindows, 41)));
    let rebooted = EngineState::authoritative(ENGINE_ID.to_vec(), 4, 1000, 0);
    assert_eq!(
        report_of(receive(&bytes, &rebooted, &all, 0)),
        Some((Report::NotInTimeWindows, 41))
    );

    // A flipped octet of the ciphertext still decrypts, to something else;
    // a flipped octet anywhere fails authentication first.
    let mut bytes = message(&all[1], SecurityLevel::AuthPriv, true, 1000);
    let last = bytes.len() - 1;
    bytes[last] ^= 1;
    assert_eq!(report_of(receive(&bytes, &engine(), &all, 0)), Some((Report::WrongDigests, 41)));
}

#[test]
fn nothing_is_reported_where_no_report_is_asked_for() {
    let all = users();
    let stranger = UsmUser { user_name: b"nobody".to_vec(), auth_key: None, priv_key: None };
    let bytes = message(&stranger, SecurityLevel::NoAuthNoPriv, false, 1000);
    assert!(matches!(receive(&bytes, &engine(), &all, 0), Admission::Ignore));
    let bytes = message(&all[2], SecurityLevel::AuthNoPriv, false, 1000);
    assert!(matches!(receive(&bytes, &engine(), &all, 0), Admission::Ignore));
    assert!(matches!(receive(&[0x30, 0x00], &engine(), &all, 0), Admission::Ignore));
    assert!(matches!(receive(&[], &engine(), &all, 0), Admission::Ignore));
}

#[test]
fn users_are_found_by_name() {
    let all = users();
    assert_eq!(find_user(&all, b"guest"), Some(0));
    assert_eq!(find_user(&all, b"admin"), Some(1));
    assert_eq!(find_user(&all, b"Admin"), None);
    assert_eq!(find_user(&[], b"admin"), None);
}

#[test]
fn faults_and_their_reports() {
    assert_eq!(
        report_of_error(&Error::NotInTimeWindow { target: None }),
        Some(Report::NotInTimeWindows)
    );
    assert_eq!(
        report_of_error(&Error::auth(None, AuthErrorKind::HmacMismatch)),
        Some(Report::WrongDigests)
    );
    assert_eq!(
        report_of_error(&Error::decrypt(None, CryptoErrorKind::InvalidPadding)),
        Some(Report::DecryptionErrors)
    );
    assert_eq!(report_of_error(&Error::decode(0, DecodeErrorKind::TruncatedData)), None);
}

#[test]
fn the_keys_of_a_user_at_an_engine() {
    let plain = V3SecurityConfig::new(b"guest".to_vec()).localize(&ENGINE_ID);
    assert_eq!(plain, UsmUser { user_name: b"guest".to_vec(), auth_key: None, priv_key: None });

    let secure = V3SecurityConfig::new(b"admin".to_vec())
        .auth(AuthProtocol::Md5, b"maplesyrup".to_vec())
        .privacy(PrivProtocol::Des, b"maplesyrup".to_vec())
        .localize(&[0, 0, 0, 0, 0, 0, 0, 0, 0, 0, 0, 2]);
    assert_eq!(secure.user_name, b"admin");
    // The key of RFC 3414, A.3.1.
    let expected = [
        0x52, 0x6f, 0x5e, 0xed, 0x9f, 0xcc, 0xe2, 0x6f, 0x89, 0x64, 0xc2, 0x93, 0x07, 0x87, 0xd8,
        0x2b,
    ];
    assert_eq!(secure.auth_key.as_ref().map(|k| k.as_bytes().to_vec()), Some(expected.to_vec()));
    assert_eq!(secure.priv_key.as_ref().map(|k| k.as_bytes().to_vec()), Some(expected.to_vec()));
    assert_eq!(secure.priv_key.as_ref().map(|k| k.priv_protocol()), Some(PrivProtocol::Des));

    // Privacy without authentication gives no key.
    let odd = V3SecurityConfig::new(b"odd".to_vec())
        .privacy(PrivProtocol::Des, b"maplesyrup".to_vec())
        .localize(&ENGINE_ID);
    assert_eq!(odd.auth_key, None);
    assert_eq!(odd.priv_key, None);
}
