use async_snmp::addr::SocketAddress;
use async_snmp::ber::{Decoder, EncodeBuf};
use async_snmp::error::{
    AuthErrorKind, CryptoErrorKind, DecodeErrorKind, EncodeErrorKind, Error,
};
use async_snmp::message::SecurityLevel;
use async_snmp::oid::Oid;
use async_snmp::pdu::{Pdu, PduType};
use async_snmp::util::{decode_hex, encode_hex};
use async_snmp::v3::auth::{constant_time_eq, digest, hmac, stretch, LocalizedKey, MasterKey};
use async_snmp::v3::engine::{
    is_decryption_error_report, is_not_in_time_window_report, is_unknown_engine_id_report,
    is_unknown_user_name_report, is_unsupported_sec_level_report, is_wrong_digest_report,
    parse_discovery_response, EngineCache, EngineState, Report,
};
use async_snmp::v3::message::{
    MsgFlags, MsgGlobalData, ScopedData, ScopedPdu, V3Message,
};
use async_snmp::v3::privacy::{be32_bytes, be64_bytes, pad_zero, PrivKey, SaltCounter};
use async_snmp::v3::transform::{inbound, outbound, Outbound, UsmUser};
use async_snmp::v3::usm::UsmSecurityParams;
use async_snmp::v3::{AuthProtocol, KeyExtension, PrivProtocol};
use async_snmp::value::Value;
use async_snmp::varbind::VarBind;

const ALL_AUTH: [AuthProtocol; 6] = [
    AuthProtocol::Md5,
    AuthProtocol::Sha1,
    AuthProtocol::Sha224,
    AuthProtocol::Sha256,
    AuthProtocol::Sha384,
    AuthProtocol::Sha512,
];

const ALL_PRIV: [PrivProtocol; 5] = [
    PrivProtocol::Des,
    PrivProtocol::Des3,
    PrivProtocol::Aes128,
    PrivProtocol::Aes192,
    PrivProtocol::Aes256,
];

fn hex(s: &str) -> Vec<u8> {
    decode_hex(s).unwrap()
}

#[test]
fn digests_of_abc() {
    assert_eq!(encode_hex(&digest(AuthProtocol::Md5, b"abc")), "900150983cd24fb0d6963f7d28e17f72");
    assert_eq!(
        encode_hex(&digest(AuthProtocol::Sha1, b"abc")),
        "a9993e364706816aba3e25717850c26c9cd0d89d"
    );
    assert_eq!(
        encode_hex(&digest(AuthProtocol::Sha256, b"abc")),
        "ba7816bf8f01cfea414140de5dae2223b00361a396177a9cb410ff61f20015ad"
    );
}

#[test]
fn digests_have_the_length_of_their_protocol() {
    let mut seen = Vec::new();
    for protocol in ALL_AUTH {
        let d = digest(protocol, b"some octets");
        assert_eq!(d.len(), protocol.digest_len());
        assert_ne!(d, b"some octets".to_vec());
        assert_ne!(d, digest(protocol, b"other octets"));
        assert!(!seen.contains(&d));
        seen.push(d);
    }
}

#[test]
fn hmac_of_hi_there() {
    assert_eq!(
        encode_hex(&hmac(AuthProtocol::Md5, &[0x0b; 16], b"Hi There")),
        "9294727a3638bb1c13f48ef8158bfc9d"
    );
    assert_eq!(
        encode_hex(&hmac(AuthProtocol::Sha1, &[0x0b; 20], b"Hi There")),
        "b617318655057264e28bc0b6fb378c8ef146be00"
    );
    assert_eq!(
        encode_hex(&hmac(AuthProtocol::Sha256, &[0x0b; 20], b"Hi There")),
        "b0344c61d8db38535ca8afceaf0bf12b881dc200c9833da726e9376c2e32cff7"
    );
}

#[test]
fn hmacs_depend_on_key_and_message() {
    let mut seen = Vec::new();
    for protocol in ALL_AUTH {
        let code = hmac(protocol, b"key", b"message");
        assert_eq!(code.len(), protocol.digest_len());
        assert_ne!(code, hmac(protocol, b"kez", b"message"));
        assert_ne!(code, hmac(protocol, b"key", b"messagf"));
        assert_ne!(code, digest(protocol, b"message"));
        assert!(!seen.contains(&code));
        seen.push(code);
    }
}

#[test]
fn password_to_key_of_rfc_3414() {
    let engine_id = hex("000000000000000000000002");
    let master = MasterKey::from_password(AuthProtocol::Md5, b"maplesyrup");
    assert_eq!(encode_hex(master.as_bytes()), "9faf3283884e92834ebc9847d8edd963");
    assert_eq!(
        encode_hex(master.localize(&engine_id).as_bytes()),
        "526f5eed9fcce26f8964c2930787d82b"
    );
    let master = MasterKey::from_password(AuthProtocol::Sha1, b"maplesyrup");
    assert_eq!(encode_hex(master.as_bytes()), "9fb5cc0381497b3793528939ff788d5d79145211");
    let localized = LocalizedKey::from_password(AuthProtocol::Sha1, b"maplesyrup", &engine_id);
    assert_eq!(encode_hex(localized.as_bytes()), "6695febc9288e36282235fc7151f128497b38f3f");
}

#[test]
fn password_stream_repeats_the_password() {
    let stream = stretch(b"abc");
    assert_eq!(stream.len(), 1048576);
    assert_eq!(&stream[..7], b"abcabca");
    assert_eq!(stream[1048575], b'a');
    assert!(stretch(b"").is_empty());
}

#[test]
fn protocol_lengths() {
    let digests: Vec<_> = ALL_AUTH.iter().map(|p| p.digest_len()).collect();
    assert_eq!(digests, vec![16, 20, 28, 32, 48, 64]);
    let macs: Vec<_> = ALL_AUTH.iter().map(|p| p.mac_len()).collect();
    assert_eq!(macs, vec![12, 12, 16, 24, 32, 48]);
    let keys: Vec<_> = ALL_PRIV.iter().map(|p| p.key_len()).collect();
    assert_eq!(keys, vec![16, 32, 16, 24, 32]);
    assert!(ALL_PRIV.iter().all(|p| p.salt_len() == 8));
}

#[test]
fn key_extension_follows_from_the_protocols() {
    let (blumenthal, reeder, standard) = (KeyExtension::Blumenthal, KeyExtension::Reeder, KeyExtension::Standard);
    assert_eq!(PrivProtocol::Des.key_extension_for(AuthProtocol::Md5), standard);
    assert_eq!(PrivProtocol::Aes128.key_extension_for(AuthProtocol::Md5), standard);
    assert_eq!(PrivProtocol::Aes192.key_extension_for(AuthProtocol::Md5), blumenthal);
    assert_eq!(PrivProtocol::Aes192.key_extension_for(AuthProtocol::Sha1), blumenthal);
    assert_eq!(PrivProtocol::Aes192.key_extension_for(AuthProtocol::Sha224), standard);
    assert_eq!(PrivProtocol::Aes256.key_extension_for(AuthProtocol::Sha224), blumenthal);
    assert_eq!(PrivProtocol::Aes256.key_extension_for(AuthProtocol::Sha256), standard);
    assert_eq!(PrivProtocol::Des3.key_extension_for(AuthProtocol::Sha1), reeder);
    assert_eq!(PrivProtocol::Des3.key_extension_for(AuthProtocol::Sha256), standard);
    assert_eq!(KeyExtension::default(), standard);
}

#[test]
fn privacy_keys_have_the_length_of_their_protocol() {
    let engine_id = hex("80001f8880e9630000d61ff449");
    for (auth, protocol) in [
        (AuthProtocol::Md5, PrivProtocol::Des),
        (AuthProtocol::Md5, PrivProtocol::Aes256),
        (AuthProtocol::Sha1, PrivProtocol::Des3),
        (AuthProtocol::Sha1, PrivProtocol::Aes192),
        (AuthProtocol::Sha256, PrivProtocol::Aes128),
    ] {
        let key = PrivKey::from_password(auth, protocol, b"privpass123", &engine_id);
        assert_eq!(key.as_bytes().len(), protocol.key_len());
        assert_eq!(key.priv_protocol(), protocol);
        let localized = LocalizedKey::from_password(auth, b"privpass123", &engine_id);
        let shared = protocol.key_len().min(auth.digest_len());
        assert_eq!(&key.as_bytes()[..shared], &localized.as_bytes()[..shared]);
        if protocol.key_len() > auth.digest_len() {
            // the extension is not a repetition of the key
            assert_ne!(&key.as_bytes()[shared..], &localized.as_bytes()[..protocol.key_len() - shared]);
        }
    }
    assert!(PrivKey::from_bytes(PrivProtocol::Aes128, vec![0; 15]).is_none());
    assert!(PrivKey::from_bytes(PrivProtocol::Aes128, vec![0; 16]).is_some());
}

#[test]
fn every_cipher_decrypts_what_it_encrypts() {
    let plaintext = b"a scoped PDU of thirty-one octs".to_vec();
    assert_eq!(plaintext.len(), 31);
    for protocol in ALL_PRIV {
        let octets: Vec<u8> = (0..protocol.key_len() as u8).map(|i| i.wrapping_mul(37)).collect();
        let key = PrivKey::from_bytes(protocol, octets).unwrap();
        let (ciphertext, salt) = key.encrypt(&plaintext, 3, 12345, 0x0102030405060708);
        assert_eq!(salt, vec![1, 2, 3, 4, 5, 6, 7, 8]);
        let block = matches!(protocol, PrivProtocol::Des | PrivProtocol::Des3);
        assert_eq!(ciphertext.len(), if block { 32 } else { 31 });
        assert_ne!(&ciphertext[..31], &plaintext[..]);
        let decrypted = key.decrypt(&ciphertext, 3, 12345, &salt).unwrap();
        assert_eq!(decrypted, if block { pad_zero(&plaintext) } else { plaintext.clone() });
        // another salt gives another ciphertext
        let (other, _) = key.encrypt(&plaintext, 3, 12345, 0x0102030405060709);
        assert_ne!(other, ciphertext);
    }
}

#[test]
fn aes_iv_depends_on_engine_boots_and_time() {
    let key = PrivKey::from_bytes(PrivProtocol::Aes128, vec![7; 16]).unwrap();
    let (ciphertext, salt) = key.encrypt(b"plaintext", 3, 12345, 1);
    assert_ne!(key.encrypt(b"plaintext", 4, 12345, 1).0, ciphertext);
    assert_ne!(key.encrypt(b"plaintext", 3, 12346, 1).0, ciphertext);
    assert_ne!(key.decrypt(&ciphertext, 4, 12345, &salt).unwrap(), b"plaintext".to_vec());
    assert_eq!(key.decrypt(&ciphertext, 3, 12345, &salt).unwrap(), b"plaintext".to_vec());
}

#[test]
fn aes_128_cfb_of_the_nist_example() {
    // NIST SP 800-38A, F.3.13, first block
    let key = PrivKey::from_bytes(PrivProtocol::Aes128, hex("2b7e151628aed2a6abf7158809cf4f3c")).unwrap();
    // the IV 000102030405060708090a0b0c0d0e0f as boots, time and salt
    let (ciphertext, _) =
        key.encrypt(&hex("6bc1bee22e409f96e93d7e117393172a"), 0x00010203, 0x04050607, 0x08090a0b0c0d0e0f);
    assert_eq!(encode_hex(&ciphertext), "3b3fd92eb72dad20333449f8e83cfb4a");
}

#[test]
fn des_with_a_zero_salt() {
    let key = PrivKey::from_bytes(PrivProtocol::Des, (1..=16).collect()).unwrap();
    let (ciphertext, salt) = key.encrypt(b"12345678", 0, 0, 0);
    assert_eq!(salt, vec![0; 8]);
    assert_eq!(ciphertext.len(), 8);
    assert_eq!(key.decrypt(&ciphertext, 0, 0, &[0; 8]).unwrap(), b"12345678".to_vec());
    assert_ne!(key.decrypt(&ciphertext, 0, 0, &[0, 0, 0, 0, 0, 0, 0, 1]).unwrap(), b"12345678".to_vec());
}

#[test]
fn decryption_faults() {
    let des = PrivKey::from_bytes(PrivProtocol::Des, vec![1; 16]).unwrap();
    assert_eq!(
        des.decrypt(&[0; 16], 0, 0, &[0; 7]),
        Err(Error::DecryptionFailed {
            target: None,
            kind: CryptoErrorKind::InvalidPrivParamsLength { expected: 8, actual: 7 },
        })
    );
    assert_eq!(
        des.decrypt(&[0; 15], 0, 0, &[0; 8]),
        Err(Error::DecryptionFailed {
            target: None,
            kind: CryptoErrorKind::InvalidCiphertextLength { length: 15, block_size: 8 },
        })
    );
    let aes = PrivKey::from_bytes(PrivProtocol::Aes256, vec![1; 32]).unwrap();
    assert!(aes.decrypt(&[0; 15], 0, 0, &[0; 8]).is_ok());
}

#[test]
fn salt_counter_steps_and_wraps() {
    let mut counter = SaltCounter::new(u64::MAX - 1);
    assert_eq!(counter.next(), u64::MAX - 1);
    assert_eq!(counter.next(), u64::MAX);
    assert_eq!(counter.next(), 0);
    assert_eq!(counter.value, 1);
    assert_eq!(be64_bytes(0x0102030405060708), vec![1, 2, 3, 4, 5, 6, 7, 8]);
    assert_eq!(be32_bytes(0xDEADBEEF), vec![0xDE, 0xAD, 0xBE, 0xEF]);
    assert_eq!(pad_zero(b"123456789"), b"123456789\0\0\0\0\0\0\0".to_vec());
    assert_eq!(pad_zero(b"12345678"), b"12345678".to_vec());
    assert!(pad_zero(b"").is_empty());
}

#[test]
fn message_codes_verify_and_guard_every_octet() {
    for protocol in ALL_AUTH {
        let key = LocalizedKey::from_bytes(protocol, vec![0x5A; protocol.digest_len()]);
        let mut message = vec![0xC3u8; 100];
        message[17] = 1;
        let offset = 40;
        key.authenticate(&mut message, offset).unwrap();
        let n = protocol.mac_len();
        assert_ne!(&message[offset..offset + n], &vec![0xC3u8; n][..]);
        assert_eq!(message[offset + n], 0xC3);
        assert_eq!(message[offset - 1], 0xC3);
        assert_eq!(key.verify(&message, offset), Ok(()));
        for at in 0..message.len() {
            let mut forged = message.clone();
            forged[at] ^= 0x01;
            assert_eq!(
                key.verify(&forged, offset),
                Err(Error::AuthenticationFailed { target: None, kind: AuthErrorKind::HmacMismatch })
            );
        }
        let other = LocalizedKey::from_bytes(protocol, vec![0x5B; protocol.digest_len()]);
        assert!(other.verify(&message, offset).is_err());
    }
}

#[test]
fn authentication_needs_room_for_the_code() {
    let key = LocalizedKey::from_bytes(AuthProtocol::Md5, vec![1; 16]);
    let mut message = vec![0u8; 20];
    assert_eq!(
        key.authenticate(&mut message, 9),
        Err(Error::Encode { kind: EncodeErrorKind::MissingAuthParams })
    );
    assert_eq!(message, vec![0u8; 20]);
    assert_eq!(
        key.verify(&message, 9),
        Err(Error::AuthenticationFailed { target: None, kind: AuthErrorKind::AuthParamsNotFound })
    );
    assert!(key.authenticate(&mut message, 8).is_ok());
    assert_eq!(key.compute_mac(b"x").len(), 12);
    assert!(constant_time_eq(b"same", b"same"));
    assert!(!constant_time_eq(b"same", b"sane"));
    assert!(!constant_time_eq(b"same", b"sam"));
}

fn scoped(request_id: i32) -> ScopedPdu {
    ScopedPdu::new(
        hex("80001f8880e9630000d61ff449"),
        b"ctx".to_vec(),
        Pdu::new(
            PduType::GetRequest,
            request_id,
            vec![VarBind::null(Oid::from_slice(&[1, 3, 6, 1, 2, 1, 1, 1, 0]))],
        ),
    )
}

fn user(auth: Option<AuthProtocol>, privacy: Option<PrivProtocol>, engine_id: &[u8]) -> UsmUser {
    UsmUser {
        user_name: b"admin".to_vec(),
        auth_key: auth.map(|p| LocalizedKey::from_bytes(p, digest(p, engine_id))),
        priv_key: privacy.and_then(|p| {
            let mut octets = digest(AuthProtocol::Sha256, engine_id);
            octets.truncate(p.key_len());
            PrivKey::from_bytes(p, octets)
        }),
    }
}

fn outbound_settings(level: SecurityLevel) -> Outbound {
    Outbound {
        msg_id: 2,
        msg_max_size: 65507,
        reportable: true,
        level,
        engine_boots: 3,
        engine_time: 12345,
        salt: 0x1122334455667788,
    }
}

#[test]
fn usm_round_trip_at_every_level_and_protocol() {
    let engine_id = hex("80001f8880e9630000d61ff449");
    for auth in ALL_AUTH {
        for protocol in ALL_PRIV {
            let u = user(Some(auth), Some(protocol), &engine_id);
            for level in [SecurityLevel::NoAuthNoPriv, SecurityLevel::AuthNoPriv, SecurityLevel::AuthPriv] {
                let bytes = outbound(outbound_settings(level), &engine_id, &u, &scoped(99)).unwrap();
                let got = inbound(&bytes, &u, None, 0).unwrap();
                assert_eq!(got.scoped_pdu, scoped(99));
                assert_eq!(got.global_data.msg_id, 2);
                assert_eq!(got.global_data.msg_flags, MsgFlags::new(level, true));
                assert_eq!(got.security_params.engine_id, engine_id);
                assert_eq!(got.security_params.engine_boots, 3);
                assert_eq!(got.security_params.engine_time, 12345);
                assert_eq!(got.security_params.user_name, b"admin".to_vec());
                assert_eq!(got.security_params.auth_params.len(), if level == SecurityLevel::NoAuthNoPriv { 0 } else { auth.mac_len() });
                assert_eq!(got.security_params.priv_params.len(), if level == SecurityLevel::AuthPriv { 8 } else { 0 });
            }
        }
    }
}

#[test]
fn a_flipped_octet_fails_authentication() {
    let engine_id = hex("80001f8880e9630000d61ff449");
    let u = user(Some(AuthProtocol::Sha256), Some(PrivProtocol::Aes128), &engine_id);
    let bytes = outbound(outbound_settings(SecurityLevel::AuthPriv), &engine_id, &u, &scoped(1)).unwrap();
    let last = bytes.len() - 1;
    let mut forged = bytes.clone();
    forged[last] ^= 0x80;
    assert_eq!(
        inbound(&forged, &u, None, 0),
        Err(Error::AuthenticationFailed { target: None, kind: AuthErrorKind::HmacMismatch })
    );
    assert!(inbound(&bytes, &u, None, 0).is_ok());
}

#[test]
fn a_wrong_privacy_key_does_not_yield_the_scoped_pdu() {
    let engine_id = hex("80001f8880e9630000d61ff449");
    for protocol in ALL_PRIV {
        let sender = user(Some(AuthProtocol::Sha1), Some(protocol), &engine_id);
        let mut receiver = user(Some(AuthProtocol::Sha1), Some(protocol), &engine_id);
        receiver.priv_key = PrivKey::from_bytes(protocol, vec![0x42; protocol.key_len()]);
        let bytes = outbound(outbound_settings(SecurityLevel::AuthPriv), &engine_id, &sender, &scoped(1)).unwrap();
        match inbound(&bytes, &receiver, None, 0) {
            Err(Error::Decode { .. }) => {}
            Ok(got) => assert_ne!(got.scoped_pdu, scoped(1)),
            Err(other) => panic!("unexpected error {:?}", other),
        }
    }
}

#[test]
fn outbound_needs_the_keys_of_its_level() {
    let engine_id = hex("80001f8880e9630000d61ff449");
    let nobody = user(None, None, &engine_id);
    assert_eq!(
        outbound(outbound_settings(SecurityLevel::AuthNoPriv), &engine_id, &nobody, &scoped(1)),
        Err(Error::Encode { kind: EncodeErrorKind::MissingAuthKey })
    );
    let auth_only = user(Some(AuthProtocol::Md5), None, &engine_id);
    assert_eq!(
        outbound(outbound_settings(SecurityLevel::AuthPriv), &engine_id, &auth_only, &scoped(1)),
        Err(Error::Encode { kind: EncodeErrorKind::NoPrivKey })
    );
    assert!(outbound(outbound_settings(SecurityLevel::NoAuthNoPriv), &engine_id, &nobody, &scoped(1)).is_ok());
}

#[test]
fn inbound_faults() {
    let engine_id = hex("80001f8880e9630000d61ff449");
    let sender = user(Some(AuthProtocol::Sha1), Some(PrivProtocol::Des), &engine_id);
    let authenticated = outbound(outbound_settings(SecurityLevel::AuthNoPriv), &engine_id, &sender, &scoped(1)).unwrap();
    let encrypted = outbound(outbound_settings(SecurityLevel::AuthPriv), &engine_id, &sender, &scoped(1)).unwrap();
    let nobody = user(None, None, &engine_id);
    assert_eq!(
        inbound(&authenticated, &nobody, None, 0),
        Err(Error::AuthenticationFailed { target: None, kind: AuthErrorKind::NoAuthKey })
    );
    let other_protocol = user(Some(AuthProtocol::Sha256), None, &engine_id);
    assert_eq!(
        inbound(&authenticated, &other_protocol, None, 0),
        Err(Error::AuthenticationFailed {
            target: None,
            kind: AuthErrorKind::WrongMacLength { expected: 24, actual: 12 },
        })
    );
    let auth_only = user(Some(AuthProtocol::Sha1), None, &engine_id);
    assert_eq!(
        inbound(&encrypted, &auth_only, None, 0),
        Err(Error::DecryptionFailed { target: None, kind: CryptoErrorKind::NoPrivKey })
    );
    assert_eq!(
        inbound(&[0x30, 0x00], &sender, None, 0),
        Err(Error::Decode { offset: 2, kind: DecodeErrorKind::TruncatedData })
    );
}

#[test]
fn inbound_checks_the_time_window() {
    let engine_id = hex("80001f8880e9630000d61ff449");
    let u = user(Some(AuthProtocol::Sha1), None, &engine_id);
    let bytes = outbound(outbound_settings(SecurityLevel::AuthNoPriv), &engine_id, &u, &scoped(1)).unwrap();
    let known = |boots: u32, time: u32, synced_at: u64| EngineState::new(engine_id.clone(), boots, time, synced_at);
    // the message carries boots 3 and time 12345
    assert!(inbound(&bytes, &u, Some(&known(3, 12345, 0)), 0).is_ok());
    assert!(inbound(&bytes, &u, Some(&known(3, 12195, 0)), 0).is_ok());
    assert!(inbound(&bytes, &u, Some(&known(3, 12000, 0)), 195).is_ok());
    let late = Err(Error::NotInTimeWindow { target: None });
    assert_eq!(inbound(&bytes, &u, Some(&known(3, 12194, 0)), 0), late);
    assert_eq!(inbound(&bytes, &u, Some(&known(3, 12345, 0)), 151), late);
    assert_eq!(inbound(&bytes, &u, Some(&known(4, 12345, 0)), 0), late);
    assert_eq!(inbound(&bytes, &u, Some(&known(3, 12346, 0)), 0), late);
    // an unauthenticated message is not checked
    let plain = outbound(outbound_settings(SecurityLevel::NoAuthNoPriv), &engine_id, &u, &scoped(1)).unwrap();
    assert!(inbound(&plain, &u, Some(&known(9, 0, 0)), 0).is_ok());
}

#[test]
fn engine_time_is_estimated_and_learned() {
    let mut state = EngineState::new(vec![1], 3, 1000, 50);
    assert_eq!(state.estimated_time(50), 1000);
    assert_eq!(state.estimated_time(80), 1030);
    assert_eq!(state.estimated_time(10), 1000);
    assert_eq!(state.estimated_time(u64::MAX), 2147483647);
    assert!(state.is_in_time_window(3, 1150, 50));
    assert!(!state.is_in_time_window(3, 1151, 50));
    assert!(!state.is_in_time_window(3, 999, 50));
    assert!(!state.is_in_time_window(2, 1000, 50));
    assert!(state.is_in_time_window(4, 1000, 50));
    assert!(!state.update_time(3, 1000, 60));
    assert!(!state.update_time(2, 5000, 60));
    assert_eq!(state, EngineState::new(vec![1], 3, 1000, 50));
    assert!(state.update_time(3, 1001, 60));
    assert_eq!(state, EngineState::new(vec![1], 3, 1001, 60));
    assert!(state.update_time(4, 7, 70));
    assert_eq!(state, EngineState::new(vec![1], 4, 7, 70));
}

#[test]
fn engine_cache_is_keyed_by_peer() {
    let a = SocketAddress::v4(10, 0, 0, 1, 161);
    let b = SocketAddress::v4(10, 0, 0, 2, 161);
    let mut cache = EngineCache::new();
    assert_eq!(cache.len(), 0);
    assert_eq!(cache.get(&a), None);
    cache.insert(a, EngineState::new(vec![1], 1, 10, 0));
    cache.insert(b, EngineState::new(vec![2], 2, 20, 0));
    cache.insert(a, EngineState::new(vec![3], 3, 30, 0));
    assert_eq!(cache.len(), 2);
    assert_eq!(cache.get(&a), Some(&EngineState::new(vec![3], 3, 30, 0)));
    assert_eq!(cache.get(&b), Some(&EngineState::new(vec![2], 2, 20, 0)));
    assert_eq!(cache.remove(&a), Some(EngineState::new(vec![3], 3, 30, 0)));
    assert_eq!(cache.len(), 1);
    assert_eq!(cache.remove(&a), None);
    assert_eq!(cache.len(), 1);
    assert_eq!(cache.get(&a), None);
    assert_eq!(cache.get(&b), Some(&EngineState::new(vec![2], 2, 20, 0)));
    assert_eq!(cache.remove(&b), Some(EngineState::new(vec![2], 2, 20, 0)));
    assert_eq!(cache.len(), 0);
}

#[test]
fn reports_are_known_by_their_counters() {
    assert_eq!(Report::UnsupportedSecLevels.oid().to_string(), "1.3.6.1.6.3.15.1.1.1.0");
    assert_eq!(Report::NotInTimeWindows.oid().to_string(), "1.3.6.1.6.3.15.1.1.2.0");
    assert_eq!(Report::UnknownUserNames.oid().to_string(), "1.3.6.1.6.3.15.1.1.3.0");
    assert_eq!(Report::UnknownEngineIds.oid().to_string(), "1.3.6.1.6.3.15.1.1.4.0");
    assert_eq!(Report::WrongDigests.oid().to_string(), "1.3.6.1.6.3.15.1.1.5.0");
    assert_eq!(Report::DecryptionErrors.oid().to_string(), "1.3.6.1.6.3.15.1.1.6.0");
    let report = |r: Report| Pdu::new(PduType::Report, 0, vec![VarBind::new(r.oid(), Value::Counter32(1))]);
    assert!(is_unsupported_sec_level_report(&report(Report::UnsupportedSecLevels)));
    assert!(is_not_in_time_window_report(&report(Report::NotInTimeWindows)));
    assert!(is_unknown_user_name_report(&report(Report::UnknownUserNames)));
    assert!(is_unknown_engine_id_report(&report(Report::UnknownEngineIds)));
    assert!(is_wrong_digest_report(&report(Report::WrongDigests)));
    assert!(is_decryption_error_report(&report(Report::DecryptionErrors)));
    assert!(!is_wrong_digest_report(&report(Report::DecryptionErrors)));
    let mut response = report(Report::WrongDigests);
    response.pdu_type = PduType::Response;
    assert!(!is_wrong_digest_report(&response));
}

fn plain_message(global_data: MsgGlobalData) -> V3Message {
    V3Message { global_data, security_params: UsmSecurityParams::empty(), data: ScopedData::Plaintext(scoped(5)) }
}

fn header(msg_id: i32, msg_max_size: i32, flags: u8, model: i32) -> MsgGlobalData {
    MsgGlobalData { msg_id, msg_max_size, msg_flags: MsgFlags::from_byte(flags), msg_security_model: model }
}

#[test]
fn v3_message_round_trips() {
    let message = plain_message(header(1, 65507, 0x04, 3));
    let (bytes, code_at) = message.encode();
    assert_eq!(V3Message::decode(&bytes), Ok((message, code_at)));
    let encrypted = V3Message {
        global_data: header(2147483647, 484, 0x03, 3),
        security_params: UsmSecurityParams {
            engine_id: vec![0x80, 0, 0, 1],
            engine_boots: 2147483647,
            engine_time: 0,
            user_name: b"u".to_vec(),
            auth_params: vec![0; 12],
            priv_params: vec![9; 8],
        },
        data: ScopedData::Encrypted(vec![1, 2, 3]),
    };
    let (bytes, code_at) = encrypted.encode();
    assert_eq!(&bytes[code_at..code_at + 12], &[0u8; 12]);
    assert_eq!(bytes[code_at - 2..code_at], [0x04, 0x0C]);
    assert_eq!(V3Message::decode(&bytes), Ok((encrypted, code_at)));
}

#[test]
fn v3_header_faults() {
    let fault = |h: MsgGlobalData| match V3Message::decode(&plain_message(h).encode().0) {
        Err(Error::Decode { kind, .. }) => Some(kind),
        _ => None,
    };
    assert_eq!(fault(header(-1, 484, 0, 3)), Some(DecodeErrorKind::InvalidMsgId { value: -1 }));
    assert_eq!(
        fault(header(1, 483, 0, 3)),
        Some(DecodeErrorKind::MsgMaxSizeTooSmall { value: 483, minimum: 484 })
    );
    assert_eq!(fault(header(1, 484, 0x02, 3)), Some(DecodeErrorKind::InvalidMsgFlags));
    assert_eq!(fault(header(1, 484, 0, 2)), Some(DecodeErrorKind::UnknownSecurityModel(2)));
    assert_eq!(fault(header(1, 484, 0x01, 3)), None);
    // with the privacy flag the data must be encrypted
    assert_eq!(fault(header(1, 484, 0x03, 3)), Some(DecodeErrorKind::ExpectedEncryption));
    let mut encrypted = plain_message(header(1, 484, 0x00, 3));
    encrypted.data = ScopedData::Encrypted(vec![1]);
    assert_eq!(
        V3Message::decode(&encrypted.encode().0).map_err(|e| match e {
            Error::Decode { kind, .. } => kind,
            _ => DecodeErrorKind::MissingPdu,
        }),
        Err(DecodeErrorKind::UnexpectedEncryption)
    );
}

#[test]
fn usm_parameter_faults() {
    let decode = |boots: i32, time: i32| {
        let params = UsmSecurityParams { engine_boots: boots, engine_time: time, ..UsmSecurityParams::empty() };
        let mut buf = EncodeBuf::new();
        params.encode(&mut buf);
        let bytes = buf.finish_vec();
        let mut decoder = Decoder::from_slice(&bytes);
        UsmSecurityParams::decode(&mut decoder).map(|pair| pair.0 == params)
    };
    assert_eq!(decode(0, 0), Ok(true));
    assert_eq!(decode(2147483647, 2147483647), Ok(true));
    assert_eq!(
        decode(-1, 0),
        Err(Error::Decode { offset: 4, kind: DecodeErrorKind::InvalidEngineBoots { value: -1 } })
    );
    assert_eq!(
        decode(0, -2),
        Err(Error::Decode { offset: 7, kind: DecodeErrorKind::InvalidEngineTime { value: -2 } })
    );
}

#[test]
fn flags_octet() {
    assert_eq!(MsgFlags::new(SecurityLevel::NoAuthNoPriv, false).to_byte(), 0x00);
    assert_eq!(MsgFlags::new(SecurityLevel::AuthNoPriv, false).to_byte(), 0x01);
    assert_eq!(MsgFlags::new(SecurityLevel::AuthPriv, false).to_byte(), 0x03);
    assert_eq!(MsgFlags::new(SecurityLevel::AuthPriv, true).to_byte(), 0x07);
    assert_eq!(MsgFlags::from_byte(0xFC), MsgFlags { reportable: true, auth: false, privacy: false });
    assert_eq!(MsgFlags::from_byte(0x02).security_level(), None);
    assert_eq!(MsgFlags::from_byte(0x05).security_level(), Some(SecurityLevel::AuthNoPriv));
    assert!(SecurityLevel::AuthPriv > SecurityLevel::AuthNoPriv);
    assert!(SecurityLevel::AuthNoPriv.satisfies(SecurityLevel::NoAuthNoPriv));
    assert!(!SecurityLevel::AuthNoPriv.satisfies(SecurityLevel::AuthPriv));
}

#[test]
fn discovery_response_tells_the_engine() {
    let mut message = plain_message(header(1, 65507, 0, 3));
    assert_eq!(parse_discovery_response(&message, 7), Err(Error::UnknownEngineId { target: None }));
    message.security_params.engine_id = hex("80001f8880e9630000d61ff449");
    message.security_params.engine_boots = 3;
    message.security_params.engine_time = 12345;
    assert_eq!(
        parse_discovery_response(&message, 7),
        Ok(EngineState::new(hex("80001f8880e9630000d61ff449"), 3, 12345, 7))
    );
}
