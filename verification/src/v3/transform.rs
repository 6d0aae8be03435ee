//! The outbound and inbound transforms of USM.
//!
//! Outbound: the scoped PDU is encoded and, with privacy, encrypted; the
//! message is encoded with zeros in the place of the authentication code;
//! with authentication the code is computed over the whole message and
//! written into its place.
//!
//! Inbound: the message is decoded; with authentication the code is
//! verified and the time window is checked; with privacy the scoped PDU is
//! decrypted and decoded.

use vstd::prelude::*;

use super::auth::{authenticated, verifies, LocalizedKey};
use super::engine::{in_time_window, EngineState};
use super::message::{
    code_offset, lemma_code_in_place, lemma_scoped_roundtrip_at, lemma_v3_message_roundtrip,
    parse_scoped_pdu, parse_v3, scoped_ber, scoped_round_trips, v3_ber, v3_round_trips,
    with_auth_params, MsgFlags, MsgGlobalData, ScopedData, ScopedDataView, ScopedPdu,
    ScopedPduView, V3Message, V3MessageView, SECURITY_MODEL_USM,
};
use super::privacy::{be64, decrypt_fault, decrypted, encrypted, zero_padded, PrivKey};
use super::usm::{UsmSecurityParams, UsmView};
use super::PrivProtocol;
use crate::error::{AuthErrorKind, CryptoErrorKind, EncodeErrorKind, Error, Result};
use crate::message::SecurityLevel;
use crate::oid::Parsed;

verus! {

/// A user of USM at one engine: the name and the localized keys.
#[derive(Debug, Clone, PartialEq, Eq)]
pub struct UsmUser {
    pub user_name: Vec<u8>,
    pub auth_key: Option<LocalizedKey>,
    pub priv_key: Option<PrivKey>,
}

/// The engine values and ids that an outbound message carries.
#[derive(Debug, Clone, Copy, PartialEq, Eq, Structural)]
pub struct Outbound {
    pub msg_id: i32,
    pub msg_max_size: i32,
    pub reportable: bool,
    pub level: SecurityLevel,
    pub engine_boots: u32,
    pub engine_time: u32,
    pub salt: u64,
}

/// A number of at most 31 bits as a signed number; a larger one becomes the
/// largest.
pub open spec fn clamp31(n: u32) -> i32 {
    if n > 0x7FFF_FFFF {
        0x7FFF_FFFF
    } else {
        n as i32
    }
}

/// A number that is not negative as an unsigned number; a negative one
/// becomes 0.
pub open spec fn unsigned31(n: i32) -> u32 {
    if n < 0 {
        0
    } else {
        n as u32
    }
}

/// The message that goes out before it is authenticated: the scoped PDU in
/// the clear or as `data`, the code as zeros of the MAC length, the salt as
/// `priv_params`.
pub open spec fn outbound_message(
    o: Outbound,
    engine_id: Seq<u8>,
    user_name: Seq<u8>,
    mac_len: nat,
    data: ScopedDataView,
) -> V3MessageView {
    V3MessageView {
        global_data: MsgGlobalData {
            msg_id: o.msg_id,
            msg_max_size: o.msg_max_size,
            msg_flags: MsgFlags {
                reportable: o.reportable,
                auth: o.level.rank() >= 1,
                privacy: o.level.rank() == 2,
            },
            msg_security_model: SECURITY_MODEL_USM,
        },
        security_params: UsmView {
            engine_id,
            engine_boots: clamp31(o.engine_boots),
            engine_time: clamp31(o.engine_time),
            user_name,
            auth_params: if o.level.rank() >= 1 {
                Seq::new(mac_len, |i: int| 0u8)
            } else {
                Seq::empty()
            },
            priv_params: if o.level.rank() == 2 {
                be64(o.salt)
            } else {
                Seq::empty()
            },
        },
        data,
    }
}

/// Why a message cannot go out at a level: a key that the level needs is
/// missing.
pub open spec fn outbound_fault(level: SecurityLevel, user: UsmUser) -> Option<EncodeErrorKind> {
    if level.rank() >= 1 && user.auth_key is None {
        Some(EncodeErrorKind::MissingAuthKey)
    } else if level.rank() == 2 && (user.priv_key is None || !user.priv_key->0.wf()) {
        Some(EncodeErrorKind::NoPrivKey)
    } else {
        None
    }
}

/// The data of the message that goes out: with privacy the ciphertext of
/// the encoded scoped PDU, else the scoped PDU.
pub open spec fn outbound_data(o: Outbound, user: UsmUser, scoped: ScopedPduView) -> ScopedDataView {
    if o.level.rank() == 2 {
        ScopedDataView::Encrypted(
            encrypted(
                user.priv_key->0.protocol(),
                user.priv_key->0.octets(),
                o.engine_boots,
                o.engine_time,
                be64(o.salt),
                scoped_ber(scoped),
            ),
        )
    } else {
        ScopedDataView::Plaintext(scoped)
    }
}

/// The length of the authentication code of the message that goes out.
pub open spec fn outbound_mac_len(o: Outbound, user: UsmUser) -> nat {
    if o.level.rank() >= 1 {
        user.auth_key->0.protocol().spec_mac_len()
    } else {
        0
    }
}

/// The message that goes out, with zeros in the place of its code.
pub open spec fn outbound_draft(
    o: Outbound,
    engine_id: Seq<u8>,
    user: UsmUser,
    scoped: ScopedPduView,
) -> V3MessageView {
    outbound_message(
        o,
        engine_id,
        user.user_name@,
        outbound_mac_len(o, user),
        outbound_data(o, user, scoped),
    )
}

/// What the outbound transform sends for a user who has the keys of the
/// level. Without authentication the octets are those of the message. With
/// authentication they are the message with its code in place, and the
/// code verifies under the same key. With privacy the ciphertext is one
/// that decryption takes, and decryption under the same key gives octets
/// that decode to the scoped PDU.
pub open spec fn sent_by(
    o: Outbound,
    engine_id: Seq<u8>,
    user: UsmUser,
    scoped: ScopedPduView,
    bytes: Seq<u8>,
) -> bool {
    let data = outbound_data(o, user, scoped);
    let m = outbound_draft(o, engine_id, user, scoped);
    &&& o.level.rank() == 0 ==> bytes == v3_ber(m)
    &&& o.level.rank() >= 1 ==> bytes == authenticated(
        user.auth_key->0.protocol(),
        user.auth_key->0.octets(),
        v3_ber(m),
        code_offset(m),
    ) && verifies(user.auth_key->0.protocol(), user.auth_key->0.octets(), bytes, code_offset(m))
    &&& o.level.rank() == 2 ==> decrypt_fault(
        user.priv_key->0.protocol(),
        be64(o.salt),
        data->Encrypted_0,
    ) is None
    &&& o.level.rank() == 2 && scoped_round_trips(scoped) ==> (parse_scoped_pdu(
        decrypted(
            user.priv_key->0.protocol(),
            user.priv_key->0.octets(),
            o.engine_boots,
            o.engine_time,
            be64(o.salt),
            data->Encrypted_0,
        ),
        0,
    ) matches Parsed::Value { value, .. } && value == scoped)
}

/// A vector of `n` zero octets.
fn zeros(n: usize) -> (r: Vec<u8>)
    ensures
        r@ == Seq::new(n as nat, |i: int| 0u8),
{
    let mut out: Vec<u8> = Vec::with_capacity(n);
    let mut i: usize = 0;
    while i < n
        invariant
            i <= n,
            out@.len() == i,
            forall|j: int| 0 <= j < i ==> out@[j] == 0u8,
        decreases n - i,
    {
        out.push(0);
        i += 1;
    }
    proof {
        assert(out@ =~= Seq::new(n as nat, |i: int| 0u8));
    }
    out
}

/// The outbound transform: the octets of the message that carries the
/// scoped PDU at the given level.
///
/// Without a key that the level needs the transform fails. With privacy
/// the data is the ciphertext of the encoded scoped PDU, which decryption
/// under the same key turns back into the scoped PDU. With authentication
/// the octets are the message with its code in place, and the code
/// verifies under the same key.
#[verifier::spinoff_prover]
#[verifier::rlimit(60)]
pub fn outbound(o: Outbound, engine_id: &[u8], user: &UsmUser, scoped: &ScopedPdu) -> (r: Result<
    Vec<u8>,
>)
    ensures
        match outbound_fault(o.level, *user) {
            Some(kind) => r == Err::<Vec<u8>, Error>(Error::Encode { kind }),
            None => r matches Ok(bytes) && sent_by(o, engine_id@, *user, scoped@, bytes@),
        },
{
    let needs_auth = o.level.requires_auth();
    let needs_priv = o.level.requires_priv();
    if needs_auth && user.auth_key.is_none() {
        return Err(Error::encode(EncodeErrorKind::MissingAuthKey));
    }
    let mut priv_params: Vec<u8> = Vec::new();
    let data = if needs_priv {
        let key = match &user.priv_key {
            None => {
                return Err(Error::encode(EncodeErrorKind::NoPrivKey));
            },
            Some(k) => k,
        };
        if key.as_bytes().len() != key.priv_protocol().key_len() {
            return Err(Error::encode(EncodeErrorKind::NoPrivKey));
        }
        let plain = scoped.encode_vec();
        let (ciphertext, salt) = key.encrypt(plain.as_slice(), o.engine_boots, o.engine_time, o.salt);
        proof {
            if scoped_round_trips(scoped@) {
                let block: nat = if key.protocol() == PrivProtocol::Des || key.protocol()
                    == PrivProtocol::Des3 {
                    8
                } else {
                    0
                };
                let padded = zero_padded(plain@, block);
                assert(padded.subrange(0, plain@.len() as int) =~= plain@);
                lemma_scoped_roundtrip_at(padded, 0, scoped@);
            }
        }
        priv_params = salt;
        ScopedData::Encrypted(ciphertext)
    } else {
        ScopedData::Plaintext(
            ScopedPdu {
                context_engine_id: scoped.context_engine_id.clone(),
                context_name: scoped.context_name.clone(),
                pdu: scoped.pdu.duplicate(),
            },
        )
    };
    let auth_params = match &user.auth_key {
        Some(k) => if needs_auth {
            zeros(k.auth_protocol().mac_len())
        } else {
            Vec::new()
        },
        None => Vec::new(),
    };
    let boots: i32 = if o.engine_boots > 0x7FFF_FFFF {
        0x7FFF_FFFF
    } else {
        o.engine_boots as i32
    };
    let time: i32 = if o.engine_time > 0x7FFF_FFFF {
        0x7FFF_FFFF
    } else {
        o.engine_time as i32
    };
    let message = V3Message {
        global_data: MsgGlobalData {
            msg_id: o.msg_id,
            msg_max_size: o.msg_max_size,
            msg_flags: MsgFlags::new(o.level, o.reportable),
            msg_security_model: SECURITY_MODEL_USM,
        },
        security_params: UsmSecurityParams {
            engine_id: vstd::slice::slice_to_vec(engine_id),
            engine_boots: boots,
            engine_time: time,
            user_name: user.user_name.clone(),
            auth_params,
            priv_params,
        },
        data,
    };
    let (mut bytes, offset) = message.encode();
    if needs_auth {
        match &user.auth_key {
            None => {},
            Some(key) => {
                proof {
                    super::auth::lemma_authenticated_message_verifies(
                        key.protocol(),
                        key.octets(),
                        bytes@,
                        offset as int,
                    );
                }
                match key.authenticate(&mut bytes, offset) {
                    Ok(()) => {},
                    Err(_) => {},
                }
            },
        }
    }
    Ok(bytes)
}

/// What came in: the header, the security parameters and the scoped PDU.
#[derive(Debug, Clone, PartialEq, Eq)]
pub struct Inbound {
    pub global_data: MsgGlobalData,
    pub security_params: UsmSecurityParams,
    pub scoped_pdu: ScopedPdu,
}

/// Why a decoded message is refused before its data is looked at, or
/// `None`: an authenticated message needs the authentication key, a code of
/// the MAC length, a code that verifies, and, where the engine is known,
/// boots and time in the time window.
pub open spec fn inbound_auth_fault(
    bytes: Seq<u8>,
    m: V3MessageView,
    code_at: int,
    user: UsmUser,
    engine: Option<EngineState>,
    now: u64,
) -> Option<Error> {
    if !m.global_data.msg_flags.auth {
        None
    } else if user.auth_key is None {
        Some(Error::AuthenticationFailed { target: None, kind: AuthErrorKind::NoAuthKey })
    } else {
        let key = user.auth_key->0;
        if m.security_params.auth_params.len() != key.protocol().spec_mac_len() {
            Some(
                Error::AuthenticationFailed {
                    target: None,
                    kind: AuthErrorKind::WrongMacLength {
                        expected: key.protocol().spec_mac_len() as usize,
                        actual: m.security_params.auth_params.len() as usize,
                    },
                },
            )
        } else if code_at + key.protocol().spec_mac_len() > bytes.len() {
            Some(
                Error::AuthenticationFailed { target: None, kind: AuthErrorKind::AuthParamsNotFound },
            )
        } else if !verifies(key.protocol(), key.octets(), bytes, code_at) {
            Some(Error::AuthenticationFailed { target: None, kind: AuthErrorKind::HmacMismatch })
        } else if engine is Some && !in_time_window(
            engine->0,
            now,
            unsigned31(m.security_params.engine_boots),
            unsigned31(m.security_params.engine_time),
        ) {
            Some(Error::NotInTimeWindow { target: None })
        } else {
            None
        }
    }
}

/// The scoped PDU of a message that has passed authentication: the one it
/// carries in the clear, or the one that its ciphertext decrypts to.
pub open spec fn inbound_scoped(m: V3MessageView, user: UsmUser) -> core::result::Result<
    ScopedPduView,
    Error,
> {
    match m.data {
        ScopedDataView::Plaintext(sp) => Ok(sp),
        ScopedDataView::Encrypted(c) => if user.priv_key is None || !user.priv_key->0.wf() {
            Err(Error::DecryptionFailed { target: None, kind: CryptoErrorKind::NoPrivKey })
        } else {
            let key = user.priv_key->0;
            match decrypt_fault(key.protocol(), m.security_params.priv_params, c) {
                Some(kind) => Err(Error::DecryptionFailed { target: None, kind }),
                None => match parse_scoped_pdu(
                    decrypted(
                        key.protocol(),
                        key.octets(),
                        unsigned31(m.security_params.engine_boots),
                        unsigned31(m.security_params.engine_time),
                        m.security_params.priv_params,
                        c,
                    ),
                    0,
                ) {
                    Parsed::Value { value, .. } => Ok(value),
                    Parsed::Failed { at, kind } => Err(Error::Decode { offset: at as usize, kind }),
                },
            }
        },
    }
}

/// What the inbound transform makes of octets: the scoped PDU that they
/// carry, or the fault for which they are refused.
pub open spec fn inbound_outcome(
    bytes: Seq<u8>,
    user: UsmUser,
    engine: Option<EngineState>,
    now: u64,
) -> core::result::Result<ScopedPduView, Error> {
    match parse_v3(bytes) {
        Parsed::Failed { at, kind } => Err(Error::Decode { offset: at as usize, kind }),
        Parsed::Value { value: pair, .. } => match inbound_auth_fault(
            bytes,
            pair.0,
            pair.1,
            user,
            engine,
            now,
        ) {
            Some(fault) => Err(fault),
            None => inbound_scoped(pair.0, user),
        },
    }
}

/// What one party sends with its keys, every party with the same keys
/// receives: the code of an authenticated message verifies, and an
/// encrypted scoped PDU is decrypted to the scoped PDU that was sent.
///
/// The message must be one that can stand on the wire, with boots and time
/// of at most 31 bits; a receiver that knows the engine must find an
/// authenticated message timely.
pub proof fn lemma_sent_message_is_received(
    o: Outbound,
    engine_id: Seq<u8>,
    user: UsmUser,
    scoped: ScopedPduView,
    bytes: Seq<u8>,
    engine: Option<EngineState>,
    now: u64,
)
    requires
        outbound_fault(o.level, user) is None,
        sent_by(o, engine_id, user, scoped, bytes),
        v3_round_trips(outbound_draft(o, engine_id, user, scoped)),
        scoped_round_trips(scoped),
        o.engine_boots <= 0x7FFF_FFFF,
        o.engine_time <= 0x7FFF_FFFF,
        o.level.rank() >= 1 && engine is Some ==> in_time_window(
            engine->0,
            now,
            o.engine_boots,
            o.engine_time,
        ),
    ensures
        inbound_outcome(bytes, user, engine, now) == Ok::<ScopedPduView, Error>(scoped),
{
    let m = outbound_draft(o, engine_id, user, scoped);
    assert(0 <= o.level.rank() <= 2);
    if o.level.rank() == 0 {
        lemma_v3_message_roundtrip(m);
        assert(!m.global_data.msg_flags.auth);
        assert(m.data == ScopedDataView::Plaintext(scoped));
    } else {
        let key = user.auth_key->0;
        let n = key.protocol().spec_mac_len();
        let code = super::auth::message_code(key.protocol(), key.octets(), v3_ber(m), code_offset(m));
        assert(code.len() == n);
        assert(m.security_params.auth_params.len() == n);
        lemma_code_in_place(m, code);
        let m2 = with_auth_params(m, code);
        assert(bytes == v3_ber(m2));
        lemma_v3_message_roundtrip(m2);
        assert(parse_v3(bytes) == (Parsed::Value {
            value: (m2, code_offset(m)),
            next: bytes.len() as int,
        }));
        assert(unsigned31(m2.security_params.engine_boots) == o.engine_boots);
        assert(unsigned31(m2.security_params.engine_time) == o.engine_time);
        assert(inbound_auth_fault(bytes, m2, code_offset(m), user, engine, now) is None);
        if o.level.rank() == 2 {
            assert(m2.security_params.priv_params == be64(o.salt));
            assert(inbound_scoped(m2, user) == Ok::<ScopedPduView, Error>(scoped));
        } else {
            assert(m2.data == ScopedDataView::Plaintext(scoped));
        }
    }
}

/// The inbound transform: decodes a message, verifies its code and its
/// timeliness where it is authenticated, and decrypts its scoped PDU where
/// it is encrypted.
pub fn inbound(bytes: &[u8], user: &UsmUser, engine: Option<&EngineState>, now: u64) -> (r: Result<
    Inbound,
>)
    ensures
        match parse_v3(bytes@) {
            Parsed::Failed { at, kind } => r matches Err(e) && e == (Error::Decode {
                offset: at as usize,
                kind,
            }),
            Parsed::Value { value: pair, .. } => match inbound_auth_fault(
                bytes@,
                pair.0,
                pair.1,
                *user,
                match engine {
                    Some(e) => Some(*e),
                    None => None,
                },
                now,
            ) {
                Some(fault) => r matches Err(e) && e == fault,
                None => match inbound_scoped(pair.0, *user) {
                    Err(fault) => r matches Err(e) && e == fault,
                    Ok(sp) => r matches Ok(got) && got.global_data == pair.0.global_data
                        && got.security_params@ == pair.0.security_params && got.scoped_pdu@ == sp,
                },
            },
        },
        match inbound_outcome(
            bytes@,
            *user,
            match engine {
                Some(e) => Some(*e),
                None => None,
            },
            now,
        ) {
            Ok(sp) => r matches Ok(got) && got.scoped_pdu@ == sp,
            Err(fault) => r matches Err(e) && e == fault,
        },
{
    let (message, code_at) = match V3Message::decode(bytes) {
        Err(e) => {
            return Err(e);
        },
        Ok(pair) => pair,
    };
    let boots: u32 = if message.security_params.engine_boots < 0 {
        0
    } else {
        message.security_params.engine_boots as u32
    };
    let time: u32 = if message.security_params.engine_time < 0 {
        0
    } else {
        message.security_params.engine_time as u32
    };
    if message.global_data.msg_flags.auth {
        let key = match &user.auth_key {
            None => {
                return Err(Error::auth(None, AuthErrorKind::NoAuthKey));
            },
            Some(k) => k,
        };
        let expected = key.auth_protocol().mac_len();
        let actual = message.security_params.auth_params.len();
        if actual != expected {
            return Err(Error::auth(None, AuthErrorKind::WrongMacLength { expected, actual }));
        }
        match key.verify(bytes, code_at) {
            Err(e) => {
                return Err(e);
            },
            Ok(()) => {},
        }
        match engine {
            Some(state) => {
                if !state.is_in_time_window(boots, time, now) {
                    return Err(Error::NotInTimeWindow { target: None });
                }
            },
            None => {},
        }
    }
    let V3Message { global_data, security_params, data } = message;
    let scoped_pdu = match data {
        ScopedData::Plaintext(sp) => sp,
        ScopedData::Encrypted(c) => {
            let key = match &user.priv_key {
                None => {
                    return Err(Error::decrypt(None, CryptoErrorKind::NoPrivKey));
                },
                Some(k) => k,
            };
            if key.as_bytes().len() != key.priv_protocol().key_len() {
                return Err(Error::decrypt(None, CryptoErrorKind::NoPrivKey));
            }
            let plain = match key.decrypt(
                c.as_slice(),
                boots,
                time,
                security_params.priv_params.as_slice(),
            ) {
                Err(e) => {
                    return Err(e);
                },
                Ok(p) => p,
            };
            match ScopedPdu::decode_slice(plain.as_slice()) {
                Err(e) => {
                    return Err(e);
                },
                Ok(sp) => sp,
            }
        },
    };
    Ok(Inbound { global_data, security_params, scoped_pdu })
}

} // verus!
