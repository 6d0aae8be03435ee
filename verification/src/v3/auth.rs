//! Keys and message authentication of USM.
//!
//! A password becomes a master key by hashing one mebioctet of its
//! repetition (RFC 3414 A.2); the master key becomes the key of one engine
//! by hashing it around the engine id. A message is authenticated by the
//! HMAC over the whole message with zeros in place of the code, cut to the
//! length that the protocol sets.

use vstd::prelude::*;

use super::crypto;
use super::AuthProtocol;
use crate::error::{AuthErrorKind, Error, Result};

verus! {

/// The number of octets that the password is stretched to.
pub const PASSWORD_STREAM_LEN: usize = 1048576;

/// The digest of octets under the hash of a protocol.
pub open spec fn digest_of(protocol: AuthProtocol, data: Seq<u8>) -> Seq<u8> {
    match protocol {
        AuthProtocol::Md5 => crypto::md5_of(data),
        AuthProtocol::Sha1 => crypto::sha1_of(data),
        AuthProtocol::Sha224 => crypto::sha224_of(data),
        AuthProtocol::Sha256 => crypto::sha256_of(data),
        AuthProtocol::Sha384 => crypto::sha384_of(data),
        AuthProtocol::Sha512 => crypto::sha512_of(data),
    }
}

/// The HMAC of octets under a key with the hash of a protocol.
pub open spec fn hmac_of(protocol: AuthProtocol, key: Seq<u8>, data: Seq<u8>) -> Seq<u8> {
    match protocol {
        AuthProtocol::Md5 => crypto::hmac_md5_of(key, data),
        AuthProtocol::Sha1 => crypto::hmac_sha1_of(key, data),
        AuthProtocol::Sha224 => crypto::hmac_sha224_of(key, data),
        AuthProtocol::Sha256 => crypto::hmac_sha256_of(key, data),
        AuthProtocol::Sha384 => crypto::hmac_sha384_of(key, data),
        AuthProtocol::Sha512 => crypto::hmac_sha512_of(key, data),
    }
}

/// The password repeated to one mebioctet; nothing for the empty password.
pub open spec fn password_stream(password: Seq<u8>) -> Seq<u8> {
    if password.len() == 0 {
        Seq::empty()
    } else {
        Seq::new(PASSWORD_STREAM_LEN as nat, |i: int| password[i % (password.len() as int)])
    }
}

/// The master key of a password: the digest of its stream.
pub open spec fn master_key_of(protocol: AuthProtocol, password: Seq<u8>) -> Seq<u8> {
    digest_of(protocol, password_stream(password))
}

/// The localized key: the digest of the master key, the engine id, and the
/// master key again.
pub open spec fn localized_key_of(protocol: AuthProtocol, master: Seq<u8>, engine_id: Seq<u8>) -> Seq<
    u8,
> {
    digest_of(protocol, master + engine_id + master)
}

/// The first `n` octets of a code.
pub open spec fn truncated(code: Seq<u8>, n: nat) -> Seq<u8> {
    Seq::new(n, |i: int| code[i])
}

/// The message with zeros in the `n` octets from `offset`.
pub open spec fn zeroed(message: Seq<u8>, offset: int, n: nat) -> Seq<u8> {
    Seq::new(
        message.len(),
        |i: int|
            if offset <= i < offset + n {
                0u8
            } else {
                message[i]
            },
    )
}

/// The message with the code in the `n` octets from `offset`.
pub open spec fn with_code(message: Seq<u8>, offset: int, n: nat, code: Seq<u8>) -> Seq<u8> {
    Seq::new(
        message.len(),
        |i: int|
            if offset <= i < offset + n {
                code[i - offset]
            } else {
                message[i]
            },
    )
}

/// The code of a message: the HMAC of the message with zeros in the place
/// of the code, cut to the MAC length of the protocol.
pub open spec fn message_code(protocol: AuthProtocol, key: Seq<u8>, message: Seq<u8>, offset: int) -> Seq<
    u8,
> {
    truncated(
        hmac_of(protocol, key, zeroed(message, offset, protocol.spec_mac_len())),
        protocol.spec_mac_len(),
    )
}

/// The authenticated message: the message with its code in the place of the
/// code.
pub open spec fn authenticated(protocol: AuthProtocol, key: Seq<u8>, message: Seq<u8>, offset: int) -> Seq<
    u8,
> {
    with_code(message, offset, protocol.spec_mac_len(), message_code(protocol, key, message, offset))
}

/// Whether the code that a message carries is the code of the message.
pub open spec fn verifies(protocol: AuthProtocol, key: Seq<u8>, message: Seq<u8>, offset: int) -> bool {
    message.subrange(offset, offset + protocol.spec_mac_len()) == message_code(
        protocol,
        key,
        message,
        offset,
    )
}

/// A message that one party authenticates with a key verifies for every
/// party that holds the same key.
pub proof fn lemma_authenticated_message_verifies(
    protocol: AuthProtocol,
    key: Seq<u8>,
    message: Seq<u8>,
    offset: int,
)
    requires
        0 <= offset,
        offset + protocol.spec_mac_len() <= message.len(),
    ensures
        verifies(protocol, key, authenticated(protocol, key, message, offset), offset),
{
    let n = protocol.spec_mac_len();
    let sent = authenticated(protocol, key, message, offset);
    assert(zeroed(sent, offset, n) =~= zeroed(message, offset, n));
    assert(sent.subrange(offset, offset + n) =~= message_code(protocol, key, message, offset));
}

/// Authentication changes nothing of a message but the octets of the code.
pub proof fn lemma_authenticated_keeps_message(
    protocol: AuthProtocol,
    key: Seq<u8>,
    message: Seq<u8>,
    offset: int,
)
    ensures
        authenticated(protocol, key, message, offset).len() == message.len(),
        forall|i: int|
            0 <= i < message.len() && !(offset <= i < offset + protocol.spec_mac_len())
                ==> authenticated(protocol, key, message, offset)[i] == message[i],
{
}

/// The digest of octets under the hash of a protocol.
pub fn digest(protocol: AuthProtocol, data: &[u8]) -> (r: Vec<u8>)
    ensures
        r@ == digest_of(protocol, data@),
        r@.len() == protocol.spec_digest_len(),
{
    match protocol {
        AuthProtocol::Md5 => crypto::md5(data),
        AuthProtocol::Sha1 => crypto::sha1(data),
        AuthProtocol::Sha224 => crypto::sha224(data),
        AuthProtocol::Sha256 => crypto::sha256(data),
        AuthProtocol::Sha384 => crypto::sha384(data),
        AuthProtocol::Sha512 => crypto::sha512(data),
    }
}

/// The HMAC of octets under a key with the hash of a protocol.
pub fn hmac(protocol: AuthProtocol, key: &[u8], data: &[u8]) -> (r: Vec<u8>)
    ensures
        r@ == hmac_of(protocol, key@, data@),
        r@.len() == protocol.spec_digest_len(),
{
    match protocol {
        AuthProtocol::Md5 => crypto::hmac_md5(key, data),
        AuthProtocol::Sha1 => crypto::hmac_sha1(key, data),
        AuthProtocol::Sha224 => crypto::hmac_sha224(key, data),
        AuthProtocol::Sha256 => crypto::hmac_sha256(key, data),
        AuthProtocol::Sha384 => crypto::hmac_sha384(key, data),
        AuthProtocol::Sha512 => crypto::hmac_sha512(key, data),
    }
}

/// Whether two codes are the same. Every octet is looked at, whatever the
/// octets before it are.
pub fn constant_time_eq(a: &[u8], b: &[u8]) -> (r: bool)
    ensures
        r == (a@ == b@),
{
    let n = a.len();
    if n != b.len() {
        return false;
    }
    let mut diff: u8 = 0;
    let mut i: usize = 0;
    while i < n
        invariant
            i <= n,
            n == a@.len(),
            n == b@.len(),
            diff == 0 <==> forall|j: int| 0 <= j < i ==> a@[j] == b@[j],
        decreases n - i,
    {
        let x = a[i];
        let y = b[i];
        let ghost before = diff;
        diff = diff | (x ^ y);
        proof {
            assert(((before | (x ^ y)) == 0) <==> (before == 0 && x == y)) by (bit_vector);
        }
        i += 1;
    }
    proof {
        if diff == 0 {
            assert(a@ =~= b@);
        }
    }
    diff == 0
}

/// The key of a user before it is bound to an engine.
#[derive(Debug, Clone, PartialEq, Eq)]
pub struct MasterKey {
    protocol: AuthProtocol,
    key: Vec<u8>,
}

impl MasterKey {
    /// The protocol whose hash made the key.
    pub closed spec fn protocol(self) -> AuthProtocol {
        self.protocol
    }

    /// The octets of the key.
    pub closed spec fn octets(self) -> Seq<u8> {
        self.key@
    }

    /// The master key of a password.
    pub fn from_password(protocol: AuthProtocol, password: &[u8]) -> (r: MasterKey)
        ensures
            r.protocol() == protocol,
            r.octets() == master_key_of(protocol, password@),
            r.octets().len() == protocol.spec_digest_len(),
    {
        let stream = stretch(password);
        MasterKey { protocol, key: digest(protocol, stream.as_slice()) }
    }

    /// The octets of the key.
    pub fn as_bytes(&self) -> (r: &[u8])
        ensures
            r@ == self.octets(),
    {
        self.key.as_slice()
    }

    /// The key for one engine.
    pub fn localize(&self, engine_id: &[u8]) -> (r: LocalizedKey)
        ensures
            r.protocol() == self.protocol(),
            r.octets() == localized_key_of(self.protocol(), self.octets(), engine_id@),
            r.octets().len() == self.protocol().spec_digest_len(),
    {
        let mut input: Vec<u8> = Vec::new();
        input.extend_from_slice(self.key.as_slice());
        input.extend_from_slice(engine_id);
        input.extend_from_slice(self.key.as_slice());
        proof {
            assert(input@ =~= self.octets() + engine_id@ + self.octets());
        }
        LocalizedKey { protocol: self.protocol, key: digest(self.protocol, input.as_slice()) }
    }
}

/// The password repeated to one mebioctet.
pub fn stretch(password: &[u8]) -> (r: Vec<u8>)
    ensures
        r@ == password_stream(password@),
{
    let n = password.len();
    let mut out: Vec<u8> = Vec::new();
    if n == 0 {
        proof {
            assert(out@ =~= password_stream(password@));
        }
        return out;
    }
    let mut i: usize = 0;
    let mut k: usize = 0;
    while i < PASSWORD_STREAM_LEN
        invariant
            i <= PASSWORD_STREAM_LEN,
            n == password@.len(),
            n > 0,
            k < n,
            k == i % n,
            out@.len() == i,
            forall|j: int| 0 <= j < i ==> out@[j] == password@[j % (n as int)],
        decreases PASSWORD_STREAM_LEN - i,
    {
        out.push(password[k]);
        proof {
            lemma_next_remainder(i as int, n as int);
        }
        k = if k + 1 == n {
            0
        } else {
            k + 1
        };
        i += 1;
    }
    proof {
        assert(out@ =~= password_stream(password@));
    }
    out
}

/// The remainder of the next number.
proof fn lemma_next_remainder(i: int, n: int)
    by (nonlinear_arith)
    requires
        0 <= i,
        0 < n,
    ensures
        (i + 1) % n == (if i % n + 1 == n {
            0
        } else {
            i % n + 1
        }),
{
}

/// The key of a user at one engine.
#[derive(Debug, Clone, PartialEq, Eq)]
pub struct LocalizedKey {
    protocol: AuthProtocol,
    key: Vec<u8>,
}

impl LocalizedKey {
    /// The protocol whose hash made the key.
    pub closed spec fn protocol(self) -> AuthProtocol {
        self.protocol
    }

    /// The octets of the key.
    pub closed spec fn octets(self) -> Seq<u8> {
        self.key@
    }

    /// The key of a password at one engine.
    pub fn from_password(protocol: AuthProtocol, password: &[u8], engine_id: &[u8]) -> (r:
        LocalizedKey)
        ensures
            r.protocol() == protocol,
            r.octets() == localized_key_of(
                protocol,
                master_key_of(protocol, password@),
                engine_id@,
            ),
            r.octets().len() == protocol.spec_digest_len(),
    {
        MasterKey::from_password(protocol, password).localize(engine_id)
    }

    /// A key from octets that were localized elsewhere.
    pub fn from_bytes(protocol: AuthProtocol, key: Vec<u8>) -> (r: LocalizedKey)
        ensures
            r.protocol() == protocol,
            r.octets() == key@,
    {
        LocalizedKey { protocol, key }
    }

    /// The octets of the key.
    pub fn as_bytes(&self) -> (r: &[u8])
        ensures
            r@ == self.octets(),
    {
        self.key.as_slice()
    }

    /// The protocol of the key.
    pub fn auth_protocol(&self) -> (r: AuthProtocol)
        ensures
            r == self.protocol(),
    {
        self.protocol
    }

    /// The HMAC of a message under the key, cut to the MAC length of the
    /// protocol.
    pub fn compute_mac(&self, message: &[u8]) -> (r: Vec<u8>)
        ensures
            r@ == truncated(hmac_of(self.protocol(), self.octets(), message@), self.protocol().spec_mac_len()),
            r@.len() == self.protocol().spec_mac_len(),
    {
        let mut code = hmac(self.protocol, self.key.as_slice(), message);
        code.truncate(self.protocol.mac_len());
        proof {
            assert(code@ =~= truncated(
                hmac_of(self.protocol(), self.octets(), message@),
                self.protocol().spec_mac_len(),
            ));
        }
        code
    }

    /// Authenticates a message in place: the octets of the code, which
    /// start at `offset`, are set to the code of the message. A message that
    /// is too short to hold the code there is left as it is.
    pub fn authenticate(&self, message: &mut Vec<u8>, offset: usize) -> (r: Result<()>)
        ensures
            offset + self.protocol().spec_mac_len() <= old(message)@.len() ==> r is Ok
                && final(message)@ == authenticated(self.protocol(), self.octets(), old(message)@, offset as int),
            offset + self.protocol().spec_mac_len() > old(message)@.len()
                ==> final(message)@ == old(message)@ && r == Err::<(), Error>(
                Error::Encode { kind: crate::error::EncodeErrorKind::MissingAuthParams },
            ),
    {
        let n = self.protocol.mac_len();
        if offset > message.len() || n > message.len() - offset {
            return Err(Error::encode(crate::error::EncodeErrorKind::MissingAuthParams));
        }
        fill_zero(message, offset, n);
        let code = self.compute_mac(message.as_slice());
        let mut i: usize = 0;
        let ghost clean = message@;
        let len = message.len();
        while i < n
            invariant
                i <= n,
                len == message@.len(),
                n == self.protocol().spec_mac_len(),
                n == code@.len(),
                offset + n <= message@.len(),
                message@.len() == clean.len(),
                forall|j: int|
                    0 <= j < message@.len() ==> message@[j] == (if offset <= j < offset + i {
                        code@[j - offset]
                    } else {
                        clean[j]
                    }),
            decreases n - i,
        {
            message.set(offset + i, code[i]);
            i += 1;
        }
        proof {
            assert(message@ =~= authenticated(
                self.protocol(),
                self.octets(),
                old(message)@,
                offset as int,
            ));
        }
        Ok(())
    }

    /// Verifies the code that a message carries at `offset`: the octets
    /// there are compared, in constant time, with the code of the message.
    pub fn verify(&self, message: &[u8], offset: usize) -> (r: Result<()>)
        ensures
            offset + self.protocol().spec_mac_len() > message@.len() ==> r == Err::<(), Error>(
                Error::AuthenticationFailed { target: None, kind: AuthErrorKind::AuthParamsNotFound },
            ),
            offset + self.protocol().spec_mac_len() <= message@.len() ==> (r is Ok <==> verifies(
                self.protocol(),
                self.octets(),
                message@,
                offset as int,
            )) && (r is Err ==> r == Err::<(), Error>(
                Error::AuthenticationFailed { target: None, kind: AuthErrorKind::HmacMismatch },
            )),
    {
        let n = self.protocol.mac_len();
        if offset > message.len() || n > message.len() - offset {
            return Err(Error::auth(None, AuthErrorKind::AuthParamsNotFound));
        }
        let carried = vstd::slice::slice_subrange(message, offset, offset + n);
        let mut copy = vstd::slice::slice_to_vec(message);
        fill_zero(&mut copy, offset, n);
        let code = self.compute_mac(copy.as_slice());
        if constant_time_eq(carried, code.as_slice()) {
            Ok(())
        } else {
            Err(Error::auth(None, AuthErrorKind::HmacMismatch))
        }
    }
}

/// Sets `n` octets from `offset` to zero.
pub fn fill_zero(message: &mut Vec<u8>, offset: usize, n: usize)
    requires
        offset + n <= old(message)@.len(),
    ensures
        final(message)@ == zeroed(old(message)@, offset as int, n as nat),
{
    let mut i: usize = 0;
    let len = message.len();
    while i < n
        invariant
            i <= n,
            len == message@.len(),
            offset + n <= message@.len(),
            message@.len() == old(message)@.len(),
            forall|j: int|
                0 <= j < message@.len() ==> message@[j] == (if offset <= j < offset + i {
                    0u8
                } else {
                    old(message)@[j]
                }),
        decreases n - i,
    {
        message.set(offset + i, 0);
        i += 1;
    }
    proof {
        assert(message@ =~= zeroed(old(message)@, offset as int, n as nat));
    }
}

} // verus!
