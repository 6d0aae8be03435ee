//! Privacy of USM: the localized privacy key, the salt, and encryption of
//! the scoped PDU with DES-CBC, 3DES-EDE-CBC or AES-CFB.
//!
//! `priv_params` carries only the salt. The receiver builds the IV from the
//! salt and, for AES, from the engine boots and time of the message.

use vstd::prelude::*;

use super::auth::{digest, digest_of, localized_key_of, master_key_of, LocalizedKey, MasterKey};
use super::crypto;
use super::{AuthProtocol, KeyExtension, PrivProtocol};
use crate::error::{CryptoErrorKind, Error, Result};

verus! {

/// The length of the salt in octets.
pub const SALT_LEN: usize = 8;

/// The length of a DES block in octets.
pub const DES_BLOCK: usize = 8;

/// The first `n` octets.
pub open spec fn head(s: Seq<u8>, n: nat) -> Seq<u8> {
    Seq::new(n, |i: int| s[i])
}

/// A 32-bit number as four octets, most significant first.
pub open spec fn be32(n: u32) -> Seq<u8> {
    seq![
        (n as int / 0x100_0000) as u8,
        (n as int / 0x1_0000 % 256) as u8,
        (n as int / 0x100 % 256) as u8,
        (n as int % 256) as u8,
    ]
}

/// A 64-bit number as eight octets, most significant first.
pub open spec fn be64(n: u64) -> Seq<u8> {
    seq![
        (n as int / 0x100_0000_0000_0000) as u8,
        (n as int / 0x1_0000_0000_0000 % 256) as u8,
        (n as int / 0x100_0000_0000 % 256) as u8,
        (n as int / 0x1_0000_0000 % 256) as u8,
        (n as int / 0x100_0000 % 256) as u8,
        (n as int / 0x1_0000 % 256) as u8,
        (n as int / 0x100 % 256) as u8,
        (n as int % 256) as u8,
    ]
}

/// The octets of two runs combined by exclusive or, position by position,
/// over the first `n` positions.
pub open spec fn xor(a: Seq<u8>, b: Seq<u8>, n: nat) -> Seq<u8> {
    Seq::new(n, |i: int| a[i] ^ b[i])
}

/// The data with zero octets behind it, up to a whole number of blocks.
pub open spec fn zero_padded(data: Seq<u8>, block: nat) -> Seq<u8> {
    if block == 0 || data.len() % block == 0 {
        data
    } else {
        data + Seq::new((block - data.len() % block) as nat, |i: int| 0u8)
    }
}

/// The octets that lengthen a localized key that is too short. Blumenthal:
/// the digest of the engine id and the key. Reeder: the key is taken as a
/// password, made a master key and localized.
pub open spec fn key_extension_of(
    auth: AuthProtocol,
    extension: KeyExtension,
    key: Seq<u8>,
    engine_id: Seq<u8>,
) -> Seq<u8> {
    match extension {
        KeyExtension::Standard => Seq::empty(),
        KeyExtension::Blumenthal => digest_of(auth, engine_id + key),
        KeyExtension::Reeder => localized_key_of(auth, master_key_of(auth, key), engine_id),
    }
}

/// The privacy key of a password at an engine: the key localized with the
/// hash of the authentication protocol, lengthened once where the digest is
/// shorter than the key, and cut to the length of the key.
pub open spec fn priv_key_of(
    auth: AuthProtocol,
    protocol: PrivProtocol,
    password: Seq<u8>,
    engine_id: Seq<u8>,
) -> Seq<u8> {
    let localized = localized_key_of(auth, master_key_of(auth, password), engine_id);
    head(
        localized + key_extension_of(auth, protocol.extension_for(auth), localized, engine_id),
        protocol.spec_key_len(),
    )
}

/// The cipher key: the first octets of the localized key.
pub open spec fn cipher_key(protocol: PrivProtocol, key: Seq<u8>) -> Seq<u8> {
    match protocol {
        PrivProtocol::Des => key.subrange(0, 8),
        PrivProtocol::Des3 => key.subrange(0, 24),
        _ => key,
    }
}

/// The IV: for DES and 3DES the pre-IV, which is the last 8 octets of the
/// localized key, combined with the salt by exclusive or; for AES the engine
/// boots, the engine time and the salt.
pub open spec fn iv_of(protocol: PrivProtocol, key: Seq<u8>, boots: u32, time: u32, salt: Seq<u8>) -> Seq<
    u8,
> {
    match protocol {
        PrivProtocol::Des => xor(key.subrange(8, 16), salt, 8),
        PrivProtocol::Des3 => xor(key.subrange(24, 32), salt, 8),
        _ => be32(boots) + be32(time) + salt,
    }
}

/// The ciphertext of a plaintext under a localized key: with DES and 3DES
/// the plaintext is padded with zeros to whole blocks.
pub open spec fn encrypted(
    protocol: PrivProtocol,
    key: Seq<u8>,
    boots: u32,
    time: u32,
    salt: Seq<u8>,
    plaintext: Seq<u8>,
) -> Seq<u8> {
    let k = cipher_key(protocol, key);
    let iv = iv_of(protocol, key, boots, time, salt);
    match protocol {
        PrivProtocol::Des => crypto::des_cbc_enc(k, iv, zero_padded(plaintext, 8)),
        PrivProtocol::Des3 => crypto::tdes_cbc_enc(k, iv, zero_padded(plaintext, 8)),
        PrivProtocol::Aes128 => crypto::aes128_cfb_enc(k, iv, plaintext),
        PrivProtocol::Aes192 => crypto::aes192_cfb_enc(k, iv, plaintext),
        PrivProtocol::Aes256 => crypto::aes256_cfb_enc(k, iv, plaintext),
    }
}

/// The plaintext of a ciphertext under a localized key.
pub open spec fn decrypted(
    protocol: PrivProtocol,
    key: Seq<u8>,
    boots: u32,
    time: u32,
    salt: Seq<u8>,
    ciphertext: Seq<u8>,
) -> Seq<u8> {
    let k = cipher_key(protocol, key);
    let iv = iv_of(protocol, key, boots, time, salt);
    match protocol {
        PrivProtocol::Des => crypto::des_cbc_dec(k, iv, ciphertext),
        PrivProtocol::Des3 => crypto::tdes_cbc_dec(k, iv, ciphertext),
        PrivProtocol::Aes128 => crypto::aes128_cfb_dec(k, iv, ciphertext),
        PrivProtocol::Aes192 => crypto::aes192_cfb_dec(k, iv, ciphertext),
        PrivProtocol::Aes256 => crypto::aes256_cfb_dec(k, iv, ciphertext),
    }
}

/// Why a ciphertext with its salt is refused before it is decrypted: the
/// salt has not 8 octets, or a ciphertext of DES or 3DES is not a whole
/// number of blocks.
pub open spec fn decrypt_fault(protocol: PrivProtocol, salt: Seq<u8>, ciphertext: Seq<u8>) -> Option<
    CryptoErrorKind,
> {
    if salt.len() != SALT_LEN {
        Some(
            CryptoErrorKind::InvalidPrivParamsLength {
                expected: SALT_LEN,
                actual: salt.len() as usize,
            },
        )
    } else if (protocol == PrivProtocol::Des || protocol == PrivProtocol::Des3) && ciphertext.len()
        % 8 != 0 {
        Some(
            CryptoErrorKind::InvalidCiphertextLength {
                length: ciphertext.len() as usize,
                block_size: DES_BLOCK,
            },
        )
    } else {
        None
    }
}

/// A 32-bit number as four octets, most significant first.
pub fn be32_bytes(n: u32) -> (r: Vec<u8>)
    ensures
        r@ == be32(n),
{
    let mut out: Vec<u8> = Vec::with_capacity(4);
    out.push((n / 0x100_0000) as u8);
    out.push((n / 0x1_0000 % 256) as u8);
    out.push((n / 0x100 % 256) as u8);
    out.push((n % 256) as u8);
    proof {
        assert(out@ =~= be32(n));
    }
    out
}

/// A 64-bit number as eight octets, most significant first.
pub fn be64_bytes(n: u64) -> (r: Vec<u8>)
    ensures
        r@ == be64(n),
        r@.len() == 8,
{
    let mut out: Vec<u8> = Vec::with_capacity(8);
    out.push((n / 0x100_0000_0000_0000) as u8);
    out.push((n / 0x1_0000_0000_0000 % 256) as u8);
    out.push((n / 0x100_0000_0000 % 256) as u8);
    out.push((n / 0x1_0000_0000 % 256) as u8);
    out.push((n / 0x100_0000 % 256) as u8);
    out.push((n / 0x1_0000 % 256) as u8);
    out.push((n / 0x100 % 256) as u8);
    out.push((n % 256) as u8);
    proof {
        assert(out@ =~= be64(n));
    }
    out
}

/// The salt of outbound messages: a counter of 64 bits, which the sender
/// starts at a random value and steps for every message.
#[derive(Debug, Clone, Copy, PartialEq, Eq, Structural)]
pub struct SaltCounter {
    pub value: u64,
}

impl SaltCounter {
    /// A counter that starts at the given value.
    pub fn new(start: u64) -> (r: SaltCounter)
        ensures
            r.value == start,
    {
        SaltCounter { value: start }
    }

    /// The salt for the next message. The counter steps by one and wraps
    /// around after the largest value.
    pub fn next(&mut self) -> (r: u64)
        ensures
            r == old(self).value,
            final(self).value == (if r == u64::MAX {
                0
            } else {
                r + 1
            }),
    {
        let salt = self.value;
        self.value = if salt == u64::MAX {
            0
        } else {
            salt + 1
        };
        salt
    }
}

/// The privacy key of a user at one engine.
#[derive(Debug, Clone, PartialEq, Eq)]
pub struct PrivKey {
    protocol: PrivProtocol,
    key: Vec<u8>,
}

impl PrivKey {
    /// The protocol of the key.
    pub closed spec fn protocol(self) -> PrivProtocol {
        self.protocol
    }

    /// The octets of the key.
    pub closed spec fn octets(self) -> Seq<u8> {
        self.key@
    }

    /// The key has the length that its protocol sets.
    pub open spec fn wf(self) -> bool {
        self.octets().len() == self.protocol().spec_key_len()
    }

    /// The privacy key of a password at one engine.
    pub fn from_password(
        auth: AuthProtocol,
        protocol: PrivProtocol,
        password: &[u8],
        engine_id: &[u8],
    ) -> (r: PrivKey)
        ensures
            r.wf(),
            r.protocol() == protocol,
            r.octets() == priv_key_of(auth, protocol, password@, engine_id@),
    {
        let localized = LocalizedKey::from_password(auth, password, engine_id);
        let mut key = vstd::slice::slice_to_vec(localized.as_bytes());
        match protocol.key_extension_for(auth) {
            KeyExtension::Standard => {},
            KeyExtension::Blumenthal => {
                let mut input = vstd::slice::slice_to_vec(engine_id);
                input.extend_from_slice(localized.as_bytes());
                proof {
                    assert(input@ =~= engine_id@ + localized.octets());
                }
                let more = digest(auth, input.as_slice());
                key.extend_from_slice(more.as_slice());
            },
            KeyExtension::Reeder => {
                let more = MasterKey::from_password(auth, localized.as_bytes()).localize(engine_id);
                key.extend_from_slice(more.as_bytes());
            },
        }
        let ghost full = key@;
        proof {
            let k0 = localized_key_of(auth, master_key_of(auth, password@), engine_id@);
            assert(full =~= k0 + key_extension_of(auth, protocol.extension_for(auth), k0, engine_id@));
            assert(full.len() >= protocol.spec_key_len());
        }
        key.truncate(protocol.key_len());
        proof {
            assert(key@ =~= priv_key_of(auth, protocol, password@, engine_id@));
        }
        PrivKey { protocol, key }
    }

    /// A key from octets that were derived elsewhere. `None` when the
    /// octets have not the length that the protocol sets.
    pub fn from_bytes(protocol: PrivProtocol, key: Vec<u8>) -> (r: Option<PrivKey>)
        ensures
            match r {
                Some(k) => k.wf() && k.protocol() == protocol && k.octets() == key@,
                None => key@.len() != protocol.spec_key_len(),
            },
    {
        if key.len() == protocol.key_len() {
            Some(PrivKey { protocol, key })
        } else {
            None
        }
    }

    /// The octets of the key.
    pub fn as_bytes(&self) -> (r: &[u8])
        ensures
            r@ == self.octets(),
    {
        self.key.as_slice()
    }

    /// The protocol of the key.
    pub fn priv_protocol(&self) -> (r: PrivProtocol)
        ensures
            r == self.protocol(),
    {
        self.protocol
    }

    /// The IV for a message.
    fn iv(&self, boots: u32, time: u32, salt: &[u8]) -> (r: Vec<u8>)
        requires
            self.wf(),
            salt@.len() == SALT_LEN,
        ensures
            r@ == iv_of(self.protocol(), self.octets(), boots, time, salt@),
            r@.len() == (if self.protocol() == PrivProtocol::Des || self.protocol()
                == PrivProtocol::Des3 {
                8nat
            } else {
                16nat
            }),
    {
        match self.protocol {
            PrivProtocol::Des => xor_octets(
                vstd::slice::slice_subrange(self.key.as_slice(), 8, 16),
                salt,
                Ghost(self.key@),
                Ghost(8),
            ),
            PrivProtocol::Des3 => xor_octets(
                vstd::slice::slice_subrange(self.key.as_slice(), 24, 32),
                salt,
                Ghost(self.key@),
                Ghost(24),
            ),
            _ => {
                let mut iv = be32_bytes(boots);
                let t = be32_bytes(time);
                iv.extend_from_slice(t.as_slice());
                iv.extend_from_slice(salt);
                proof {
                    assert(iv@ =~= be32(boots) + be32(time) + salt@);
                }
                iv
            },
        }
    }

    /// Encrypts a plaintext for a message with the given engine boots and
    /// time, under the given salt. Gives the ciphertext and the salt as
    /// `priv_params`. Decryption under the same key, boots, time and salt
    /// turns the ciphertext back into the plaintext, with the zeros that
    /// DES and 3DES pad it with.
    pub fn encrypt(&self, plaintext: &[u8], boots: u32, time: u32, salt: u64) -> (r: (Vec<u8>, Vec<u8>))
        requires
            self.wf(),
        ensures
            r.1@ == be64(salt),
            r.0@ == encrypted(self.protocol(), self.octets(), boots, time, be64(salt), plaintext@),
            decrypted(self.protocol(), self.octets(), boots, time, be64(salt), r.0@) == zero_padded(
                plaintext@,
                if self.protocol() == PrivProtocol::Des || self.protocol() == PrivProtocol::Des3 {
                    8nat
                } else {
                    0nat
                },
            ),
            decrypt_fault(self.protocol(), r.1@, r.0@) is None,
    {
        let salt_octets = be64_bytes(salt);
        let iv = self.iv(boots, time, salt_octets.as_slice());
        let key = self.key.as_slice();
        let ciphertext = match self.protocol {
            PrivProtocol::Des => {
                let padded = pad_zero(plaintext);
                crypto::des_cbc_encrypt(
                    vstd::slice::slice_subrange(key, 0, 8),
                    iv.as_slice(),
                    padded.as_slice(),
                )
            },
            PrivProtocol::Des3 => {
                let padded = pad_zero(plaintext);
                crypto::tdes_cbc_encrypt(
                    vstd::slice::slice_subrange(key, 0, 24),
                    iv.as_slice(),
                    padded.as_slice(),
                )
            },
            PrivProtocol::Aes128 => crypto::aes128_cfb_encrypt(key, iv.as_slice(), plaintext),
            PrivProtocol::Aes192 => crypto::aes192_cfb_encrypt(key, iv.as_slice(), plaintext),
            PrivProtocol::Aes256 => crypto::aes256_cfb_encrypt(key, iv.as_slice(), plaintext),
        };
        (ciphertext, salt_octets)
    }

    /// Decrypts the ciphertext of a message with the given engine boots and
    /// time, under the salt that `priv_params` carries.
    pub fn decrypt(&self, ciphertext: &[u8], boots: u32, time: u32, priv_params: &[u8]) -> (r: Result<
        Vec<u8>,
    >)
        requires
            self.wf(),
        ensures
            match decrypt_fault(self.protocol(), priv_params@, ciphertext@) {
                Some(kind) => r matches Err(e) && e == (Error::DecryptionFailed { target: None, kind }),
                None => r matches Ok(plain) && plain@ == decrypted(
                    self.protocol(),
                    self.octets(),
                    boots,
                    time,
                    priv_params@,
                    ciphertext@,
                ),
            },
    {
        if priv_params.len() != SALT_LEN {
            return Err(
                Error::decrypt(
                    None,
                    CryptoErrorKind::InvalidPrivParamsLength {
                        expected: SALT_LEN,
                        actual: priv_params.len(),
                    },
                ),
            );
        }
        let block_cipher = match self.protocol {
            PrivProtocol::Des => true,
            PrivProtocol::Des3 => true,
            _ => false,
        };
        if block_cipher && ciphertext.len() % DES_BLOCK != 0 {
            return Err(
                Error::decrypt(
                    None,
                    CryptoErrorKind::InvalidCiphertextLength {
                        length: ciphertext.len(),
                        block_size: DES_BLOCK,
                    },
                ),
            );
        }
        let iv = self.iv(boots, time, priv_params);
        let key = self.key.as_slice();
        let plain = match self.protocol {
            PrivProtocol::Des => crypto::des_cbc_decrypt(
                vstd::slice::slice_subrange(key, 0, 8),
                iv.as_slice(),
                ciphertext,
            ),
            PrivProtocol::Des3 => crypto::tdes_cbc_decrypt(
                vstd::slice::slice_subrange(key, 0, 24),
                iv.as_slice(),
                ciphertext,
            ),
            PrivProtocol::Aes128 => crypto::aes128_cfb_decrypt(key, iv.as_slice(), ciphertext),
            PrivProtocol::Aes192 => crypto::aes192_cfb_decrypt(key, iv.as_slice(), ciphertext),
            PrivProtocol::Aes256 => crypto::aes256_cfb_decrypt(key, iv.as_slice(), ciphertext),
        };
        Ok(plain)
    }
}

/// The pre-IV, which stands in `key` from `at`, combined with the salt by
/// exclusive or.
fn xor_octets(pre_iv: &[u8], salt: &[u8], Ghost(key): Ghost<Seq<u8>>, Ghost(at): Ghost<int>) -> (r:
    Vec<u8>)
    requires
        pre_iv@.len() == 8,
        salt@.len() == 8,
        0 <= at,
        at + 8 <= key.len(),
        pre_iv@ == key.subrange(at, at + 8),
    ensures
        r@ == xor(key.subrange(at, at + 8), salt@, 8),
        r@.len() == 8,
{
    let mut out: Vec<u8> = Vec::with_capacity(8);
    let mut i: usize = 0;
    while i < 8
        invariant
            i <= 8,
            pre_iv@.len() == 8,
            salt@.len() == 8,
            out@.len() == i,
            forall|j: int| 0 <= j < i ==> out@[j] == pre_iv@[j] ^ salt@[j],
        decreases 8 - i,
    {
        out.push(pre_iv[i] ^ salt[i]);
        i += 1;
    }
    proof {
        assert(out@ =~= xor(key.subrange(at, at + 8), salt@, 8));
    }
    out
}

/// The data with zero octets behind it, up to a whole number of blocks of
/// 8 octets.
pub fn pad_zero(data: &[u8]) -> (r: Vec<u8>)
    ensures
        r@ == zero_padded(data@, 8),
        r@.len() % 8 == 0,
{
    let mut out = vstd::slice::slice_to_vec(data);
    let rest = data.len() % DES_BLOCK;
    if rest != 0 {
        let fill = DES_BLOCK - rest;
        let mut i: usize = 0;
        while i < fill
            invariant
                i <= fill,
                fill < 8,
                out@.len() == data@.len() + i,
                out@.subrange(0, data@.len() as int) == data@,
                forall|j: int| data@.len() <= j < out@.len() ==> out@[j] == 0u8,
            decreases fill - i,
        {
            out.push(0);
            proof {
                assert(out@.subrange(0, data@.len() as int) =~= data@);
            }
            i += 1;
        }
        proof {
            assert(out@ =~= zero_padded(data@, 8));
        }
    }
    out
}

} // verus!
