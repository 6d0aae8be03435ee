//! The hash functions, message authentication codes and ciphers of USM, as
//! the RustCrypto crates compute them.
//!
//! Nothing in this file is proved: each function hands its arguments to one
//! outside function, and its contract names what comes back.

use vstd::prelude::*;

verus! {

/// The MD5 digest of octets.
pub uninterp spec fn md5_of(data: Seq<u8>) -> Seq<u8>;

/// `md5::Md5::digest`: the MD5 digest of the octets, which has 16 octets.
#[verifier::external_body]
pub(crate) fn md5(data: &[u8]) -> (r: Vec<u8>)
    ensures
        r@ == md5_of(data@),
        r@.len() == 16,
{
    <md5::Md5 as md5::Digest>::digest(data).to_vec()
}

/// The SHA-1 digest of octets.
pub uninterp spec fn sha1_of(data: Seq<u8>) -> Seq<u8>;

/// `sha1::Sha1::digest`: the SHA-1 digest of the octets, which has 20 octets.
#[verifier::external_body]
pub(crate) fn sha1(data: &[u8]) -> (r: Vec<u8>)
    ensures
        r@ == sha1_of(data@),
        r@.len() == 20,
{
    <sha1::Sha1 as sha1::Digest>::digest(data).to_vec()
}

/// The SHA-224 digest of octets.
pub uninterp spec fn sha224_of(data: Seq<u8>) -> Seq<u8>;

/// `sha2::Sha224::digest`: the SHA-224 digest of the octets, which has 28 octets.
#[verifier::external_body]
pub(crate) fn sha224(data: &[u8]) -> (r: Vec<u8>)
    ensures
        r@ == sha224_of(data@),
        r@.len() == 28,
{
    <sha2::Sha224 as sha2::Digest>::digest(data).to_vec()
}

/// The SHA-256 digest of octets.
pub uninterp spec fn sha256_of(data: Seq<u8>) -> Seq<u8>;

/// `sha2::Sha256::digest`: the SHA-256 digest of the octets, which has 32 octets.
#[verifier::external_body]
pub(crate) fn sha256(data: &[u8]) -> (r: Vec<u8>)
    ensures
        r@ == sha256_of(data@),
        r@.len() == 32,
{
    <sha2::Sha256 as sha2::Digest>::digest(data).to_vec()
}

/// The SHA-384 digest of octets.
pub uninterp spec fn sha384_of(data: Seq<u8>) -> Seq<u8>;

/// `sha2::Sha384::digest`: the SHA-384 digest of the octets, which has 48 octets.
#[verifier::external_body]
pub(crate) fn sha384(data: &[u8]) -> (r: Vec<u8>)
    ensures
        r@ == sha384_of(data@),
        r@.len() == 48,
{
    <sha2::Sha384 as sha2::Digest>::digest(data).to_vec()
}

/// The SHA-512 digest of octets.
pub uninterp spec fn sha512_of(data: Seq<u8>) -> Seq<u8>;

/// `sha2::Sha512::digest`: the SHA-512 digest of the octets, which has 64 octets.
#[verifier::external_body]
pub(crate) fn sha512(data: &[u8]) -> (r: Vec<u8>)
    ensures
        r@ == sha512_of(data@),
        r@.len() == 64,
{
    <sha2::Sha512 as sha2::Digest>::digest(data).to_vec()
}

/// The HMAC of octets under a key, with MD5 as its hash.
pub uninterp spec fn hmac_md5_of(key: Seq<u8>, data: Seq<u8>) -> Seq<u8>;

/// `hmac::Hmac<md5::Md5>`: the code of the octets under the key, which has
/// 16 octets. A key of any length is taken.
#[verifier::external_body]
pub(crate) fn hmac_md5(key: &[u8], data: &[u8]) -> (r: Vec<u8>)
    ensures
        r@ == hmac_md5_of(key@, data@),
        r@.len() == 16,
{
    let mut mac = <hmac::Hmac<md5::Md5> as hmac::KeyInit>::new_from_slice(key).unwrap();
    hmac::Mac::update(&mut mac, data);
    hmac::Mac::finalize(mac).into_bytes().to_vec()
}

/// The HMAC of octets under a key, with SHA-1 as its hash.
pub uninterp spec fn hmac_sha1_of(key: Seq<u8>, data: Seq<u8>) -> Seq<u8>;

/// `hmac::Hmac<sha1::Sha1>`: the code of the octets under the key, which has
/// 20 octets. A key of any length is taken.
#[verifier::external_body]
pub(crate) fn hmac_sha1(key: &[u8], data: &[u8]) -> (r: Vec<u8>)
    ensures
        r@ == hmac_sha1_of(key@, data@),
        r@.len() == 20,
{
    let mut mac = <hmac::Hmac<sha1::Sha1> as hmac::KeyInit>::new_from_slice(key).unwrap();
    hmac::Mac::update(&mut mac, data);
    hmac::Mac::finalize(mac).into_bytes().to_vec()
}

/// The HMAC of octets under a key, with SHA-224 as its hash.
pub uninterp spec fn hmac_sha224_of(key: Seq<u8>, data: Seq<u8>) -> Seq<u8>;

/// `hmac::Hmac<sha2::Sha224>`: the code of the octets under the key, which has
/// 28 octets. A key of any length is taken.
#[verifier::external_body]
pub(crate) fn hmac_sha224(key: &[u8], data: &[u8]) -> (r: Vec<u8>)
    ensures
        r@ == hmac_sha224_of(key@, data@),
        r@.len() == 28,
{
    let mut mac = <hmac::Hmac<sha2::Sha224> as hmac::KeyInit>::new_from_slice(key).unwrap();
    hmac::Mac::update(&mut mac, data);
    hmac::Mac::finalize(mac).into_bytes().to_vec()
}

/// The HMAC of octets under a key, with SHA-256 as its hash.
pub uninterp spec fn hmac_sha256_of(key: Seq<u8>, data: Seq<u8>) -> Seq<u8>;

/// `hmac::Hmac<sha2::Sha256>`: the code of the octets under the key, which has
/// 32 octets. A key of any length is taken.
#[verifier::external_body]
pub(crate) fn hmac_sha256(key: &[u8], data: &[u8]) -> (r: Vec<u8>)
    ensures
        r@ == hmac_sha256_of(key@, data@),
        r@.len() == 32,
{
    let mut mac = <hmac::Hmac<sha2::Sha256> as hmac::KeyInit>::new_from_slice(key).unwrap();
    hmac::Mac::update(&mut mac, data);
    hmac::Mac::finalize(mac).into_bytes().to_vec()
}

/// The HMAC of octets under a key, with SHA-384 as its hash.
pub uninterp spec fn hmac_sha384_of(key: Seq<u8>, data: Seq<u8>) -> Seq<u8>;

/// `hmac::Hmac<sha2::Sha384>`: the code of the octets under the key, which has
/// 48 octets. A key of any length is taken.
#[verifier::external_body]
pub(crate) fn hmac_sha384(key: &[u8], data: &[u8]) -> (r: Vec<u8>)
    ensures
        r@ == hmac_sha384_of(key@, data@),
        r@.len() == 48,
{
    let mut mac = <hmac::Hmac<sha2::Sha384> as hmac::KeyInit>::new_from_slice(key).unwrap();
    hmac::Mac::update(&mut mac, data);
    hmac::Mac::finalize(mac).into_bytes().to_vec()
}

/// The HMAC of octets under a key, with SHA-512 as its hash.
pub uninterp spec fn hmac_sha512_of(key: Seq<u8>, data: Seq<u8>) -> Seq<u8>;

/// `hmac::Hmac<sha2::Sha512>`: the code of the octets under the key, which has
/// 64 octets. A key of any length is taken.
#[verifier::external_body]
pub(crate) fn hmac_sha512(key: &[u8], data: &[u8]) -> (r: Vec<u8>)
    ensures
        r@ == hmac_sha512_of(key@, data@),
        r@.len() == 64,
{
    let mut mac = <hmac::Hmac<sha2::Sha512> as hmac::KeyInit>::new_from_slice(key).unwrap();
    hmac::Mac::update(&mut mac, data);
    hmac::Mac::finalize(mac).into_bytes().to_vec()
}

/// The DES encryption of whole blocks in CBC mode.
pub uninterp spec fn des_cbc_enc(key: Seq<u8>, iv: Seq<u8>, data: Seq<u8>) -> Seq<u8>;

/// The DES decryption of whole blocks in CBC mode.
pub uninterp spec fn des_cbc_dec(key: Seq<u8>, iv: Seq<u8>, data: Seq<u8>) -> Seq<u8>;

/// `cbc::Encryptor<des::Des>` without padding: the ciphertext of the blocks,
/// which is as long as the plaintext and which decryption under the same key
/// and IV turns back into the plaintext. The key has 8 octets, the IV 8,
/// and the data is a whole number of blocks of 8 octets.
#[verifier::external_body]
pub(crate) fn des_cbc_encrypt(key: &[u8], iv: &[u8], data: &[u8]) -> (r: Vec<u8>)
    requires
        key@.len() == 8,
        iv@.len() == 8,
        data@.len() % 8 == 0,
    ensures
        r@ == des_cbc_enc(key@, iv@, data@),
        r@.len() == data@.len(),
        des_cbc_dec(key@, iv@, r@) == data@,
{
    let mut buf = data.to_vec();
    let n = buf.len();
    let enc = <cbc::Encryptor<des::Des> as cbc::cipher::KeyIvInit>::new_from_slices(key, iv).unwrap();
    cbc::cipher::BlockModeEncrypt::encrypt_padded::<cbc::cipher::block_padding::NoPadding>(enc, &mut buf, n).unwrap();
    buf
}

/// `cbc::Decryptor<des::Des>` without padding: the plaintext of the blocks,
/// which is as long as the ciphertext. The key has 8 octets, the IV 8, and
/// the data is a whole number of blocks of 8 octets.
#[verifier::external_body]
pub(crate) fn des_cbc_decrypt(key: &[u8], iv: &[u8], data: &[u8]) -> (r: Vec<u8>)
    requires
        key@.len() == 8,
        iv@.len() == 8,
        data@.len() % 8 == 0,
    ensures
        r@ == des_cbc_dec(key@, iv@, data@),
        r@.len() == data@.len(),
{
    let mut buf = data.to_vec();
    let dec = <cbc::Decryptor<des::Des> as cbc::cipher::KeyIvInit>::new_from_slices(key, iv).unwrap();
    cbc::cipher::BlockModeDecrypt::decrypt_padded::<cbc::cipher::block_padding::NoPadding>(dec, &mut buf).unwrap();
    buf
}

/// The 3DES-EDE encryption of whole blocks in CBC mode.
pub uninterp spec fn tdes_cbc_enc(key: Seq<u8>, iv: Seq<u8>, data: Seq<u8>) -> Seq<u8>;

/// The 3DES-EDE decryption of whole blocks in CBC mode.
pub uninterp spec fn tdes_cbc_dec(key: Seq<u8>, iv: Seq<u8>, data: Seq<u8>) -> Seq<u8>;

/// `cbc::Encryptor<des::TdesEde3>` without padding: the ciphertext of the blocks,
/// which is as long as the plaintext and which decryption under the same key
/// and IV turns back into the plaintext. The key has 24 octets, the IV 8,
/// and the data is a whole number of blocks of 8 octets.
#[verifier::external_body]
pub(crate) fn tdes_cbc_encrypt(key: &[u8], iv: &[u8], data: &[u8]) -> (r: Vec<u8>)
    requires
        key@.len() == 24,
        iv@.len() == 8,
        data@.len() % 8 == 0,
    ensures
        r@ == tdes_cbc_enc(key@, iv@, data@),
        r@.len() == data@.len(),
        tdes_cbc_dec(key@, iv@, r@) == data@,
{
    let mut buf = data.to_vec();
    let n = buf.len();
    let enc = <cbc::Encryptor<des::TdesEde3> as cbc::cipher::KeyIvInit>::new_from_slices(key, iv).unwrap();
    cbc::cipher::BlockModeEncrypt::encrypt_padded::<cbc::cipher::block_padding::NoPadding>(enc, &mut buf, n).unwrap();
    buf
}

/// `cbc::Decryptor<des::TdesEde3>` without padding: the plaintext of the blocks,
/// which is as long as the ciphertext. The key has 24 octets, the IV 8, and
/// the data is a whole number of blocks of 8 octets.
#[verifier::external_body]
pub(crate) fn tdes_cbc_decrypt(key: &[u8], iv: &[u8], data: &[u8]) -> (r: Vec<u8>)
    requires
        key@.len() == 24,
        iv@.len() == 8,
        data@.len() % 8 == 0,
    ensures
        r@ == tdes_cbc_dec(key@, iv@, data@),
        r@.len() == data@.len(),
{
    let mut buf = data.to_vec();
    let dec = <cbc::Decryptor<des::TdesEde3> as cbc::cipher::KeyIvInit>::new_from_slices(key, iv).unwrap();
    cbc::cipher::BlockModeDecrypt::decrypt_padded::<cbc::cipher::block_padding::NoPadding>(dec, &mut buf).unwrap();
    buf
}

/// The AES-128 encryption of octets in CFB mode.
pub uninterp spec fn aes128_cfb_enc(key: Seq<u8>, iv: Seq<u8>, data: Seq<u8>) -> Seq<u8>;

/// The AES-128 decryption of octets in CFB mode.
pub uninterp spec fn aes128_cfb_dec(key: Seq<u8>, iv: Seq<u8>, data: Seq<u8>) -> Seq<u8>;

/// `cfb_mode::Encryptor<aes::Aes128>`: the ciphertext of the octets, which is as
/// long as the plaintext and which decryption under the same key and IV
/// turns back into the plaintext. The key has 16 octets, the IV 16.
#[verifier::external_body]
pub(crate) fn aes128_cfb_encrypt(key: &[u8], iv: &[u8], data: &[u8]) -> (r: Vec<u8>)
    requires
        key@.len() == 16,
        iv@.len() == 16,
    ensures
        r@ == aes128_cfb_enc(key@, iv@, data@),
        r@.len() == data@.len(),
        aes128_cfb_dec(key@, iv@, r@) == data@,
{
    let mut buf = data.to_vec();
    <cfb_mode::Encryptor<aes::Aes128> as cfb_mode::cipher::KeyIvInit>::new_from_slices(key, iv).unwrap().encrypt(&mut buf);
    buf
}

/// `cfb_mode::Decryptor<aes::Aes128>`: the plaintext of the octets, which is as
/// long as the ciphertext. The key has 16 octets, the IV 16.
#[verifier::external_body]
pub(crate) fn aes128_cfb_decrypt(key: &[u8], iv: &[u8], data: &[u8]) -> (r: Vec<u8>)
    requires
        key@.len() == 16,
        iv@.len() == 16,
    ensures
        r@ == aes128_cfb_dec(key@, iv@, data@),
        r@.len() == data@.len(),
{
    let mut buf = data.to_vec();
    <cfb_mode::Decryptor<aes::Aes128> as cfb_mode::cipher::KeyIvInit>::new_from_slices(key, iv).unwrap().decrypt(&mut buf);
    buf
}

/// The AES-192 encryption of octets in CFB mode.
pub uninterp spec fn aes192_cfb_enc(key: Seq<u8>, iv: Seq<u8>, data: Seq<u8>) -> Seq<u8>;

/// The AES-192 decryption of octets in CFB mode.
pub uninterp spec fn aes192_cfb_dec(key: Seq<u8>, iv: Seq<u8>, data: Seq<u8>) -> Seq<u8>;

/// `cfb_mode::Encryptor<aes::Aes192>`: the ciphertext of the octets, which is as
/// long as the plaintext and which decryption under the same key and IV
/// turns back into the plaintext. The key has 24 octets, the IV 16.
#[verifier::external_body]
pub(crate) fn aes192_cfb_encrypt(key: &[u8], iv: &[u8], data: &[u8]) -> (r: Vec<u8>)
    requires
        key@.len() == 24,
        iv@.len() == 16,
    ensures
        r@ == aes192_cfb_enc(key@, iv@, data@),
        r@.len() == data@.len(),
        aes192_cfb_dec(key@, iv@, r@) == data@,
{
    let mut buf = data.to_vec();
    <cfb_mode::Encryptor<aes::Aes192> as cfb_mode::cipher::KeyIvInit>::new_from_slices(key, iv).unwrap().encrypt(&mut buf);
    buf
}

/// `cfb_mode::Decryptor<aes::Aes192>`: the plaintext of the octets, which is as
/// long as the ciphertext. The key has 24 octets, the IV 16.
#[verifier::external_body]
pub(crate) fn aes192_cfb_decrypt(key: &[u8], iv: &[u8], data: &[u8]) -> (r: Vec<u8>)
    requires
        key@.len() == 24,
        iv@.len() == 16,
    ensures
        r@ == aes192_cfb_dec(key@, iv@, data@),
        r@.len() == data@.len(),
{
    let mut buf = data.to_vec();
    <cfb_mode::Decryptor<aes::Aes192> as cfb_mode::cipher::KeyIvInit>::new_from_slices(key, iv).unwrap().decrypt(&mut buf);
    buf
}

/// The AES-256 encryption of octets in CFB mode.
pub uninterp spec fn aes256_cfb_enc(key: Seq<u8>, iv: Seq<u8>, data: Seq<u8>) -> Seq<u8>;

/// The AES-256 decryption of octets in CFB mode.
pub uninterp spec fn aes256_cfb_dec(key: Seq<u8>, iv: Seq<u8>, data: Seq<u8>) -> Seq<u8>;

/// `cfb_mode::Encryptor<aes::Aes256>`: the ciphertext of the octets, which is as
/// long as the plaintext and which decryption under the same key and IV
/// turns back into the plaintext. The key has 32 octets, the IV 16.
#[verifier::external_body]
pub(crate) fn aes256_cfb_encrypt(key: &[u8], iv: &[u8], data: &[u8]) -> (r: Vec<u8>)
    requires
        key@.len() == 32,
        iv@.len() == 16,
    ensures
        r@ == aes256_cfb_enc(key@, iv@, data@),
        r@.len() == data@.len(),
        aes256_cfb_dec(key@, iv@, r@) == data@,
{
    let mut buf = data.to_vec();
    <cfb_mode::Encryptor<aes::Aes256> as cfb_mode::cipher::KeyIvInit>::new_from_slices(key, iv).unwrap().encrypt(&mut buf);
    buf
}

/// `cfb_mode::Decryptor<aes::Aes256>`: the plaintext of the octets, which is as
/// long as the ciphertext. The key has 32 octets, the IV 16.
#[verifier::external_body]
pub(crate) fn aes256_cfb_decrypt(key: &[u8], iv: &[u8], data: &[u8]) -> (r: Vec<u8>)
    requires
        key@.len() == 32,
        iv@.len() == 16,
    ensures
        r@ == aes256_cfb_dec(key@, iv@, data@),
        r@.len() == data@.len(),
{
    let mut buf = data.to_vec();
    <cfb_mode::Decryptor<aes::Aes256> as cfb_mode::cipher::KeyIvInit>::new_from_slices(key, iv).unwrap().decrypt(&mut buf);
    buf
}

} // verus!
