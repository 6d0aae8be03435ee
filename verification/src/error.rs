//! Error types.

use vstd::prelude::*;

use crate::addr::SocketAddress;
use crate::text::{
    decimal, hex_pair_upper, push_decimal, push_hex_upper, push_signed_decimal, signed_decimal,
};
use crate::oid::Oid;
use crate::version::Version;

verus! {

/// Result type alias using the library's Error type.
pub type Result<T> = core::result::Result<T, Error>;

/// Authentication error kinds (SNMPv3).
#[derive(Debug, Clone, Copy, PartialEq, Eq, Structural)]
pub enum AuthErrorKind {
    /// No credentials configured for this operation.
    NoCredentials,
    /// No authentication key available.
    NoAuthKey,
    /// User not found in USM table.
    NoUser,
    /// HMAC verification failed.
    HmacMismatch,
    /// Authentication parameters wrong length.
    WrongMacLength { expected: usize, actual: usize },
    /// Could not locate auth params in message.
    AuthParamsNotFound,
}

/// Cryptographic error kinds (encryption/decryption).
#[derive(Debug, Clone, Copy, PartialEq, Eq, Structural)]
pub enum CryptoErrorKind {
    /// No privacy key available.
    NoPrivKey,
    /// Invalid padding in decrypted data.
    InvalidPadding,
    /// Invalid key length for cipher.
    InvalidKeyLength,
    /// Invalid IV length for cipher.
    InvalidIvLength,
    /// Cipher operation failed.
    CipherError,
    /// Unsupported privacy protocol.
    UnsupportedProtocol,
    /// Invalid priv params length.
    InvalidPrivParamsLength { expected: usize, actual: usize },
    /// Ciphertext length not a multiple of block size.
    InvalidCiphertextLength { length: usize, block_size: usize },
}

/// BER decode error kinds.
#[derive(Debug, Clone, Copy, PartialEq, Eq, Structural)]
pub enum DecodeErrorKind {
    /// Expected different tag.
    UnexpectedTag { expected: u8, actual: u8 },
    /// Data truncated unexpectedly.
    TruncatedData,
    /// Invalid BER length encoding.
    InvalidLength,
    /// Indefinite length not supported.
    IndefiniteLength,
    /// Integer value overflow.
    IntegerOverflow,
    /// Zero-length integer.
    ZeroLengthInteger,
    /// Invalid OID encoding.
    InvalidOidEncoding,
    /// Unknown SNMP version.
    UnknownVersion(i32),
    /// Unknown PDU type.
    UnknownPduType(u8),
    /// Constructed OCTET STRING not supported.
    ConstructedOctetString,
    /// Missing required PDU.
    MissingPdu,
    /// Invalid msgFlags (priv without auth).
    InvalidMsgFlags,
    /// Unknown security model.
    UnknownSecurityModel(i32),
    /// msgMaxSize below RFC 3412 minimum (484 octets).
    MsgMaxSizeTooSmall { value: i32, minimum: i32 },
    /// msgID outside RFC 3412 range (0..2147483647).
    InvalidMsgId { value: i32 },
    /// msgAuthoritativeEngineBoots outside RFC 3414 range (0..2147483647).
    InvalidEngineBoots { value: i32 },
    /// msgAuthoritativeEngineTime outside RFC 3414 range (0..2147483647).
    InvalidEngineTime { value: i32 },
    /// NULL with non-zero length.
    InvalidNull,
    /// Expected plaintext, got encrypted.
    UnexpectedEncryption,
    /// Expected encrypted, got plaintext.
    ExpectedEncryption,
    /// Invalid IP address length.
    InvalidIpAddressLength { length: usize },
    /// Length field too long.
    LengthTooLong { octets: usize },
    /// Length exceeds maximum.
    LengthExceedsMax { length: usize, max: usize },
    /// Integer64 too long.
    Integer64TooLong { length: usize },
    /// Empty response.
    EmptyResponse,
    /// TLV extends past end of data.
    TlvOverflow,
    /// Insufficient data for read.
    InsufficientData { needed: usize, available: usize },
    /// Invalid OID in notification varbinds.
    InvalidOid,
    /// Negative error_index in PDU.
    NegativeErrorIndex { value: i32 },
    /// error_index exceeds number of varbinds.
    ErrorIndexOutOfBounds { index: i32, varbind_count: usize },
    /// Negative non_repeaters in GETBULK PDU.
    NegativeNonRepeaters { value: i32 },
    /// Negative max_repetitions in GETBULK PDU.
    NegativeMaxRepetitions { value: i32 },
    /// OID exceeds maximum arc count during decode.
    OidTooLong { count: usize, max: usize },
}

/// BER encode error kinds.
#[derive(Debug, Clone, Copy, PartialEq, Eq, Structural)]
pub enum EncodeErrorKind {
    /// V3 security not configured.
    NoSecurityConfig,
    /// Engine not discovered.
    EngineNotDiscovered,
    /// Keys not derived.
    KeysNotDerived,
    /// Auth key not available for encoding.
    MissingAuthKey,
    /// Privacy key not available.
    NoPrivKey,
    /// Could not locate auth params position in encoded message.
    MissingAuthParams,
}

/// OID validation error kinds.
#[derive(Debug, Clone, Copy, PartialEq, Eq, Structural)]
pub enum OidErrorKind {
    /// Empty OID string.
    Empty,
    /// Invalid arc value.
    InvalidArc,
    /// First arc must be 0, 1, or 2.
    InvalidFirstArc(u32),
    /// Second arc too large for first arc value.
    InvalidSecondArc { first: u32, second: u32 },
    /// OID too short (minimum 2 arcs).
    TooShort,
    /// OID has too many arcs.
    TooManyArcs { count: usize, max: usize },
    /// Subidentifier overflow during encoding.
    SubidentifierOverflow,
}

impl OidErrorKind {
    /// The message of the fault.
    pub open spec fn message(self) -> Seq<char> {
        match self {
            OidErrorKind::Empty => "empty OID"@,
            OidErrorKind::InvalidArc => "invalid arc value"@,
            OidErrorKind::InvalidFirstArc(v) => "first arc must be 0, 1, or 2, got "@ + decimal(
                v as nat,
            ),
            OidErrorKind::InvalidSecondArc { first, second } => "second arc "@ + decimal(
                second as nat,
            ) + " too large for first arc "@ + decimal(first as nat),
            OidErrorKind::TooShort => "OID must have at least 2 arcs"@,
            OidErrorKind::TooManyArcs { count, max } => "OID has "@ + decimal(count as nat)
                + " arcs, exceeds maximum "@ + decimal(max as nat),
            OidErrorKind::SubidentifierOverflow => "subidentifier overflow"@,
        }
    }

    /// The message of the fault.
    pub fn to_string(&self) -> (r: String)
        ensures
            r@ == self.message(),
    {
        match self {
            OidErrorKind::Empty => String::from_str("empty OID"),
            OidErrorKind::InvalidArc => String::from_str("invalid arc value"),
            OidErrorKind::InvalidFirstArc(v) => {
                let mut s = String::from_str("first arc must be 0, 1, or 2, got ");
                push_decimal(&mut s, *v as u64);
                s
            },
            OidErrorKind::InvalidSecondArc { first, second } => {
                let mut s = String::from_str("second arc ");
                push_decimal(&mut s, *second as u64);
                s.append(" too large for first arc ");
                push_decimal(&mut s, *first as u64);
                s
            },
            OidErrorKind::TooShort => String::from_str("OID must have at least 2 arcs"),
            OidErrorKind::TooManyArcs { count, max } => {
                let mut s = String::from_str("OID has ");
                push_decimal(&mut s, *count as u64);
                s.append(" arcs, exceeds maximum ");
                push_decimal(&mut s, *max as u64);
                s
            },
            OidErrorKind::SubidentifierOverflow => String::from_str("subidentifier overflow"),
        }
    }
}

/// SNMP error status codes (RFC 3416).
#[derive(Debug, Clone, Copy, PartialEq, Eq, Structural)]
#[non_exhaustive]
pub enum ErrorStatus {
    NoError,
    TooBig,
    NoSuchName,
    BadValue,
    ReadOnly,
    GenErr,
    NoAccess,
    WrongType,
    WrongLength,
    WrongEncoding,
    WrongValue,
    NoCreation,
    InconsistentValue,
    ResourceUnavailable,
    CommitFailed,
    UndoFailed,
    AuthorizationError,
    NotWritable,
    InconsistentName,
    /// Unknown/future error status code.
    Unknown(i32),
}

impl ErrorStatus {
    /// The raw code of a status. A named status has its RFC 3416 number; an
    /// unknown one carries its code.
    pub open spec fn code(self) -> int {
        match self {
            ErrorStatus::NoError => 0,
            ErrorStatus::TooBig => 1,
            ErrorStatus::NoSuchName => 2,
            ErrorStatus::BadValue => 3,
            ErrorStatus::ReadOnly => 4,
            ErrorStatus::GenErr => 5,
            ErrorStatus::NoAccess => 6,
            ErrorStatus::WrongType => 7,
            ErrorStatus::WrongLength => 8,
            ErrorStatus::WrongEncoding => 9,
            ErrorStatus::WrongValue => 10,
            ErrorStatus::NoCreation => 11,
            ErrorStatus::InconsistentValue => 12,
            ErrorStatus::ResourceUnavailable => 13,
            ErrorStatus::CommitFailed => 14,
            ErrorStatus::UndoFailed => 15,
            ErrorStatus::AuthorizationError => 16,
            ErrorStatus::NotWritable => 17,
            ErrorStatus::InconsistentName => 18,
            ErrorStatus::Unknown(code) => code as int,
        }
    }

    /// A status is canonical unless it is `Unknown` with a code that has a name.
    pub open spec fn canonical(self) -> bool {
        self matches ErrorStatus::Unknown(code) ==> !(0 <= code <= 18)
    }

    /// The status that a raw code stands for: the named status of a code
    /// from 0 to 18, else `Unknown` with the code.
    pub open spec fn from_code(value: i32) -> ErrorStatus {
        match value {
            0 => ErrorStatus::NoError,
            1 => ErrorStatus::TooBig,
            2 => ErrorStatus::NoSuchName,
            3 => ErrorStatus::BadValue,
            4 => ErrorStatus::ReadOnly,
            5 => ErrorStatus::GenErr,
            6 => ErrorStatus::NoAccess,
            7 => ErrorStatus::WrongType,
            8 => ErrorStatus::WrongLength,
            9 => ErrorStatus::WrongEncoding,
            10 => ErrorStatus::WrongValue,
            11 => ErrorStatus::NoCreation,
            12 => ErrorStatus::InconsistentValue,
            13 => ErrorStatus::ResourceUnavailable,
            14 => ErrorStatus::CommitFailed,
            15 => ErrorStatus::UndoFailed,
            16 => ErrorStatus::AuthorizationError,
            17 => ErrorStatus::NotWritable,
            18 => ErrorStatus::InconsistentName,
            other => ErrorStatus::Unknown(other),
        }
    }

    /// Create from raw status code.
    pub fn from_i32(value: i32) -> (r: ErrorStatus)
        ensures
            r == ErrorStatus::from_code(value),
            r.code() == value,
            r.canonical(),
    {
        match value {
            0 => ErrorStatus::NoError,
            1 => ErrorStatus::TooBig,
            2 => ErrorStatus::NoSuchName,
            3 => ErrorStatus::BadValue,
            4 => ErrorStatus::ReadOnly,
            5 => ErrorStatus::GenErr,
            6 => ErrorStatus::NoAccess,
            7 => ErrorStatus::WrongType,
            8 => ErrorStatus::WrongLength,
            9 => ErrorStatus::WrongEncoding,
            10 => ErrorStatus::WrongValue,
            11 => ErrorStatus::NoCreation,
            12 => ErrorStatus::InconsistentValue,
            13 => ErrorStatus::ResourceUnavailable,
            14 => ErrorStatus::CommitFailed,
            15 => ErrorStatus::UndoFailed,
            16 => ErrorStatus::AuthorizationError,
            17 => ErrorStatus::NotWritable,
            18 => ErrorStatus::InconsistentName,
            other => ErrorStatus::Unknown(other),
        }
    }

    /// Convert to raw status code.
    pub fn as_i32(&self) -> (r: i32)
        ensures
            r == self.code(),
    {
        match self {
            ErrorStatus::NoError => 0,
            ErrorStatus::TooBig => 1,
            ErrorStatus::NoSuchName => 2,
            ErrorStatus::BadValue => 3,
            ErrorStatus::ReadOnly => 4,
            ErrorStatus::GenErr => 5,
            ErrorStatus::NoAccess => 6,
            ErrorStatus::WrongType => 7,
            ErrorStatus::WrongLength => 8,
            ErrorStatus::WrongEncoding => 9,
            ErrorStatus::WrongValue => 10,
            ErrorStatus::NoCreation => 11,
            ErrorStatus::InconsistentValue => 12,
            ErrorStatus::ResourceUnavailable => 13,
            ErrorStatus::CommitFailed => 14,
            ErrorStatus::UndoFailed => 15,
            ErrorStatus::AuthorizationError => 16,
            ErrorStatus::NotWritable => 17,
            ErrorStatus::InconsistentName => 18,
            ErrorStatus::Unknown(code) => *code,
        }
    }
}

impl AuthErrorKind {
    /// The message of the fault.
    pub open spec fn message(self) -> Seq<char> {
        match self {
            AuthErrorKind::NoCredentials => "no credentials configured"@,
            AuthErrorKind::NoAuthKey => "no authentication key available"@,
            AuthErrorKind::NoUser => "user not found"@,
            AuthErrorKind::HmacMismatch => "HMAC verification failed"@,
            AuthErrorKind::WrongMacLength { expected, actual } => "wrong MAC length: expected "@
                + decimal(expected as nat) + ", got "@ + decimal(actual as nat),
            AuthErrorKind::AuthParamsNotFound => "could not locate auth params in message"@,
        }
    }

    /// The message of the fault.
    pub fn to_string(&self) -> (r: String)
        ensures
            r@ == self.message(),
    {
        match self {
            AuthErrorKind::NoCredentials => String::from_str("no credentials configured"),
            AuthErrorKind::NoAuthKey => String::from_str("no authentication key available"),
            AuthErrorKind::NoUser => String::from_str("user not found"),
            AuthErrorKind::HmacMismatch => String::from_str("HMAC verification failed"),
            AuthErrorKind::WrongMacLength { expected, actual } => {
                let mut s = String::from_str("wrong MAC length: expected ");
                push_decimal(&mut s, *expected as u64);
                s.append(", got ");
                push_decimal(&mut s, *actual as u64);
                s
            },
            AuthErrorKind::AuthParamsNotFound => String::from_str("could not locate auth params in message"),
        }
    }
}

impl CryptoErrorKind {
    /// The message of the fault.
    pub open spec fn message(self) -> Seq<char> {
        match self {
            CryptoErrorKind::NoPrivKey => "no privacy key available"@,
            CryptoErrorKind::InvalidPadding => "invalid padding"@,
            CryptoErrorKind::InvalidKeyLength => "invalid key length"@,
            CryptoErrorKind::InvalidIvLength => "invalid IV length"@,
            CryptoErrorKind::CipherError => "cipher operation failed"@,
            CryptoErrorKind::UnsupportedProtocol => "unsupported privacy protocol"@,
            CryptoErrorKind::InvalidPrivParamsLength { expected, actual } => "invalid privParameters length: expected "@ + decimal(expected as nat) + ", got "@ + decimal(actual as nat),
            CryptoErrorKind::InvalidCiphertextLength { length, block_size } => "ciphertext length "@
                + decimal(length as nat) + " not multiple of block size "@
                + decimal(block_size as nat),
        }
    }

    /// The message of the fault.
    pub fn to_string(&self) -> (r: String)
        ensures
            r@ == self.message(),
    {
        match self {
            CryptoErrorKind::NoPrivKey => String::from_str("no privacy key available"),
            CryptoErrorKind::InvalidPadding => String::from_str("invalid padding"),
            CryptoErrorKind::InvalidKeyLength => String::from_str("invalid key length"),
            CryptoErrorKind::InvalidIvLength => String::from_str("invalid IV length"),
            CryptoErrorKind::CipherError => String::from_str("cipher operation failed"),
            CryptoErrorKind::UnsupportedProtocol => String::from_str("unsupported privacy protocol"),
            CryptoErrorKind::InvalidPrivParamsLength { expected, actual } => {
                let mut s = String::from_str("invalid privParameters length: expected ");
                push_decimal(&mut s, *expected as u64);
                s.append(", got ");
                push_decimal(&mut s, *actual as u64);
                s
            },
            CryptoErrorKind::InvalidCiphertextLength { length, block_size } => {
                let mut s = String::from_str("ciphertext length ");
                push_decimal(&mut s, *length as u64);
                s.append(" not multiple of block size ");
                push_decimal(&mut s, *block_size as u64);
                s
            },
        }
    }
}

impl DecodeErrorKind {
    /// The message of the fault.
    pub open spec fn message(self) -> Seq<char> {
        match self {
            DecodeErrorKind::UnexpectedTag { expected, actual } => "expected tag 0x"@
                + hex_pair_upper(expected) + ", got 0x"@ + hex_pair_upper(actual),
            DecodeErrorKind::TruncatedData => "unexpected end of data"@,
            DecodeErrorKind::InvalidLength => "invalid length encoding"@,
            DecodeErrorKind::IndefiniteLength => "indefinite length encoding not supported"@,
            DecodeErrorKind::IntegerOverflow => "integer overflow"@,
            DecodeErrorKind::ZeroLengthInteger => "zero-length integer"@,
            DecodeErrorKind::InvalidOidEncoding => "invalid OID encoding"@,
            DecodeErrorKind::UnknownVersion(v) => "unknown SNMP version: "@ + signed_decimal(v as int),
            DecodeErrorKind::UnknownPduType(t) => "unknown PDU type: 0x"@ + hex_pair_upper(t),
            DecodeErrorKind::ConstructedOctetString => "constructed OCTET STRING (0x24) not supported"@,
            DecodeErrorKind::MissingPdu => "missing PDU in message"@,
            DecodeErrorKind::InvalidMsgFlags => "invalid msgFlags: privacy without authentication"@,
            DecodeErrorKind::UnknownSecurityModel(m) => "unknown security model: "@
                + signed_decimal(m as int),
            DecodeErrorKind::MsgMaxSizeTooSmall { value, minimum } => "msgMaxSize "@
                + signed_decimal(value as int) + " below RFC 3412 minimum "@
                + signed_decimal(minimum as int),
            DecodeErrorKind::InvalidMsgId { value } => "msgID "@ + signed_decimal(value as int)
                + " outside RFC 3412 range 0..2147483647"@,
            DecodeErrorKind::InvalidEngineBoots { value } => "msgAuthoritativeEngineBoots "@
                + signed_decimal(value as int) + " outside RFC 3414 range 0..2147483647"@,
            DecodeErrorKind::InvalidEngineTime { value } => "msgAuthoritativeEngineTime "@
                + signed_decimal(value as int) + " outside RFC 3414 range 0..2147483647"@,
            DecodeErrorKind::InvalidNull => "NULL with non-zero length"@,
            DecodeErrorKind::UnexpectedEncryption => "expected plaintext scoped PDU"@,
            DecodeErrorKind::ExpectedEncryption => "expected encrypted scoped PDU"@,
            DecodeErrorKind::InvalidIpAddressLength { length } => "IP address must be 4 bytes, got "@ + decimal(length as nat),
            DecodeErrorKind::LengthTooLong { octets } => "length encoding too long ("@
                + decimal(octets as nat) + " octets)"@,
            DecodeErrorKind::LengthExceedsMax { length, max } => "length "@ + decimal(length as nat)
                + " exceeds maximum "@ + decimal(max as nat),
            DecodeErrorKind::Integer64TooLong { length } => "integer64 too long: "@
                + decimal(length as nat) + " bytes"@,
            DecodeErrorKind::EmptyResponse => "empty response"@,
            DecodeErrorKind::TlvOverflow => "TLV extends past end of data"@,
            DecodeErrorKind::InsufficientData { needed, available } => "need "@
                + decimal(needed as nat) + " bytes but only "@ + decimal(available as nat)
                + " remaining"@,
            DecodeErrorKind::InvalidOid => "invalid OID in notification varbinds"@,
            DecodeErrorKind::NegativeErrorIndex { value } => "negative error_index: "@
                + signed_decimal(value as int),
            DecodeErrorKind::ErrorIndexOutOfBounds { index, varbind_count } => "error_index "@
                + signed_decimal(index as int) + " exceeds varbind count "@
                + decimal(varbind_count as nat),
            DecodeErrorKind::NegativeNonRepeaters { value } => "negative non_repeaters: "@
                + signed_decimal(value as int),
            DecodeErrorKind::NegativeMaxRepetitions { value } => "negative max_repetitions: "@
                + signed_decimal(value as int),
            DecodeErrorKind::OidTooLong { count, max } => "OID has "@ + decimal(count as nat)
                + " arcs, exceeds maximum "@ + decimal(max as nat),
        }
    }

    /// The message of the fault.
    pub fn to_string(&self) -> (r: String)
        ensures
            r@ == self.message(),
    {
        match self {
            DecodeErrorKind::UnexpectedTag { expected, actual } => {
                let mut s = String::from_str("expected tag 0x");
                push_hex_upper(&mut s, *expected);
                s.append(", got 0x");
                push_hex_upper(&mut s, *actual);
                s
            },
            DecodeErrorKind::TruncatedData => String::from_str("unexpected end of data"),
            DecodeErrorKind::InvalidLength => String::from_str("invalid length encoding"),
            DecodeErrorKind::IndefiniteLength => String::from_str("indefinite length encoding not supported"),
            DecodeErrorKind::IntegerOverflow => String::from_str("integer overflow"),
            DecodeErrorKind::ZeroLengthInteger => String::from_str("zero-length integer"),
            DecodeErrorKind::InvalidOidEncoding => String::from_str("invalid OID encoding"),
            DecodeErrorKind::UnknownVersion(v) => {
                let mut s = String::from_str("unknown SNMP version: ");
                push_signed_decimal(&mut s, *v as i64);
                s
            },
            DecodeErrorKind::UnknownPduType(t) => {
                let mut s = String::from_str("unknown PDU type: 0x");
                push_hex_upper(&mut s, *t);
                s
            },
            DecodeErrorKind::ConstructedOctetString => String::from_str("constructed OCTET STRING (0x24) not supported"),
            DecodeErrorKind::MissingPdu => String::from_str("missing PDU in message"),
            DecodeErrorKind::InvalidMsgFlags => String::from_str("invalid msgFlags: privacy without authentication"),
            DecodeErrorKind::UnknownSecurityModel(m) => {
                let mut s = String::from_str("unknown security model: ");
                push_signed_decimal(&mut s, *m as i64);
                s
            },
            DecodeErrorKind::MsgMaxSizeTooSmall { value, minimum } => {
                let mut s = String::from_str("msgMaxSize ");
                push_signed_decimal(&mut s, *value as i64);
                s.append(" below RFC 3412 minimum ");
                push_signed_decimal(&mut s, *minimum as i64);
                s
            },
            DecodeErrorKind::InvalidMsgId { value } => {
                let mut s = String::from_str("msgID ");
                push_signed_decimal(&mut s, *value as i64);
                s.append(" outside RFC 3412 range 0..2147483647");
                s
            },
            DecodeErrorKind::InvalidEngineBoots { value } => {
                let mut s = String::from_str("msgAuthoritativeEngineBoots ");
                push_signed_decimal(&mut s, *value as i64);
                s.append(" outside RFC 3414 range 0..2147483647");
                s
            },
            DecodeErrorKind::InvalidEngineTime { value } => {
                let mut s = String::from_str("msgAuthoritativeEngineTime ");
                push_signed_decimal(&mut s, *value as i64);
                s.append(" outside RFC 3414 range 0..2147483647");
                s
            },
            DecodeErrorKind::InvalidNull => String::from_str("NULL with non-zero length"),
            DecodeErrorKind::UnexpectedEncryption => String::from_str("expected plaintext scoped PDU"),
            DecodeErrorKind::ExpectedEncryption => String::from_str("expected encrypted scoped PDU"),
            DecodeErrorKind::InvalidIpAddressLength { length } => {
                let mut s = String::from_str("IP address must be 4 bytes, got ");
                push_decimal(&mut s, *length as u64);
                s
            },
            DecodeErrorKind::LengthTooLong { octets } => {
                let mut s = String::from_str("length encoding too long (");
                push_decimal(&mut s, *octets as u64);
                s.append(" octets)");
                s
            },
            DecodeErrorKind::LengthExceedsMax { length, max } => {
                let mut s = String::from_str("length ");
                push_decimal(&mut s, *length as u64);
                s.append(" exceeds maximum ");
                push_decimal(&mut s, *max as u64);
                s
            },
            DecodeErrorKind::Integer64TooLong { length } => {
                let mut s = String::from_str("integer64 too long: ");
                push_decimal(&mut s, *length as u64);
                s.append(" bytes");
                s
            },
            DecodeErrorKind::EmptyResponse => String::from_str("empty response"),
            DecodeErrorKind::TlvOverflow => String::from_str("TLV extends past end of data"),
            DecodeErrorKind::InsufficientData { needed, available } => {
                let mut s = String::from_str("need ");
                push_decimal(&mut s, *needed as u64);
                s.append(" bytes but only ");
                push_decimal(&mut s, *available as u64);
                s.append(" remaining");
                s
            },
            DecodeErrorKind::InvalidOid => String::from_str("invalid OID in notification varbinds"),
            DecodeErrorKind::NegativeErrorIndex { value } => {
                let mut s = String::from_str("negative error_index: ");
                push_signed_decimal(&mut s, *value as i64);
                s
            },
            DecodeErrorKind::ErrorIndexOutOfBounds { index, varbind_count } => {
                let mut s = String::from_str("error_index ");
                push_signed_decimal(&mut s, *index as i64);
                s.append(" exceeds varbind count ");
                push_decimal(&mut s, *varbind_count as u64);
                s
            },
            DecodeErrorKind::NegativeNonRepeaters { value } => {
                let mut s = String::from_str("negative non_repeaters: ");
                push_signed_decimal(&mut s, *value as i64);
                s
            },
            DecodeErrorKind::NegativeMaxRepetitions { value } => {
                let mut s = String::from_str("negative max_repetitions: ");
                push_signed_decimal(&mut s, *value as i64);
                s
            },
            DecodeErrorKind::OidTooLong { count, max } => {
                let mut s = String::from_str("OID has ");
                push_decimal(&mut s, *count as u64);
                s.append(" arcs, exceeds maximum ");
                push_decimal(&mut s, *max as u64);
                s
            },
        }
    }
}

impl EncodeErrorKind {
    /// The message of the fault.
    pub open spec fn message(self) -> Seq<char> {
        match self {
            EncodeErrorKind::NoSecurityConfig => "V3 security config not set"@,
            EncodeErrorKind::EngineNotDiscovered => "engine not discovered"@,
            EncodeErrorKind::KeysNotDerived => "keys not derived"@,
            EncodeErrorKind::MissingAuthKey => "auth key not available for encoding"@,
            EncodeErrorKind::NoPrivKey => "privacy key not available"@,
            EncodeErrorKind::MissingAuthParams => "could not find auth params position in encoded message"@,
        }
    }

    /// The message of the fault.
    pub fn to_string(&self) -> (r: String)
        ensures
            r@ == self.message(),
    {
        match self {
            EncodeErrorKind::NoSecurityConfig => String::from_str("V3 security config not set"),
            EncodeErrorKind::EngineNotDiscovered => String::from_str("engine not discovered"),
            EncodeErrorKind::KeysNotDerived => String::from_str("keys not derived"),
            EncodeErrorKind::MissingAuthKey => String::from_str("auth key not available for encoding"),
            EncodeErrorKind::NoPrivKey => String::from_str("privacy key not available"),
            EncodeErrorKind::MissingAuthParams => String::from_str("could not find auth params position in encoded message"),
        }
    }
}

impl ErrorStatus {
    /// The name of the status, as RFC 3416 spells it.
    pub open spec fn message(self) -> Seq<char> {
        match self {
            ErrorStatus::NoError => "noError"@,
            ErrorStatus::TooBig => "tooBig"@,
            ErrorStatus::NoSuchName => "noSuchName"@,
            ErrorStatus::BadValue => "badValue"@,
            ErrorStatus::ReadOnly => "readOnly"@,
            ErrorStatus::GenErr => "genErr"@,
            ErrorStatus::NoAccess => "noAccess"@,
            ErrorStatus::WrongType => "wrongType"@,
            ErrorStatus::WrongLength => "wrongLength"@,
            ErrorStatus::WrongEncoding => "wrongEncoding"@,
            ErrorStatus::WrongValue => "wrongValue"@,
            ErrorStatus::NoCreation => "noCreation"@,
            ErrorStatus::InconsistentValue => "inconsistentValue"@,
            ErrorStatus::ResourceUnavailable => "resourceUnavailable"@,
            ErrorStatus::CommitFailed => "commitFailed"@,
            ErrorStatus::UndoFailed => "undoFailed"@,
            ErrorStatus::AuthorizationError => "authorizationError"@,
            ErrorStatus::NotWritable => "notWritable"@,
            ErrorStatus::InconsistentName => "inconsistentName"@,
            ErrorStatus::Unknown(code) => "unknown("@ + signed_decimal(code as int) + ")"@,
        }
    }

    /// The name of the status, as RFC 3416 spells it.
    pub fn to_string(&self) -> (r: String)
        ensures
            r@ == self.message(),
    {
        match self {
            ErrorStatus::NoError => String::from_str("noError"),
            ErrorStatus::TooBig => String::from_str("tooBig"),
            ErrorStatus::NoSuchName => String::from_str("noSuchName"),
            ErrorStatus::BadValue => String::from_str("badValue"),
            ErrorStatus::ReadOnly => String::from_str("readOnly"),
            ErrorStatus::GenErr => String::from_str("genErr"),
            ErrorStatus::NoAccess => String::from_str("noAccess"),
            ErrorStatus::WrongType => String::from_str("wrongType"),
            ErrorStatus::WrongLength => String::from_str("wrongLength"),
            ErrorStatus::WrongEncoding => String::from_str("wrongEncoding"),
            ErrorStatus::WrongValue => String::from_str("wrongValue"),
            ErrorStatus::NoCreation => String::from_str("noCreation"),
            ErrorStatus::InconsistentValue => String::from_str("inconsistentValue"),
            ErrorStatus::ResourceUnavailable => String::from_str("resourceUnavailable"),
            ErrorStatus::CommitFailed => String::from_str("commitFailed"),
            ErrorStatus::UndoFailed => String::from_str("undoFailed"),
            ErrorStatus::AuthorizationError => String::from_str("authorizationError"),
            ErrorStatus::NotWritable => String::from_str("notWritable"),
            ErrorStatus::InconsistentName => String::from_str("inconsistentName"),
            ErrorStatus::Unknown(code) => {
                let mut s = String::from_str("unknown(");
                push_signed_decimal(&mut s, *code as i64);
                s.append(")");
                s
            },
        }
    }
}

/// Two canonical statuses with the same code are the same status, so that
/// `from_i32` undoes `as_i32` on every status that `from_i32` can give.
pub proof fn lemma_error_status_code_injective(a: ErrorStatus, b: ErrorStatus)
    requires
        a.canonical(),
        b.canonical(),
        a.code() == b.code(),
    ensures
        a == b,
{
}

/// Library error type.
#[allow(inconsistent_fields)]
#[derive(Debug, Clone, PartialEq, Eq)]
#[non_exhaustive]
pub enum Error {
    /// I/O error during communication.
    Io { target: Option<SocketAddress>, message: String },
    /// Request timed out (after retries if configured).
    Timeout { target: Option<SocketAddress>, elapsed_ms: u64, request_id: i32, retries: u32 },
    /// SNMP protocol error returned by agent.
    Snmp { target: Option<SocketAddress>, status: ErrorStatus, index: u32, oid: Option<Oid> },
    /// Invalid OID format.
    InvalidOid { kind: OidErrorKind, input: Option<String> },
    /// BER decoding error.
    Decode { offset: usize, kind: DecodeErrorKind },
    /// BER encoding error.
    Encode { kind: EncodeErrorKind },
    /// Response request ID doesn't match.
    RequestIdMismatch { expected: i32, actual: i32 },
    /// Response version doesn't match request.
    VersionMismatch { expected: Version, actual: Version },
    /// Message exceeds maximum size.
    MessageTooLarge { size: usize, max: usize },
    /// Unknown engine ID (SNMPv3).
    UnknownEngineId { target: Option<SocketAddress> },
    /// Message outside time window (SNMPv3).
    NotInTimeWindow { target: Option<SocketAddress> },
    /// Authentication failed (SNMPv3).
    AuthenticationFailed { target: Option<SocketAddress>, kind: AuthErrorKind },
    /// Decryption failed (SNMPv3).
    DecryptionFailed { target: Option<SocketAddress>, kind: CryptoErrorKind },
    /// Encryption failed (SNMPv3).
    EncryptionFailed { target: Option<SocketAddress>, kind: CryptoErrorKind },
    /// Invalid community string.
    InvalidCommunity { target: Option<SocketAddress> },
    /// Non-increasing OID detected during walk (agent misbehavior).
    NonIncreasingOid { previous: Oid, current: Oid },
}

/// The words that name the peer in a message: nothing without a peer, else
/// the given words and the address.
pub open spec fn peer_words(words: Seq<char>, target: Option<SocketAddress>) -> Seq<char> {
    match target {
        Some(t) => words + t.text(),
        None => Seq::empty(),
    }
}

/// Appends the words that name the peer.
fn push_peer(out: &mut String, words: &str, target: &Option<SocketAddress>)
    ensures
        final(out)@ == old(out)@ + peer_words(words@, *target),
{
    match target {
        Some(t) => {
            out.append(words);
            let text = t.to_string();
            out.append(text.as_str());
            proof {
                assert(final(out)@ =~= old(out)@ + peer_words(words@, *target));
            }
        },
        None => {
            proof {
                assert(final(out)@ =~= old(out)@ + peer_words(words@, *target));
            }
        },
    }
}

impl Error {
    /// The message of the error.
    pub open spec fn message(self) -> Seq<char> {
        match self {
            Error::Io { target, message } => "I/O error"@ + peer_words(
                " communicating with "@,
                target,
            ) + ": "@ + message@,
            Error::Timeout { target, elapsed_ms, request_id, retries } => "timeout after "@
                + decimal(elapsed_ms as nat) + "ms"@ + peer_words(" waiting for "@, target)
                + " (request_id="@ + signed_decimal(request_id as int) + ", retries="@ + decimal(
                retries as nat,
            ) + ")"@,
            Error::Snmp { target, status, index, oid } => "SNMP error"@ + peer_words(
                " from "@,
                target,
            ) + ": "@ + status.message() + " at index "@ + decimal(index as nat),
            Error::InvalidOid { kind, input } => "invalid OID: "@ + kind.message(),
            Error::Decode { offset, kind } => "decode error at offset "@ + decimal(offset as nat)
                + ": "@ + kind.message(),
            Error::Encode { kind } => "encode error: "@ + kind.message(),
            Error::RequestIdMismatch { expected, actual } => "request ID mismatch: expected "@
                + signed_decimal(expected as int) + ", got "@ + signed_decimal(actual as int),
            Error::VersionMismatch { expected, actual } => "version mismatch: expected "@
                + expected.spec_label() + ", got "@ + actual.spec_label(),
            Error::MessageTooLarge { size, max } => "message too large: "@ + decimal(size as nat)
                + " bytes exceeds maximum "@ + decimal(max as nat),
            Error::UnknownEngineId { target } => "unknown engine ID"@,
            Error::NotInTimeWindow { target } => "message not in time window"@,
            Error::AuthenticationFailed { target, kind } => "authentication failed: "@
                + kind.message(),
            Error::DecryptionFailed { target, kind } => "decryption failed: "@ + kind.message(),
            Error::EncryptionFailed { target, kind } => "encryption failed: "@ + kind.message(),
            Error::InvalidCommunity { target } => "invalid community"@,
            Error::NonIncreasingOid { previous, current } => "walk detected non-increasing OID: "@
                + crate::oid::dotted(previous@) + " >= "@ + crate::oid::dotted(current@),
        }
    }

    /// The message of the error.
    pub fn to_string(&self) -> (r: String)
        ensures
            r@ == self.message(),
    {
        match self {
            Error::Io { target, message } => {
                let mut s = String::from_str("I/O error");
                push_peer(&mut s, " communicating with ", target);
                s.append(": ");
                s.append(message.as_str());
                s
            },
            Error::Timeout { target, elapsed_ms, request_id, retries } => {
                let mut s = String::from_str("timeout after ");
                push_decimal(&mut s, *elapsed_ms);
                s.append("ms");
                push_peer(&mut s, " waiting for ", target);
                s.append(" (request_id=");
                push_signed_decimal(&mut s, *request_id as i64);
                s.append(", retries=");
                push_decimal(&mut s, *retries as u64);
                s.append(")");
                s
            },
            Error::Snmp { target, status, index, oid } => {
                let mut s = String::from_str("SNMP error");
                push_peer(&mut s, " from ", target);
                s.append(": ");
                let name = status.to_string();
                s.append(name.as_str());
                s.append(" at index ");
                push_decimal(&mut s, *index as u64);
                s
            },
            Error::InvalidOid { kind, input } => {
                let mut s = String::from_str("invalid OID: ");
                let detail = kind.to_string();
                s.append(detail.as_str());
                s
            },
            Error::Decode { offset, kind } => {
                let mut s = String::from_str("decode error at offset ");
                push_decimal(&mut s, *offset as u64);
                s.append(": ");
                let detail = kind.to_string();
                s.append(detail.as_str());
                s
            },
            Error::Encode { kind } => {
                let mut s = String::from_str("encode error: ");
                let detail = kind.to_string();
                s.append(detail.as_str());
                s
            },
            Error::RequestIdMismatch { expected, actual } => {
                let mut s = String::from_str("request ID mismatch: expected ");
                push_signed_decimal(&mut s, *expected as i64);
                s.append(", got ");
                push_signed_decimal(&mut s, *actual as i64);
                s
            },
            Error::VersionMismatch { expected, actual } => {
                let mut s = String::from_str("version mismatch: expected ");
                s.append(expected.label());
                s.append(", got ");
                s.append(actual.label());
                s
            },
            Error::MessageTooLarge { size, max } => {
                let mut s = String::from_str("message too large: ");
                push_decimal(&mut s, *size as u64);
                s.append(" bytes exceeds maximum ");
                push_decimal(&mut s, *max as u64);
                s
            },
            Error::UnknownEngineId { target } => String::from_str("unknown engine ID"),
            Error::NotInTimeWindow { target } => String::from_str("message not in time window"),
            Error::AuthenticationFailed { target, kind } => {
                let mut s = String::from_str("authentication failed: ");
                let detail = kind.to_string();
                s.append(detail.as_str());
                s
            },
            Error::DecryptionFailed { target, kind } => {
                let mut s = String::from_str("decryption failed: ");
                let detail = kind.to_string();
                s.append(detail.as_str());
                s
            },
            Error::EncryptionFailed { target, kind } => {
                let mut s = String::from_str("encryption failed: ");
                let detail = kind.to_string();
                s.append(detail.as_str());
                s
            },
            Error::InvalidCommunity { target } => String::from_str("invalid community"),
            Error::NonIncreasingOid { previous, current } => {
                let mut s = String::from_str("walk detected non-increasing OID: ");
                let a = previous.to_string();
                s.append(a.as_str());
                s.append(" >= ");
                let b = current.to_string();
                s.append(b.as_str());
                s
            },
        }
    }

    /// The peer address that an error names, if it names one.
    pub open spec fn spec_target(self) -> Option<SocketAddress> {
        match self {
            Error::Io { target, .. } => target,
            Error::Timeout { target, .. } => target,
            Error::Snmp { target, .. } => target,
            Error::UnknownEngineId { target } => target,
            Error::NotInTimeWindow { target } => target,
            Error::AuthenticationFailed { target, .. } => target,
            Error::DecryptionFailed { target, .. } => target,
            Error::EncryptionFailed { target, .. } => target,
            Error::InvalidCommunity { target } => target,
            _ => None,
        }
    }

    /// Create a decode error.
    pub fn decode(offset: usize, kind: DecodeErrorKind) -> (r: Error)
        ensures
            r == (Error::Decode { offset, kind }),
    {
        Error::Decode { offset, kind }
    }

    /// Create an encode error.
    pub fn encode(kind: EncodeErrorKind) -> (r: Error)
        ensures
            r == (Error::Encode { kind }),
    {
        Error::Encode { kind }
    }

    /// Create an authentication error.
    pub fn auth(target: Option<SocketAddress>, kind: AuthErrorKind) -> (r: Error)
        ensures
            r == (Error::AuthenticationFailed { target, kind }),
    {
        Error::AuthenticationFailed { target, kind }
    }

    /// Create a decryption error.
    pub fn decrypt(target: Option<SocketAddress>, kind: CryptoErrorKind) -> (r: Error)
        ensures
            r == (Error::DecryptionFailed { target, kind }),
    {
        Error::DecryptionFailed { target, kind }
    }

    /// Create an encryption error.
    pub fn encrypt(target: Option<SocketAddress>, kind: CryptoErrorKind) -> (r: Error)
        ensures
            r == (Error::EncryptionFailed { target, kind }),
    {
        Error::EncryptionFailed { target, kind }
    }

    /// Create an invalid OID error from a kind (no input string).
    pub fn invalid_oid(kind: OidErrorKind) -> (r: Error)
        ensures
            r == (Error::InvalidOid { kind, input: None }),
    {
        Error::InvalidOid { kind, input: None }
    }

    /// Create an invalid OID error with the input string that failed.
    pub fn invalid_oid_with_input(kind: OidErrorKind, input: String) -> (r: Error)
        ensures
            r == (Error::InvalidOid { kind, input: Some(input) }),
    {
        Error::InvalidOid { kind, input: Some(input) }
    }

    /// Get the target address if this error has one.
    pub fn target(&self) -> (r: Option<SocketAddress>)
        ensures
            r == self.spec_target(),
    {
        match self {
            Error::Io { target, .. } => *target,
            Error::Timeout { target, .. } => *target,
            Error::Snmp { target, .. } => *target,
            Error::UnknownEngineId { target } => *target,
            Error::NotInTimeWindow { target } => *target,
            Error::AuthenticationFailed { target, .. } => *target,
            Error::DecryptionFailed { target, .. } => *target,
            Error::EncryptionFailed { target, .. } => *target,
            Error::InvalidCommunity { target } => *target,
            _ => None,
        }
    }
}

} // verus!
