//! SNMPv3 security: the User-based Security Model (RFC 3414, RFC 7860).
//!
//! - USM security parameters and the v3 message
//! - Key localization (password-to-key derivation)
//! - Authentication (HMAC-MD5-96, HMAC-SHA-96, HMAC-SHA-224/256/384/512)
//! - Privacy (DES-CBC, 3DES-EDE-CBC, AES-128/192/256-CFB)
//! - Engine discovery and time synchronization

use vstd::prelude::*;

use crate::text::{eq_ignore_ascii_case, upper};

pub mod auth;
pub mod crypto;
pub mod discovery;
pub mod engine;
pub mod message;
pub mod privacy;
pub mod transform;
pub mod usm;

pub use auth::{LocalizedKey, MasterKey};
pub use discovery::{discovery_request, report_message};
pub use engine::{EngineCache, EngineState, DEFAULT_MSG_MAX_SIZE, MAX_ENGINE_TIME, TIME_WINDOW};
pub use privacy::{PrivKey, SaltCounter};
pub use usm::UsmSecurityParams;

verus! {

/// Key extension strategy for privacy key derivation: which algorithm
/// lengthens a localized key that is shorter than the cipher needs.
#[derive(Debug, Clone, Copy, PartialEq, Eq, Structural)]
pub enum KeyExtension {
    /// No key extension. Use standard RFC 3414 key derivation.
    Standard,
    /// Blumenthal key extension (draft-blumenthal-aes-usm-04) for AES-192/256.
    Blumenthal,
    /// Reeder key extension (draft-reeder-snmpv3-usm-3desede-00) for 3DES.
    Reeder,
}

impl Default for KeyExtension {
    fn default() -> (r: KeyExtension)
        ensures
            r == KeyExtension::Standard,
    {
        KeyExtension::Standard
    }
}

/// Which kind of protocol name could not be parsed.
#[derive(Debug, Clone, Copy, PartialEq, Eq, Structural)]
pub enum ProtocolKind {
    Auth,
    Priv,
}

/// Error returned when parsing a protocol name fails.
#[derive(Debug, Clone, PartialEq, Eq)]
pub struct ParseProtocolError {
    input: String,
    kind: ProtocolKind,
}

impl ParseProtocolError {
    /// The text that was not a protocol name.
    pub closed spec fn input(self) -> Seq<char> {
        self.input@
    }

    /// The kind of name that was looked for.
    pub closed spec fn kind(self) -> ProtocolKind {
        self.kind
    }

    /// The message of the error: the text that was given, and the names
    /// that are known.
    pub open spec fn message(self) -> Seq<char> {
        match self.kind() {
            ProtocolKind::Auth => "unknown authentication protocol '"@ + self.input()
                + "'; expected one of: MD5, SHA, SHA-224, SHA-256, SHA-384, SHA-512"@,
            ProtocolKind::Priv => "unknown privacy protocol '"@ + self.input()
                + "'; expected one of: DES, AES, AES-128, AES-192, AES-256"@,
        }
    }

    /// The message of the error.
    pub fn to_string(&self) -> (r: String)
        ensures
            r@ == self.message(),
    {
        match self.kind {
            ProtocolKind::Auth => {
                let mut s = String::from_str("unknown authentication protocol '");
                s.append(self.input.as_str());
                s.append("'; expected one of: MD5, SHA, SHA-224, SHA-256, SHA-384, SHA-512");
                s
            },
            ProtocolKind::Priv => {
                let mut s = String::from_str("unknown privacy protocol '");
                s.append(self.input.as_str());
                s.append("'; expected one of: DES, AES, AES-128, AES-192, AES-256");
                s
            },
        }
    }
}

/// Authentication protocol identifiers.
#[derive(Debug, Clone, Copy, PartialEq, Eq, Structural)]
pub enum AuthProtocol {
    /// HMAC-MD5-96 (RFC 3414)
    Md5,
    /// HMAC-SHA-96 (RFC 3414)
    Sha1,
    /// HMAC-SHA-224 (RFC 7860)
    Sha224,
    /// HMAC-SHA-256 (RFC 7860)
    Sha256,
    /// HMAC-SHA-384 (RFC 7860)
    Sha384,
    /// HMAC-SHA-512 (RFC 7860)
    Sha512,
}

/// The authentication protocol that a name stands for, whatever the case of
/// its letters.
pub open spec fn auth_protocol_named(s: Seq<char>) -> Option<AuthProtocol> {
    let u = upper(s);
    if u == "MD5"@ {
        Some(AuthProtocol::Md5)
    } else if u == "SHA"@ || u == "SHA1"@ || u == "SHA-1"@ {
        Some(AuthProtocol::Sha1)
    } else if u == "SHA224"@ || u == "SHA-224"@ {
        Some(AuthProtocol::Sha224)
    } else if u == "SHA256"@ || u == "SHA-256"@ {
        Some(AuthProtocol::Sha256)
    } else if u == "SHA384"@ || u == "SHA-384"@ {
        Some(AuthProtocol::Sha384)
    } else if u == "SHA512"@ || u == "SHA-512"@ {
        Some(AuthProtocol::Sha512)
    } else {
        None
    }
}

/// Whether a text is the given name, apart from the case of its letters.
/// The name is in upper case.
fn is_name(s: &str, name: &str) -> (r: bool)
    requires
        upper(name@) == name@,
    ensures
        r == (upper(s@) == name@),
{
    eq_ignore_ascii_case(s, name)
}

impl AuthProtocol {
    /// The length of the digest in octets.
    pub open spec fn spec_digest_len(self) -> nat {
        match self {
            AuthProtocol::Md5 => 16,
            AuthProtocol::Sha1 => 20,
            AuthProtocol::Sha224 => 28,
            AuthProtocol::Sha256 => 32,
            AuthProtocol::Sha384 => 48,
            AuthProtocol::Sha512 => 64,
        }
    }

    /// The length of the truncated MAC in octets.
    pub open spec fn spec_mac_len(self) -> nat {
        match self {
            AuthProtocol::Md5 => 12,
            AuthProtocol::Sha1 => 12,
            AuthProtocol::Sha224 => 16,
            AuthProtocol::Sha256 => 24,
            AuthProtocol::Sha384 => 32,
            AuthProtocol::Sha512 => 48,
        }
    }

    /// The name of the protocol.
    pub open spec fn spec_name(self) -> Seq<char> {
        match self {
            AuthProtocol::Md5 => "MD5"@,
            AuthProtocol::Sha1 => "SHA"@,
            AuthProtocol::Sha224 => "SHA-224"@,
            AuthProtocol::Sha256 => "SHA-256"@,
            AuthProtocol::Sha384 => "SHA-384"@,
            AuthProtocol::Sha512 => "SHA-512"@,
        }
    }

    /// Get the digest output length in bytes.
    ///
    /// This is also the key length produced by the key localization algorithm,
    /// which is used for privacy key derivation.
    pub fn digest_len(self) -> (r: usize)
        ensures
            r == self.spec_digest_len(),
    {
        match self {
            AuthProtocol::Md5 => 16,
            AuthProtocol::Sha1 => 20,
            AuthProtocol::Sha224 => 28,
            AuthProtocol::Sha256 => 32,
            AuthProtocol::Sha384 => 48,
            AuthProtocol::Sha512 => 64,
        }
    }

    /// Get the truncated MAC length for authentication parameters.
    pub fn mac_len(self) -> (r: usize)
        ensures
            r == self.spec_mac_len(),
            r <= self.spec_digest_len(),
    {
        match self {
            AuthProtocol::Md5 => 12,
            AuthProtocol::Sha1 => 12,
            AuthProtocol::Sha224 => 16,
            AuthProtocol::Sha256 => 24,
            AuthProtocol::Sha384 => 32,
            AuthProtocol::Sha512 => 48,
        }
    }

    /// The name of the protocol.
    pub fn name(self) -> (r: &'static str)
        ensures
            r@ == self.spec_name(),
    {
        match self {
            AuthProtocol::Md5 => "MD5",
            AuthProtocol::Sha1 => "SHA",
            AuthProtocol::Sha224 => "SHA-224",
            AuthProtocol::Sha256 => "SHA-256",
            AuthProtocol::Sha384 => "SHA-384",
            AuthProtocol::Sha512 => "SHA-512",
        }
    }

    /// The name of the protocol, as a string.
    pub fn to_string(&self) -> (r: String)
        ensures
            r@ == self.spec_name(),
    {
        String::from_str(self.name())
    }

    /// The protocol that a name stands for, whatever the case of its
    /// letters: `MD5`, `SHA`, `SHA1`, `SHA-1`, `SHA224`, `SHA-224`, and so
    /// on. Any other text is given back in the error.
    pub fn parse(s: &str) -> (r: Result<AuthProtocol, ParseProtocolError>)
        ensures
            match auth_protocol_named(s@) {
                Some(p) => r == Ok::<AuthProtocol, ParseProtocolError>(p),
                None => r matches Err(e) && e.input() == s@ && e.kind() == ProtocolKind::Auth,
            },
    {
        proof {
            reveal_strlit("MD5");
            reveal_strlit("SHA");
            reveal_strlit("SHA1");
            reveal_strlit("SHA-1");
            reveal_strlit("SHA224");
            reveal_strlit("SHA-224");
            reveal_strlit("SHA256");
            reveal_strlit("SHA-256");
            reveal_strlit("SHA384");
            reveal_strlit("SHA-384");
            reveal_strlit("SHA512");
            reveal_strlit("SHA-512");
            assert(upper("MD5"@) =~= "MD5"@);
            assert(upper("SHA"@) =~= "SHA"@);
            assert(upper("SHA1"@) =~= "SHA1"@);
            assert(upper("SHA-1"@) =~= "SHA-1"@);
            assert(upper("SHA224"@) =~= "SHA224"@);
            assert(upper("SHA-224"@) =~= "SHA-224"@);
            assert(upper("SHA256"@) =~= "SHA256"@);
            assert(upper("SHA-256"@) =~= "SHA-256"@);
            assert(upper("SHA384"@) =~= "SHA384"@);
            assert(upper("SHA-384"@) =~= "SHA-384"@);
            assert(upper("SHA512"@) =~= "SHA512"@);
            assert(upper("SHA-512"@) =~= "SHA-512"@);
        }
        if is_name(s, "MD5") {
            Ok(AuthProtocol::Md5)
        } else if is_name(s, "SHA") || is_name(s, "SHA1") || is_name(s, "SHA-1") {
            Ok(AuthProtocol::Sha1)
        } else if is_name(s, "SHA224") || is_name(s, "SHA-224") {
            Ok(AuthProtocol::Sha224)
        } else if is_name(s, "SHA256") || is_name(s, "SHA-256") {
            Ok(AuthProtocol::Sha256)
        } else if is_name(s, "SHA384") || is_name(s, "SHA-384") {
            Ok(AuthProtocol::Sha384)
        } else if is_name(s, "SHA512") || is_name(s, "SHA-512") {
            Ok(AuthProtocol::Sha512)
        } else {
            Err(ParseProtocolError { input: String::from_str(s), kind: ProtocolKind::Auth })
        }
    }
}

impl core::str::FromStr for AuthProtocol {
    type Err = ParseProtocolError;

    fn from_str(s: &str) -> (r: Result<AuthProtocol, ParseProtocolError>) {
        AuthProtocol::parse(s)
    }
}

/// Privacy protocol identifiers.
#[derive(Debug, Clone, Copy, PartialEq, Eq, Structural)]
pub enum PrivProtocol {
    /// DES-CBC (RFC 3414).
    Des,
    /// 3DES-EDE in "Outside" CBC mode (draft-reeder-snmpv3-usm-3desede-00).
    Des3,
    /// AES-128-CFB (RFC 3826)
    Aes128,
    /// AES-192-CFB
    Aes192,
    /// AES-256-CFB
    Aes256,
}

/// The privacy protocol that a name stands for, whatever the case of its
/// letters.
pub open spec fn priv_protocol_named(s: Seq<char>) -> Option<PrivProtocol> {
    let u = upper(s);
    if u == "DES"@ {
        Some(PrivProtocol::Des)
    } else if u == "3DES"@ || u == "3DES-EDE"@ || u == "DES3"@ || u == "TDES"@ {
        Some(PrivProtocol::Des3)
    } else if u == "AES"@ || u == "AES128"@ || u == "AES-128"@ {
        Some(PrivProtocol::Aes128)
    } else if u == "AES192"@ || u == "AES-192"@ {
        Some(PrivProtocol::Aes192)
    } else if u == "AES256"@ || u == "AES-256"@ {
        Some(PrivProtocol::Aes256)
    } else {
        None
    }
}

impl PrivProtocol {
    /// The length of the localized privacy key in octets: for DES and 3DES
    /// the cipher key and 8 octets of pre-IV.
    pub open spec fn spec_key_len(self) -> nat {
        match self {
            PrivProtocol::Des => 16,
            PrivProtocol::Des3 => 32,
            PrivProtocol::Aes128 => 16,
            PrivProtocol::Aes192 => 24,
            PrivProtocol::Aes256 => 32,
        }
    }

    /// The name of the protocol.
    pub open spec fn spec_name(self) -> Seq<char> {
        match self {
            PrivProtocol::Des => "DES"@,
            PrivProtocol::Des3 => "3DES"@,
            PrivProtocol::Aes128 => "AES"@,
            PrivProtocol::Aes192 => "AES-192"@,
            PrivProtocol::Aes256 => "AES-256"@,
        }
    }

    /// The extension that lengthens a key localized with the given
    /// authentication protocol: none where the digest is long enough, else
    /// Reeder for 3DES and Blumenthal for AES-192 and AES-256.
    pub open spec fn extension_for(self, auth_protocol: AuthProtocol) -> KeyExtension {
        if auth_protocol.spec_digest_len() >= self.spec_key_len() {
            KeyExtension::Standard
        } else {
            match self {
                PrivProtocol::Des3 => KeyExtension::Reeder,
                PrivProtocol::Aes192 => KeyExtension::Blumenthal,
                PrivProtocol::Aes256 => KeyExtension::Blumenthal,
                PrivProtocol::Des => KeyExtension::Standard,
                PrivProtocol::Aes128 => KeyExtension::Standard,
            }
        }
    }

    /// Get the key length in bytes.
    pub fn key_len(self) -> (r: usize)
        ensures
            r == self.spec_key_len(),
    {
        match self {
            PrivProtocol::Des => 16,
            PrivProtocol::Des3 => 32,
            PrivProtocol::Aes128 => 16,
            PrivProtocol::Aes192 => 24,
            PrivProtocol::Aes256 => 32,
        }
    }

    /// Get the IV/salt length in bytes: every protocol uses a salt of 8
    /// octets.
    pub fn salt_len(self) -> (r: usize)
        ensures
            r == 8,
    {
        8
    }

    /// Returns the key extension algorithm to use for this privacy protocol
    /// given the authentication protocol.
    pub fn key_extension_for(self, auth_protocol: AuthProtocol) -> (r: KeyExtension)
        ensures
            r == self.extension_for(auth_protocol),
    {
        let auth_len = auth_protocol.digest_len();
        let priv_len = self.key_len();
        if auth_len >= priv_len {
            return KeyExtension::Standard;
        }
        match self {
            PrivProtocol::Des3 => KeyExtension::Reeder,
            PrivProtocol::Aes192 => KeyExtension::Blumenthal,
            PrivProtocol::Aes256 => KeyExtension::Blumenthal,
            PrivProtocol::Des => KeyExtension::Standard,
            PrivProtocol::Aes128 => KeyExtension::Standard,
        }
    }

    /// The name of the protocol.
    pub fn name(self) -> (r: &'static str)
        ensures
            r@ == self.spec_name(),
    {
        match self {
            PrivProtocol::Des => "DES",
            PrivProtocol::Des3 => "3DES",
            PrivProtocol::Aes128 => "AES",
            PrivProtocol::Aes192 => "AES-192",
            PrivProtocol::Aes256 => "AES-256",
        }
    }

    /// The name of the protocol, as a string.
    pub fn to_string(&self) -> (r: String)
        ensures
            r@ == self.spec_name(),
    {
        String::from_str(self.name())
    }

    /// The protocol that a name stands for, whatever the case of its
    /// letters. Any other text is given back in the error.
    pub fn parse(s: &str) -> (r: Result<PrivProtocol, ParseProtocolError>)
        ensures
            match priv_protocol_named(s@) {
                Some(p) => r == Ok::<PrivProtocol, ParseProtocolError>(p),
                None => r matches Err(e) && e.input() == s@ && e.kind() == ProtocolKind::Priv,
            },
    {
        proof {
            reveal_strlit("DES");
            reveal_strlit("3DES");
            reveal_strlit("3DES-EDE");
            reveal_strlit("DES3");
            reveal_strlit("TDES");
            reveal_strlit("AES");
            reveal_strlit("AES128");
            reveal_strlit("AES-128");
            reveal_strlit("AES192");
            reveal_strlit("AES-192");
            reveal_strlit("AES256");
            reveal_strlit("AES-256");
            assert(upper("DES"@) =~= "DES"@);
            assert(upper("3DES"@) =~= "3DES"@);
            assert(upper("3DES-EDE"@) =~= "3DES-EDE"@);
            assert(upper("DES3"@) =~= "DES3"@);
            assert(upper("TDES"@) =~= "TDES"@);
            assert(upper("AES"@) =~= "AES"@);
            assert(upper("AES128"@) =~= "AES128"@);
            assert(upper("AES-128"@) =~= "AES-128"@);
            assert(upper("AES192"@) =~= "AES192"@);
            assert(upper("AES-192"@) =~= "AES-192"@);
            assert(upper("AES256"@) =~= "AES256"@);
            assert(upper("AES-256"@) =~= "AES-256"@);
        }
        if is_name(s, "DES") {
            Ok(PrivProtocol::Des)
        } else if is_name(s, "3DES") || is_name(s, "3DES-EDE") || is_name(s, "DES3") || is_name(
            s,
            "TDES",
        ) {
            Ok(PrivProtocol::Des3)
        } else if is_name(s, "AES") || is_name(s, "AES128") || is_name(s, "AES-128") {
            Ok(PrivProtocol::Aes128)
        } else if is_name(s, "AES192") || is_name(s, "AES-192") {
            Ok(PrivProtocol::Aes192)
        } else if is_name(s, "AES256") || is_name(s, "AES-256") {
            Ok(PrivProtocol::Aes256)
        } else {
            Err(ParseProtocolError { input: String::from_str(s), kind: ProtocolKind::Priv })
        }
    }
}

impl core::str::FromStr for PrivProtocol {
    type Err = ParseProtocolError;

    fn from_str(s: &str) -> (r: Result<PrivProtocol, ParseProtocolError>) {
        PrivProtocol::parse(s)
    }
}

} // verus!
