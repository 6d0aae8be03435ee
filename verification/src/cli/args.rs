//! The arguments of the command-line tools, as plain values.

use vstd::prelude::*;

use super::output::{OutputContext, OutputFormat, SecurityInfo};
use crate::message::SecurityLevel;
use crate::v3::{AuthProtocol, PrivProtocol};
use crate::version::Version;

verus! {

/// The version of SNMP on the command line.
#[derive(Debug, Clone, Copy, PartialEq, Eq, Structural)]
pub enum SnmpVersion {
    V1,
    V2c,
    V3,
}

impl SnmpVersion {
    /// The version of the protocol.
    pub fn version(self) -> (r: Version)
        ensures
            r == match self {
                SnmpVersion::V1 => Version::V1,
                SnmpVersion::V2c => Version::V2c,
                SnmpVersion::V3 => Version::V3,
            },
    {
        match self {
            SnmpVersion::V1 => Version::V1,
            SnmpVersion::V2c => Version::V2c,
            SnmpVersion::V3 => Version::V3,
        }
    }
}

/// Arguments of every tool.
#[derive(Debug, Clone, PartialEq, Eq)]
pub struct CommonArgs {
    /// Target host, with an optional port.
    pub target: String,
    /// SNMP version.
    pub snmp_version: SnmpVersion,
    /// Community for v1 and v2c.
    pub community: String,
    /// Timeout of one attempt, in milliseconds.
    pub timeout_ms: u64,
    /// Retransmissions after a timeout.
    pub retries: u32,
}

/// Arguments of a v3 user.
#[derive(Debug, Clone, PartialEq, Eq)]
pub struct V3Args {
    /// User name; with it the request is a v3 request.
    pub username: Option<String>,
    /// Authentication protocol.
    pub auth_protocol: Option<AuthProtocol>,
    /// Authentication password.
    pub auth_password: Option<String>,
    /// Privacy protocol.
    pub priv_protocol: Option<PrivProtocol>,
    /// Privacy password.
    pub priv_password: Option<String>,
}

/// What is wrong with the arguments of a v3 user.
#[derive(Debug, Clone, Copy, PartialEq, Eq, Structural)]
pub enum V3ArgsFault {
    /// An authentication protocol without a password, or a password
    /// without a protocol.
    AuthIncomplete,
    /// A privacy protocol without a password, or a password without a
    /// protocol.
    PrivIncomplete,
    /// Authentication or privacy without a user name.
    NoUser,
    /// Privacy without authentication.
    PrivWithoutAuth,
}

impl V3ArgsFault {
    /// The message of the fault.
    pub open spec fn message(self) -> Seq<char> {
        match self {
            V3ArgsFault::AuthIncomplete => "an authentication protocol and password go together"@,
            V3ArgsFault::PrivIncomplete => "a privacy protocol and password go together"@,
            V3ArgsFault::NoUser => "authentication and privacy need a user name"@,
            V3ArgsFault::PrivWithoutAuth => "privacy needs authentication"@,
        }
    }

    /// The message of the fault.
    pub fn to_string(&self) -> (r: String)
        ensures
            r@ == self.message(),
    {
        match self {
            V3ArgsFault::AuthIncomplete => String::from_str(
                "an authentication protocol and password go together",
            ),
            V3ArgsFault::PrivIncomplete => String::from_str(
                "a privacy protocol and password go together",
            ),
            V3ArgsFault::NoUser => String::from_str("authentication and privacy need a user name"),
            V3ArgsFault::PrivWithoutAuth => String::from_str("privacy needs authentication"),
        }
    }
}

impl V3Args {
    /// What is wrong with the arguments, or `None`: a protocol and its
    /// password come together, both need a user name, and privacy needs
    /// authentication.
    pub open spec fn fault(self) -> Option<V3ArgsFault> {
        if (self.auth_protocol is Some) != (self.auth_password is Some) {
            Some(V3ArgsFault::AuthIncomplete)
        } else if (self.priv_protocol is Some) != (self.priv_password is Some) {
            Some(V3ArgsFault::PrivIncomplete)
        } else if self.username is None && (self.auth_protocol is Some || self.priv_protocol
            is Some) {
            Some(V3ArgsFault::NoUser)
        } else if self.priv_protocol is Some && self.auth_protocol is None {
            Some(V3ArgsFault::PrivWithoutAuth)
        } else {
            None
        }
    }

    /// Whether a user name was given.
    pub fn is_v3(&self) -> (r: bool)
        ensures
            r == (self.username is Some),
    {
        self.username.is_some()
    }

    /// Checks the arguments and gives the level that they ask for.
    pub fn validate(&self) -> (r: Result<SecurityLevel, V3ArgsFault>)
        ensures
            match self.fault() {
                Some(fault) => r == Err::<SecurityLevel, V3ArgsFault>(fault),
                None => r == Ok::<SecurityLevel, V3ArgsFault>(
                    if self.priv_protocol is Some {
                        SecurityLevel::AuthPriv
                    } else if self.auth_protocol is Some {
                        SecurityLevel::AuthNoPriv
                    } else {
                        SecurityLevel::NoAuthNoPriv
                    },
                ),
            },
    {
        let auth = self.auth_protocol.is_some();
        let privacy = self.priv_protocol.is_some();
        if auth != self.auth_password.is_some() {
            return Err(V3ArgsFault::AuthIncomplete);
        }
        if privacy != self.priv_password.is_some() {
            return Err(V3ArgsFault::PrivIncomplete);
        }
        if self.username.is_none() && (auth || privacy) {
            return Err(V3ArgsFault::NoUser);
        }
        match SecurityLevel::from_flags(auth, privacy) {
            Some(level) => Ok(level),
            None => Err(V3ArgsFault::PrivWithoutAuth),
        }
    }
}

/// Arguments of the output.
#[derive(Debug, Clone, Copy, PartialEq, Eq, Structural)]
pub struct OutputArgs {
    /// Output format.
    pub format: OutputFormat,
    /// Show the request and the details of the response.
    pub verbose: bool,
    /// Show every OCTET STRING in hexadecimal.
    pub hex: bool,
    /// Show how long the operation took.
    pub timing: bool,
    /// Do not show the friendly names of well-known OIDs.
    pub no_hints: bool,
}

impl OutputArgs {
    /// The context in which the results are formatted.
    pub fn context(&self) -> (r: OutputContext)
        ensures
            r == (OutputContext {
                format: self.format,
                show_hints: !self.no_hints,
                force_hex: self.hex,
                show_timing: self.timing,
            }),
    {
        OutputContext {
            format: self.format,
            show_hints: !self.no_hints,
            force_hex: self.hex,
            show_timing: self.timing,
        }
    }
}

/// Arguments of a walk.
#[derive(Debug, Clone, Copy, PartialEq, Eq, Structural)]
pub struct WalkArgs {
    /// Walk with GETNEXT where GETBULK could be used.
    pub getnext: bool,
    /// The repetitions of a GETBULK.
    pub max_repetitions: u32,
}

impl WalkArgs {
    /// The repetitions as a PDU holds them: at most the largest signed
    /// 32-bit number.
    pub fn repetitions(&self) -> (r: i32)
        ensures
            r == (if self.max_repetitions > 0x7FFF_FFFF {
                0x7FFF_FFFFi32
            } else {
                self.max_repetitions as i32
            }),
    {
        if self.max_repetitions > 0x7FFF_FFFF {
            0x7FFF_FFFF
        } else {
            self.max_repetitions as i32
        }
    }
}

/// The version of the request: v3 where a user name is given, else the
/// version that was asked for.
pub fn effective_version(common: &CommonArgs, v3: &V3Args) -> (r: SnmpVersion)
    ensures
        r == (if v3.username is Some {
            SnmpVersion::V3
        } else {
            common.snmp_version
        }),
{
    if v3.is_v3() {
        SnmpVersion::V3
    } else {
        common.snmp_version
    }
}

/// The name of a protocol behind an option.
pub open spec fn name_view(name: Option<String>) -> Option<Seq<char>> {
    match name {
        Some(n) => Some(n@),
        None => None,
    }
}

/// The credentials as the verbose output shows them: of a v3 request the
/// user name and the names of the protocols, else the community.
pub fn security_info(common: &CommonArgs, v3: &V3Args) -> (r: SecurityInfo)
    ensures
        match v3.username {
            Some(user) => r matches SecurityInfo::V3 { username, auth_protocol, priv_protocol }
                && username@ == user@ && name_view(auth_protocol) == (match v3.auth_protocol {
                Some(p) => Some(p.spec_name()),
                None => None,
            }) && name_view(priv_protocol) == (match v3.priv_protocol {
                Some(p) => Some(p.spec_name()),
                None => None,
            }),
            None => r matches SecurityInfo::Community(c) && c@ == common.community@,
        },
{
    match &v3.username {
        Some(user) => {
            let auth_protocol = match v3.auth_protocol {
                Some(p) => Some(p.to_string()),
                None => None,
            };
            let priv_protocol = match v3.priv_protocol {
                Some(p) => Some(p.to_string()),
                None => None,
            };
            SecurityInfo::V3 { username: user.clone(), auth_protocol, priv_protocol }
        },
        None => SecurityInfo::Community(common.community.clone()),
    }
}

} // verus!
