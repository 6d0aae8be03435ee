//! SNMP protocol version.

use vstd::prelude::*;

verus! {

/// SNMP protocol version.
#[derive(Debug, Clone, Copy, PartialEq, Eq, Hash, Structural)]
#[non_exhaustive]
pub enum Version {
    /// SNMPv1 (RFC 1157)
    V1,
    /// SNMPv2c (RFC 1901)
    V2c,
    /// SNMPv3 (RFC 3411-3418)
    V3,
}

impl Version {
    /// The number that stands for this version on the wire.
    pub open spec fn wire_value(self) -> int {
        match self {
            Version::V1 => 0,
            Version::V2c => 1,
            Version::V3 => 3,
        }
    }

    /// Get the BER-encoded version number.
    pub fn as_i32(self) -> (r: i32)
        ensures
            r == self.wire_value(),
    {
        match self {
            Version::V1 => 0,
            Version::V2c => 1,
            Version::V3 => 3,
        }
    }

    /// Create from BER-encoded version number.
    pub fn from_i32(value: i32) -> (r: Option<Version>)
        ensures
            match r {
                Some(v) => v.wire_value() == value,
                None => value != 0 && value != 1 && value != 3,
            },
    {
        if value == 0 {
            Some(Version::V1)
        } else if value == 1 {
            Some(Version::V2c)
        } else if value == 3 {
            Some(Version::V3)
        } else {
            None
        }
    }

    /// The short label of the version.
    pub open spec fn spec_label(self) -> Seq<char> {
        match self {
            Version::V1 => "V1"@,
            Version::V2c => "V2c"@,
            Version::V3 => "V3"@,
        }
    }

    /// The short label of the version.
    pub fn label(self) -> (r: &'static str)
        ensures
            r@ == self.spec_label(),
    {
        match self {
            Version::V1 => "V1",
            Version::V2c => "V2c",
            Version::V3 => "V3",
        }
    }

    /// The name of the version.
    pub open spec fn spec_name(self) -> Seq<char> {
        match self {
            Version::V1 => "SNMPv1"@,
            Version::V2c => "SNMPv2c"@,
            Version::V3 => "SNMPv3"@,
        }
    }

    /// The name of the version, as a string.
    pub fn to_string(&self) -> (r: String)
        ensures
            r@ == self.spec_name(),
    {
        String::from_str(self.name())
    }

    /// The name of the version, as it is printed.
    pub fn name(self) -> (r: &'static str)
        ensures
            r@ == self.spec_name(),
    {
        match self {
            Version::V1 => "SNMPv1",
            Version::V2c => "SNMPv2c",
            Version::V3 => "SNMPv3",
        }
    }
}

impl Default for Version {
    fn default() -> (r: Version)
        ensures
            r == Version::V2c,
    {
        Version::V2c
    }
}

} // verus!
