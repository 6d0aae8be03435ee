//! Well-known OID name hints.
//!
//! A small table of common OID names for display purposes. This is not MIB
//! support: just friendly names for common system OIDs.

use vstd::prelude::*;

use crate::error::{Error, OidErrorKind};
use crate::oid::{parse_dotted, Oid};
use crate::text::{eq_ignore_ascii_case, upper};

verus! {

/// The number of well-known OIDs.
pub const WELL_KNOWN_COUNT: usize = 12;

/// The arcs of the well-known OID at position `k` of the table.
pub open spec fn well_known_arcs(k: int) -> Seq<u32> {
    if k == 0 {
        seq![1u32, 3, 6, 1, 2, 1, 1, 1, 0]
    } else if k == 1 {
        seq![1u32, 3, 6, 1, 2, 1, 1, 2, 0]
    } else if k == 2 {
        seq![1u32, 3, 6, 1, 2, 1, 1, 3, 0]
    } else if k == 3 {
        seq![1u32, 3, 6, 1, 2, 1, 1, 4, 0]
    } else if k == 4 {
        seq![1u32, 3, 6, 1, 2, 1, 1, 5, 0]
    } else if k == 5 {
        seq![1u32, 3, 6, 1, 2, 1, 1, 6, 0]
    } else if k == 6 {
        seq![1u32, 3, 6, 1, 2, 1, 1, 7, 0]
    } else if k == 7 {
        seq![1u32, 3, 6, 1, 2, 1, 2, 1, 0]
    } else if k == 8 {
        seq![1u32, 3, 6, 1, 2, 1, 1]
    } else if k == 9 {
        seq![1u32, 3, 6, 1, 2, 1, 2]
    } else if k == 10 {
        seq![1u32, 3, 6, 1, 2, 1, 2, 2]
    } else {
        seq![1u32, 3, 6, 1, 2, 1, 2, 2, 1]
    }
}

/// The name of the well-known OID at position `k` of the table.
pub open spec fn well_known_name(k: int) -> Seq<char> {
    if k == 0 {
        "sysDescr.0"@
    } else if k == 1 {
        "sysObjectID.0"@
    } else if k == 2 {
        "sysUpTime.0"@
    } else if k == 3 {
        "sysContact.0"@
    } else if k == 4 {
        "sysName.0"@
    } else if k == 5 {
        "sysLocation.0"@
    } else if k == 6 {
        "sysServices.0"@
    } else if k == 7 {
        "ifNumber.0"@
    } else if k == 8 {
        "system"@
    } else if k == 9 {
        "interfaces"@
    } else if k == 10 {
        "ifTable"@
    } else {
        "ifEntry"@
    }
}

/// The name of the first entry of the table with the given arcs, from
/// position `k` on.
pub open spec fn hint_from(arcs: Seq<u32>, k: int) -> Option<Seq<char>>
    decreases WELL_KNOWN_COUNT - k,
{
    if k < 0 || k >= WELL_KNOWN_COUNT {
        None
    } else if well_known_arcs(k) == arcs {
        Some(well_known_name(k))
    } else {
        hint_from(arcs, k + 1)
    }
}

/// The friendly name of an OID, if the table has one.
pub open spec fn hint_of(arcs: Seq<u32>) -> Option<Seq<char>> {
    hint_from(arcs, 0)
}

/// The entry at position `k` of the table.
fn well_known(k: usize) -> (r: (Oid, &'static str))
    requires
        k < WELL_KNOWN_COUNT,
    ensures
        r.0@ == well_known_arcs(k as int),
        r.1@ == well_known_name(k as int),
{
    let system: [u32; 7] = [1, 3, 6, 1, 2, 1, 1];
    let interfaces: [u32; 7] = [1, 3, 6, 1, 2, 1, 2];
    let (oid, name) = if k < 7 {
        let leaf: [u32; 9] = [1, 3, 6, 1, 2, 1, 1, (k + 1) as u32, 0];
        let name = if k == 0 {
            "sysDescr.0"
        } else if k == 1 {
            "sysObjectID.0"
        } else if k == 2 {
            "sysUpTime.0"
        } else if k == 3 {
            "sysContact.0"
        } else if k == 4 {
            "sysName.0"
        } else if k == 5 {
            "sysLocation.0"
        } else {
            "sysServices.0"
        };
        (Oid::from_slice(leaf.as_slice()), name)
    } else if k == 7 {
        let leaf: [u32; 9] = [1, 3, 6, 1, 2, 1, 2, 1, 0];
        (Oid::from_slice(leaf.as_slice()), "ifNumber.0")
    } else if k == 8 {
        (Oid::from_slice(system.as_slice()), "system")
    } else if k == 9 {
        (Oid::from_slice(interfaces.as_slice()), "interfaces")
    } else if k == 10 {
        let table: [u32; 8] = [1, 3, 6, 1, 2, 1, 2, 2];
        (Oid::from_slice(table.as_slice()), "ifTable")
    } else {
        let entry: [u32; 9] = [1, 3, 6, 1, 2, 1, 2, 2, 1];
        (Oid::from_slice(entry.as_slice()), "ifEntry")
    };
    proof {
        assert(oid@ =~= well_known_arcs(k as int));
    }
    (oid, name)
}

/// Look up a friendly name for an OID: the name of the first entry of the
/// table with the arcs of the OID. Returns `None` if the OID is not in the
/// table.
pub fn lookup(oid: &Oid) -> (r: Option<&'static str>)
    ensures
        match r {
            Some(name) => hint_of(oid@) == Some(name@),
            None => hint_of(oid@) is None,
        },
{
    let mut k: usize = 0;
    while k < WELL_KNOWN_COUNT
        invariant
            k <= WELL_KNOWN_COUNT,
            hint_of(oid@) == hint_from(oid@, k as int),
        decreases WELL_KNOWN_COUNT - k,
    {
        let (known, name) = well_known(k);
        if known.equals(oid) {
            return Some(name);
        }
        k += 1;
    }
    None
}

/// The arcs of the first entry of the table, from position `k` on, whose
/// name is the text, whatever the case of its letters.
pub open spec fn known_name_from(s: Seq<char>, k: int) -> Option<Seq<u32>>
    decreases WELL_KNOWN_COUNT - k,
{
    if k < 0 || k >= WELL_KNOWN_COUNT {
        None
    } else if upper(well_known_name(k)) == upper(s) {
        Some(well_known_arcs(k))
    } else {
        known_name_from(s, k + 1)
    }
}

/// The arcs that a text names: the arcs of dotted notation where the text
/// starts with a digit, else the arcs of the well-known name that the text
/// is, whatever the case of its letters.
pub open spec fn named_arcs(s: Seq<char>) -> Option<Seq<u32>> {
    if s.len() > 0 && '0' <= s[0] && s[0] <= '9' {
        parse_dotted(s)
    } else {
        known_name_from(s, 0)
    }
}

/// The message for a text that is no OID.
pub open spec fn no_oid_message(s: Seq<char>) -> Seq<char> {
    if s.len() > 0 && '0' <= s[0] && s[0] <= '9' {
        "invalid OID '"@ + s + "': invalid OID: "@ + (OidErrorKind::InvalidArc).message()
    } else {
        "unknown OID name '"@ + s + "'; use dotted notation (e.g., 1.3.6.1.2.1.1.1.0)"@
    }
}

/// Parse an OID from string, supporting both dotted notation and well-known
/// names.
///
/// Accepts:
/// - Dotted notation: "1.3.6.1.2.1.1.1.0"
/// - Well-known names: "sysDescr.0", "system", "ifTable"
pub fn parse_oid(s: &str) -> (r: Result<Oid, String>)
    ensures
        match r {
            Ok(oid) => named_arcs(s@) == Some(oid@),
            Err(message) => named_arcs(s@) is None && message@ == no_oid_message(s@),
        },
{
    let n = s.unicode_len();
    if n > 0 {
        let first = s.get_char(0);
        if first >= '0' && first <= '9' {
            return match Oid::parse(s) {
                Ok(oid) => Ok(oid),
                Err(e) => {
                    let kind = match e {
                        Error::InvalidOid { kind, .. } => kind,
                        _ => OidErrorKind::InvalidArc,
                    };
                    let mut message = String::from_str("invalid OID '");
                    message.append(s);
                    message.append("': invalid OID: ");
                    let detail = kind.to_string();
                    message.append(detail.as_str());
                    Err(message)
                },
            };
        }
    }
    let mut k: usize = 0;
    while k < WELL_KNOWN_COUNT
        invariant
            k <= WELL_KNOWN_COUNT,
            !(s@.len() > 0 && '0' <= s@[0] && s@[0] <= '9'),
            known_name_from(s@, 0) == known_name_from(s@, k as int),
        decreases WELL_KNOWN_COUNT - k,
    {
        let (known, name) = well_known(k);
        if eq_ignore_ascii_case(name, s) {
            return Ok(known);
        }
        k += 1;
    }
    let mut message = String::from_str("unknown OID name '");
    message.append(s);
    message.append("'; use dotted notation (e.g., 1.3.6.1.2.1.1.1.0)");
    Err(message)
}

} // verus!
