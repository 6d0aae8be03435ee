//! Text forms of values for command-line tools.

use vstd::prelude::*;

use super::hints;
use crate::oid::{dotted, Oid};
use crate::text::{
    decimal, decimal_digit, hex_pair_upper, hex_text, push_decimal, push_hex_upper,
    push_signed_decimal, signed_decimal,
};
use crate::util::encode_hex;
use crate::addr::SocketAddress;
use crate::value::{ip_text, Value, ValueView};
use crate::varbind::{VarBind, VarBindView};
use crate::version::Version;

verus! {

/// The operation of a tool.
#[derive(Debug, Clone, Copy, PartialEq, Eq, Structural)]
pub enum OperationType {
    Get,
    GetNext,
    GetBulk { non_repeaters: i32, max_repetitions: i32 },
    SetValues,
    Walk,
    BulkWalk { max_repetitions: i32 },
}

impl OperationType {
    /// The name of the operation.
    pub open spec fn spec_name(self) -> Seq<char> {
        match self {
            OperationType::Get => "GET"@,
            OperationType::GetNext => "GETNEXT"@,
            OperationType::GetBulk { .. } => "GETBULK"@,
            OperationType::SetValues => "SET"@,
            OperationType::Walk => "WALK (GETNEXT)"@,
            OperationType::BulkWalk { .. } => "WALK (GETBULK)"@,
        }
    }

    /// The operation of a walk: GETBULK with the given repetitions, or
    /// GETNEXT where that is asked for or the version is v1, which has no
    /// GETBULK.
    pub fn for_walk(version: Version, getnext: bool, max_repetitions: i32) -> (r: OperationType)
        ensures
            r == if getnext || version == Version::V1 {
                OperationType::Walk
            } else {
                OperationType::BulkWalk { max_repetitions }
            },
    {
        let v1 = match version {
            Version::V1 => true,
            _ => false,
        };
        if getnext || v1 {
            OperationType::Walk
        } else {
            OperationType::BulkWalk { max_repetitions }
        }
    }

    /// The name of the operation.
    pub fn name(self) -> (r: &'static str)
        ensures
            r@ == self.spec_name(),
    {
        match self {
            OperationType::Get => "GET",
            OperationType::GetNext => "GETNEXT",
            OperationType::GetBulk { .. } => "GETBULK",
            OperationType::SetValues => "SET",
            OperationType::Walk => "WALK (GETNEXT)",
            OperationType::BulkWalk { .. } => "WALK (GETBULK)",
        }
    }
}

/// The credentials that a tool shows.
#[derive(Debug, Clone, PartialEq, Eq)]
pub enum SecurityInfo {
    Community(String),
    V3 { username: String, auth_protocol: Option<String>, priv_protocol: Option<String> },
}

/// The form of the output.
#[derive(Debug, Clone, Copy, PartialEq, Eq, Structural)]
pub enum OutputFormat {
    Human,
    Json,
    Raw,
}

/// Output context for formatting.
#[derive(Debug, Clone, Copy, PartialEq, Eq, Structural)]
pub struct OutputContext {
    pub format: OutputFormat,
    pub show_hints: bool,
    pub force_hex: bool,
    pub show_timing: bool,
}

impl OutputContext {
    /// Create a new output context with default settings: hints are shown,
    /// hexadecimal is not forced, timing is not shown.
    pub fn new(format: OutputFormat) -> (r: OutputContext)
        ensures
            r == (OutputContext { format, show_hints: true, force_hex: false, show_timing: false }),
    {
        OutputContext { format, show_hints: true, force_hex: false, show_timing: false }
    }
}

/// Whether an octet is a graphic ASCII character or ASCII white space.
pub open spec fn printable_octet(b: u8) -> bool {
    (0x20 <= b <= 0x7E) || b == 0x09 || b == 0x0A || b == 0x0C || b == 0x0D
}

/// Whether every octet is printable.
pub open spec fn all_printable(bytes: Seq<u8>) -> bool {
    forall|i: int| 0 <= i < bytes.len() ==> printable_octet(#[trigger] bytes[i])
}

/// Check if bytes are printable ASCII.
pub fn is_printable(bytes: &[u8]) -> (r: bool)
    ensures
        r == all_printable(bytes@),
{
    let n = bytes.len();
    let mut i: usize = 0;
    while i < n
        invariant
            i <= n,
            n == bytes@.len(),
            forall|j: int| 0 <= j < i ==> printable_octet(#[trigger] bytes@[j]),
        decreases n - i,
    {
        let b = bytes[i];
        if !((0x20 <= b && b <= 0x7E) || b == 0x09 || b == 0x0A || b == 0x0C || b == 0x0D) {
            return false;
        }
        i += 1;
    }
    true
}

/// Format bytes as hex string (lowercase, no separator).
pub fn hex_string(bytes: &[u8]) -> (r: String)
    ensures
        r@ == hex_text(bytes@),
{
    encode_hex(bytes)
}

/// Each octet as two upper-case hexadecimal digits, with a space between
/// octets.
pub open spec fn spaced_hex(bytes: Seq<u8>) -> Seq<char>
    decreases bytes.len(),
{
    if bytes.len() == 0 {
        Seq::empty()
    } else if bytes.len() == 1 {
        hex_pair_upper(bytes[0])
    } else {
        spaced_hex(bytes.drop_last()) + seq![' '] + hex_pair_upper(bytes.last())
    }
}

/// Format bytes as spaced hex for display.
pub fn format_hex_string(bytes: &[u8]) -> (r: String)
    ensures
        r@ == spaced_hex(bytes@),
{
    let mut out = String::new();
    let n = bytes.len();
    let mut i: usize = 0;
    while i < n
        invariant
            i <= n,
            n == bytes@.len(),
            out@ == spaced_hex(bytes@.subrange(0, i as int)),
        decreases n - i,
    {
        if i > 0 {
            out.push(' ');
        }
        push_hex_upper(&mut out, bytes[i]);
        proof {
            let before = bytes@.subrange(0, i as int);
            let after = bytes@.subrange(0, i + 1);
            assert(after.drop_last() =~= before);
            assert(after.last() == bytes@[i as int]);
            if i == 0 {
                assert(out@ =~= hex_pair_upper(bytes@[0]));
            } else {
                assert(out@ =~= spaced_hex(before) + seq![' '] + hex_pair_upper(bytes@[i as int]));
            }
        }
        i += 1;
    }
    proof {
        assert(bytes@.subrange(0, n as int) =~= bytes@);
    }
    out
}

/// A number below 100 as two decimal digits.
pub open spec fn two_digits(n: int) -> Seq<char> {
    seq![decimal_digit(n / 10), decimal_digit(n % 10)]
}

/// Hundredths of a second as days, hours, minutes, seconds and hundredths:
/// `1d 10:17:36.78`, without the days where there are none.
pub open spec fn timeticks_text(centiseconds: u32) -> Seq<char> {
    let total = centiseconds as int / 100;
    let clock = two_digits(total % 86400 / 3600) + seq![':'] + two_digits(total % 3600 / 60) + seq![
        ':',
    ] + two_digits(total % 60) + seq!['.'] + two_digits(centiseconds as int % 100);
    if total / 86400 > 0 {
        decimal((total / 86400) as nat) + seq!['d', ' '] + clock
    } else {
        clock
    }
}

/// Appends a number below 100 as two decimal digits.
fn push_two_digits(out: &mut String, n: u32)
    requires
        n < 100,
    ensures
        final(out)@ == old(out)@ + two_digits(n as int),
{
    out.push((48 + (n / 10) as u8) as char);
    out.push((48 + (n % 10) as u8) as char);
    proof {
        assert(final(out)@ =~= old(out)@ + two_digits(n as int));
    }
}

/// Format TimeTicks as human-readable duration.
pub fn format_timeticks(centiseconds: u32) -> (r: String)
    ensures
        r@ == timeticks_text(centiseconds),
{
    let total_seconds = centiseconds / 100;
    let cs = centiseconds % 100;
    let days = total_seconds / 86400;
    let hours = (total_seconds % 86400) / 3600;
    let minutes = (total_seconds % 3600) / 60;
    let seconds = total_seconds % 60;
    let mut out = String::new();
    if days > 0 {
        push_decimal(&mut out, days as u64);
        out.push('d');
        out.push(' ');
    }
    let ghost head = out@;
    push_two_digits(&mut out, hours);
    out.push(':');
    push_two_digits(&mut out, minutes);
    out.push(':');
    push_two_digits(&mut out, seconds);
    out.push('.');
    push_two_digits(&mut out, cs);
    proof {
        if days > 0 {
            assert(head =~= decimal(days as nat) + seq!['d', ' ']);
        } else {
            assert(head =~= Seq::<char>::empty());
        }
        assert(out@ =~= timeticks_text(centiseconds));
    }
    out
}

/// Format an OID in dotted notation.
pub fn format_oid(oid: &Oid) -> (r: String)
    ensures
        r@ == dotted(oid@),
{
    oid.to_string()
}

/// The octets of printable text as characters.
pub open spec fn ascii_text(bytes: Seq<u8>) -> Seq<char> {
    Seq::new(bytes.len(), |i: int| bytes[i] as char)
}

/// What the verbose output shows of a value.
pub struct VerboseValue {
    /// The name of the type.
    pub type_label: String,
    /// The value as text.
    pub decoded: String,
    /// The octets in hexadecimal, for the types that hold octets.
    pub raw_hex: Option<String>,
    /// The number of octets, for the types that hold octets.
    pub size: Option<usize>,
}

/// What a string behind an option is.
pub open spec fn text_view(s: Option<String>) -> Option<Seq<char>> {
    match s {
        Some(t) => Some(t@),
        None => None,
    }
}

/// The name of the type of a value in the verbose output.
pub open spec fn verbose_type(v: ValueView) -> Seq<char> {
    match v {
        ValueView::Integer(_) => "INTEGER"@,
        ValueView::OctetString(b) => if all_printable(b) {
            "STRING"@
        } else {
            "Hex-STRING"@
        },
        ValueView::Null => "NULL"@,
        ValueView::ObjectIdentifier(_) => "OID"@,
        ValueView::IpAddress(_) => "IpAddress"@,
        ValueView::Counter32(_) => "Counter32"@,
        ValueView::Gauge32(_) => "Gauge32"@,
        ValueView::TimeTicks(_) => "TimeTicks"@,
        ValueView::Opaque(_) => "Opaque"@,
        ValueView::Counter64(_) => "Counter64"@,
        ValueView::NoSuchObject => "NoSuchObject"@,
        ValueView::NoSuchInstance => "NoSuchInstance"@,
        ValueView::EndOfMibView => "EndOfMibView"@,
        ValueView::Unknown { tag, data } => "Unknown(0x"@ + hex_pair_upper(tag) + ")"@,
    }
}

/// The text of a value in the verbose output. An OID with a friendly name
/// is followed by the name in brackets.
pub open spec fn verbose_text(v: ValueView) -> Seq<char> {
    match v {
        ValueView::Integer(i) => signed_decimal(i as int),
        ValueView::OctetString(b) => if all_printable(b) {
            seq!['"'] + ascii_text(b) + seq!['"']
        } else {
            spaced_hex(b)
        },
        ValueView::Null => "(null)"@,
        ValueView::ObjectIdentifier(arcs) => match hints::hint_of(arcs) {
            Some(h) => dotted(arcs) + seq![' ', '('] + h + seq![')'],
            None => dotted(arcs),
        },
        ValueView::IpAddress(a) => ip_text(a),
        ValueView::Counter32(n) => decimal(n as nat),
        ValueView::Gauge32(n) => decimal(n as nat),
        ValueView::TimeTicks(n) => decimal(n as nat) + seq![' ', '('] + timeticks_text(n) + seq![')'],
        ValueView::Opaque(b) => spaced_hex(b),
        ValueView::Counter64(n) => decimal(n as nat),
        ValueView::NoSuchObject => "No Such Object available"@,
        ValueView::NoSuchInstance => "No Such Instance currently exists"@,
        ValueView::EndOfMibView => "No more variables left in this MIB View"@,
        ValueView::Unknown { tag, data } => spaced_hex(data),
    }
}

/// The octets that the verbose output shows in hexadecimal and counts: those
/// of an OCTET STRING, an Opaque and an unknown value.
pub open spec fn verbose_octets(v: ValueView) -> Option<Seq<u8>> {
    match v {
        ValueView::OctetString(b) => Some(b),
        ValueView::Opaque(b) => Some(b),
        ValueView::Unknown { tag, data } => Some(data),
        _ => None,
    }
}

/// Format a value for verbose output: the name of its type, its text, and
/// for octets their hexadecimal form and their number.
pub fn format_verbose_value(value: &Value) -> (r: VerboseValue)
    ensures
        r.type_label@ == verbose_type(value@),
        r.decoded@ == verbose_text(value@),
        match verbose_octets(value@) {
            Some(b) => text_view(r.raw_hex) == Some(spaced_hex(b)) && r.size == Some(b.len() as usize)
                && b.len() <= usize::MAX,
            None => r.raw_hex is None && r.size is None,
        },
{
    match value {
        Value::Integer(v) => {
            let mut decoded = String::new();
            push_signed_decimal(&mut decoded, *v as i64);
            proof {
                assert(decoded@ =~= verbose_text(value@));
            }
            VerboseValue { type_label: String::from_str("INTEGER"), decoded, raw_hex: None, size: None }
        },
        Value::OctetString(bytes) => {
            let raw_hex = format_hex_string(bytes.as_slice());
            let size = Some(bytes.len());
            if is_printable(bytes.as_slice()) {
                let mut decoded = String::new();
                decoded.push('"');
                let n = bytes.len();
                let mut i: usize = 0;
                while i < n
                    invariant
                        i <= n,
                        n == bytes@.len(),
                        decoded@ == seq!['"'] + ascii_text(bytes@.subrange(0, i as int)),
                    decreases n - i,
                {
                    decoded.push(bytes[i] as char);
                    proof {
                        assert(decoded@ =~= seq!['"'] + ascii_text(bytes@.subrange(0, i + 1)));
                    }
                    i += 1;
                }
                decoded.push('"');
                proof {
                    assert(bytes@.subrange(0, n as int) =~= bytes@);
                    assert(decoded@ =~= verbose_text(value@));
                }
                VerboseValue {
                    type_label: String::from_str("STRING"),
                    decoded,
                    raw_hex: Some(raw_hex),
                    size,
                }
            } else {
                let decoded = raw_hex.clone();
                VerboseValue {
                    type_label: String::from_str("Hex-STRING"),
                    decoded,
                    raw_hex: Some(raw_hex),
                    size,
                }
            }
        },
        Value::Null => {
            let decoded = String::from_str("(null)");
            VerboseValue { type_label: String::from_str("NULL"), decoded, raw_hex: None, size: None }
        },
        Value::ObjectIdentifier(oid) => {
            let mut decoded = format_oid(oid);
            let hint = hints::lookup(oid);
            match hint {
                Some(h) => {
                    decoded.push(' ');
                    decoded.push('(');
                    decoded.append(h);
                    decoded.push(')');
                },
                None => {},
            }
            proof {
                assert(decoded@ =~= verbose_text(value@));
            }
            VerboseValue { type_label: String::from_str("OID"), decoded, raw_hex: None, size: None }
        },
        Value::IpAddress(a) => {
            let mut decoded = String::new();
            push_decimal(&mut decoded, a[0] as u64);
            decoded.push('.');
            push_decimal(&mut decoded, a[1] as u64);
            decoded.push('.');
            push_decimal(&mut decoded, a[2] as u64);
            decoded.push('.');
            push_decimal(&mut decoded, a[3] as u64);
            proof {
                assert(decoded@ =~= ip_text(a@));
            }
            VerboseValue {
                type_label: String::from_str("IpAddress"),
                decoded,
                raw_hex: None,
                size: None,
            }
        },
        Value::Counter32(v) => {
            let mut decoded = String::new();
            push_decimal(&mut decoded, *v as u64);
            proof {
                assert(decoded@ =~= verbose_text(value@));
            }
            VerboseValue {
                type_label: String::from_str("Counter32"),
                decoded,
                raw_hex: None,
                size: None,
            }
        },
        Value::Gauge32(v) => {
            let mut decoded = String::new();
            push_decimal(&mut decoded, *v as u64);
            proof {
                assert(decoded@ =~= verbose_text(value@));
            }
            VerboseValue { type_label: String::from_str("Gauge32"), decoded, raw_hex: None, size: None }
        },
        Value::TimeTicks(v) => {
            let mut decoded = String::new();
            push_decimal(&mut decoded, *v as u64);
            decoded.push(' ');
            decoded.push('(');
            let formatted = format_timeticks(*v);
            decoded.append(formatted.as_str());
            decoded.push(')');
            proof {
                assert(decoded@ =~= verbose_text(value@));
            }
            VerboseValue {
                type_label: String::from_str("TimeTicks"),
                decoded,
                raw_hex: None,
                size: None,
            }
        },
        Value::Opaque(bytes) => {
            let raw_hex = format_hex_string(bytes.as_slice());
            let decoded = raw_hex.clone();
            VerboseValue {
                type_label: String::from_str("Opaque"),
                decoded,
                raw_hex: Some(raw_hex),
                size: Some(bytes.len()),
            }
        },
        Value::Counter64(v) => {
            let mut decoded = String::new();
            push_decimal(&mut decoded, *v);
            proof {
                assert(decoded@ =~= verbose_text(value@));
            }
            VerboseValue {
                type_label: String::from_str("Counter64"),
                decoded,
                raw_hex: None,
                size: None,
            }
        },
        Value::NoSuchObject => {
            let decoded = String::from_str("No Such Object available");
            VerboseValue {
                type_label: String::from_str("NoSuchObject"),
                decoded,
                raw_hex: None,
                size: None,
            }
        },
        Value::NoSuchInstance => {
            let decoded = String::from_str("No Such Instance currently exists");
            VerboseValue {
                type_label: String::from_str("NoSuchInstance"),
                decoded,
                raw_hex: None,
                size: None,
            }
        },
        Value::EndOfMibView => {
            let decoded = String::from_str("No more variables left in this MIB View");
            VerboseValue {
                type_label: String::from_str("EndOfMibView"),
                decoded,
                raw_hex: None,
                size: None,
            }
        },
        Value::Unknown { tag, data } => {
            let raw_hex = format_hex_string(data.as_slice());
            let decoded = raw_hex.clone();
            let mut type_label = String::from_str("Unknown(0x");
            push_hex_upper(&mut type_label, *tag);
            type_label.append(")");
            VerboseValue { type_label, decoded, raw_hex: Some(raw_hex), size: Some(data.len()) }
        },
    }
}

/// The octets as text, one character for each octet.
pub fn ascii_string(bytes: &[u8]) -> (r: String)
    ensures
        r@ == ascii_text(bytes@),
{
    let mut out = String::new();
    let n = bytes.len();
    let mut i: usize = 0;
    while i < n
        invariant
            i <= n,
            n == bytes@.len(),
            out@ == ascii_text(bytes@.subrange(0, i as int)),
        decreases n - i,
    {
        out.push(bytes[i] as char);
        proof {
            assert(out@ =~= ascii_text(bytes@.subrange(0, i + 1)));
        }
        i += 1;
    }
    proof {
        assert(bytes@.subrange(0, n as int) =~= bytes@);
    }
    out
}

// ---------------------------------------------------------------------------
// Results
// ---------------------------------------------------------------------------

/// A value as the JSON output holds it.
#[derive(Debug, Clone, PartialEq, Eq)]
pub enum JsonValue {
    /// No value.
    Null,
    /// A signed number.
    Signed(i64),
    /// An unsigned number.
    Unsigned(u64),
    /// A string.
    Text(String),
}

/// What a JSON value is.
pub enum JsonView {
    Null,
    Number(int),
    Text(Seq<char>),
}

impl View for JsonValue {
    type V = JsonView;

    open spec fn view(&self) -> JsonView {
        match *self {
            JsonValue::Null => JsonView::Null,
            JsonValue::Signed(n) => JsonView::Number(n as int),
            JsonValue::Unsigned(n) => JsonView::Number(n as int),
            JsonValue::Text(s) => JsonView::Text(s@),
        }
    }
}

/// Whether an OCTET STRING is shown in hexadecimal: when that is forced, or
/// when an octet is not printable.
pub open spec fn shown_as_hex(b: Seq<u8>, force_hex: bool) -> bool {
    force_hex || !all_printable(b)
}

/// The name of the type of a value in a result.
pub open spec fn result_type(v: ValueView, force_hex: bool) -> Seq<char> {
    match v {
        ValueView::OctetString(b) => if shown_as_hex(b, force_hex) {
            "Hex-STRING"@
        } else {
            "STRING"@
        },
        _ => verbose_type(v),
    }
}

/// The JSON value of a value in a result: numbers as numbers; octets in
/// hexadecimal, or as text where an OCTET STRING is printable; an OID and an
/// IP address as text; nothing for NULL and the exceptions.
pub open spec fn result_json(v: ValueView, force_hex: bool) -> JsonView {
    match v {
        ValueView::Integer(i) => JsonView::Number(i as int),
        ValueView::OctetString(b) => if shown_as_hex(b, force_hex) {
            JsonView::Text(hex_text(b))
        } else {
            JsonView::Text(ascii_text(b))
        },
        ValueView::Null => JsonView::Null,
        ValueView::ObjectIdentifier(arcs) => JsonView::Text(dotted(arcs)),
        ValueView::IpAddress(a) => JsonView::Text(ip_text(a)),
        ValueView::Counter32(n) => JsonView::Number(n as int),
        ValueView::Gauge32(n) => JsonView::Number(n as int),
        ValueView::TimeTicks(n) => JsonView::Number(n as int),
        ValueView::Opaque(b) => JsonView::Text(hex_text(b)),
        ValueView::Counter64(n) => JsonView::Number(n as int),
        ValueView::NoSuchObject => JsonView::Null,
        ValueView::NoSuchInstance => JsonView::Null,
        ValueView::EndOfMibView => JsonView::Null,
        ValueView::Unknown { tag, data } => JsonView::Text(hex_text(data)),
    }
}

/// The text that a result shows in place of the JSON value, for the values
/// that have one.
pub open spec fn result_formatted(v: ValueView, force_hex: bool) -> Option<Seq<char>> {
    match v {
        ValueView::OctetString(b) => if shown_as_hex(b, force_hex) {
            Some(spaced_hex(b))
        } else {
            None
        },
        ValueView::TimeTicks(n) => Some(
            seq!['('] + decimal(n as nat) + seq![')', ' '] + timeticks_text(n),
        ),
        ValueView::Opaque(b) => Some(spaced_hex(b)),
        ValueView::NoSuchObject => Some("No Such Object available"@),
        ValueView::NoSuchInstance => Some("No Such Instance currently exists"@),
        ValueView::EndOfMibView => Some("No more variables left in this MIB View"@),
        ValueView::Unknown { tag, data } => Some(spaced_hex(data)),
        _ => None,
    }
}

/// The octets of a value in hexadecimal, for the types that hold octets.
pub open spec fn result_raw_hex(v: ValueView) -> Option<Seq<char>> {
    match verbose_octets(v) {
        Some(b) => Some(hex_text(b)),
        None => None,
    }
}

/// Format a value: the name of its type, its JSON value, the text that is
/// shown in its place, and its octets in hexadecimal.
pub fn format_value(value: &Value, force_hex: bool) -> (r: (
    String,
    JsonValue,
    Option<String>,
    Option<String>,
))
    ensures
        r.0@ == result_type(value@, force_hex),
        r.1@ == result_json(value@, force_hex),
        text_view(r.2) == result_formatted(value@, force_hex),
        text_view(r.3) == result_raw_hex(value@),
{
    match value {
        Value::Integer(v) => (String::from_str("INTEGER"), JsonValue::Signed(*v as i64), None, None),
        Value::OctetString(bytes) => {
            let raw_hex = hex_string(bytes.as_slice());
            if force_hex || !is_printable(bytes.as_slice()) {
                let formatted = format_hex_string(bytes.as_slice());
                (
                    String::from_str("Hex-STRING"),
                    JsonValue::Text(raw_hex.clone()),
                    Some(formatted),
                    Some(raw_hex),
                )
            } else {
                let text = ascii_string(bytes.as_slice());
                (String::from_str("STRING"), JsonValue::Text(text), None, Some(raw_hex))
            }
        },
        Value::Null => (String::from_str("NULL"), JsonValue::Null, None, None),
        Value::ObjectIdentifier(oid) => (
            String::from_str("OID"),
            JsonValue::Text(format_oid(oid)),
            None,
            None,
        ),
        Value::IpAddress(a) => {
            let mut text = String::new();
            push_decimal(&mut text, a[0] as u64);
            text.push('.');
            push_decimal(&mut text, a[1] as u64);
            text.push('.');
            push_decimal(&mut text, a[2] as u64);
            text.push('.');
            push_decimal(&mut text, a[3] as u64);
            proof {
                assert(text@ =~= ip_text(a@));
            }
            (String::from_str("IpAddress"), JsonValue::Text(text), None, None)
        },
        Value::Counter32(v) => (
            String::from_str("Counter32"),
            JsonValue::Unsigned(*v as u64),
            None,
            None,
        ),
        Value::Gauge32(v) => (String::from_str("Gauge32"), JsonValue::Unsigned(*v as u64), None, None),
        Value::TimeTicks(v) => {
            let mut formatted = String::new();
            formatted.push('(');
            push_decimal(&mut formatted, *v as u64);
            formatted.push(')');
            formatted.push(' ');
            let ticks = format_timeticks(*v);
            formatted.append(ticks.as_str());
            proof {
                assert(formatted@ =~= seq!['('] + decimal(*v as nat) + seq![')', ' ']
                    + timeticks_text(*v));
            }
            (String::from_str("TimeTicks"), JsonValue::Unsigned(*v as u64), Some(formatted), None)
        },
        Value::Opaque(bytes) => {
            let hex = hex_string(bytes.as_slice());
            (
                String::from_str("Opaque"),
                JsonValue::Text(hex.clone()),
                Some(format_hex_string(bytes.as_slice())),
                Some(hex),
            )
        },
        Value::Counter64(v) => (String::from_str("Counter64"), JsonValue::Unsigned(*v), None, None),
        Value::NoSuchObject => (
            String::from_str("NoSuchObject"),
            JsonValue::Null,
            Some(String::from_str("No Such Object available")),
            None,
        ),
        Value::NoSuchInstance => (
            String::from_str("NoSuchInstance"),
            JsonValue::Null,
            Some(String::from_str("No Such Instance currently exists")),
            None,
        ),
        Value::EndOfMibView => (
            String::from_str("EndOfMibView"),
            JsonValue::Null,
            Some(String::from_str("No more variables left in this MIB View")),
            None,
        ),
        Value::Unknown { tag, data } => {
            let hex = hex_string(data.as_slice());
            let mut type_label = String::from_str("Unknown(0x");
            push_hex_upper(&mut type_label, *tag);
            type_label.append(")");
            (
                type_label,
                JsonValue::Text(hex.clone()),
                Some(format_hex_string(data.as_slice())),
                Some(hex),
            )
        },
    }
}

/// A single binding of a result.
#[derive(Debug, Clone, PartialEq, Eq)]
pub struct VarBindResult {
    /// The OID in dotted notation.
    pub oid: String,
    /// The friendly name of the OID.
    pub hint: Option<String>,
    /// The name of the type of the value.
    pub value_type: String,
    /// The value.
    pub value: JsonValue,
    /// The text that is shown in place of the value.
    pub formatted: Option<String>,
    /// The octets of the value in hexadecimal.
    pub raw_hex: Option<String>,
}

/// What a binding of a result is.
pub struct VarBindResultView {
    pub oid: Seq<char>,
    pub hint: Option<Seq<char>>,
    pub value_type: Seq<char>,
    pub value: JsonView,
    pub formatted: Option<Seq<char>>,
    pub raw_hex: Option<Seq<char>>,
}

impl View for VarBindResult {
    type V = VarBindResultView;

    open spec fn view(&self) -> VarBindResultView {
        VarBindResultView {
            oid: self.oid@,
            hint: text_view(self.hint),
            value_type: self.value_type@,
            value: self.value@,
            formatted: text_view(self.formatted),
            raw_hex: text_view(self.raw_hex),
        }
    }
}

/// The result of an operation, ready for output.
#[derive(Debug, Clone, PartialEq, Eq)]
pub struct OperationResult {
    /// The address of the peer.
    pub target: String,
    /// The version of the protocol.
    pub version: String,
    /// The bindings.
    pub results: Vec<VarBindResult>,
    /// The time that the operation took, in microseconds.
    pub elapsed_us: Option<u64>,
    /// The number of retries.
    pub retries: Option<u32>,
}

/// The result for a binding under a context: the friendly name is looked up
/// only where hints are shown.
pub open spec fn varbind_result(context: OutputContext, vb: VarBindView) -> VarBindResultView {
    VarBindResultView {
        oid: dotted(vb.oid),
        hint: if context.show_hints {
            hints::hint_of(vb.oid)
        } else {
            None
        },
        value_type: result_type(vb.value, context.force_hex),
        value: result_json(vb.value, context.force_hex),
        formatted: result_formatted(vb.value, context.force_hex),
        raw_hex: result_raw_hex(vb.value),
    }
}

/// A JSON value as the human-readable output shows it: a string in double
/// quotes, nothing for no value, a number in decimal.
pub open spec fn json_shown(v: JsonView) -> Seq<char> {
    match v {
        JsonView::Text(s) => seq!['"'] + s + seq!['"'],
        JsonView::Null => Seq::empty(),
        JsonView::Number(n) => signed_decimal(n),
    }
}

/// A JSON value as the raw output shows it: a string as it is, nothing for
/// no value, a number in decimal.
pub open spec fn json_plain(v: JsonView) -> Seq<char> {
    match v {
        JsonView::Text(s) => s,
        JsonView::Null => Seq::empty(),
        JsonView::Number(n) => signed_decimal(n),
    }
}

/// An OID with its friendly name in brackets, where it has one.
pub open spec fn hinted(oid: Seq<char>, hint: Option<Seq<char>>) -> Seq<char> {
    match hint {
        Some(h) => oid + seq![' ', '('] + h + seq![')'],
        None => oid,
    }
}

/// The line of a binding in the human-readable output: the OID, the type,
/// and the formatted text or else the value.
pub open spec fn human_line(r: VarBindResultView) -> Seq<char> {
    hinted(r.oid, r.hint) + seq![' ', '=', ' '] + r.value_type + seq![':', ' '] + (match r.formatted {
        Some(f) => f,
        None => json_shown(r.value),
    }) + seq!['\n']
}

/// The line of a binding in the raw output: the OID, a tab, the value.
pub open spec fn raw_line(r: VarBindResultView) -> Seq<char> {
    r.oid + seq!['\t'] + json_plain(r.value) + seq!['\n']
}

/// The lines of the bindings, one after the other.
pub open spec fn lines_of(
    results: Seq<VarBindResult>,
    line: spec_fn(VarBindResultView) -> Seq<char>,
) -> Seq<char>
    decreases results.len(),
{
    if results.len() == 0 {
        Seq::empty()
    } else {
        lines_of(results.drop_last(), line) + line(results.last()@)
    }
}

/// Appends a number of either sign.
fn push_json_number(out: &mut String, value: &JsonValue)
    requires
        value@ is Number,
    ensures
        final(out)@ == old(out)@ + signed_decimal(value@->Number_0),
{
    match value {
        JsonValue::Signed(n) => push_signed_decimal(out, *n),
        JsonValue::Unsigned(n) => {
            push_decimal(out, *n);
            proof {
                assert(signed_decimal(*n as int) == decimal(*n as nat));
            }
        },
        _ => {},
    }
}

/// Appends an OID with its friendly name in brackets, where it has one.
fn push_hinted(out: &mut String, oid: &str, hint: Option<&str>)
    ensures
        final(out)@ == old(out)@ + hinted(
            oid@,
            match hint {
                Some(h) => Some(h@),
                None => None,
            },
        ),
{
    out.append(oid);
    match hint {
        Some(h) => {
            out.push(' ');
            out.push('(');
            out.append(h);
            out.push(')');
            proof {
                assert(final(out)@ =~= old(out)@ + (oid@ + seq![' ', '('] + h@ + seq![')']));
            }
        },
        None => {},
    }
}

/// The friendly name behind an option, borrowed.
fn hint_str(hint: &Option<String>) -> (r: Option<&str>)
    ensures
        match r {
            Some(h) => text_view(*hint) == Some(h@),
            None => hint is None,
        },
{
    match hint {
        Some(h) => Some(h.as_str()),
        None => None,
    }
}

impl VarBindResult {
    /// The line of the binding in the human-readable output.
    pub fn human_line(&self) -> (r: String)
        ensures
            r@ == human_line(self@),
    {
        let mut out = String::new();
        push_hinted(&mut out, self.oid.as_str(), hint_str(&self.hint));
        out.append(" = ");
        out.append(self.value_type.as_str());
        out.append(": ");
        proof {
            reveal_strlit(" = ");
            reveal_strlit(": ");
        }
        let ghost head = out@;
        match &self.formatted {
            Some(f) => out.append(f.as_str()),
            None => match &self.value {
                JsonValue::Text(s) => {
                    out.push('"');
                    out.append(s.as_str());
                    out.push('"');
                    proof {
                        assert(out@ =~= head + json_shown(self.value@));
                    }
                },
                JsonValue::Null => {
                    proof {
                        assert(out@ =~= head + json_shown(self.value@));
                    }
                },
                _ => push_json_number(&mut out, &self.value),
            },
        }
        out.push('\n');
        proof {
            assert(head =~= hinted(self@.oid, self@.hint) + seq![' ', '=', ' '] + self@.value_type
                + seq![':', ' ']);
            assert(out@ =~= human_line(self@));
        }
        out
    }

    /// The line of the binding in the raw output.
    pub fn raw_line(&self) -> (r: String)
        ensures
            r@ == raw_line(self@),
    {
        let mut out = String::new();
        out.append(self.oid.as_str());
        out.push('\t');
        let ghost head = out@;
        match &self.value {
            JsonValue::Text(s) => out.append(s.as_str()),
            JsonValue::Null => {
                proof {
                    assert(out@ =~= head + json_plain(self.value@));
                }
            },
            _ => push_json_number(&mut out, &self.value),
        }
        out.push('\n');
        proof {
            assert(out@ =~= raw_line(self@));
        }
        out
    }
}

impl OutputContext {
    /// The result for a binding.
    pub fn format_varbind(&self, vb: &VarBind) -> (r: VarBindResult)
        ensures
            r@ == varbind_result(*self, vb@),
    {
        let oid = format_oid(&vb.oid);
        let hint = if self.show_hints {
            match hints::lookup(&vb.oid) {
                Some(h) => Some(String::from_str(h)),
                None => None,
            }
        } else {
            None
        };
        let (value_type, value, formatted, raw_hex) = format_value(&vb.value, self.force_hex);
        VarBindResult { oid, hint, value_type, value, formatted, raw_hex }
    }

    /// The result of an operation: the peer and the version as text, and the
    /// result for each binding in turn.
    pub fn build_result(
        &self,
        target: SocketAddress,
        version: Version,
        varbinds: &[VarBind],
        elapsed_us: Option<u64>,
        retries: Option<u32>,
    ) -> (r: OperationResult)
        ensures
            r.target@ == target.text(),
            r.version@ == version.spec_label(),
            r.elapsed_us == elapsed_us,
            r.retries == retries,
            r.results@.len() == varbinds@.len(),
            forall|i: int|
                0 <= i < varbinds@.len() ==> (#[trigger] r.results@[i])@ == varbind_result(
                    *self,
                    varbinds@[i]@,
                ),
    {
        let mut results: Vec<VarBindResult> = Vec::new();
        let n = varbinds.len();
        let mut i: usize = 0;
        while i < n
            invariant
                i <= n,
                n == varbinds@.len(),
                results@.len() == i,
                forall|j: int|
                    0 <= j < i ==> (#[trigger] results@[j])@ == varbind_result(*self, varbinds@[j]@),
            decreases n - i,
        {
            results.push(self.format_varbind(&varbinds[i]));
            i += 1;
        }
        OperationResult {
            target: target.to_string(),
            version: String::from_str(version.label()),
            results,
            elapsed_us,
            retries,
        }
    }

    /// The bindings of a result in the human-readable form: one line each.
    pub fn human_text(&self, results: &[VarBindResult]) -> (r: String)
        ensures
            r@ == lines_of(results@, |v: VarBindResultView| human_line(v)),
    {
        let ghost line = |v: VarBindResultView| human_line(v);
        let mut out = String::new();
        let n = results.len();
        let mut i: usize = 0;
        while i < n
            invariant
                i <= n,
                n == results@.len(),
                out@ == lines_of(results@.subrange(0, i as int), line),
                line == (|v: VarBindResultView| human_line(v)),
            decreases n - i,
        {
            let text = results[i].human_line();
            out.append(text.as_str());
            proof {
                let next = results@.subrange(0, i + 1);
                assert(next.drop_last() =~= results@.subrange(0, i as int));
                assert(line(next.last()@) == human_line(results@[i as int]@));
            }
            i += 1;
        }
        proof {
            assert(results@.subrange(0, n as int) =~= results@);
        }
        out
    }

    /// The bindings of a result in the raw form: one line each.
    pub fn raw_text(&self, results: &[VarBindResult]) -> (r: String)
        ensures
            r@ == lines_of(results@, |v: VarBindResultView| raw_line(v)),
    {
        let ghost line = |v: VarBindResultView| raw_line(v);
        let mut out = String::new();
        let n = results.len();
        let mut i: usize = 0;
        while i < n
            invariant
                i <= n,
                n == results@.len(),
                out@ == lines_of(results@.subrange(0, i as int), line),
                line == (|v: VarBindResultView| raw_line(v)),
            decreases n - i,
        {
            let text = results[i].raw_line();
            out.append(text.as_str());
            proof {
                let next = results@.subrange(0, i + 1);
                assert(next.drop_last() =~= results@.subrange(0, i as int));
                assert(line(next.last()@) == raw_line(results@[i as int]@));
            }
            i += 1;
        }
        proof {
            assert(results@.subrange(0, n as int) =~= results@);
        }
        out
    }
}

// ---------------------------------------------------------------------------
// Verbose output
// ---------------------------------------------------------------------------

/// What the verbose output shows of a request.
#[derive(Debug, Clone, PartialEq, Eq)]
pub struct RequestInfo {
    /// The address of the peer.
    pub target: SocketAddress,
    /// The version of the protocol.
    pub version: Version,
    /// The credentials.
    pub security: SecurityInfo,
    /// The operation.
    pub operation: OperationType,
    /// The OIDs of the request.
    pub oids: Vec<Oid>,
}

/// A line with a label and, where there is one, a text; nothing without.
pub open spec fn optional_line(label: Seq<char>, text: Option<Seq<char>>) -> Seq<char> {
    match text {
        Some(t) => label + t + seq!['\n'],
        None => Seq::empty(),
    }
}

/// The lines of a binding in the verbose output: the OID, with its friendly
/// name where hints are shown; the type; the value; and for octets their
/// hexadecimal form and their number.
pub open spec fn verbose_varbind(vb: VarBindView, show_hints: bool) -> Seq<char> {
    "  "@ + hinted(
        dotted(vb.oid),
        if show_hints {
            hints::hint_of(vb.oid)
        } else {
            None
        },
    ) + seq!['\n'] + "    Type:    "@ + verbose_type(vb.value) + seq!['\n'] + "    Value:   "@
        + verbose_text(vb.value) + seq!['\n'] + (match verbose_octets(vb.value) {
        Some(b) => "    Raw:     "@ + spaced_hex(b) + seq!['\n'] + "    Size:    "@ + decimal(b.len())
            + " bytes\n"@,
        None => Seq::empty(),
    })
}

/// The lines of a binding in the verbose output.
pub fn verbose_varbind_text(vb: &VarBind, show_hints: bool) -> (r: String)
    ensures
        r@ == verbose_varbind(vb@, show_hints),
{
    let mut out = String::from_str("  ");
    let oid = format_oid(&vb.oid);
    let hint = if show_hints {
        hints::lookup(&vb.oid)
    } else {
        None
    };
    push_hinted(&mut out, oid.as_str(), hint);
    out.push('\n');
    let shown = format_verbose_value(&vb.value);
    out.append("    Type:    ");
    out.append(shown.type_label.as_str());
    out.push('\n');
    out.append("    Value:   ");
    out.append(shown.decoded.as_str());
    out.push('\n');
    let ghost head = out@;
    match (&shown.raw_hex, shown.size) {
        (Some(hex), Some(size)) => {
            out.append("    Raw:     ");
            out.append(hex.as_str());
            out.push('\n');
            out.append("    Size:    ");
            push_decimal(&mut out, size as u64);
            out.append(" bytes\n");
            proof {
                let b = verbose_octets(vb@.value)->Some_0;
                assert(out@ =~= head + ("    Raw:     "@ + spaced_hex(b) + seq!['\n']
                    + "    Size:    "@ + decimal(b.len()) + " bytes\n"@));
            }
        },
        _ => {
            proof {
                assert(out@ =~= head + Seq::<char>::empty());
            }
        },
    }
    proof {
        assert(head =~= "  "@ + hinted(
            dotted(vb@.oid),
            if show_hints {
                hints::hint_of(vb@.oid)
            } else {
                None
            },
        ) + seq!['\n'] + "    Type:    "@ + verbose_type(vb@.value) + seq!['\n']
            + "    Value:   "@ + verbose_text(vb@.value) + seq!['\n']);
    }
    out
}

/// The lines that show the credentials of a request.
pub open spec fn security_lines(security: SecurityInfo) -> Seq<char> {
    match security {
        SecurityInfo::Community(c) => "Community: "@ + c@ + seq!['\n'],
        SecurityInfo::V3 { username, auth_protocol, priv_protocol } => "Username:  "@ + username@
            + seq!['\n'] + optional_line("Auth:      "@, text_view(auth_protocol)) + optional_line(
            "Privacy:   "@,
            text_view(priv_protocol),
        ),
    }
}

/// The lines that show the parameters of a bulk operation.
pub open spec fn bulk_lines(operation: OperationType) -> Seq<char> {
    match operation {
        OperationType::GetBulk { non_repeaters, max_repetitions } => "  Non-repeaters:    "@
            + signed_decimal(non_repeaters as int) + seq!['\n'] + "  Max-repetitions:  "@
            + signed_decimal(max_repetitions as int) + seq!['\n'],
        OperationType::BulkWalk { max_repetitions } => "  Max-repetitions:  "@ + signed_decimal(
            max_repetitions as int,
        ) + seq!['\n'],
        _ => Seq::empty(),
    }
}

/// One line for each OID, with its friendly name where it has one.
pub open spec fn oid_lines(oids: Seq<Oid>) -> Seq<char>
    decreases oids.len(),
{
    if oids.len() == 0 {
        Seq::empty()
    } else {
        oid_lines(oids.drop_last()) + "  "@ + hinted(
            dotted(oids.last()@),
            hints::hint_of(oids.last()@),
        ) + seq!['\n']
    }
}

/// The header that the verbose output shows for a request.
pub open spec fn verbose_request(info: RequestInfo) -> Seq<char> {
    "--- Request ---\n"@ + "Target:    "@ + info.target.text() + seq!['\n'] + "Version:   "@
        + info.version.spec_label() + seq!['\n'] + security_lines(info.security) + "Operation: "@
        + info.operation.spec_name() + seq!['\n'] + bulk_lines(info.operation) + "OIDs:      "@
        + decimal(info.oids@.len()) + " total\n"@ + oid_lines(info.oids@) + seq!['\n']
}

/// Appends a line with a label and a text, where there is a text.
fn push_optional_line(out: &mut String, label: &str, text: &Option<String>)
    ensures
        final(out)@ == old(out)@ + optional_line(label@, text_view(*text)),
{
    match text {
        Some(t) => {
            out.append(label);
            out.append(t.as_str());
            out.push('\n');
            proof {
                assert(final(out)@ =~= old(out)@ + (label@ + t@ + seq!['\n']));
            }
        },
        None => {
            proof {
                assert(final(out)@ =~= old(out)@ + Seq::<char>::empty());
            }
        },
    }
}

/// Appends the lines that show the credentials of a request.
fn push_security_lines(out: &mut String, security: &SecurityInfo)
    ensures
        final(out)@ == old(out)@ + security_lines(*security),
{
    match security {
        SecurityInfo::Community(c) => {
            out.append("Community: ");
            out.append(c.as_str());
            out.push('\n');
            proof {
                assert(final(out)@ =~= old(out)@ + ("Community: "@ + c@ + seq!['\n']));
            }
        },
        SecurityInfo::V3 { username, auth_protocol, priv_protocol } => {
            out.append("Username:  ");
            out.append(username.as_str());
            out.push('\n');
            push_optional_line(out, "Auth:      ", auth_protocol);
            push_optional_line(out, "Privacy:   ", priv_protocol);
            proof {
                assert(final(out)@ =~= old(out)@ + ("Username:  "@ + username@ + seq!['\n']
                    + optional_line("Auth:      "@, text_view(*auth_protocol)) + optional_line(
                    "Privacy:   "@,
                    text_view(*priv_protocol),
                )));
            }
        },
    }
}

/// Appends the lines that show the parameters of a bulk operation.
fn push_bulk_lines(out: &mut String, operation: OperationType)
    ensures
        final(out)@ == old(out)@ + bulk_lines(operation),
{
    match operation {
        OperationType::GetBulk { non_repeaters, max_repetitions } => {
            out.append("  Non-repeaters:    ");
            push_signed_decimal(out, non_repeaters as i64);
            out.push('\n');
            out.append("  Max-repetitions:  ");
            push_signed_decimal(out, max_repetitions as i64);
            out.push('\n');
            proof {
                assert(final(out)@ =~= old(out)@ + bulk_lines(operation));
            }
        },
        OperationType::BulkWalk { max_repetitions } => {
            out.append("  Max-repetitions:  ");
            push_signed_decimal(out, max_repetitions as i64);
            out.push('\n');
            proof {
                assert(final(out)@ =~= old(out)@ + bulk_lines(operation));
            }
        },
        _ => {
            proof {
                assert(final(out)@ =~= old(out)@ + bulk_lines(operation));
            }
        },
    }
}

/// Appends one line for each OID.
fn push_oid_lines(out: &mut String, oids: &Vec<Oid>)
    ensures
        final(out)@ == old(out)@ + oid_lines(oids@),
{
    let n = oids.len();
    let mut i: usize = 0;
    proof {
        assert(out@ =~= old(out)@ + oid_lines(oids@.subrange(0, 0)));
    }
    while i < n
        invariant
            i <= n,
            n == oids@.len(),
            out@ == old(out)@ + oid_lines(oids@.subrange(0, i as int)),
        decreases n - i,
    {
        let ghost before = out@;
        let oid = &oids[i];
        let text = format_oid(oid);
        out.append("  ");
        push_hinted(out, text.as_str(), hints::lookup(oid));
        out.push('\n');
        proof {
            let next = oids@.subrange(0, i + 1);
            assert(next.drop_last() =~= oids@.subrange(0, i as int));
            assert(next.last() == oids@[i as int]);
            assert(out@ =~= old(out)@ + oid_lines(next));
        }
        i += 1;
    }
    proof {
        assert(oids@.subrange(0, n as int) =~= oids@);
    }
}

/// The header that the verbose output shows for a request: the peer, the
/// version, the credentials, the operation with its parameters, and the
/// OIDs, each with its friendly name where it has one.
pub fn verbose_request_text(info: &RequestInfo) -> (r: String)
    ensures
        r@ == verbose_request(*info),
{
    let mut out = String::from_str("--- Request ---\n");
    out.append("Target:    ");
    let target = info.target.to_string();
    out.append(target.as_str());
    out.push('\n');
    out.append("Version:   ");
    out.append(info.version.label());
    out.push('\n');
    push_security_lines(&mut out, &info.security);
    out.append("Operation: ");
    out.append(info.operation.name());
    out.push('\n');
    push_bulk_lines(&mut out, info.operation);
    out.append("OIDs:      ");
    push_decimal(&mut out, info.oids.len() as u64);
    out.append(" total\n");
    push_oid_lines(&mut out, &info.oids);
    out.push('\n');
    proof {
        assert(out@ =~= verbose_request(*info));
    }
    out
}

} // verus!
