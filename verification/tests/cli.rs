use async_snmp::cli::hints::{lookup, parse_oid};
use async_snmp::cli::output::{
    format_hex_string, format_oid, format_timeticks, format_verbose_value, hex_string, is_printable,
    OperationType, OutputContext, OutputFormat,
};
use async_snmp::error::{Error, OidErrorKind};
use async_snmp::oid::Oid;
use async_snmp::value::Value;

#[test]
fn test_lookup_found() {
    let oid = Oid::from_slice(&[1, 3, 6, 1, 2, 1, 1, 1, 0]);
    assert_eq!(lookup(&oid), Some("sysDescr.0"));
}

#[test]
fn test_lookup_not_found() {
    let oid = Oid::from_slice(&[1, 3, 6, 1, 99, 99, 99]);
    assert_eq!(lookup(&oid), None);
}

#[test]
fn test_parse_dotted() {
    let oid = parse_oid("1.3.6.1.2.1.1.1.0").unwrap();
    assert_eq!(oid.arcs(), &[1, 3, 6, 1, 2, 1, 1, 1, 0]);
}

#[test]
fn test_parse_well_known() {
    let oid = parse_oid("sysDescr.0").unwrap();
    assert_eq!(oid.arcs(), &[1, 3, 6, 1, 2, 1, 1, 1, 0]);

    let oid = parse_oid("system").unwrap();
    assert_eq!(oid.arcs(), &[1, 3, 6, 1, 2, 1, 1]);
}

#[test]
fn test_parse_case_insensitive() {
    let oid = parse_oid("SYSDESCR.0").unwrap();
    assert_eq!(oid.arcs(), &[1, 3, 6, 1, 2, 1, 1, 1, 0]);
}

#[test]
fn test_parse_unknown_name() {
    assert!(parse_oid("unknownOid").is_err());
}

#[test]
fn test_format_timeticks() {
    // 1 day, 10 hours, 17 minutes, 36.78 seconds = 123456.78 seconds = 12345678 centiseconds
    assert_eq!(format_timeticks(12345678), "1d 10:17:36.78");

    // Less than a day
    assert_eq!(format_timeticks(360000), "01:00:00.00");

    // Zero
    assert_eq!(format_timeticks(0), "00:00:00.00");
}

#[test]
fn test_is_printable() {
    assert!(is_printable(b"Hello World"));
    assert!(is_printable(b"Line 1\nLine 2"));
    assert!(is_printable(b""));
    assert!(!is_printable(&[0x00, 0x01, 0x02]));
    assert!(!is_printable(&[0x80, 0x81]));
}

#[test]
fn test_hex_string() {
    assert_eq!(hex_string(&[0x00, 0x1A, 0x2B]), "001a2b");
}

#[test]
fn test_format_hex_string() {
    assert_eq!(format_hex_string(&[0x00, 0x1A, 0x2B]), "00 1A 2B");
}

#[test]
fn every_well_known_name_is_found_both_ways() {
    for name in [
        "sysDescr.0",
        "sysObjectID.0",
        "sysUpTime.0",
        "sysContact.0",
        "sysName.0",
        "sysLocation.0",
        "sysServices.0",
        "ifNumber.0",
        "system",
        "interfaces",
        "ifTable",
        "ifEntry",
    ] {
        let oid = parse_oid(name).unwrap();
        assert_eq!(lookup(&oid), Some(name));
        assert_eq!(parse_oid(&name.to_uppercase()), Ok(oid));
    }
    assert_eq!(parse_oid("ifTable").unwrap().to_string(), "1.3.6.1.2.1.2.2");
}

#[test]
fn oid_texts_that_are_refused() {
    assert_eq!(
        parse_oid("1.3.x"),
        Err("invalid OID '1.3.x': invalid OID: invalid arc value".to_string())
    );
    assert_eq!(
        parse_oid("nothing"),
        Err("unknown OID name 'nothing'; use dotted notation (e.g., 1.3.6.1.2.1.1.1.0)".to_string())
    );
    assert!(parse_oid("").is_err());
    let fault = |s: &str| match Oid::parse(s) {
        Err(Error::InvalidOid { kind, input }) => Some((kind, input)),
        _ => None,
    };
    assert_eq!(fault(""), Some((OidErrorKind::Empty, Some(String::new()))));
    assert_eq!(fault("1..3"), Some((OidErrorKind::InvalidArc, Some("1..3".to_string()))));
    assert_eq!(fault("1.3."), Some((OidErrorKind::InvalidArc, Some("1.3.".to_string()))));
    assert_eq!(fault(".1.3"), Some((OidErrorKind::InvalidArc, Some(".1.3".to_string()))));
    assert_eq!(fault("1.4294967296"), Some((OidErrorKind::InvalidArc, Some("1.4294967296".to_string()))));
    assert_eq!(Oid::parse("1.4294967295"), Ok(Oid::from_slice(&[1, 4294967295])));
    assert_eq!(Oid::parse("007"), Ok(Oid::from_slice(&[7])));
}

#[test]
fn oid_text_round_trips() {
    for arcs in [vec![0u32], vec![1, 3, 6, 1, 4, 1, 2021], vec![2, 999, 4294967295, 0]] {
        let oid = Oid::from_slice(&arcs);
        assert_eq!(Oid::parse(&oid.to_string()), Ok(oid.clone()));
        assert_eq!(format_oid(&oid), oid.to_string());
    }
}

#[test]
fn oid_fault_messages() {
    assert_eq!(OidErrorKind::Empty.to_string(), "empty OID");
    assert_eq!(OidErrorKind::InvalidFirstArc(7).to_string(), "first arc must be 0, 1, or 2, got 7");
    assert_eq!(
        OidErrorKind::InvalidSecondArc { first: 1, second: 40 }.to_string(),
        "second arc 40 too large for first arc 1"
    );
    assert_eq!(OidErrorKind::TooShort.to_string(), "OID must have at least 2 arcs");
    assert_eq!(
        OidErrorKind::TooManyArcs { count: 129, max: 128 }.to_string(),
        "OID has 129 arcs, exceeds maximum 128"
    );
    assert_eq!(OidErrorKind::SubidentifierOverflow.to_string(), "subidentifier overflow");
}

#[test]
fn timeticks_at_the_boundaries() {
    assert_eq!(format_timeticks(99), "00:00:00.99");
    assert_eq!(format_timeticks(8639999), "23:59:59.99");
    assert_eq!(format_timeticks(8640000), "1d 00:00:00.00");
    assert_eq!(format_timeticks(u32::MAX), "497d 02:27:52.95");
}

#[test]
fn verbose_values() {
    let show = |v: Value| {
        let r = format_verbose_value(&v);
        (r.type_label, r.decoded, r.raw_hex, r.size)
    };
    let text = |a: &str, b: &str| (a.to_string(), b.to_string(), None, None);
    assert_eq!(show(Value::Integer(-42)), text("INTEGER", "-42"));
    assert_eq!(
        show(Value::OctetString(b"Linux".to_vec())),
        ("STRING".to_string(), "\"Linux\"".to_string(), Some("4C 69 6E 75 78".to_string()), Some(5))
    );
    assert_eq!(
        show(Value::OctetString(vec![0x00, 0xFF])),
        ("Hex-STRING".to_string(), "00 FF".to_string(), Some("00 FF".to_string()), Some(2))
    );
    assert_eq!(show(Value::Null), text("NULL", "(null)"));
    assert_eq!(
        show(Value::ObjectIdentifier(Oid::from_slice(&[1, 3, 6, 1, 2, 1, 1]))),
        text("OID", "1.3.6.1.2.1.1 (system)")
    );
    assert_eq!(show(Value::ObjectIdentifier(Oid::from_slice(&[1, 3, 6]))), text("OID", "1.3.6"));
    assert_eq!(show(Value::IpAddress([192, 168, 0, 1])), text("IpAddress", "192.168.0.1"));
    assert_eq!(show(Value::Counter32(7)), text("Counter32", "7"));
    assert_eq!(show(Value::Gauge32(4294967295)), text("Gauge32", "4294967295"));
    assert_eq!(show(Value::TimeTicks(360000)), text("TimeTicks", "360000 (01:00:00.00)"));
    assert_eq!(
        show(Value::Opaque(vec![0xAB])),
        ("Opaque".to_string(), "AB".to_string(), Some("AB".to_string()), Some(1))
    );
    assert_eq!(show(Value::Counter64(u64::MAX)), text("Counter64", "18446744073709551615"));
    assert_eq!(show(Value::NoSuchObject), text("NoSuchObject", "No Such Object available"));
    assert_eq!(show(Value::NoSuchInstance), text("NoSuchInstance", "No Such Instance currently exists"));
    assert_eq!(show(Value::EndOfMibView), text("EndOfMibView", "No more variables left in this MIB View"));
    assert_eq!(
        show(Value::Unknown { tag: 0x4F, data: vec![] }),
        ("Unknown(0x4F)".to_string(), String::new(), Some(String::new()), Some(0))
    );
}

#[test]
fn value_texts() {
    assert_eq!(Value::Integer(i32::MIN).to_string(), "-2147483648");
    assert_eq!(Value::OctetString(vec![0xDE, 0xAD]).to_string(), "0xdead");
    assert_eq!(Value::Null.to_string(), "NULL");
    assert_eq!(Value::ObjectIdentifier(Oid::from_slice(&[1, 3])).to_string(), "1.3");
    assert_eq!(Value::IpAddress([10, 0, 0, 255]).to_string(), "10.0.0.255");
    assert_eq!(Value::Counter64(0).to_string(), "0");
    assert_eq!(Value::NoSuchInstance.to_string(), "noSuchInstance");
    assert_eq!(Value::EndOfMibView.to_string(), "endOfMibView");
    assert_eq!(Value::Unknown { tag: 0x45, data: vec![1] }.to_string(), "unknown(69) 0x01");
}

#[test]
fn operation_names_and_output_context() {
    assert_eq!(OperationType::Get.name(), "GET");
    assert_eq!(OperationType::GetNext.name(), "GETNEXT");
    assert_eq!(OperationType::GetBulk { non_repeaters: 0, max_repetitions: 10 }.name(), "GETBULK");
    assert_eq!(OperationType::SetValues.name(), "SET");
    assert_eq!(OperationType::Walk.name(), "WALK (GETNEXT)");
    assert_eq!(OperationType::BulkWalk { max_repetitions: 10 }.name(), "WALK (GETBULK)");
    let context = OutputContext::new(OutputFormat::Json);
    assert_eq!(
        context,
        OutputContext { format: OutputFormat::Json, show_hints: true, force_hex: false, show_timing: false }
    );
}
