use mac_changer::error::{ErrorKind, MacError};
use mac_changer::mac::{generate_random_mac, parse_vendor_prefix, random_mac_from, MacAddress, MacFormat};

fn invalid() -> MacError {
    MacError::InvalidFormat("MAC address must be 12 hexadecimal characters".to_string())
}

#[test]
fn parse_reads_colon_notation() {
    let mac = MacAddress::parse("AA:bb:0C:1d:2E:ff").unwrap();
    assert_eq!(mac.get_bytes(), &[0xaa, 0xbb, 0x0c, 0x1d, 0x2e, 0xff]);
    assert_eq!(mac.as_string(), "aa:bb:0c:1d:2e:ff");
}

#[test]
fn parse_reads_hyphen_notation() {
    let mac = MacAddress::parse("00-1A-11-00-00-01").unwrap();
    assert_eq!(mac.get_bytes(), &[0x00, 0x1a, 0x11, 0x00, 0x00, 0x01]);
    assert_eq!(mac.as_string(), "00-1a-11-00-00-01");
}

#[test]
fn parse_reads_dot_notation() {
    let mac = MacAddress::parse("0017.F2ab.cdEF").unwrap();
    assert_eq!(mac.get_bytes(), &[0x00, 0x17, 0xf2, 0xab, 0xcd, 0xef]);
    assert_eq!(mac.as_string(), "0017.f2ab.cdef");
}

#[test]
fn parse_reads_plain_notation() {
    let mac = MacAddress::parse("0123456789AB").unwrap();
    assert_eq!(mac.get_bytes(), &[0x01, 0x23, 0x45, 0x67, 0x89, 0xab]);
    assert_eq!(mac.as_string(), "0123456789ab");
}

#[test]
fn parse_then_format_round_trips_every_notation() {
    for text in ["de:ad:be:ef:00:01", "de-ad-be-ef-00-01", "dead.beef.0001", "deadbeef0001"] {
        let first = MacAddress::parse(text).unwrap();
        let written = first.as_string();
        assert_eq!(written, text);
        let second = MacAddress::parse(&written).unwrap();
        assert_eq!(second.get_bytes(), first.get_bytes());
        assert_eq!(second.get_bytes(), &[0xde, 0xad, 0xbe, 0xef, 0x00, 0x01]);
    }
}

#[test]
fn parse_rejects_wrong_lengths() {
    assert_eq!(MacAddress::parse("0123456789A").unwrap_err(), invalid());
    assert_eq!(MacAddress::parse("0123456789ABC").unwrap_err(), invalid());
    assert_eq!(MacAddress::parse("").unwrap_err(), invalid());
    assert_eq!(MacAddress::parse("aa:bb:cc:dd:ee").unwrap_err(), invalid());
    assert_eq!(MacAddress::parse("aa:bb:cc:dd:ee:ff:00").unwrap_err(), invalid());
}

#[test]
fn parse_rejects_non_hex_characters() {
    assert_eq!(MacAddress::parse("0123456789AG").unwrap_err(), invalid());
    assert_eq!(MacAddress::parse("aa:bb:cc:dd:ee:fg").unwrap_err(), invalid());
    assert_eq!(MacAddress::parse("+a+b+c+d+e+f").unwrap_err(), invalid());
    assert_eq!(MacAddress::parse("aa bb cc dd ee ff").unwrap_err(), invalid());
}

#[test]
fn parse_rejects_mixed_separators() {
    assert_eq!(MacAddress::parse("AA:BB-CC:DD:EE:FF").unwrap_err(), invalid());
    assert_eq!(MacAddress::parse("aabb.ccdd:eeff").unwrap_err(), invalid());
    assert_eq!(MacAddress::parse("aa-bb-cc-dd-ee.ff").unwrap_err(), invalid());
}

#[test]
fn parse_rejects_misplaced_separators() {
    assert_eq!(MacAddress::parse("aa.bb.cc.dd.ee.ff").unwrap_err(), invalid());
    assert_eq!(MacAddress::parse("aabb:ccdd:eeff:00").unwrap_err(), invalid());
    assert_eq!(MacAddress::parse(":aabbccddeeff").unwrap_err(), invalid());
}

#[test]
fn with_format_keeps_the_octets() {
    let mac = MacAddress::new([1, 2, 3, 4, 5, 0xff], MacFormat::Colon);
    assert_eq!(mac.as_string(), "01:02:03:04:05:ff");
    assert_eq!(mac.with_format(MacFormat::Hyphen).as_string(), "01-02-03-04-05-ff");
    assert_eq!(mac.with_format(MacFormat::Dot).as_string(), "0102.0304.05ff");
    assert_eq!(mac.with_format(MacFormat::Raw).as_string(), "0102030405ff");
    assert_eq!(mac.with_format(MacFormat::Raw).get_bytes(), mac.get_bytes());
}

#[test]
fn random_without_prefix_is_local_unicast() {
    for _ in 0..200 {
        let mac = generate_random_mac(None).unwrap();
        assert_eq!(mac.get_bytes()[0] & 0x03, 0x02);
        assert_eq!(mac.as_string().len(), 17);
    }
}

#[test]
fn random_with_prefix_keeps_the_prefix() {
    let mut tails = Vec::new();
    for _ in 0..64 {
        let mac = generate_random_mac(Some("00:1A:11")).unwrap();
        assert_eq!(&mac.get_bytes()[0..3], &[0x00, 0x1a, 0x11]);
        tails.push([mac.get_bytes()[3], mac.get_bytes()[4], mac.get_bytes()[5]]);
    }
    assert!(tails.iter().any(|t| *t != tails[0]));
}

#[test]
fn random_mac_from_places_the_octets() {
    let with = random_mac_from(Some([0xaa, 0xbb, 0xcc]), [1, 2, 3, 4, 5, 6]);
    assert_eq!(with.get_bytes(), &[0xaa, 0xbb, 0xcc, 4, 5, 6]);
    let without = random_mac_from(None, [0xff, 2, 3, 4, 5, 6]);
    assert_eq!(without.get_bytes(), &[0xfe, 2, 3, 4, 5, 6]);
    let cleared = random_mac_from(None, [0x01, 2, 3, 4, 5, 6]);
    assert_eq!(cleared.get_bytes(), &[0x02, 2, 3, 4, 5, 6]);
    assert_eq!(without.as_string(), "fe:02:03:04:05:06");
}

#[test]
fn vendor_prefix_is_read_from_its_first_three_fields() {
    assert_eq!(parse_vendor_prefix("00:17:F2").unwrap(), [0x00, 0x17, 0xf2]);
    assert_eq!(parse_vendor_prefix("00-1a-11").unwrap(), [0x00, 0x1a, 0x11]);
    assert_eq!(parse_vendor_prefix("a:b-c:zz").unwrap(), [0x0a, 0x0b, 0x0c]);
    assert_eq!(parse_vendor_prefix("+f:00ff:0").unwrap(), [0x0f, 0xff, 0x00]);
}

#[test]
fn vendor_prefix_errors() {
    assert_eq!(
        parse_vendor_prefix("00:17").unwrap_err(),
        MacError::VendorNotFound("Vendor prefix must be 3 bytes".to_string())
    );
    assert_eq!(
        parse_vendor_prefix("00:zz:11").unwrap_err(),
        MacError::ParseError("invalid digit found in string".to_string())
    );
    assert_eq!(
        parse_vendor_prefix("").unwrap_err(),
        MacError::ParseError("cannot parse integer from empty string".to_string())
    );
    assert_eq!(
        parse_vendor_prefix("100:00:00").unwrap_err(),
        MacError::ParseError("number too large to fit in target type".to_string())
    );
    assert_eq!(
        generate_random_mac(Some("00:17")).unwrap_err(),
        MacError::VendorNotFound("Vendor prefix must be 3 bytes".to_string())
    );
}

#[test]
fn error_message_has_heading_and_detail() {
    assert_eq!(invalid().message(), "Invalid format: MAC address must be 12 hexadecimal characters");
    assert_eq!(MacError::SystemError("x".to_string()).message(), "System error: x");
    assert_eq!(MacError::IoError("gone".to_string()).message(), "IO error: gone");
}

#[test]
fn every_kind_of_error_has_its_heading() {
    let d = || "detail".to_string();
    let all = vec![
        (MacError::ValidationFailed(d()), ErrorKind::ValidationFailed, "Validation failed: detail"),
        (MacError::PermissionDenied(d()), ErrorKind::PermissionDenied, "Permission denied: detail"),
        (MacError::SystemError(d()), ErrorKind::SystemError, "System error: detail"),
        (MacError::InvalidFormat(d()), ErrorKind::InvalidFormat, "Invalid format: detail"),
        (MacError::NetworkError(d()), ErrorKind::NetworkError, "Network error: detail"),
        (MacError::DatabaseError(d()), ErrorKind::DatabaseError, "Database error: detail"),
        (MacError::VendorNotFound(d()), ErrorKind::VendorNotFound, "Vendor not found: detail"),
        (MacError::IoError(d()), ErrorKind::IoError, "IO error: detail"),
        (MacError::SerdeError(d()), ErrorKind::SerdeError, "Serialization error: detail"),
        (MacError::ParseError(d()), ErrorKind::ParseError, "Parse error: detail"),
        (MacError::UnsupportedPlatform(d()), ErrorKind::UnsupportedPlatform, "Unsupported platform: detail"),
    ];
    for (error, kind, message) in all {
        assert_eq!(error.kind(), kind);
        assert_eq!(error.text(), "detail");
        assert_eq!(error.message(), message);
        assert_eq!(error.clone(), error);
    }
    assert_eq!(MacError::from("x"), MacError::ValidationFailed("x".to_string()));
}

#[test]
fn addresses_are_equal_by_their_octets() {
    let a = MacAddress::parse("AA:BB:CC:DD:EE:FF").unwrap();
    let b = MacAddress::parse("aabb.ccdd.eeff").unwrap();
    let c = MacAddress::parse("aabb.ccdd.eefe").unwrap();
    assert!(a == b);
    assert!(a != c);
}

#[test]
fn parse_keeps_every_octet_value() {
    for high in 0..=255u8 {
        let text = format!("{:02x}:{:02X}:00:ff:{:02x}:{:02X}", high, high, high, 255 - high);
        let mac = MacAddress::parse(&text).unwrap();
        assert_eq!(mac.get_bytes(), &[high, high, 0, 255, high, 255 - high]);
        assert_eq!(mac.as_string(), text.to_lowercase());
        let plain = MacAddress::new([high, 1, 2, 3, 4, 255 - high], MacFormat::Dot);
        let again = MacAddress::parse(&plain.as_string()).unwrap();
        assert_eq!(again.get_bytes(), plain.get_bytes());
    }
}
