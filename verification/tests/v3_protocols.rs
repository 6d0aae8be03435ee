use async_snmp::v3::{AuthProtocol, PrivProtocol};

#[test]
fn test_auth_protocol_display() {
    assert_eq!(AuthProtocol::Md5.to_string(), "MD5");
    assert_eq!(AuthProtocol::Sha1.to_string(), "SHA");
    assert_eq!(AuthProtocol::Sha224.to_string(), "SHA-224");
    assert_eq!(AuthProtocol::Sha256.to_string(), "SHA-256");
    assert_eq!(AuthProtocol::Sha384.to_string(), "SHA-384");
    assert_eq!(AuthProtocol::Sha512.to_string(), "SHA-512");
}

#[test]
fn test_auth_protocol_from_str() {
    assert_eq!("MD5".parse::<AuthProtocol>().unwrap(), AuthProtocol::Md5);
    assert_eq!("md5".parse::<AuthProtocol>().unwrap(), AuthProtocol::Md5);
    assert_eq!("SHA".parse::<AuthProtocol>().unwrap(), AuthProtocol::Sha1);
    assert_eq!("sha1".parse::<AuthProtocol>().unwrap(), AuthProtocol::Sha1);
    assert_eq!("SHA-1".parse::<AuthProtocol>().unwrap(), AuthProtocol::Sha1);
    assert_eq!(
        "sha-224".parse::<AuthProtocol>().unwrap(),
        AuthProtocol::Sha224
    );
    assert_eq!(
        "SHA256".parse::<AuthProtocol>().unwrap(),
        AuthProtocol::Sha256
    );
    assert_eq!(
        "SHA-256".parse::<AuthProtocol>().unwrap(),
        AuthProtocol::Sha256
    );
    assert_eq!(
        "sha384".parse::<AuthProtocol>().unwrap(),
        AuthProtocol::Sha384
    );
    assert_eq!(
        "SHA-512".parse::<AuthProtocol>().unwrap(),
        AuthProtocol::Sha512
    );

    assert!("invalid".parse::<AuthProtocol>().is_err());
}

#[test]
fn test_priv_protocol_display() {
    assert_eq!(PrivProtocol::Des.to_string(), "DES");
    assert_eq!(PrivProtocol::Des3.to_string(), "3DES");
    assert_eq!(PrivProtocol::Aes128.to_string(), "AES");
    assert_eq!(PrivProtocol::Aes192.to_string(), "AES-192");
    assert_eq!(PrivProtocol::Aes256.to_string(), "AES-256");
}

#[test]
fn test_priv_protocol_from_str() {
    assert_eq!("DES".parse::<PrivProtocol>().unwrap(), PrivProtocol::Des);
    assert_eq!("des".parse::<PrivProtocol>().unwrap(), PrivProtocol::Des);
    assert_eq!("3DES".parse::<PrivProtocol>().unwrap(), PrivProtocol::Des3);
    assert_eq!("3des".parse::<PrivProtocol>().unwrap(), PrivProtocol::Des3);
    assert_eq!(
        "3DES-EDE".parse::<PrivProtocol>().unwrap(),
        PrivProtocol::Des3
    );
    assert_eq!("DES3".parse::<PrivProtocol>().unwrap(), PrivProtocol::Des3);
    assert_eq!("TDES".parse::<PrivProtocol>().unwrap(), PrivProtocol::Des3);
    assert_eq!("AES".parse::<PrivProtocol>().unwrap(), PrivProtocol::Aes128);
    assert_eq!("aes".parse::<PrivProtocol>().unwrap(), PrivProtocol::Aes128);
    assert_eq!(
        "AES128".parse::<PrivProtocol>().unwrap(),
        PrivProtocol::Aes128
    );
    assert_eq!(
        "AES-128".parse::<PrivProtocol>().unwrap(),
        PrivProtocol::Aes128
    );
    assert_eq!(
        "aes192".parse::<PrivProtocol>().unwrap(),
        PrivProtocol::Aes192
    );
    assert_eq!(
        "AES-192".parse::<PrivProtocol>().unwrap(),
        PrivProtocol::Aes192
    );
    assert_eq!(
        "aes256".parse::<PrivProtocol>().unwrap(),
        PrivProtocol::Aes256
    );
    assert_eq!(
        "AES-256".parse::<PrivProtocol>().unwrap(),
        PrivProtocol::Aes256
    );

    assert!("invalid".parse::<PrivProtocol>().is_err());
}

#[test]
fn test_parse_protocol_error_display() {
    let err = "bogus".parse::<AuthProtocol>().unwrap_err();
    assert!(err.to_string().contains("bogus"));
    assert!(err.to_string().contains("authentication protocol"));

    let err = "bogus".parse::<PrivProtocol>().unwrap_err();
    assert!(err.to_string().contains("bogus"));
    assert!(err.to_string().contains("privacy protocol"));
}

