use ethr_resolver::error::Error;
use ethr_resolver::prepare_resolution;
use ethr_resolver::util::{
    decode_hex, encode_base58, encode_base64, encode_hex, get_public_key, remove_zero_bytes,
    strip0x,
};

#[test]
fn strip0x_removes_prefix() {
    assert_eq!(strip0x("0xabc123".to_string()), "abc123");
    assert_eq!(strip0x("abc123".to_string()), "abc123");
    assert_eq!(strip0x("0x".to_string()), "");
    assert_eq!(strip0x("x0abc".to_string()), "x0abc");
}

#[test]
fn remove_zero_bytes_strips_nuls() {
    assert_eq!(remove_zero_bytes("PEMDATA\0\0".to_string()), "PEMDATA");
    assert_eq!(remove_zero_bytes("a\0b\0c".to_string()), "abc");
    assert_eq!(remove_zero_bytes("plain".to_string()), "plain");
}

#[test]
fn hex_encode_decode_round_trip() {
    let bytes = vec![0x00u8, 0x1f, 0xab, 0xff];
    let encoded = encode_hex(&bytes);
    assert_eq!(encoded, "001fabff");
    assert_eq!(decode_hex(&encoded), Some(bytes));
    // canonical lower-case input comes back unchanged
    let decoded = decode_hex("deadbeef").unwrap();
    assert_eq!(encode_hex(&decoded), "deadbeef");
    // upper case decodes but re-encodes lower-case
    assert_eq!(decode_hex("DEADBEEF"), Some(vec![0xdeu8, 0xad, 0xbe, 0xef]));
    // failures: odd length, non-hex digit
    assert_eq!(decode_hex("abc"), None);
    assert_eq!(decode_hex("0g"), None);
}

#[test]
fn base64_of_real_bytes() {
    assert_eq!(encode_base64("hello".to_string()), "aGVsbG8=");
    assert_eq!(encode_base64("f".to_string()), "Zg==");
    assert_eq!(encode_base64("".to_string()), "");
}

#[test]
fn base58_of_real_bytes() {
    assert_eq!(encode_base58("hello".to_string()), "Cn8eVZg");
    assert_eq!(encode_base58("".to_string()), "");
}

#[test]
fn get_public_key_needs_long_identifier() {
    let long = "did:ethr:0x02b97c30de767f084ce3080168ee293053ba33b235d7116a3263d29f1450936b71";
    assert_eq!(get_public_key(long.to_string()), Some("0x02b97c30de767f084ce3080168ee293053ba33b235d7116a3263d29f1450936b71".to_string()));
    // a bare 20-byte address is not a public key
    let short = "did:ethr:mainnet:0xdca7ef03e98e0dc2b855be647c39abe984fcf21b";
    assert_eq!(get_public_key(short.to_string()), None);
    // other methods never yield one
    assert_eq!(get_public_key("did:web:example.com".to_string()), None);
    // a query component is dropped before the identifier is taken
    let with_query = "did:ethr:0x02b97c30de767f084ce3080168ee293053ba33b235d7116a3263d29f1450936b71?versionId=3";
    assert_eq!(get_public_key(with_query.to_string()), Some("0x02b97c30de767f084ce3080168ee293053ba33b235d7116a3263d29f1450936b71".to_string()));
}

#[test]
fn invalid_did_is_rejected() {
    match prepare_resolution("did:web:example.com", "application/did+ld+json") {
        Err(Error::InvalidDid(d)) => assert_eq!(d, "did:web:example.com"),
        other => panic!("expected InvalidDid, got {:?}", other),
    }
}

#[test]
fn unsupported_accept_is_rejected() {
    let did = "did:ethr:mainnet:0xdca7ef03e98e0dc2b855be647c39abe984fcf21b";
    match prepare_resolution(did, "application/xml") {
        Err(Error::UnsupportedAccept(a)) => assert_eq!(a, "application/xml"),
        other => panic!("expected UnsupportedAccept, got {:?}", other),
    }
}

#[test]
fn valid_did_yields_skeleton() {
    let did = "did:ethr:mainnet:0xdca7ef03e98e0dc2b855be647c39abe984fcf21b";
    let (doc, address) = prepare_resolution(did, "application/did+ld+json").unwrap();
    assert_eq!(doc.id, did);
    assert_eq!(
        doc.context,
        vec![
            "https://www.w3.org/ns/did/v1".to_string(),
            "https://w3id.org/security/suites/secp256k1recovery-2020/v2".to_string(),
            "https://w3id.org/security/v3-unstable".to_string(),
        ]
    );
    assert!(doc.verification_method.is_empty());
    assert_eq!(address, "dca7ef03e98e0dc2b855be647c39abe984fcf21b");

    // the plain JSON representation carries no context
    let (doc2, _) = prepare_resolution(did, "application/did+json").unwrap();
    assert!(doc2.context.is_empty());
}

#[test]
fn error_messages_match_variants() {
    assert_eq!(
        Error::InvalidDid("x".to_string()).message(),
        "Not a valid did:ethr: x"
    );
    assert_eq!(Error::UnknownTopic.message(), "Topic can't be identified");
}
