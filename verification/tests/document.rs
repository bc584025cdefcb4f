use ethr_resolver::did::{DidDoc, ServiceEndpoint};
use ethr_resolver::error::Error;
use ethr_resolver::ethr::{apply_logs, collect_step, LogRecord};
use ethr_resolver::events::{
    classify_topics, DIDAttributeChanged, DIDDelegateChanged, DIDOwnerChanged, Event, EventKind,
};
use ethr_resolver::prepare_resolution;

const DID: &str = "did:ethr:mainnet:0xdca7ef03e98e0dc2b855be647c39abe984fcf21b";
const KEY_DID: &str =
    "did:ethr:0x02b97c30de767f084ce3080168ee293053ba33b235d7116a3263d29f1450936b71";

fn bytes32(s: &str) -> Vec<u8> {
    let mut v = s.as_bytes().to_vec();
    v.resize(32, 0);
    v
}

fn fresh(did: &str) -> (DidDoc, Vec<u8>) {
    let (doc, address) = prepare_resolution(did, "application/did+ld+json").unwrap();
    let registry = ethr_resolver::util::decode_hex(&address).unwrap();
    let controller = format!("0x{}", address);
    let mut acc = DidDoc::new(doc, false, Some(controller));
    acc.chain_id_add("1".to_string());
    (acc, registry)
}

fn log_for(registry: &[u8], block: u64, event: Event) -> LogRecord {
    LogRecord { address: registry.to_vec(), block_number: Some(block), event: Some(event) }
}

#[test]
fn plain_address_no_changes() {
    let (acc, registry) = fresh(DID);
    let mut acc = acc;
    let logs: Vec<LogRecord> = Vec::new();
    apply_logs(&mut acc, &logs, &registry).unwrap();
    let (doc, deactivated, version) = acc.finalize();

    assert_eq!(doc.id, DID);
    assert_eq!(
        doc.context,
        vec![
            "https://www.w3.org/ns/did/v1".to_string(),
            "https://w3id.org/security/suites/secp256k1recovery-2020/v2".to_string(),
            "https://w3id.org/security/v3-unstable".to_string(),
        ]
    );
    assert_eq!(doc.verification_method.len(), 1);
    let vm = &doc.verification_method[0];
    assert_eq!(vm.id, Some(format!("{}#controller", DID)));
    assert_eq!(vm._type, "EcdsaSecp256k1RecoveryMethod2020");
    assert_eq!(vm.controller, Some(DID.to_string()));
    assert_eq!(
        vm.blockchain_account_id,
        Some("eip155:1:0xdca7ef03e98e0dc2b855be647c39abe984fcf21b".to_string())
    );
    assert_eq!(vm.revoked, Some(false));
    assert_eq!(doc.authentication, vec![format!("{}#controller", DID)]);
    assert_eq!(doc.assertion_method, vec![format!("{}#controller", DID)]);
    assert!(doc.key_agreement.is_empty());
    assert!(doc.services.is_empty());
    assert!(!deactivated);
    assert_eq!(version, None);
}

#[test]
fn delegate_verikey_becomes_method() {
    let (mut acc, registry) = fresh(DID);
    let ev = Event::Delegate(DIDDelegateChanged {
        identity: vec![0u8; 20],
        delegate_type: bytes32("veriKey"),
        name: vec![0u8; 32],
        delegate: vec![0x11u8; 20],
        valid_to: u64::MAX,
        previous_change: 0,
    });
    let logs = vec![log_for(&registry, 7, ev)];
    apply_logs(&mut acc, &logs, &registry).unwrap();
    let (doc, _, version) = acc.finalize();

    assert_eq!(version, Some(7));
    assert_eq!(doc.verification_method.len(), 2);
    let vm = &doc.verification_method[1];
    assert_eq!(vm.id, Some(format!("{}#delegate-1", DID)));
    assert_eq!(vm._type, "EcdsaSecp256k1RecoveryMethod2020");
    assert_eq!(
        vm.blockchain_account_id,
        Some("eip155:1:0x1111111111111111111111111111111111111111".to_string())
    );
    assert!(doc.assertion_method.contains(&format!("{}#delegate-1", DID)));
    // a veriKey delegate is not an authentication reference
    assert!(!doc.authentication.contains(&format!("{}#delegate-1", DID)));
}

#[test]
fn delegate_sigauth_becomes_reference() {
    let (mut acc, registry) = fresh(DID);
    let ev = Event::Delegate(DIDDelegateChanged {
        identity: vec![0u8; 20],
        delegate_type: bytes32("sigAuth"),
        name: vec![0u8; 32],
        delegate: vec![0x22u8; 20],
        valid_to: u64::MAX,
        previous_change: 0,
    });
    let logs = vec![log_for(&registry, 3, ev)];
    apply_logs(&mut acc, &logs, &registry).unwrap();
    let (doc, _, _) = acc.finalize();
    assert!(doc.authentication.contains(&format!("{}#delegate-1", DID)));
    assert!(doc.assertion_method.contains(&format!("{}#delegate-1", DID)));
}

#[test]
fn owner_change_updates_controller() {
    let (mut acc, registry) = fresh(DID);
    let ev = Event::Owner(DIDOwnerChanged {
        identity: vec![0u8; 20],
        owner: vec![0xaau8; 20],
        previous_change: 0,
    });
    let logs = vec![log_for(&registry, 9, ev)];
    apply_logs(&mut acc, &logs, &registry).unwrap();
    assert_eq!(
        acc.controller,
        Some("0xaaaaaaaaaaaaaaaaaaaaaaaaaaaaaaaaaaaaaaaa".to_string())
    );
    assert_eq!(acc.delegate_count, 1);
    let (doc, _, _) = acc.finalize();
    assert_eq!(
        doc.verification_method[0].blockchain_account_id,
        Some("eip155:1:0xaaaaaaaaaaaaaaaaaaaaaaaaaaaaaaaaaaaaaaaa".to_string())
    );
}

#[test]
fn zero_address_owner_deactivates() {
    let (mut acc, registry) = fresh(DID);
    let ev = Event::Owner(DIDOwnerChanged {
        identity: vec![0u8; 20],
        owner: vec![0u8; 20],
        previous_change: 0,
    });
    apply_logs(&mut acc, &vec![log_for(&registry, 11, ev)], &registry).unwrap();
    assert!(acc.deactivated);
    assert_eq!(
        acc.controller,
        Some("0x0000000000000000000000000000000000000000".to_string())
    );
    let (doc, deactivated, version) = acc.finalize();
    assert!(deactivated);
    assert_eq!(version, Some(11));
    // the deactivated document is stripped down to its keys
    assert!(doc.context.is_empty());
    assert_eq!(doc.id, DID);
    assert_eq!(doc.verification_method.len(), 1);
    assert_eq!(doc.authentication.len(), 1);
    assert!(doc.assertion_method.is_empty());
    assert!(doc.key_agreement.is_empty());
    assert!(doc.services.is_empty());
}

#[test]
fn later_owner_reactivates() {
    let (mut acc, registry) = fresh(DID);
    let logs = vec![
        log_for(
            &registry,
            1,
            Event::Owner(DIDOwnerChanged {
                identity: vec![0u8; 20],
                owner: vec![0u8; 20],
                previous_change: 0,
            }),
        ),
        log_for(
            &registry,
            2,
            Event::Owner(DIDOwnerChanged {
                identity: vec![0u8; 20],
                owner: vec![0xccu8; 20],
                previous_change: 1,
            }),
        ),
    ];
    apply_logs(&mut acc, &logs, &registry).unwrap();
    // deactivation tracks the latest owner
    assert!(!acc.deactivated);
    let (doc, deactivated, _) = acc.finalize();
    assert!(!deactivated);
    assert!(!doc.assertion_method.is_empty());
}

#[test]
fn attribute_base64_key() {
    let (mut acc, registry) = fresh(DID);
    let ev = Event::Attribute(DIDAttributeChanged {
        identity: vec![0u8; 20],
        name: bytes32("did/pub/Ed25519/veriKey/base64"),
        value: b"hello".to_vec(),
        valid_to: u64::MAX,
        previous_change: 0,
    });
    let logs = vec![log_for(&registry, 5, ev)];
    apply_logs(&mut acc, &logs, &registry).unwrap();
    let (doc, _, _) = acc.finalize();

    // the legacy alias table maps Ed25519 + VerificationKey2018 to itself
    let vm = &doc.verification_method[1];
    assert_eq!(vm.id, Some(format!("{}#delegate-1", DID)));
    assert_eq!(vm._type, "Ed25519VerificationKey2018");
    assert_eq!(vm.public_key_base64, Some("aGVsbG8=".to_string()));
    assert_eq!(vm.revoked, Some(false));
    // a veriKey-purposed attribute key is key-agreement material
    assert_eq!(doc.key_agreement.len(), 1);
    assert_eq!(doc.key_agreement[0].id, Some(format!("{}#delegate-1", DID)));
    assert_eq!(doc.key_agreement[0].public_key_base64, Some("aGVsbG8=".to_string()));
}

#[test]
fn attribute_base58_key() {
    let (mut acc, registry) = fresh(DID);
    let ev = Event::Attribute(DIDAttributeChanged {
        identity: vec![0u8; 20],
        name: bytes32("did/pub/Ed25519/sigAuth/base58"),
        value: b"hello".to_vec(),
        valid_to: u64::MAX,
        previous_change: 0,
    });
    apply_logs(&mut acc, &vec![log_for(&registry, 5, ev)], &registry).unwrap();
    let (doc, _, _) = acc.finalize();
    let vm = &doc.verification_method[1];
    // Ed25519 + SignatureAuthentication2018 is a legacy alias
    assert_eq!(vm._type, "Ed25519VerificationKey2018");
    assert_eq!(vm.public_key_base58, Some("Cn8eVZg".to_string()));
    assert!(doc.authentication.contains(&format!("{}#delegate-1", DID)));
}

#[test]
fn attribute_hex_key_raw_and_unknown_suite() {
    let (mut acc, registry) = fresh(DID);
    let ev = Event::Attribute(DIDAttributeChanged {
        identity: vec![0u8; 20],
        name: bytes32("did/pub/Secp256k1/hex"),
        value: b"0xdead".to_vec(),
        valid_to: u64::MAX,
        previous_change: 0,
    });
    apply_logs(&mut acc, &vec![log_for(&registry, 5, ev)], &registry).unwrap();
    let (doc, _, _) = acc.finalize();
    let vm = &doc.verification_method[1];
    // "hex" sits in the purpose slot here, so the candidate suite name is
    // the bare algorithm and no legacy alias matches
    assert_eq!(vm._type, "Secp256k1");
    // without an encoding segment the raw fallback strips 0x into `value`
    assert_eq!(vm.value, Some("dead".to_string()));
}

#[test]
fn attribute_pem_strips_trailing_nuls() {
    let (mut acc, registry) = fresh(DID);
    let ev = Event::Attribute(DIDAttributeChanged {
        identity: vec![0u8; 20],
        name: bytes32("did/pub/RSA/sigAuth/pem"),
        value: b"PEMDATA\x00\x00".to_vec(),
        valid_to: u64::MAX,
        previous_change: 0,
    });
    apply_logs(&mut acc, &vec![log_for(&registry, 5, ev)], &registry).unwrap();
    let (doc, _, _) = acc.finalize();
    let vm = &doc.verification_method[1];
    assert_eq!(vm.public_key_pem, Some("PEMDATA".to_string()));
}

#[test]
fn service_attribute_plain_text() {
    let (mut acc, registry) = fresh(DID);
    let ev = Event::Attribute(DIDAttributeChanged {
        identity: vec![0u8; 20],
        name: bytes32("did/svc/MessagingService"),
        value: b"https://example.com/msg".to_vec(),
        valid_to: u64::MAX,
        previous_change: 0,
    });
    apply_logs(&mut acc, &vec![log_for(&registry, 5, ev)], &registry).unwrap();
    let (doc, _, _) = acc.finalize();
    assert_eq!(doc.services.len(), 1);
    let svc = &doc.services[0];
    assert_eq!(svc.id, format!("{}#service-1", DID));
    assert_eq!(svc._type, "MessagingService");
    // the value is not JSON, so the endpoint is the raw UTF-8 string
    assert_eq!(
        svc.service_endpoint,
        ServiceEndpoint::Text("https://example.com/msg".to_string())
    );
}

#[test]
fn service_attribute_json_value() {
    let (mut acc, registry) = fresh(DID);
    let ev = Event::Attribute(DIDAttributeChanged {
        identity: vec![0u8; 20],
        name: bytes32("did/svc/Hub"),
        value: b"{\"uri\":\"https://example.com\"}".to_vec(),
        valid_to: u64::MAX,
        previous_change: 0,
    });
    apply_logs(&mut acc, &vec![log_for(&registry, 5, ev)], &registry).unwrap();
    let (doc, _, _) = acc.finalize();
    assert_eq!(
        doc.services[0].service_endpoint,
        ServiceEndpoint::Json("{\"uri\":\"https://example.com\"}".to_string())
    );
}

#[test]
fn unrecognized_attribute_names_are_ignored() {
    let (mut acc, registry) = fresh(DID);
    let ev = Event::Attribute(DIDAttributeChanged {
        identity: vec![0u8; 20],
        name: bytes32("something/else"),
        value: b"x".to_vec(),
        valid_to: u64::MAX,
        previous_change: 0,
    });
    apply_logs(&mut acc, &vec![log_for(&registry, 5, ev)], &registry).unwrap();
    let (doc, _, _) = acc.finalize();
    assert_eq!(doc.verification_method.len(), 1);
    assert!(doc.services.is_empty());
}

#[test]
fn delegate_numbering_is_monotonic() {
    let (mut acc, registry) = fresh(DID);
    let mut logs = Vec::new();
    for (i, byte) in [0x31u8, 0x32, 0x33].iter().enumerate() {
        logs.push(log_for(
            &registry,
            (i + 1) as u64,
            Event::Delegate(DIDDelegateChanged {
                identity: vec![0u8; 20],
                delegate_type: bytes32("veriKey"),
                name: vec![0u8; 32],
                delegate: vec![*byte; 20],
                valid_to: u64::MAX,
                previous_change: 0,
            }),
        ));
    }
    apply_logs(&mut acc, &logs, &registry).unwrap();
    let (doc, _, version) = acc.finalize();
    assert_eq!(version, Some(3));
    assert_eq!(doc.verification_method.len(), 4);
    for n in 1..=3usize {
        assert_eq!(
            doc.verification_method[n].id,
            Some(format!("{}#delegate-{}", DID, n))
        );
    }
}

#[test]
fn same_event_applied_twice_collapses() {
    let (mut acc, registry) = fresh(DID);
    let make = || {
        Event::Delegate(DIDDelegateChanged {
            identity: vec![0u8; 20],
            delegate_type: bytes32("veriKey"),
            name: vec![0u8; 32],
            delegate: vec![0x11u8; 20],
            valid_to: u64::MAX,
            previous_change: 0,
        })
    };
    let logs = vec![log_for(&registry, 1, make()), log_for(&registry, 2, make())];
    apply_logs(&mut acc, &logs, &registry).unwrap();
    let (doc, _, _) = acc.finalize();
    // one entry: the second application overwrote the first, renumbered
    assert_eq!(doc.verification_method.len(), 2);
    assert_eq!(
        doc.verification_method[1].id,
        Some(format!("{}#delegate-2", DID))
    );
}

#[test]
fn replaying_identical_logs_is_deterministic() {
    let build = || {
        let (mut acc, registry) = fresh(DID);
        let logs = vec![
            log_for(
                &registry,
                1,
                Event::Attribute(DIDAttributeChanged {
                    identity: vec![0u8; 20],
                    name: bytes32("did/svc/Hub"),
                    value: b"https://hub.example.com".to_vec(),
                    valid_to: u64::MAX,
                    previous_change: 0,
                }),
            ),
            log_for(
                &registry,
                2,
                Event::Delegate(DIDDelegateChanged {
                    identity: vec![0u8; 20],
                    delegate_type: bytes32("sigAuth"),
                    name: vec![0u8; 32],
                    delegate: vec![0x42u8; 20],
                    valid_to: u64::MAX,
                    previous_change: 0,
                }),
            ),
        ];
        apply_logs(&mut acc, &logs, &registry).unwrap();
        acc.finalize()
    };
    let (doc1, d1, v1) = build();
    let (doc2, d2, v2) = build();
    assert_eq!(doc1, doc2);
    assert_eq!(d1, d2);
    assert_eq!(v1, v2);
}

#[test]
fn logs_from_other_contracts_are_skipped() {
    let (mut acc, registry) = fresh(DID);
    let stranger = vec![0x99u8; 20];
    let logs = vec![LogRecord {
        address: stranger,
        block_number: Some(4),
        event: Some(Event::Owner(DIDOwnerChanged {
            identity: vec![0u8; 20],
            owner: vec![0xbbu8; 20],
            previous_change: 0,
        })),
    }];
    apply_logs(&mut acc, &logs, &registry).unwrap();
    assert_eq!(acc.controller, Some(format!("0x{}", "dca7ef03e98e0dc2b855be647c39abe984fcf21b")));
    assert_eq!(acc.version_id, None);
}

#[test]
fn unknown_topic_aborts_resolution() {
    let (mut acc, registry) = fresh(DID);
    let logs = vec![LogRecord { address: registry.clone(), block_number: Some(4), event: None }];
    match apply_logs(&mut acc, &logs, &registry) {
        Err(Error::UnknownTopic) => {},
        other => panic!("expected UnknownTopic, got {:?}", other),
    }
}

#[test]
fn delegate_type_invalid_utf8_fails() {
    let (mut acc, registry) = fresh(DID);
    let mut dtype = vec![0xffu8, 0xfe];
    dtype.resize(32, 0);
    let ev = Event::Delegate(DIDDelegateChanged {
        identity: vec![0u8; 20],
        delegate_type: dtype,
        name: vec![0u8; 32],
        delegate: vec![0x11u8; 20],
        valid_to: u64::MAX,
        previous_change: 0,
    });
    match apply_logs(&mut acc, &vec![log_for(&registry, 2, ev)], &registry) {
        Err(Error::DecodeFailure) => {},
        other => panic!("expected DecodeFailure, got {:?}", other),
    }
}

#[test]
fn service_value_invalid_utf8_fails() {
    let (mut acc, registry) = fresh(DID);
    let ev = Event::Attribute(DIDAttributeChanged {
        identity: vec![0u8; 20],
        name: bytes32("did/svc/Hub"),
        value: vec![0xffu8, 0xfe, 0xfd],
        valid_to: u64::MAX,
        previous_change: 0,
    });
    match apply_logs(&mut acc, &vec![log_for(&registry, 2, ev)], &registry) {
        Err(Error::DecodeFailure) => {},
        other => panic!("expected DecodeFailure, got {:?}", other),
    }
}

#[test]
fn rpc_failure_carries_its_message() {
    assert_eq!(Error::RpcFailure("connection refused".to_string()).message(), "connection refused");
}

#[test]
fn controller_key_for_public_key_identifier() {
    // 68-character identifier owned by itself: #controllerKey appears
    let (doc, address) = prepare_resolution(KEY_DID, "application/did+json").unwrap();
    let identifier = format!("0x{}", address);
    let mut acc = DidDoc::new(doc, false, Some(identifier.clone()));
    acc.chain_id_add("1".to_string());
    let (doc, _, _) = acc.finalize();
    assert_eq!(doc.verification_method.len(), 2);
    let ck = &doc.verification_method[1];
    assert_eq!(ck.id, Some(format!("{}#controllerKey", KEY_DID)));
    assert_eq!(ck._type, "EcdsaSecp256k1VerificationKey2019");
    assert_eq!(ck.private_key_hex, Some(address.clone()));
    assert!(doc.authentication.contains(&format!("{}#controllerKey", KEY_DID)));
    assert!(doc.assertion_method.contains(&format!("{}#controllerKey", KEY_DID)));
}

#[test]
fn no_controller_key_when_controller_differs() {
    // same public-key DID, but ownership moved elsewhere
    let (doc, _) = prepare_resolution(KEY_DID, "application/did+json").unwrap();
    let mut acc = DidDoc::new(
        doc,
        false,
        Some("0xdca7ef03e98e0dc2b855be647c39abe984fcf21b".to_string()),
    );
    acc.chain_id_add("1".to_string());
    let (doc, _, _) = acc.finalize();
    assert_eq!(doc.verification_method.len(), 1);
}

#[test]
fn no_controller_key_for_plain_address() {
    // 42-character identifier: never a #controllerKey, even when it matches
    let (doc, address) = prepare_resolution(DID, "application/did+json").unwrap();
    let mut acc = DidDoc::new(doc, false, Some(format!("0x{}", address)));
    acc.chain_id_add("1".to_string());
    let (doc, _, _) = acc.finalize();
    assert_eq!(doc.verification_method.len(), 1);
    assert!(!doc
        .verification_method
        .iter()
        .any(|k| k.id.as_ref().map_or(false, |i| i.ends_with("#controllerKey"))));
}

#[test]
fn deactivated_document_is_stripped() {
    let (doc, address) = prepare_resolution(DID, "application/did+ld+json").unwrap();
    let mut acc = DidDoc::new(doc, true, Some(format!("0x{}", address)));
    acc.chain_id_add("1".to_string());
    let (doc, deactivated, _) = acc.finalize();
    assert!(deactivated);
    assert!(doc.context.is_empty());
    assert_eq!(doc.id, DID);
    assert_eq!(doc.verification_method.len(), 1);
    assert_eq!(doc.authentication.len(), 1);
    assert!(doc.assertion_method.is_empty());
    assert!(doc.key_agreement.is_empty());
    assert!(doc.services.is_empty());
}

#[test]
fn topic_classification_matches_digests() {
    let owner = ethers::utils::keccak256("DIDOwnerChanged(address,address,uint256)").to_vec();
    let delegate =
        ethers::utils::keccak256("DIDDelegateChanged(address,bytes32,bytes32,address,uint256,uint256)")
            .to_vec();
    let attribute =
        ethers::utils::keccak256("DIDAttributeChanged(address,bytes32,bytes,uint256,uint256)")
            .to_vec();
    assert_eq!(classify_topics(&vec![owner.clone()]), Some(EventKind::Owner));
    assert_eq!(classify_topics(&vec![delegate]), Some(EventKind::Delegate));
    assert_eq!(classify_topics(&vec![vec![0u8; 32], attribute]), Some(EventKind::Attribute));
    assert_eq!(classify_topics(&vec![vec![0u8; 32]]), None);
    assert!(DIDOwnerChanged::is_event_of(&vec![owner]));
    assert!(!DIDOwnerChanged::is_event_of(&vec![vec![1u8; 32]]));
}

#[test]
fn walk_step_orders_logs_and_follows_pointer() {
    let older = LogRecord { address: vec![1u8; 20], block_number: Some(3), event: None };
    let newer = LogRecord { address: vec![1u8; 20], block_number: Some(10), event: None };
    let existing = vec![LogRecord { address: vec![1u8; 20], block_number: Some(12), event: None }];
    let (ordered, next) = collect_step(existing, vec![older, newer], 12);
    // fetched logs go in front, so the oldest block ends up first
    assert_eq!(ordered.len(), 3);
    assert_eq!(ordered[0].block_number, Some(3));
    assert_eq!(ordered[1].block_number, Some(10));
    assert_eq!(ordered[2].block_number, Some(12));
    // the next pointer is the smallest block strictly below the current one
    assert_eq!(next, Some(3));
    // nothing below: the walk ends
    let (_, done) = collect_step(Vec::new(), vec![LogRecord { address: vec![1u8; 20], block_number: Some(12), event: None }], 12);
    assert_eq!(done, None);
}
