//! The three ERC-1056 registry events, their topic recognition, and the way
//! each one is folded into the accumulator.

use vstd::prelude::*;
use vstd::string::*;
use vstd::utf8::{decode_utf8, valid_utf8};

use crate::did::{
    assoc_set, DidDoc, EntryV, KeyPair, KeyPairV, Service, ServiceV, StateV,
    spec_endpoint_of, ServiceEndpoint, assoc_insert, Entry,
};
use crate::error::Error;
use crate::util::{
    dec_str, encode_hex, hex_of, is_word, split_on, split_string, is_word_string, remove_nuls,
    spec_strip0x, strip0x, string_from_utf8, string_from_utf8_lossy, trim_nul_bytes, trim_nuls,
    u64_to_string, utf8_lossy_of, parses_as_json,
};
use crate::verification::{legacy_alias, spec_legacy_alias};
use vstd::utf8::encode_utf8;

verus! {

// ---------------------------------------------------------------------------
// Event records
// ---------------------------------------------------------------------------

/// `DIDOwnerChanged(address indexed identity, address owner, uint256 previousChange)`.
pub struct DIDOwnerChanged {
    pub identity: Vec<u8>,
    pub owner: Vec<u8>,
    pub previous_change: u64,
}

/// Spec-level image of a [`DIDOwnerChanged`].
#[verifier::ext_equal]
pub struct OwnerChangedV {
    pub identity: Seq<u8>,
    pub owner: Seq<u8>,
    pub previous_change: u64,
}

impl DeepView for DIDOwnerChanged {
    type V = OwnerChangedV;

    open spec fn deep_view(&self) -> OwnerChangedV {
        OwnerChangedV {
            identity: self.identity@,
            owner: self.owner@,
            previous_change: self.previous_change,
        }
    }
}

/// `DIDDelegateChanged(address indexed identity, bytes32 delegateType,
/// bytes32 name, address delegate, uint256 validTo, uint256 previousChange)`.
/// `valid_to` is carried but never inspected: expiry-based revocation is an
/// open question of the ERC-1056 projection and deliberately not applied.
pub struct DIDDelegateChanged {
    pub identity: Vec<u8>,
    pub delegate_type: Vec<u8>,
    pub name: Vec<u8>,
    pub delegate: Vec<u8>,
    pub valid_to: u64,
    pub previous_change: u64,
}

/// Spec-level image of a [`DIDDelegateChanged`].
#[verifier::ext_equal]
pub struct DelegateChangedV {
    pub identity: Seq<u8>,
    pub delegate_type: Seq<u8>,
    pub name: Seq<u8>,
    pub delegate: Seq<u8>,
    pub valid_to: u64,
    pub previous_change: u64,
}

impl DeepView for DIDDelegateChanged {
    type V = DelegateChangedV;

    open spec fn deep_view(&self) -> DelegateChangedV {
        DelegateChangedV {
            identity: self.identity@,
            delegate_type: self.delegate_type@,
            name: self.name@,
            delegate: self.delegate@,
            valid_to: self.valid_to,
            previous_change: self.previous_change,
        }
    }
}

/// `DIDAttributeChanged(address indexed identity, bytes32 name, bytes value,
/// uint256 validTo, uint256 previousChange)`.
pub struct DIDAttributeChanged {
    pub identity: Vec<u8>,
    pub name: Vec<u8>,
    pub value: Vec<u8>,
    pub valid_to: u64,
    pub previous_change: u64,
}

/// Spec-level image of a [`DIDAttributeChanged`].
#[verifier::ext_equal]
pub struct AttributeChangedV {
    pub identity: Seq<u8>,
    pub name: Seq<u8>,
    pub value: Seq<u8>,
    pub valid_to: u64,
    pub previous_change: u64,
}

impl DeepView for DIDAttributeChanged {
    type V = AttributeChangedV;

    open spec fn deep_view(&self) -> AttributeChangedV {
        AttributeChangedV {
            identity: self.identity@,
            name: self.name@,
            value: self.value@,
            valid_to: self.valid_to,
            previous_change: self.previous_change,
        }
    }
}

/// A decoded registry change, one of the three event shapes.
pub enum Event {
    Attribute(DIDAttributeChanged),
    Delegate(DIDDelegateChanged),
    Owner(DIDOwnerChanged),
}

/// Spec-level image of an [`Event`].
#[verifier::ext_equal]
pub enum EventV {
    Attribute(AttributeChangedV),
    Delegate(DelegateChangedV),
    Owner(OwnerChangedV),
}

impl DeepView for Event {
    type V = EventV;

    open spec fn deep_view(&self) -> EventV {
        match self {
            Event::Attribute(e) => EventV::Attribute(e.deep_view()),
            Event::Delegate(e) => EventV::Delegate(e.deep_view()),
            Event::Owner(e) => EventV::Owner(e.deep_view()),
        }
    }
}

// ---------------------------------------------------------------------------
// Topic recognition
// ---------------------------------------------------------------------------

/// The Keccak-256 digest of a string's UTF-8 bytes.
pub uninterp spec fn keccak256_of(s: Seq<char>) -> Seq<u8>;

/// Relies on `ethers::utils::keccak256`: the Keccak-256 digest, a pure
/// function of the input bytes.
#[verifier::external_body]
fn keccak256_topic(s: &str) -> (r: Vec<u8>)
    ensures
        r@ == keccak256_of(s@),
{
    ethers::utils::keccak256(s).to_vec()
}

/// The ABI signature of `DIDAttributeChanged`.
pub open spec fn attribute_changed_signature() -> Seq<char> {
    "DIDAttributeChanged(address,bytes32,bytes,uint256,uint256)"@
}

/// The ABI signature of `DIDDelegateChanged`.
pub open spec fn delegate_changed_signature() -> Seq<char> {
    "DIDDelegateChanged(address,bytes32,bytes32,address,uint256,uint256)"@
}

/// The ABI signature of `DIDOwnerChanged`.
pub open spec fn owner_changed_signature() -> Seq<char> {
    "DIDOwnerChanged(address,address,uint256)"@
}

/// Whether a topic vector contains the given 32-byte digest.
pub open spec fn topics_contain(ts: Seq<Seq<u8>>, h: Seq<u8>) -> bool {
    exists|i: int| 0 <= i < ts.len() && ts[i] == h
}

/// Byte-vector equality.
fn bytes_eq(a: &Vec<u8>, b: &Vec<u8>) -> (r: bool)
    ensures
        r == (a@ == b@),
{
    if a.len() != b.len() {
        return false;
    }
    let mut i: usize = 0;
    while i < a.len()
        invariant
            i <= a.len(),
            a@.len() == b@.len(),
            forall|j: int| 0 <= j < i ==> a@[j] == b@[j],
        decreases a.len() - i,
    {
        if a[i] != b[i] {
            return false;
        }
        i = i + 1;
    }
    proof {
        assert(a@ =~= b@);
    }
    true
}

/// Whether some topic equals the given digest.
fn topics_have(topics: &Vec<Vec<u8>>, h: &Vec<u8>) -> (r: bool)
    ensures
        r == topics_contain(topics.deep_view(), h@),
{
    let mut i: usize = 0;
    while i < topics.len()
        invariant
            i <= topics.len(),
            forall|j: int| 0 <= j < i ==> topics.deep_view()[j] != h@,
        decreases topics.len() - i,
    {
        proof {
            assert(topics.deep_view()[i as int] == topics@[i as int]@);
        }
        if bytes_eq(&topics[i], h) {
            proof {
                assert(topics.deep_view()[i as int] == h@);
            }
            return true;
        }
        i = i + 1;
    }
    false
}

/// Which event shape a log's topic vector announces; recognition tries the
/// attribute, delegate and owner digests in that order.
#[derive(Clone, Copy, PartialEq, Eq, Debug)]
pub enum EventKind {
    Attribute,
    Delegate,
    Owner,
}

/// The event kind announced by a topic vector, if any.
pub open spec fn spec_classify(ts: Seq<Seq<u8>>) -> Option<EventKind> {
    if topics_contain(ts, keccak256_of(attribute_changed_signature())) {
        Some(EventKind::Attribute)
    } else if topics_contain(ts, keccak256_of(delegate_changed_signature())) {
        Some(EventKind::Delegate)
    } else if topics_contain(ts, keccak256_of(owner_changed_signature())) {
        Some(EventKind::Owner)
    } else {
        None
    }
}

/// Recognize the event shape a log belongs to from its topic vector.
pub fn classify_topics(topics: &Vec<Vec<u8>>) -> (r: Option<EventKind>)
    ensures
        r == spec_classify(topics.deep_view()),
{
    if DIDAttributeChanged::is_event_of(topics) {
        Some(EventKind::Attribute)
    } else if DIDDelegateChanged::is_event_of(topics) {
        Some(EventKind::Delegate)
    } else if DIDOwnerChanged::is_event_of(topics) {
        Some(EventKind::Owner)
    } else {
        None
    }
}

// ---------------------------------------------------------------------------
// Owner change
// ---------------------------------------------------------------------------

/// The zero address: every byte of the owner field is zero.  Per ERC-1056,
/// setting the owner to the zero address deactivates the identity.
pub open spec fn is_zero_address(b: Seq<u8>) -> bool {
    forall|i: int| 0 <= i < b.len() ==> #[trigger] b[i] == 0
}

/// Whether every byte of an address is zero.
fn bytes_all_zero(b: &Vec<u8>) -> (r: bool)
    ensures
        r == is_zero_address(b@),
{
    let mut i: usize = 0;
    while i < b.len()
        invariant
            i <= b.len(),
            forall|j: int| 0 <= j < i ==> #[trigger] b@[j] == 0,
        decreases b.len() - i,
    {
        if b[i] != 0 {
            return false;
        }
        i = i + 1;
    }
    true
}

/// Folding an owner change into the accumulator: the controller becomes the
/// `0x`-prefixed hex of the new owner, the identity is deactivated exactly
/// when that owner is the zero address, and the delegate counter advances,
/// so delegate numbering also counts owner events.
pub open spec fn spec_apply_owner(s: StateV, ev: OwnerChangedV) -> StateV {
    StateV {
        controller: Some("0x"@ + hex_of(ev.owner)),
        deactivated: is_zero_address(ev.owner),
        delegate_count: (s.delegate_count + 1) as u32,
        ..s
    }
}

impl DIDOwnerChanged {
    /// Whether the topic vector carries the `DIDOwnerChanged` digest.
    pub fn is_event_of(topics: &Vec<Vec<u8>>) -> (r: bool)
        ensures
            r == topics_contain(topics.deep_view(), keccak256_of(owner_changed_signature())),
    {
        let h = keccak256_topic("DIDOwnerChanged(address,address,uint256)");
        topics_have(topics, &h)
    }

    /// Fold this owner change into the accumulator.
    pub fn apply(&self, did_doc: &mut DidDoc) -> (r: Result<(), Error>)
        requires
            old(did_doc).delegate_count < u32::MAX,
        ensures
            r is Ok,
            final(did_doc).deep_view() == spec_apply_owner(
                old(did_doc).deep_view(),
                self.deep_view(),
            ),
    {
        let hex = encode_hex(&self.owner);
        let controller = "0x".to_owned().concat(hex.as_str());
        did_doc.delegate_count = did_doc.delegate_count + 1;
        did_doc.controller = Some(controller);
        did_doc.deactivated = bytes_all_zero(&self.owner);
        proof {
            assert(did_doc.deep_view() =~~= spec_apply_owner(
                old(did_doc).deep_view(),
                self.deep_view(),
            ));
        }
        Ok(())
    }
}

// ---------------------------------------------------------------------------
// Delegate change
// ---------------------------------------------------------------------------

/// The delegate type text: the `bytes32` with its NUL bytes dropped, decoded
/// as UTF-8.  Folding fails exactly when that is not valid UTF-8.
pub open spec fn delegate_type_ok(ev: DelegateChangedV) -> bool {
    valid_utf8(trim_nuls(ev.delegate_type))
}

/// Folding a delegate change into the accumulator.  The delegate counter
/// advances first (also when decoding fails afterwards).  A `sigAuth`
/// delegate adds an authentication and an assertion reference; a `veriKey`
/// delegate adds a blockchain-account verification method and an assertion
/// reference; any other type only advances the counter.
pub open spec fn spec_apply_delegate(s: StateV, ev: DelegateChangedV) -> StateV {
    let n = (s.delegate_count + 1) as u32;
    let s1 = StateV { delegate_count: n, ..s };
    if !delegate_type_ok(ev) {
        s1
    } else {
        let dt = decode_utf8(trim_nuls(ev.delegate_type));
        let delegate = "0x"@ + hex_of(ev.delegate);
        let ei = "DIDDelegateChanged-"@ + dt + "-"@ + delegate;
        let refstr = s.doc.id + "#delegate-"@ + dec_str(n as nat);
        if dt == "sigAuth"@ {
            StateV {
                auth: assoc_set(s1.auth, EntryV { key: ei, value: refstr, number: n }),
                signing_refs: assoc_set(
                    s1.signing_refs,
                    EntryV { key: ei, value: refstr, number: n },
                ),
                ..s1
            }
        } else if dt == "veriKey"@ {
            let kp = KeyPairV {
                id: Some(refstr),
                _type: "EcdsaSecp256k1RecoveryMethod2020"@,
                controller: Some(s.doc.id),
                blockchain_account_id: Some("eip155:"@ + s.chain_id.unwrap() + ":"@ + delegate),
                public_key_hex: None,
                public_key_base64: None,
                public_key_base58: None,
                public_key_pem: None,
                private_key_hex: None,
                value: None,
                revoked: Some(false),
            };
            StateV {
                pks: assoc_set(s1.pks, EntryV { key: ei, value: kp, number: n }),
                signing_refs: assoc_set(
                    s1.signing_refs,
                    EntryV { key: ei, value: refstr, number: n },
                ),
                ..s1
            }
        } else {
            s1
        }
    }
}

impl DIDDelegateChanged {
    /// Whether the topic vector carries the `DIDDelegateChanged` digest.
    pub fn is_event_of(topics: &Vec<Vec<u8>>) -> (r: bool)
        ensures
            r == topics_contain(topics.deep_view(), keccak256_of(delegate_changed_signature())),
    {
        let h = keccak256_topic("DIDDelegateChanged(address,bytes32,bytes32,address,uint256,uint256)");
        topics_have(topics, &h)
    }

    /// Fold this delegate change into the accumulator.  The chain id must
    /// already be installed: delegates embed `eip155:<chainId>:<address>`.
    pub fn apply(&self, did_doc: &mut DidDoc) -> (r: Result<(), Error>)
        requires
            old(did_doc).delegate_count < u32::MAX,
            old(did_doc).chain_id is Some,
        ensures
            r is Ok <==> delegate_type_ok(self.deep_view()),
            r is Err ==> r == Result::<(), Error>::Err(Error::DecodeFailure),
            final(did_doc).deep_view() == spec_apply_delegate(
                old(did_doc).deep_view(),
                self.deep_view(),
            ),
    {
        let chain = if let Some(c) = &did_doc.chain_id {
            c.clone()
        } else {
            String::new()
        };
        did_doc.delegate_count = did_doc.delegate_count + 1;
        let filtered = trim_nul_bytes(&self.delegate_type);
        let dt = match string_from_utf8(&filtered) {
            Some(s) => s,
            None => {
                proof {
                    assert(did_doc.deep_view() =~~= spec_apply_delegate(
                        old(did_doc).deep_view(),
                        self.deep_view(),
                    ));
                }
                return Err(Error::DecodeFailure);
            },
        };
        let delegate = "0x".to_owned().concat(encode_hex(&self.delegate).as_str());
        let event_index = "DIDDelegateChanged-".to_owned().concat(dt.as_str()).concat(
            "-",
        ).concat(delegate.as_str());
        let n = did_doc.delegate_count;
        let del_str = did_doc.doc.id.clone().concat("#delegate-").concat(
            u64_to_string(n as u64).as_str(),
        );
        if dt == "sigAuth".to_owned() {
            assoc_insert(&mut did_doc.auth, event_index.clone(), del_str.clone(), n);
            assoc_insert(&mut did_doc.signing_refs, event_index, del_str, n);
        } else if dt == "veriKey".to_owned() {
            let account = "eip155:".to_owned().concat(chain.as_str()).concat(":").concat(
                delegate.as_str(),
            );
            let kp = KeyPair {
                id: Some(del_str.clone()),
                _type: "EcdsaSecp256k1RecoveryMethod2020".to_owned(),
                controller: Some(did_doc.doc.id.clone()),
                blockchain_account_id: Some(account),
                public_key_hex: None,
                public_key_base64: None,
                public_key_base58: None,
                public_key_pem: None,
                private_key_hex: None,
                value: None,
                revoked: Some(false),
            };
            assoc_insert(&mut did_doc.pks, event_index.clone(), kp, n);
            assoc_insert(&mut did_doc.signing_refs, event_index, del_str, n);
        }
        proof {
            assert(did_doc.deep_view() =~~= spec_apply_delegate(
                old(did_doc).deep_view(),
                self.deep_view(),
            ));
        }
        Ok(())
    }
}

// ---------------------------------------------------------------------------
// Attribute change
// ---------------------------------------------------------------------------

/// The four components of a well-formed attribute name
/// `did/<section>/<algorithm>[/<purpose>][/<encoding>]`; absent optional
/// components are empty strings.
pub struct AttrParts {
    pub section: String,
    pub algorithm: String,
    pub purpose: String,
    pub encoding: String,
}

/// Spec-level image of [`AttrParts`].
#[verifier::ext_equal]
pub struct AttrPartsV {
    pub section: Seq<char>,
    pub algorithm: Seq<char>,
    pub purpose: Seq<char>,
    pub encoding: Seq<char>,
}

impl DeepView for AttrParts {
    type V = AttrPartsV;

    open spec fn deep_view(&self) -> AttrPartsV {
        AttrPartsV {
            section: self.section@,
            algorithm: self.algorithm@,
            purpose: self.purpose@,
            encoding: self.encoding@,
        }
    }
}

/// Parse an attribute name of the shape
/// `did/(pub|svc)/<word>[/<word>][/<word>]`; anything else is `None` and the
/// attribute is silently ignored.
pub open spec fn spec_parse_attr_name(name: Seq<char>) -> Option<AttrPartsV> {
    let segs = split_on(name, '/');
    if 3 <= segs.len() <= 5 && segs[0] == "did"@ && (segs[1] == "pub"@ || segs[1] == "svc"@)
        && is_word(segs[2]) && (segs.len() <= 3 || is_word(segs[3])) && (segs.len() <= 4
        || is_word(segs[4])) {
        Some(
            AttrPartsV {
                section: segs[1],
                algorithm: segs[2],
                purpose: if segs.len() > 3 {
                    segs[3]
                } else {
                    Seq::empty()
                },
                encoding: if segs.len() > 4 {
                    segs[4]
                } else {
                    Seq::empty()
                },
            },
        )
    } else {
        None
    }
}

/// Parse an attribute name into its components.
pub fn parse_attr_name(name: &String) -> (r: Option<AttrParts>)
    ensures
        match r {
            Some(p) => spec_parse_attr_name(name@) == Some(p.deep_view()),
            None => spec_parse_attr_name(name@) is None,
        },
{
    let segs = split_string(name.as_str(), '/');
    let n = segs.len();
    proof {
        assert(segs.deep_view().len() == n as int);
    }
    if n < 3 || n > 5 {
        return None;
    }
    if !(segs[0] == "did".to_owned()) {
        return None;
    }
    let is_pub = segs[1] == "pub".to_owned();
    let is_svc = segs[1] == "svc".to_owned();
    if !is_pub && !is_svc {
        return None;
    }
    if !is_word_string(&segs[2]) {
        return None;
    }
    if n > 3 && !is_word_string(&segs[3]) {
        return None;
    }
    if n > 4 && !is_word_string(&segs[4]) {
        return None;
    }
    let purpose = if n > 3 {
        segs[3].clone()
    } else {
        String::new()
    };
    let encoding = if n > 4 {
        segs[4].clone()
    } else {
        String::new()
    };
    let parts = AttrParts {
        section: segs[1].clone(),
        algorithm: segs[2].clone(),
        purpose,
        encoding,
    };
    proof {
        assert(spec_parse_attr_name(name@) == Some(parts.deep_view())) by {
            assert(parts.deep_view() =~~= spec_parse_attr_name(name@).unwrap());
        }
    }
    Some(parts)
}

/// The suite-name suffix a purpose selects.
pub open spec fn suffix_for_purpose(p: Seq<char>) -> Seq<char> {
    if p == "sigAuth"@ {
        "SignatureAuthentication2018"@
    } else if p == "veriKey"@ {
        "VerificationKey2018"@
    } else if p == "enc"@ {
        "KeyAgreementKey2019"@
    } else {
        ""@
    }
}

/// The verification method an attribute-declared public key becomes: suite
/// name from the legacy alias table (or the bare algorithm), one key field
/// filled according to the declared encoding.
pub open spec fn attr_key_pair(did: Seq<char>, parts: AttrPartsV, value: Seq<char>, n: u32) -> KeyPairV {
    let candidate = parts.algorithm + suffix_for_purpose(parts.purpose);
    let typ = match spec_legacy_alias(candidate) {
        Some(t) => t,
        None => parts.algorithm,
    };
    let base = KeyPairV {
        id: Some(did + "#delegate-"@ + dec_str(n as nat)),
        _type: typ,
        controller: Some(did),
        blockchain_account_id: None,
        public_key_hex: None,
        public_key_base64: None,
        public_key_base58: None,
        public_key_pem: None,
        private_key_hex: None,
        value: None,
        revoked: Some(false),
    };
    if parts.encoding == "hex"@ {
        KeyPairV { public_key_hex: Some(hex_of(encode_utf8(spec_strip0x(value)))), ..base }
    } else if parts.encoding == "base64"@ {
        KeyPairV { public_key_base64: Some(crate::util::base64_of(value)), ..base }
    } else if parts.encoding == "base58"@ {
        KeyPairV { public_key_base58: Some(crate::util::base58_of(value)), ..base }
    } else if parts.encoding == "pem"@ {
        KeyPairV { public_key_pem: Some(remove_nuls(value)), ..base }
    } else {
        KeyPairV { value: Some(spec_strip0x(value)), ..base }
    }
}

/// Build the verification method for an attribute-declared public key.
fn build_attr_key_pair(did: &String, parts: &AttrParts, value: &String, n: u32) -> (r: KeyPair)
    ensures
        r.deep_view() == attr_key_pair(did@, parts.deep_view(), value@, n),
{
    let suffix: &str = if parts.purpose == "sigAuth".to_owned() {
        "SignatureAuthentication2018"
    } else if parts.purpose == "veriKey".to_owned() {
        "VerificationKey2018"
    } else if parts.purpose == "enc".to_owned() {
        "KeyAgreementKey2019"
    } else {
        ""
    };
    let candidate = parts.algorithm.clone().concat(suffix);
    let typ = match legacy_alias(&candidate) {
        Some(t) => t,
        None => parts.algorithm.clone(),
    };
    let id = did.clone().concat("#delegate-").concat(u64_to_string(n as u64).as_str());
    let mut kp = KeyPair {
        id: Some(id),
        _type: typ,
        controller: Some(did.clone()),
        blockchain_account_id: None,
        public_key_hex: None,
        public_key_base64: None,
        public_key_base58: None,
        public_key_pem: None,
        private_key_hex: None,
        value: None,
        revoked: Some(false),
    };
    if parts.encoding == "hex".to_owned() {
        let stripped = strip0x(value.clone());
        let bytes = stripped.as_str().as_bytes_vec();
        kp.public_key_hex = Some(encode_hex(&bytes));
    } else if parts.encoding == "base64".to_owned() {
        kp.public_key_base64 = Some(crate::util::encode_base64(value.clone()));
    } else if parts.encoding == "base58".to_owned() {
        kp.public_key_base58 = Some(crate::util::encode_base58(value.clone()));
    } else if parts.encoding == "pem".to_owned() {
        kp.public_key_pem = Some(crate::util::remove_zero_bytes(value.clone()));
    } else {
        kp.value = Some(strip0x(value.clone()));
    }
    proof {
        assert(kp.deep_view() =~~= attr_key_pair(did@, parts.deep_view(), value@, n));
    }
    kp
}

/// The attribute name text: the `bytes32` with its NUL bytes dropped,
/// decoded leniently.
pub open spec fn attr_name_text(ev: AttributeChangedV) -> Seq<char> {
    utf8_lossy_of(trim_nuls(ev.name))
}

/// The attribute value text used for the event index and the key material:
/// the raw value bytes, decoded leniently.
pub open spec fn attr_value_text(ev: AttributeChangedV) -> Seq<char> {
    utf8_lossy_of(ev.value)
}

/// Folding an attribute change fails exactly when the attribute declares a
/// service and its value is not valid UTF-8.
pub open spec fn attr_ok(ev: AttributeChangedV) -> bool {
    match spec_parse_attr_name(attr_name_text(ev)) {
        Some(parts) => parts.section == "pub"@ || valid_utf8(ev.value),
        None => true,
    }
}

/// Folding an attribute change into the accumulator.  A name that does not
/// parse is silently ignored.  A `pub` attribute adds a verification method
/// and, by purpose, an authentication / assertion / key-agreement reference;
/// a `svc` attribute adds a service whose endpoint is the value's JSON
/// parse, or the raw text when it is not JSON.
pub open spec fn spec_apply_attribute(s: StateV, ev: AttributeChangedV) -> StateV {
    let name = attr_name_text(ev);
    let value = attr_value_text(ev);
    let ei = "DIDAttributeChanged-"@ + name + "-"@ + value;
    match spec_parse_attr_name(name) {
        None => s,
        Some(parts) => {
            if parts.section == "pub"@ {
                let n = (s.delegate_count + 1) as u32;
                let kp = attr_key_pair(s.doc.id, parts, value, n);
                let refstr = s.doc.id + "#delegate-"@ + dec_str(n as nat);
                let s1 = StateV {
                    delegate_count: n,
                    pks: assoc_set(s.pks, EntryV { key: ei, value: kp, number: n }),
                    ..s
                };
                if parts.purpose == "sigAuth"@ {
                    StateV {
                        auth: assoc_set(s1.auth, EntryV { key: ei, value: refstr, number: n }),
                        signing_refs: assoc_set(
                            s1.signing_refs,
                            EntryV { key: ei, value: refstr, number: n },
                        ),
                        ..s1
                    }
                } else if parts.purpose == "veriKey"@ {
                    StateV {
                        key_agreement_refs: assoc_set(
                            s1.key_agreement_refs,
                            EntryV { key: ei, value: kp, number: n },
                        ),
                        ..s1
                    }
                } else {
                    StateV {
                        signing_refs: assoc_set(
                            s1.signing_refs,
                            EntryV { key: ei, value: refstr, number: n },
                        ),
                        ..s1
                    }
                }
            } else {
                let m = (s.service_count + 1) as u32;
                let s1 = StateV { service_count: m, ..s };
                if !valid_utf8(ev.value) {
                    s1
                } else {
                    let text = decode_utf8(ev.value);
                    let svc = ServiceV {
                        id: s.doc.id + "#service-"@ + dec_str(m as nat),
                        _type: parts.algorithm,
                        service_endpoint: spec_endpoint_of(text),
                    };
                    StateV {
                        services: assoc_set(s1.services, EntryV { key: ei, value: svc, number: m }),
                        ..s1
                    }
                }
            }
        },
    }
}

impl DIDAttributeChanged {
    /// Whether the topic vector carries the `DIDAttributeChanged` digest.
    pub fn is_event_of(topics: &Vec<Vec<u8>>) -> (r: bool)
        ensures
            r == topics_contain(topics.deep_view(), keccak256_of(attribute_changed_signature())),
    {
        let h = keccak256_topic("DIDAttributeChanged(address,bytes32,bytes,uint256,uint256)");
        topics_have(topics, &h)
    }

    /// Fold this attribute change into the accumulator.
    pub fn apply(&self, did_doc: &mut DidDoc) -> (r: Result<(), Error>)
        requires
            old(did_doc).delegate_count < u32::MAX,
            old(did_doc).service_count < u32::MAX,
        ensures
            r is Ok <==> attr_ok(self.deep_view()),
            r is Err ==> r == Result::<(), Error>::Err(Error::DecodeFailure),
            final(did_doc).deep_view() == spec_apply_attribute(
                old(did_doc).deep_view(),
                self.deep_view(),
            ),
    {
        let name_bytes = trim_nul_bytes(&self.name);
        let name = string_from_utf8_lossy(&name_bytes);
        let value = string_from_utf8_lossy(&self.value);
        let event_index = "DIDAttributeChanged-".to_owned().concat(name.as_str()).concat(
            "-",
        ).concat(value.as_str());
        let parts = match parse_attr_name(&name) {
            Some(p) => p,
            None => {
                proof {
                    assert(did_doc.deep_view() =~~= spec_apply_attribute(
                        old(did_doc).deep_view(),
                        self.deep_view(),
                    ));
                }
                return Ok(());
            },
        };
        if parts.section == "pub".to_owned() {
            did_doc.delegate_count = did_doc.delegate_count + 1;
            let n = did_doc.delegate_count;
            let del_ref = did_doc.doc.id.clone().concat("#delegate-").concat(
                u64_to_string(n as u64).as_str(),
            );
            let pk = build_attr_key_pair(&did_doc.doc.id, &parts, &value, n);
            let ghost doc_id = did_doc.doc.id@;
            assoc_insert(&mut did_doc.pks, event_index.clone(), pk, n);
            if parts.purpose == "sigAuth".to_owned() {
                assoc_insert(&mut did_doc.auth, event_index.clone(), del_ref.clone(), n);
                assoc_insert(&mut did_doc.signing_refs, event_index, del_ref, n);
            } else if parts.purpose == "veriKey".to_owned() {
                let pk2 = build_attr_key_pair(&did_doc.doc.id, &parts, &value, n);
                assoc_insert(&mut did_doc.key_agreement_refs, event_index, pk2, n);
            } else {
                assoc_insert(&mut did_doc.signing_refs, event_index, del_ref, n);
            }
            proof {
                assert(did_doc.deep_view() =~~= spec_apply_attribute(
                    old(did_doc).deep_view(),
                    self.deep_view(),
                ));
            }
            Ok(())
        } else {
            did_doc.service_count = did_doc.service_count + 1;
            let m = did_doc.service_count;
            let text = match string_from_utf8(&self.value) {
                Some(t) => t,
                None => {
                    proof {
                        assert(did_doc.deep_view() =~~= spec_apply_attribute(
                            old(did_doc).deep_view(),
                            self.deep_view(),
                        ));
                    }
                    return Err(Error::DecodeFailure);
                },
            };
            let sid = did_doc.doc.id.clone().concat("#service-").concat(
                u64_to_string(m as u64).as_str(),
            );
            let endpoint = if parses_as_json(text.as_str()) {
                ServiceEndpoint::Json(text)
            } else {
                ServiceEndpoint::Text(text)
            };
            let svc = Service { id: sid, _type: parts.algorithm.clone(), service_endpoint: endpoint };
            assoc_insert(&mut did_doc.services, event_index, svc, m);
            proof {
                assert(did_doc.deep_view() =~~= spec_apply_attribute(
                    old(did_doc).deep_view(),
                    self.deep_view(),
                ));
            }
            Ok(())
        }
    }
}

impl Event {
    /// Fold a decoded registry change into the accumulator.
    pub fn apply(&self, did_doc: &mut DidDoc) -> (r: Result<(), Error>)
        requires
            old(did_doc).delegate_count < u32::MAX,
            old(did_doc).service_count < u32::MAX,
            old(did_doc).chain_id is Some,
        ensures
            r is Ok <==> event_ok(self.deep_view()),
            r is Err ==> r == Result::<(), Error>::Err(Error::DecodeFailure),
            final(did_doc).deep_view() == spec_apply_event(
                old(did_doc).deep_view(),
                self.deep_view(),
            ),
    {
        match self {
            Event::Attribute(e) => e.apply(did_doc),
            Event::Delegate(e) => e.apply(did_doc),
            Event::Owner(e) => e.apply(did_doc),
        }
    }
}

/// Whether folding the event succeeds.
pub open spec fn event_ok(ev: EventV) -> bool {
    match ev {
        EventV::Attribute(e) => attr_ok(e),
        EventV::Delegate(e) => delegate_type_ok(e),
        EventV::Owner(_) => true,
    }
}

/// Folding one decoded registry change into the accumulator state.
pub open spec fn spec_apply_event(s: StateV, ev: EventV) -> StateV {
    match ev {
        EventV::Attribute(e) => spec_apply_attribute(s, e),
        EventV::Delegate(e) => spec_apply_delegate(s, e),
        EventV::Owner(e) => spec_apply_owner(s, e),
    }
}

} // verus!
