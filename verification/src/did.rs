//! The DID document model and the accumulator that folds registry events
//! into a document.

use vstd::prelude::*;
use vstd::string::*;
use vstd::pervasive::VecAdditionalExecFns;

use crate::util::{dec_str, json_parses};

verus! {

// ---------------------------------------------------------------------------
// Document data model
// ---------------------------------------------------------------------------

/// A verification method (or key reference) of a DID document.  Exactly the
/// fields the `did:ethr` projection can populate.
#[derive(Debug, PartialEq)]
pub struct KeyPair {
    pub id: Option<String>,
    pub _type: String,
    pub controller: Option<String>,
    pub blockchain_account_id: Option<String>,
    pub public_key_hex: Option<String>,
    pub public_key_base64: Option<String>,
    pub public_key_base58: Option<String>,
    pub public_key_pem: Option<String>,
    pub private_key_hex: Option<String>,
    pub value: Option<String>,
    pub revoked: Option<bool>,
}

/// Spec-level image of a [`KeyPair`].
#[verifier::ext_equal]
pub struct KeyPairV {
    pub id: Option<Seq<char>>,
    pub _type: Seq<char>,
    pub controller: Option<Seq<char>>,
    pub blockchain_account_id: Option<Seq<char>>,
    pub public_key_hex: Option<Seq<char>>,
    pub public_key_base64: Option<Seq<char>>,
    pub public_key_base58: Option<Seq<char>>,
    pub public_key_pem: Option<Seq<char>>,
    pub private_key_hex: Option<Seq<char>>,
    pub value: Option<Seq<char>>,
    pub revoked: Option<bool>,
}

impl DeepView for KeyPair {
    type V = KeyPairV;

    open spec fn deep_view(&self) -> KeyPairV {
        KeyPairV {
            id: self.id.deep_view(),
            _type: self._type@,
            controller: self.controller.deep_view(),
            blockchain_account_id: self.blockchain_account_id.deep_view(),
            public_key_hex: self.public_key_hex.deep_view(),
            public_key_base64: self.public_key_base64.deep_view(),
            public_key_base58: self.public_key_base58.deep_view(),
            public_key_pem: self.public_key_pem.deep_view(),
            private_key_hex: self.private_key_hex.deep_view(),
            value: self.value.deep_view(),
            revoked: self.revoked,
        }
    }
}

/// A service endpoint: either text that parses as JSON (handed on as the
/// parsed JSON value) or plain text.
#[derive(Debug, PartialEq)]
pub enum ServiceEndpoint {
    Json(String),
    Text(String),
}

/// Spec-level image of a [`ServiceEndpoint`].
#[verifier::ext_equal]
pub enum ServiceEndpointV {
    Json(Seq<char>),
    Text(Seq<char>),
}

impl DeepView for ServiceEndpoint {
    type V = ServiceEndpointV;

    open spec fn deep_view(&self) -> ServiceEndpointV {
        match self {
            ServiceEndpoint::Json(s) => ServiceEndpointV::Json(s@),
            ServiceEndpoint::Text(s) => ServiceEndpointV::Text(s@),
        }
    }
}

/// The endpoint the projection assigns to a service attribute value.
pub open spec fn spec_endpoint_of(text: Seq<char>) -> ServiceEndpointV {
    if json_parses(text) {
        ServiceEndpointV::Json(text)
    } else {
        ServiceEndpointV::Text(text)
    }
}

/// A service entry of a DID document.
#[derive(Debug, PartialEq)]
pub struct Service {
    pub id: String,
    pub _type: String,
    pub service_endpoint: ServiceEndpoint,
}

/// Spec-level image of a [`Service`].
#[verifier::ext_equal]
pub struct ServiceV {
    pub id: Seq<char>,
    pub _type: Seq<char>,
    pub service_endpoint: ServiceEndpointV,
}

impl DeepView for Service {
    type V = ServiceV;

    open spec fn deep_view(&self) -> ServiceV {
        ServiceV {
            id: self.id@,
            _type: self._type@,
            service_endpoint: self.service_endpoint.deep_view(),
        }
    }
}

/// A W3C DID document.
#[derive(Debug, PartialEq)]
pub struct DidDocument {
    pub context: Vec<String>,
    pub id: String,
    pub verification_method: Vec<KeyPair>,
    pub authentication: Vec<String>,
    pub assertion_method: Vec<String>,
    pub capability_delegation: Vec<String>,
    pub capability_invocation: Vec<String>,
    pub key_agreement: Vec<KeyPair>,
    pub services: Vec<Service>,
}

/// Spec-level image of a [`DidDocument`].
#[verifier::ext_equal]
pub struct DidDocumentV {
    pub context: Seq<Seq<char>>,
    pub id: Seq<char>,
    pub verification_method: Seq<KeyPairV>,
    pub authentication: Seq<Seq<char>>,
    pub assertion_method: Seq<Seq<char>>,
    pub capability_delegation: Seq<Seq<char>>,
    pub capability_invocation: Seq<Seq<char>>,
    pub key_agreement: Seq<KeyPairV>,
    pub services: Seq<ServiceV>,
}

impl DeepView for DidDocument {
    type V = DidDocumentV;

    open spec fn deep_view(&self) -> DidDocumentV {
        DidDocumentV {
            context: self.context.deep_view(),
            id: self.id@,
            verification_method: self.verification_method.deep_view(),
            authentication: self.authentication.deep_view(),
            assertion_method: self.assertion_method.deep_view(),
            capability_delegation: self.capability_delegation.deep_view(),
            capability_invocation: self.capability_invocation.deep_view(),
            key_agreement: self.key_agreement.deep_view(),
            services: self.services.deep_view(),
        }
    }
}

// ---------------------------------------------------------------------------
// Keyed maps with stable insertion order
// ---------------------------------------------------------------------------

/// One entry of a keyed map: the event index it was stored under, the stored
/// value, and the delegate / service counter value it was created with.
pub struct Entry<V> {
    pub key: String,
    pub value: V,
    pub number: u32,
}

/// Spec-level image of an [`Entry`].
#[verifier::ext_equal]
pub struct EntryV<VV> {
    pub key: Seq<char>,
    pub value: VV,
    pub number: u32,
}

impl<V: DeepView> DeepView for Entry<V> {
    type V = EntryV<<V as DeepView>::V>;

    open spec fn deep_view(&self) -> EntryV<<V as DeepView>::V> {
        EntryV { key: self.key@, value: self.value.deep_view(), number: self.number }
    }
}

/// Whether the keyed map holds the key.
pub open spec fn assoc_has_key<VV>(m: Seq<EntryV<VV>>, k: Seq<char>) -> bool {
    exists|i: int| 0 <= i < m.len() && m[i].key == k
}

/// Index of the first entry with the given key.
pub open spec fn assoc_key_index<VV>(m: Seq<EntryV<VV>>, k: Seq<char>) -> int
    decreases m.len(),
{
    if m.len() == 0 {
        0
    } else if m[0].key == k {
        0
    } else {
        1 + assoc_key_index(m.skip(1), k)
    }
}

/// Store an entry: overwrite the first entry with the same key in place, or
/// append at the end.  Later events thus shadow earlier ones with the same
/// event index while insertion order stays stable.
pub open spec fn assoc_set<VV>(m: Seq<EntryV<VV>>, e: EntryV<VV>) -> Seq<EntryV<VV>> {
    if assoc_has_key(m, e.key) {
        m.update(assoc_key_index(m, e.key), e)
    } else {
        m.push(e)
    }
}

/// The values of a keyed map, in entry order.
pub open spec fn assoc_values<VV>(m: Seq<EntryV<VV>>) -> Seq<VV> {
    m.map_values(|e: EntryV<VV>| e.value)
}

/// The key set of a keyed map.
pub open spec fn assoc_key_set<VV>(m: Seq<EntryV<VV>>) -> Set<Seq<char>> {
    Set::new(|k: Seq<char>| assoc_has_key(m, k))
}

/// An index found by a left-to-right scan is the index the spec names.
proof fn lemma_assoc_key_index<VV>(m: Seq<EntryV<VV>>, k: Seq<char>, i: int)
    requires
        0 <= i < m.len(),
        m[i].key == k,
        forall|j: int| 0 <= j < i ==> m[j].key != k,
    ensures
        assoc_has_key(m, k),
        assoc_key_index(m, k) == i,
    decreases i,
{
    if i > 0 {
        lemma_assoc_key_index(m.skip(1), k, i - 1);
    }
}

/// Storing never removes keys and adds exactly the stored key.
pub proof fn lemma_assoc_set_keys<VV>(m: Seq<EntryV<VV>>, e: EntryV<VV>)
    ensures
        assoc_key_set(assoc_set(m, e)) =~= assoc_key_set(m).insert(e.key),
        assoc_set(m, e).len() == if assoc_has_key(m, e.key) {
            m.len() as int
        } else {
            m.len() + 1 as int
        },
{
    if assoc_has_key(m, e.key) {
        let i = assoc_key_index(m, e.key);
        lemma_assoc_key_index_in_range(m, e.key);
        assert forall|k: Seq<char>| assoc_has_key(m, k) implies assoc_has_key(
            assoc_set(m, e),
            k,
        ) by {
            let w = choose|w: int| 0 <= w < m.len() && m[w].key == k;
            if w == i {
                assert(assoc_set(m, e)[i].key == e.key);
            } else {
                assert(assoc_set(m, e)[w].key == k);
            }
        }
        assert(assoc_set(m, e)[i].key == e.key);
    } else {
        assert forall|k: Seq<char>| assoc_has_key(m, k) implies assoc_has_key(
            assoc_set(m, e),
            k,
        ) by {
            let w = choose|w: int| 0 <= w < m.len() && m[w].key == k;
            assert(assoc_set(m, e)[w].key == k);
        }
        assert(assoc_set(m, e)[m.len() as int].key == e.key);
    }
}

/// When the key is present, its spec index is in range and carries it.
pub proof fn lemma_assoc_key_index_in_range<VV>(m: Seq<EntryV<VV>>, k: Seq<char>)
    requires
        assoc_has_key(m, k),
    ensures
        0 <= assoc_key_index(m, k) < m.len(),
        m[assoc_key_index(m, k)].key == k,
    decreases m.len(),
{
    if m.len() > 0 && m[0].key != k {
        assert(assoc_has_key(m.skip(1), k)) by {
            let w = choose|w: int| 0 <= w < m.len() && m[w].key == k;
            assert(m.skip(1)[w - 1].key == k);
        }
        lemma_assoc_key_index_in_range(m.skip(1), k);
    }
}

/// Store a value in a keyed map: overwrite in place on a key hit, append
/// otherwise.
pub fn assoc_insert<V: DeepView>(m: &mut Vec<Entry<V>>, key: String, value: V, number: u32)
    ensures
        final(m).deep_view() == assoc_set(
            old(m).deep_view(),
            EntryV { key: key@, value: value.deep_view(), number },
        ),
{
    let ghost e = EntryV { key: key@, value: value.deep_view(), number };
    let mut i: usize = 0;
    while i < m.len()
        invariant
            i <= m.len(),
            m == old(m),
            e == (EntryV { key: key@, value: value.deep_view(), number }),
            forall|j: int| 0 <= j < i ==> old(m).deep_view()[j].key != key@,
        decreases m.len() - i,
    {
        if m[i].key == key {
            proof {
                assert(old(m).deep_view()[i as int].key == key@);
                lemma_assoc_key_index(old(m).deep_view(), key@, i as int);
            }
            let ent = Entry { key, value, number };
            proof {
                assert(ent.deep_view() == e);
            }
            m.set(i, ent);
            proof {
                let dv = m.deep_view();
                let odv = old(m).deep_view();
                let av = assoc_set(odv, e);
                assert forall|j: int| 0 <= j < dv.len() implies dv[j] == av[j] by {
                    if j == i {
                        assert(m@[j].deep_view() == e);
                        assert(av[j] == e);
                    } else {
                        assert(m@[j] == old(m)@[j]);
                        assert(av[j] == odv[j]);
                    }
                }
                assert(dv =~= av);
            }
            return ;
        }
        i = i + 1;
    }
    proof {
        assert(!assoc_has_key(old(m).deep_view(), key@));
    }
    m.push(Entry { key, value, number });
    proof {
        assert(m.deep_view() =~~= assoc_set(old(m).deep_view(), e));
    }
}

// ---------------------------------------------------------------------------
// The accumulator
// ---------------------------------------------------------------------------

/// The in-memory accumulator that registry events are folded into.  The five
/// keyed maps are indexed by a deterministic event index, so that later
/// events shadow earlier ones with the same logical target.
pub struct DidDoc {
    pub doc: DidDocument,
    pub deactivated: bool,
    pub controller: Option<String>,
    pub version_id: Option<u64>,
    pub delegate_count: u32,
    pub service_count: u32,
    pub auth: Vec<Entry<String>>,
    pub key_agreement_refs: Vec<Entry<KeyPair>>,
    pub signing_refs: Vec<Entry<String>>,
    pub pks: Vec<Entry<KeyPair>>,
    pub services: Vec<Entry<Service>>,
    pub chain_id: Option<String>,
}

/// Spec-level image of the accumulator.
#[verifier::ext_equal]
pub struct StateV {
    pub doc: DidDocumentV,
    pub deactivated: bool,
    pub controller: Option<Seq<char>>,
    pub version_id: Option<u64>,
    pub delegate_count: u32,
    pub service_count: u32,
    pub auth: Seq<EntryV<Seq<char>>>,
    pub key_agreement_refs: Seq<EntryV<KeyPairV>>,
    pub signing_refs: Seq<EntryV<Seq<char>>>,
    pub pks: Seq<EntryV<KeyPairV>>,
    pub services: Seq<EntryV<ServiceV>>,
    pub chain_id: Option<Seq<char>>,
}

impl DeepView for DidDoc {
    type V = StateV;

    open spec fn deep_view(&self) -> StateV {
        StateV {
            doc: self.doc.deep_view(),
            deactivated: self.deactivated,
            controller: self.controller.deep_view(),
            version_id: self.version_id,
            delegate_count: self.delegate_count,
            service_count: self.service_count,
            auth: self.auth.deep_view(),
            key_agreement_refs: self.key_agreement_refs.deep_view(),
            signing_refs: self.signing_refs.deep_view(),
            pks: self.pks.deep_view(),
            services: self.services.deep_view(),
            chain_id: self.chain_id.deep_view(),
        }
    }
}

/// The synthetic `#controller` verification method every document gets: the
/// current controller as a blockchain account on the resolved chain.
pub open spec fn controller_method(s: StateV) -> KeyPairV {
    KeyPairV {
        id: Some(s.doc.id + "#controller"@),
        _type: "EcdsaSecp256k1RecoveryMethod2020"@,
        controller: Some(s.doc.id),
        blockchain_account_id: Some(
            "eip155:"@ + (if s.chain_id is Some {
                s.chain_id.unwrap()
            } else {
                ""@
            }) + ":"@ + (if s.controller is Some {
                s.controller.unwrap()
            } else {
                ""@
            }),
        ),
        public_key_hex: None,
        public_key_base64: None,
        public_key_base58: None,
        public_key_pem: None,
        private_key_hex: None,
        value: None,
        revoked: Some(false),
    }
}

/// Whether the document gets a `#controllerKey` method: the DID identifier
/// is long enough to be a compressed public key and the current controller
/// is exactly that identifier.
pub open spec fn has_controller_key(s: StateV) -> bool {
    crate::util::spec_get_public_key(s.doc.id) is Some && s.controller == Some(
        crate::util::spec_identifier(s.doc.id),
    )
}

/// The `#controllerKey` verification method: the identifier's key material
/// itself, without its `0x` prefix.
pub open spec fn controller_key_method(s: StateV) -> KeyPairV {
    KeyPairV {
        id: Some(s.doc.id + "#controllerKey"@),
        _type: "EcdsaSecp256k1VerificationKey2019"@,
        controller: Some(s.doc.id),
        blockchain_account_id: None,
        public_key_hex: None,
        public_key_base64: None,
        public_key_base58: None,
        public_key_pem: None,
        private_key_hex: Some(crate::util::spec_strip0x(crate::util::spec_identifier(s.doc.id))),
        value: None,
        revoked: None,
    }
}

/// The projection of the accumulated state into a document: seed the key
/// list with `#controller` (and `#controllerKey` when owed), reference both
/// from `authentication` and `assertionMethod`, append the accumulated
/// references, methods, key agreements and services, and strip everything
/// but keys when the identity is deactivated.
pub open spec fn spec_finalize(s: StateV) -> DidDocumentV {
    let ctrl_ref = s.doc.id + "#controller"@;
    let ck_ref = s.doc.id + "#controllerKey"@;
    let public_keys = if has_controller_key(s) {
        seq![controller_method(s), controller_key_method(s)]
    } else {
        seq![controller_method(s)]
    };
    let ctrl_refs = if has_controller_key(s) {
        seq![ctrl_ref, ck_ref]
    } else {
        seq![ctrl_ref]
    };
    let authentication = s.doc.authentication + ctrl_refs + assoc_values(s.auth);
    let assertion_method = s.doc.assertion_method + ctrl_refs + assoc_values(s.signing_refs);
    let verification_method = s.doc.verification_method + public_keys + assoc_values(s.pks);
    let key_agreement = s.doc.key_agreement + assoc_values(s.key_agreement_refs);
    let services = s.doc.services + assoc_values(s.services);
    if s.deactivated {
        DidDocumentV {
            context: Seq::empty(),
            id: s.doc.id,
            verification_method,
            authentication,
            assertion_method: Seq::empty(),
            capability_delegation: Seq::empty(),
            capability_invocation: Seq::empty(),
            key_agreement: Seq::empty(),
            services: Seq::empty(),
        }
    } else {
        DidDocumentV {
            context: s.doc.context,
            id: s.doc.id,
            verification_method,
            authentication,
            assertion_method,
            capability_delegation: s.doc.capability_delegation,
            capability_invocation: s.doc.capability_invocation,
            key_agreement,
            services,
        }
    }
}

/// The values of a keyed map, in entry order.
pub fn entry_values<V: DeepView>(m: Vec<Entry<V>>) -> (r: Vec<V>)
    ensures
        r.deep_view() == assoc_values(m.deep_view()),
{
    let ghost orig = m.deep_view();
    let mut m = m;
    let mut out: Vec<V> = Vec::new();
    let ghost mut k = 0int;
    while m.len() > 0
        invariant
            0 <= k <= orig.len(),
            m.deep_view() == orig.skip(k),
            out.deep_view() == assoc_values(orig.take(k)),
        decreases m.len(),
    {
        let ghost mpre = m@;
        let ghost mpredv = m.deep_view();
        proof {
            assert(mpredv.len() == mpre.len());
            assert(orig.skip(k).len() == orig.len() - k);
            assert(k < orig.len());
            assert(orig.skip(k)[0] == orig[k]);
            assert(mpredv[0] == mpre[0].deep_view());
        }
        let e = m.remove(0);
        proof {
            assert(e.deep_view() == orig[k]);
            assert(m@ =~= mpre.skip(1));
            assert forall|j: int| 0 <= j < m.deep_view().len() implies m.deep_view()[j]
                == orig.skip(k + 1)[j] by {
                assert(m.deep_view()[j] == m@[j].deep_view());
                assert(m@[j] == mpre[j + 1]);
                assert(mpredv[j + 1] == mpre[j + 1].deep_view());
                assert(mpredv[j + 1] == orig.skip(k)[j + 1]);
                assert(orig.skip(k)[j + 1] == orig[k + 1 + j]);
                assert(orig.skip(k + 1)[j] == orig[k + 1 + j]);
            }
            assert(m.deep_view() =~= orig.skip(k + 1));
        }
        let ghost outpre = out.deep_view();
        out.push(e.value);
        proof {
            assert(outpre.len() == orig.take(k).len());
            assert(outpre.len() == k);
            assert(out.deep_view().len() == out@.len());
            assert(out@.len() == k + 1);
            assert(assoc_values(orig.take(k + 1)).len() == k + 1);
            assert forall|j: int| 0 <= j < out.deep_view().len() implies out.deep_view()[j]
                == assoc_values(orig.take(k + 1))[j] by {
                assert(out.deep_view()[j] == out@[j].deep_view());
                if j < k {
                    assert(outpre[j] == assoc_values(orig.take(k))[j]);
                    assert(assoc_values(orig.take(k))[j] == orig.take(k)[j].value);
                    assert(orig.take(k)[j] == orig[j]);
                    assert(orig.take(k + 1)[j] == orig[j]);
                } else {
                    assert(j == k);
                    assert(out@[j] == e.value);
                    assert(orig.take(k + 1)[j] == orig[k]);
                }
            }
            assert(out.deep_view() =~= assoc_values(orig.take(k + 1)));
            k = k + 1;
        }
    }
    proof {
        assert(orig.take(k) =~= orig);
    }
    out
}

impl DidDoc {
    /// A fresh accumulator around a document skeleton: zero counters, empty
    /// keyed maps, no version and no chain id yet.
    pub fn new(doc: DidDocument, deactivated: bool, controller: Option<String>) -> (r: DidDoc)
        ensures
            r.deep_view() == (StateV {
                doc: doc.deep_view(),
                deactivated,
                controller: controller.deep_view(),
                version_id: None,
                delegate_count: 0,
                service_count: 0,
                auth: Seq::empty(),
                key_agreement_refs: Seq::empty(),
                signing_refs: Seq::empty(),
                pks: Seq::empty(),
                services: Seq::empty(),
                chain_id: None,
            }),
    {
        let r = DidDoc {
            doc,
            deactivated,
            controller,
            version_id: None,
            delegate_count: 0,
            service_count: 0,
            auth: Vec::new(),
            key_agreement_refs: Vec::new(),
            signing_refs: Vec::new(),
            pks: Vec::new(),
            services: Vec::new(),
            chain_id: None,
        };
        proof {
            assert(r.auth.deep_view() =~= Seq::<EntryV<Seq<char>>>::empty());
            assert(r.key_agreement_refs.deep_view() =~= Seq::<EntryV<KeyPairV>>::empty());
            assert(r.signing_refs.deep_view() =~= Seq::<EntryV<Seq<char>>>::empty());
            assert(r.pks.deep_view() =~= Seq::<EntryV<KeyPairV>>::empty());
            assert(r.services.deep_view() =~= Seq::<EntryV<ServiceV>>::empty());
        }
        r
    }

    /// Project the accumulated state into the final document.  The document
    /// gets a synthetic `#controller` verification method, a `#controllerKey`
    /// method when the DID identifier is itself a public key owned by the
    /// current controller, the accumulated references and services, and is
    /// stripped down to its keys when the identity is deactivated.  Also
    /// returns the deactivation flag and the version (the block number of
    /// the last applied log).
    pub fn finalize(self) -> (r: (DidDocument, bool, Option<u64>))
        ensures
            r.0.deep_view() == spec_finalize(self.deep_view()),
            r.1 == self.deactivated,
            r.2 == self.version_id,
    {
        let ghost s = self.deep_view();
        let DidDoc {
            doc,
            deactivated,
            controller,
            version_id,
            delegate_count: _,
            service_count: _,
            auth,
            key_agreement_refs,
            signing_refs,
            pks,
            services,
            chain_id,
        } = self;
        let DidDocument {
            context,
            id,
            verification_method,
            authentication,
            assertion_method,
            capability_delegation,
            capability_invocation,
            key_agreement,
            services: doc_services,
        } = doc;

        let chain_str = match chain_id {
            Some(v) => v,
            None => "".to_owned(),
        };
        let controller_str = match &controller {
            Some(v) => v.clone(),
            None => "".to_owned(),
        };

        let mut public_keys: Vec<KeyPair> = Vec::new();
        public_keys.push(
            KeyPair {
                id: Some(id.clone().concat("#controller")),
                _type: "EcdsaSecp256k1RecoveryMethod2020".to_owned(),
                controller: Some(id.clone()),
                blockchain_account_id: Some(
                    "eip155:".to_owned().concat(chain_str.as_str()).concat(":").concat(
                        controller_str.as_str(),
                    ),
                ),
                public_key_hex: None,
                public_key_base64: None,
                public_key_base58: None,
                public_key_pem: None,
                private_key_hex: None,
                value: None,
                revoked: Some(false),
            },
        );

        let mut authentication_vec = authentication;
        let mut assertion_method_vec = assertion_method;
        let mut verification_method_vec = verification_method;
        let mut key_agreement_vec = key_agreement;
        let mut services_vec = doc_services;

        authentication_vec.push(id.clone().concat("#controller"));
        assertion_method_vec.push(id.clone().concat("#controller"));

        match crate::util::get_public_key(id.clone()) {
            Some(controller_key_val) => {
                let address = crate::util::extract_identifier(id.as_str());
                let controller_matches = match &controller {
                    Some(c) => *c == address,
                    None => false,
                };
                if controller_matches {
                    public_keys.push(
                        KeyPair {
                            id: Some(id.clone().concat("#controllerKey")),
                            _type: "EcdsaSecp256k1VerificationKey2019".to_owned(),
                            controller: Some(id.clone()),
                            blockchain_account_id: None,
                            public_key_hex: None,
                            public_key_base64: None,
                            public_key_base58: None,
                            public_key_pem: None,
                            private_key_hex: Some(crate::util::strip0x(controller_key_val)),
                            value: None,
                            revoked: None,
                        },
                    );
                    authentication_vec.push(id.clone().concat("#controllerKey"));
                    assertion_method_vec.push(id.clone().concat("#controllerKey"));
                }
            },
            None => {},
        }

        let mut signing_ref_values = entry_values(signing_refs);
        assertion_method_vec.append(&mut signing_ref_values);

        let mut auth_values = entry_values(auth);
        authentication_vec.append(&mut auth_values);

        let mut pk_values = entry_values(pks);
        verification_method_vec.append(&mut public_keys);
        verification_method_vec.append(&mut pk_values);

        let mut service_values = entry_values(services);
        services_vec.append(&mut service_values);

        let mut key_agreement_values = entry_values(key_agreement_refs);
        key_agreement_vec.append(&mut key_agreement_values);

        let out = if deactivated {
            DidDocument {
                context: Vec::new(),
                id,
                verification_method: verification_method_vec,
                authentication: authentication_vec,
                assertion_method: Vec::new(),
                capability_delegation: Vec::new(),
                capability_invocation: Vec::new(),
                key_agreement: Vec::new(),
                services: Vec::new(),
            }
        } else {
            DidDocument {
                context,
                id,
                verification_method: verification_method_vec,
                authentication: authentication_vec,
                assertion_method: assertion_method_vec,
                capability_delegation,
                capability_invocation,
                key_agreement: key_agreement_vec,
                services: services_vec,
            }
        };
        proof {
            assert(out.deep_view() =~~= spec_finalize(s));
        }
        (out, deactivated, version_id)
    }

    /// Install the chain id fetched from the RPC endpoint, decimal-rendered;
    /// a chain id that is already present is kept.
    pub fn chain_id_add(&mut self, chain_id: String)
        ensures
            final(self).deep_view() == (StateV {
                chain_id: if old(self).chain_id is Some {
                    old(self).deep_view().chain_id
                } else {
                    Some(chain_id@)
                },
                ..old(self).deep_view()
            }),
    {
        if self.chain_id.is_none() {
            self.chain_id = Some(chain_id);
        }
        proof {
            assert(self.deep_view() =~~= (StateV {
                chain_id: if old(self).chain_id is Some {
                    old(self).deep_view().chain_id
                } else {
                    Some(chain_id@)
                },
                ..old(self).deep_view()
            }));
        }
    }
}

} // verus!
