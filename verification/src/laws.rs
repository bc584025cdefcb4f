//! Document-level laws of the projection: identity preservation, uniqueness
//! of the controller method, the controller-key condition, referential
//! integrity of the projected document, monotonic delegate numbering,
//! determinism of replay, and the collapse of repeated events.

use vstd::prelude::*;

use crate::did::{
    assoc_key_index, assoc_key_set, assoc_set, assoc_values, has_controller_key,
    lemma_assoc_key_index_in_range, lemma_assoc_set_keys, spec_finalize, DidDocumentV, EntryV,
    KeyPairV, StateV,
};
use crate::error::Error;
use crate::ethr::{spec_apply_logs, LogRecordV};
use crate::events::{spec_apply_event, EventV};
use crate::util::{dec_str, has_suffix};

verus! {

// ---------------------------------------------------------------------------
// Frame lemmas for the keyed maps
// ---------------------------------------------------------------------------

/// Every entry of a keyed map after a store is the stored entry or an entry
/// the map already had, at its old position.
pub proof fn lemma_assoc_set_frame<VV>(m: Seq<EntryV<VV>>, e: EntryV<VV>)
    ensures
        forall|i: int|
            0 <= i < assoc_set(m, e).len() ==> (#[trigger] assoc_set(m, e)[i] == e || (0 <= i
                < m.len() && assoc_set(m, e)[i] == m[i])),
{
    if crate::did::assoc_has_key(m, e.key) {
        lemma_assoc_key_index_in_range(m, e.key);
    }
}

// ---------------------------------------------------------------------------
// Well-formed accumulator states
// ---------------------------------------------------------------------------

/// Every accumulated verification method is a delegate method of this
/// document: its id is `<did>#delegate-<number>` for its stored counter
/// value.
pub open spec fn wf_state(s: StateV) -> bool {
    forall|i: int|
        0 <= i < s.pks.len() ==> (#[trigger] s.pks[i]).value.id == Some(
            s.doc.id + "#delegate-"@ + dec_str(s.pks[i].number as nat),
        )
}

/// Folding an event does not change the document skeleton held by the
/// accumulator (only `finalize` projects into it), nor the chain id.
/// (`deactivated` is not preserved: an owner change rewrites it.)
pub proof fn lemma_event_preserves_doc(s: StateV, ev: EventV)
    ensures
        spec_apply_event(s, ev).doc == s.doc,
        spec_apply_event(s, ev).chain_id == s.chain_id,
{
}

/// Folding an event preserves well-formedness of the accumulated methods.
pub proof fn lemma_event_preserves_wf(s: StateV, ev: EventV)
    requires
        wf_state(s),
    ensures
        wf_state(spec_apply_event(s, ev)),
{
    let s2 = spec_apply_event(s, ev);
    lemma_event_preserves_doc(s, ev);
    match ev {
        EventV::Owner(_) => {
        },
        EventV::Delegate(d) => {
            if crate::events::delegate_type_ok(d) {
                let dt = vstd::utf8::decode_utf8(crate::util::trim_nuls(d.delegate_type));
                if dt == "veriKey"@ {
                    let n = (s.delegate_count + 1) as u32;
                    let ei = "DIDDelegateChanged-"@ + dt + "-"@ + ("0x"@ + crate::util::hex_of(
                        d.delegate,
                    ));
                    lemma_assoc_set_frame(
                        s.pks,
                        EntryV {
                            key: ei,
                            value: spec_apply_delegate_verikey_pair(s, d),
                            number: n,
                        },
                    );
                }
            }
        },
        EventV::Attribute(a) => {
            match crate::events::spec_parse_attr_name(crate::events::attr_name_text(a)) {
                None => {
                },
                Some(parts) => {
                    if parts.section == "pub"@ {
                        let n = (s.delegate_count + 1) as u32;
                        let value = crate::events::attr_value_text(a);
                        let ei = "DIDAttributeChanged-"@ + crate::events::attr_name_text(a) + "-"@
                            + value;
                        let kp = crate::events::attr_key_pair(s.doc.id, parts, value, n);
                        lemma_assoc_set_frame(s.pks, EntryV { key: ei, value: kp, number: n });
                    }
                },
            }
        },
    }
}

/// The verification method a `veriKey` delegate inserts.
pub open spec fn spec_apply_delegate_verikey_pair(
    s: StateV,
    d: crate::events::DelegateChangedV,
) -> KeyPairV {
    let n = (s.delegate_count + 1) as u32;
    let delegate = "0x"@ + crate::util::hex_of(d.delegate);
    KeyPairV {
        id: Some(s.doc.id + "#delegate-"@ + dec_str(n as nat)),
        _type: "EcdsaSecp256k1RecoveryMethod2020"@,
        controller: Some(s.doc.id),
        blockchain_account_id: Some("eip155:"@ + s.chain_id.unwrap() + ":"@ + delegate),
        public_key_hex: None,
        public_key_base64: None,
        public_key_base58: None,
        public_key_pem: None,
        private_key_hex: None,
        value: None,
        revoked: Some(false),
    }
}

/// Folding a whole log stream preserves the document skeleton and
/// well-formedness.
pub proof fn lemma_logs_preserve_wf(s: StateV, logs: Seq<LogRecordV>, registry: Seq<u8>)
    requires
        wf_state(s),
    ensures
        wf_state(spec_apply_logs(s, logs, registry).0),
        spec_apply_logs(s, logs, registry).0.doc == s.doc,
    decreases logs.len(),
{
    if logs.len() > 0 {
        let l = logs[0];
        if l.address != registry {
            lemma_logs_preserve_wf(s, logs.skip(1), registry);
        } else {
            let s1 = StateV { version_id: l.block_number, ..s };
            match l.event {
                None => {
                },
                Some(ev) => {
                    lemma_event_preserves_wf(s1, ev);
                    lemma_event_preserves_doc(s1, ev);
                    if crate::events::event_ok(ev) {
                        lemma_logs_preserve_wf(spec_apply_event(s1, ev), logs.skip(1), registry);
                    }
                },
            }
        }
    }
}

// ---------------------------------------------------------------------------
// Identity preservation
// ---------------------------------------------------------------------------

/// For every DID, the resulting document's `id` is the DID the accumulator
/// was seeded with, verbatim: no event and no projection step rewrites it.
pub proof fn lemma_document_id_preserved(s: StateV, logs: Seq<LogRecordV>, registry: Seq<u8>)
    ensures
        spec_finalize(spec_apply_logs(s, logs, registry).0).id == s.doc.id,
    decreases logs.len(),
{
    if logs.len() > 0 {
        let l = logs[0];
        if l.address != registry {
            lemma_document_id_preserved(s, logs.skip(1), registry);
        } else {
            let s1 = StateV { version_id: l.block_number, ..s };
            match l.event {
                None => {
                },
                Some(ev) => {
                    lemma_event_preserves_doc(s1, ev);
                    if crate::events::event_ok(ev) {
                        lemma_document_id_preserved(spec_apply_event(s1, ev), logs.skip(1), registry);
                    }
                },
            }
        }
    }
}

// ---------------------------------------------------------------------------
// The controller method is unique
// ---------------------------------------------------------------------------

/// The last character of a decimal rendering is a digit.
pub proof fn lemma_dec_str_last(n: nat)
    ensures
        dec_str(n).len() >= 1,
        48 <= dec_str(n).last() as u32 <= 57,
    decreases n,
{
    if n >= 10 {
        lemma_dec_str_last(n / 10);
    }
}

/// A non-empty suffix fixes the last character.
proof fn lemma_suffix_last(s: Seq<char>, p: Seq<char>)
    requires
        has_suffix(s, p),
        p.len() > 0,
    ensures
        s.len() > 0,
        s.last() == p.last(),
{
    assert(s.skip(s.len() - p.len())[p.len() - 1] == s[s.len() - 1]);
}

/// In the projected document of a well-formed accumulator whose skeleton
/// carried no verification methods, exactly one verification method has an
/// id ending in `#controller`: the synthetic controller method itself.
pub proof fn lemma_exactly_one_controller_method(s: StateV)
    requires
        wf_state(s),
        s.doc.verification_method.len() == 0,
    ensures
        ({
            let vm = spec_finalize(s).verification_method;
            &&& vm.len() > 0
            &&& vm[0].id == Some(s.doc.id + "#controller"@)
            &&& has_suffix(vm[0].id.unwrap(), "#controller"@)
            &&& forall|i: int|
                1 <= i < vm.len() ==> ((#[trigger] vm[i].id) matches Some(x) && !has_suffix(
                    x,
                    "#controller"@,
                ))
        }),
{
    reveal_strlit("#controller");
    reveal_strlit("#controllerKey");
    let vm = spec_finalize(s).verification_method;
    let ctrl = s.doc.id + "#controller"@;
    assert(ctrl.skip(ctrl.len() - "#controller"@.len()) =~= "#controller"@);
    assert(has_suffix(ctrl, "#controller"@));
    assert forall|i: int| 1 <= i < vm.len() implies ((#[trigger] vm[i].id) matches Some(x)
        && !has_suffix(x, "#controller"@)) by {
        assert("#controller"@.last() == 'r');
        if has_controller_key(s) && i == 1 {
            let ck = s.doc.id + "#controllerKey"@;
            assert(vm[i].id == Some(ck));
            assert(ck.last() == 'y');
            if has_suffix(ck, "#controller"@) {
                lemma_suffix_last(ck, "#controller"@);
            }
        } else {
            let base = if has_controller_key(s) {
                2int
            } else {
                1int
            };
            let j = i - base;
            assert(vm[i] == assoc_values(s.pks)[j]);
            assert(assoc_values(s.pks)[j] == s.pks[j].value);
            let idv = s.doc.id + "#delegate-"@ + dec_str(s.pks[j].number as nat);
            assert(vm[i].id == Some(idv));
            lemma_dec_str_last(s.pks[j].number as nat);
            assert(idv.last() == dec_str(s.pks[j].number as nat).last());
            if has_suffix(idv, "#controller"@) {
                lemma_suffix_last(idv, "#controller"@);
            }
        }
    }
}

/// For every DID resolved from a fresh accumulator, whatever the log stream,
/// exactly one verification method of the document has an id ending in
/// `#controller`.
pub proof fn lemma_stream_one_controller_method(
    s: StateV,
    logs: Seq<LogRecordV>,
    registry: Seq<u8>,
)
    requires
        s.pks.len() == 0,
        s.doc.verification_method.len() == 0,
    ensures
        ({
            let vm = spec_finalize(spec_apply_logs(s, logs, registry).0).verification_method;
            &&& vm.len() > 0
            &&& vm[0].id == Some(s.doc.id + "#controller"@)
            &&& has_suffix(vm[0].id.unwrap(), "#controller"@)
            &&& forall|i: int|
                1 <= i < vm.len() ==> ((#[trigger] vm[i].id) matches Some(x) && !has_suffix(
                    x,
                    "#controller"@,
                ))
        }),
{
    let end = spec_apply_logs(s, logs, registry).0;
    lemma_logs_preserve_wf(s, logs, registry);
    lemma_exactly_one_controller_method(end);
}

// ---------------------------------------------------------------------------
// The controller-key condition
// ---------------------------------------------------------------------------

/// `#controllerKey` appears among the verification methods exactly when the
/// DID's identifier is long enough to be a compressed public key (66 hex
/// digits behind `0x`, under the resolver's DID grammar) and the current
/// controller equals that identifier.
pub proof fn lemma_controller_key_appears_iff(s: StateV)
    requires
        wf_state(s),
        s.doc.verification_method.len() == 0,
    ensures
        ({
            let vm = spec_finalize(s).verification_method;
            (exists|i: int|
                0 <= i < vm.len() && (#[trigger] vm[i].id) == Some(s.doc.id + "#controllerKey"@)
                    && has_suffix(vm[i].id.unwrap(), "#controllerKey"@)) <==> has_controller_key(s)
        }),
{
    reveal_strlit("#controller");
    reveal_strlit("#controllerKey");
    let vm = spec_finalize(s).verification_method;
    let ck = s.doc.id + "#controllerKey"@;
    assert(ck.skip(ck.len() - "#controllerKey"@.len()) =~= "#controllerKey"@);
    assert(has_suffix(ck, "#controllerKey"@));
    if has_controller_key(s) {
        assert(vm[1].id == Some(ck));
    } else {
        assert forall|i: int| 0 <= i < vm.len() implies (#[trigger] vm[i].id) != Some(ck) by {
            assert("#controllerKey"@.last() == 'y');
            if i == 0 {
                let ctrl = s.doc.id + "#controller"@;
                assert(vm[0].id == Some(ctrl));
                assert(ctrl.last() == 'r');
                assert(ck.last() == 'y');
                if vm[i].id == Some(ck) {
                    assert(ctrl == ck);
                    assert(ctrl.last() == ck.last());
                }
            } else {
                let j = i - 1;
                assert(vm[i] == assoc_values(s.pks)[j]);
                let idv = s.doc.id + "#delegate-"@ + dec_str(s.pks[j].number as nat);
                assert(vm[i].id == Some(idv));
                lemma_dec_str_last(s.pks[j].number as nat);
                assert(idv.last() == dec_str(s.pks[j].number as nat).last());
                assert(ck.last() == 'y');
                if vm[i].id == Some(ck) {
                    assert(idv == ck);
                    assert(idv.last() == ck.last());
                }
            }
        }
    }
}

/// For every DID resolved from a fresh accumulator, `#controllerKey` appears
/// among the verification methods exactly when the DID's identifier is a
/// compressed public key and the controller the stream left behind equals
/// that identifier.
pub proof fn lemma_stream_controller_key_iff(s: StateV, logs: Seq<LogRecordV>, registry: Seq<u8>)
    requires
        s.pks.len() == 0,
        s.doc.verification_method.len() == 0,
    ensures
        ({
            let end = spec_apply_logs(s, logs, registry).0;
            let vm = spec_finalize(end).verification_method;
            (exists|i: int|
                0 <= i < vm.len() && (#[trigger] vm[i].id) == Some(s.doc.id + "#controllerKey"@)
                    && has_suffix(vm[i].id.unwrap(), "#controllerKey"@)) <==> has_controller_key(
                end,
            )
        }),
{
    let end = spec_apply_logs(s, logs, registry).0;
    lemma_logs_preserve_wf(s, logs, registry);
    lemma_controller_key_appears_iff(end);
}

// ---------------------------------------------------------------------------
// Delegate numbering is monotonic
// ---------------------------------------------------------------------------

/// Every stored entry's counter value is bounded by the counter it was
/// numbered from.
pub open spec fn numbers_bounded(s: StateV) -> bool {
    &&& forall|i: int| 0 <= i < s.pks.len() ==> (#[trigger] s.pks[i]).number <= s.delegate_count
    &&& forall|i: int| 0 <= i < s.auth.len() ==> (#[trigger] s.auth[i]).number <= s.delegate_count
    &&& forall|i: int|
        0 <= i < s.signing_refs.len() ==> (#[trigger] s.signing_refs[i]).number <= s.delegate_count
    &&& forall|i: int|
        0 <= i < s.key_agreement_refs.len() ==> (#[trigger] s.key_agreement_refs[i]).number
            <= s.delegate_count
    &&& forall|i: int|
        0 <= i < s.services.len() ==> (#[trigger] s.services[i]).number <= s.service_count
}

/// Delegate numbering is monotonic: counters never decrease, entry numbers
/// stay bounded by the counters, and every entry inserted or rewritten by an
/// event carries a number strictly greater than the numbers of all entries
/// that were present before it.
pub proof fn lemma_delegate_numbering(s: StateV, ev: EventV)
    requires
        numbers_bounded(s),
        s.delegate_count < u32::MAX,
        s.service_count < u32::MAX,
    ensures
        ({
            let s2 = spec_apply_event(s, ev);
            &&& numbers_bounded(s2)
            &&& s2.delegate_count >= s.delegate_count
            &&& s2.service_count >= s.service_count
            &&& forall|i: int|
                0 <= i < s2.pks.len() ==> ((0 <= i < s.pks.len() && #[trigger] s2.pks[i]
                    == s.pks[i]) || s2.pks[i].number > s.delegate_count)
            &&& forall|i: int|
                0 <= i < s2.auth.len() ==> ((0 <= i < s.auth.len() && #[trigger] s2.auth[i]
                    == s.auth[i]) || s2.auth[i].number > s.delegate_count)
            &&& forall|i: int|
                0 <= i < s2.signing_refs.len() ==> ((0 <= i < s.signing_refs.len()
                    && #[trigger] s2.signing_refs[i] == s.signing_refs[i])
                    || s2.signing_refs[i].number > s.delegate_count)
            &&& forall|i: int|
                0 <= i < s2.key_agreement_refs.len() ==> ((0 <= i < s.key_agreement_refs.len()
                    && #[trigger] s2.key_agreement_refs[i] == s.key_agreement_refs[i])
                    || s2.key_agreement_refs[i].number > s.delegate_count)
            &&& forall|i: int|
                0 <= i < s2.services.len() ==> ((0 <= i < s.services.len()
                    && #[trigger] s2.services[i] == s.services[i]) || s2.services[i].number
                    > s.service_count)
        }),
{
    let s2 = spec_apply_event(s, ev);
    match ev {
        EventV::Owner(_) => {
        },
        EventV::Delegate(d) => {
            if crate::events::delegate_type_ok(d) {
                let dt = vstd::utf8::decode_utf8(crate::util::trim_nuls(d.delegate_type));
                let n = (s.delegate_count + 1) as u32;
                let delegate = "0x"@ + crate::util::hex_of(d.delegate);
                let ei = "DIDDelegateChanged-"@ + dt + "-"@ + delegate;
                let refstr = s.doc.id + "#delegate-"@ + dec_str(n as nat);
                lemma_assoc_set_frame(s.auth, EntryV { key: ei, value: refstr, number: n });
                lemma_assoc_set_frame(s.signing_refs, EntryV { key: ei, value: refstr, number: n });
                lemma_assoc_set_frame(
                    s.pks,
                    EntryV { key: ei, value: spec_apply_delegate_verikey_pair(s, d), number: n },
                );
            }
        },
        EventV::Attribute(a) => {
            match crate::events::spec_parse_attr_name(crate::events::attr_name_text(a)) {
                None => {
                },
                Some(parts) => {
                    let value = crate::events::attr_value_text(a);
                    let ei = "DIDAttributeChanged-"@ + crate::events::attr_name_text(a) + "-"@
                        + value;
                    if parts.section == "pub"@ {
                        let n = (s.delegate_count + 1) as u32;
                        let kp = crate::events::attr_key_pair(s.doc.id, parts, value, n);
                        let refstr = s.doc.id + "#delegate-"@ + dec_str(n as nat);
                        lemma_assoc_set_frame(s.pks, EntryV { key: ei, value: kp, number: n });
                        lemma_assoc_set_frame(s.auth, EntryV { key: ei, value: refstr, number: n });
                        lemma_assoc_set_frame(
                            s.signing_refs,
                            EntryV { key: ei, value: refstr, number: n },
                        );
                        lemma_assoc_set_frame(
                            s.key_agreement_refs,
                            EntryV { key: ei, value: kp, number: n },
                        );
                    } else {
                        let m = (s.service_count + 1) as u32;
                        if vstd::utf8::valid_utf8(a.value) {
                            let text = vstd::utf8::decode_utf8(a.value);
                            let svc = crate::did::ServiceV {
                                id: s.doc.id + "#service-"@ + dec_str(m as nat),
                                _type: parts.algorithm,
                                service_endpoint: crate::did::spec_endpoint_of(text),
                            };
                            lemma_assoc_set_frame(
                                s.services,
                                EntryV { key: ei, value: svc, number: m },
                            );
                        }
                    }
                },
            }
        },
    }
}

// ---------------------------------------------------------------------------
// References resolve
// ---------------------------------------------------------------------------


/// A reference in the projected document resolves: it is the controller
/// fragment, the controller-key fragment, or the id of some verification
/// method of the document.
pub open spec fn ref_resolves(d: DidDocumentV, r: Seq<char>, did: Seq<char>) -> bool {
    ||| r == did + "#controller"@
    ||| r == did + "#controllerKey"@
    ||| exists|j: int|
        0 <= j < d.verification_method.len() && (#[trigger] d.verification_method[j]).id == Some(r)
}

/// In the projected document of an accumulator whose references are covered
/// and whose skeleton carried no references of its own, every entry of
/// `authentication` and of `assertionMethod` resolves.  (`keyAgreement`
/// entries are full verification methods themselves, not references.)
///
/// Coverage is a premise here: a `sigAuth` delegate event inserts an
/// authentication reference without a matching verification method, so a
/// stream holding one produces a document in which that reference dangles.
pub proof fn lemma_references_resolve(s: StateV)
    requires
        refs_keyed(s),
        s.doc.authentication.len() == 0,
        s.doc.assertion_method.len() == 0,
        s.doc.verification_method.len() == 0,
    ensures
        ({
            let d = spec_finalize(s);
            &&& forall|i: int|
                0 <= i < d.authentication.len() ==> ref_resolves(
                    d,
                    #[trigger] d.authentication[i],
                    s.doc.id,
                )
            &&& forall|i: int|
                0 <= i < d.assertion_method.len() ==> ref_resolves(
                    d,
                    #[trigger] d.assertion_method[i],
                    s.doc.id,
                )
        }),
{
    let d = spec_finalize(s);
    let base = if has_controller_key(s) {
        2int
    } else {
        1int
    };
    assert forall|i: int| 0 <= i < d.authentication.len() implies ref_resolves(
        d,
        #[trigger] d.authentication[i],
        s.doc.id,
    ) by {
        if i >= base {
            let k = i - base;
            assert(d.authentication[i] == assoc_values(s.auth)[k]);
            assert(assoc_values(s.auth)[k] == s.auth[k].value);
            assert(covers(s.pks, s.auth[k]));
            let j = choose|j: int|
                #![trigger s.pks[j]]
                0 <= j < s.pks.len() && s.pks[j].key == s.auth[k].key && s.pks[j].value.id
                    == Some(s.auth[k].value);
            assert(d.verification_method[base + j] == assoc_values(s.pks)[j]);
            assert(d.verification_method[base + j].id == Some(d.authentication[i]));
        }
    }
    if !s.deactivated {
        assert forall|i: int| 0 <= i < d.assertion_method.len() implies ref_resolves(
            d,
            #[trigger] d.assertion_method[i],
            s.doc.id,
        ) by {
            if i >= base {
                let k = i - base;
                assert(d.assertion_method[i] == assoc_values(s.signing_refs)[k]);
                assert(assoc_values(s.signing_refs)[k] == s.signing_refs[k].value);
                assert(covers(s.pks, s.signing_refs[k]));
                let j = choose|j: int|
                    #![trigger s.pks[j]]
                    0 <= j < s.pks.len() && s.pks[j].key == s.signing_refs[k].key
                        && s.pks[j].value.id == Some(s.signing_refs[k].value);
                assert(d.verification_method[base + j] == assoc_values(s.pks)[j]);
                assert(d.verification_method[base + j].id == Some(d.assertion_method[i]));
            }
        }
    }
}

// ---------------------------------------------------------------------------
// Event indices identify their events
// ---------------------------------------------------------------------------

/// The event index an attribute change stores its entries under.
pub open spec fn attr_ei(n: Seq<char>, v: Seq<char>) -> Seq<char> {
    "DIDAttributeChanged-"@ + n + "-"@ + v
}

/// A parseable attribute name consists of word characters and slashes.
proof fn lemma_split_chars_all_ok(s: Seq<char>, sep: char)
    requires
        forall|j: int|
            0 <= j < crate::util::split_on(s, sep).len() ==> crate::util::is_word(
                #[trigger] crate::util::split_on(s, sep)[j],
            ),
    ensures
        forall|i: int|
            0 <= i < s.len() ==> crate::util::word_char(#[trigger] s[i]) || s[i] == sep,
    decreases s.len(),
{
    s.index_of_first_ensures(sep);
    match s.index_of_first(sep) {
        None => {
            assert(crate::util::split_on(s, sep)[0] == s);
            assert(crate::util::is_word(s));
        },
        Some(k) => {
            let head = s.take(k);
            let rest = s.skip(k + 1);
            let segs = crate::util::split_on(s, sep);
            assert(segs =~= seq![head] + crate::util::split_on(rest, sep));
            assert(crate::util::is_word(segs[0]));
            assert(segs[0] == head);
            assert forall|j: int|
                0 <= j < crate::util::split_on(rest, sep).len() implies crate::util::is_word(
                #[trigger] crate::util::split_on(rest, sep)[j],
            ) by {
                assert(segs[j + 1] == crate::util::split_on(rest, sep)[j]);
                assert(crate::util::is_word(segs[j + 1]));
            }
            lemma_split_chars_all_ok(rest, sep);
            assert forall|i: int|
                0 <= i < s.len() implies crate::util::word_char(#[trigger] s[i]) || s[i]
                == sep by {
                if i < k {
                    assert(s[i] == head[i]);
                    assert(crate::util::word_char(head[i]));
                } else if i > k {
                    assert(s[i] == rest[i - k - 1]);
                }
            }
        },
    }
}

/// Every character of a name the attribute grammar accepts is a word
/// character or a slash.
proof fn lemma_parse_chars(n: Seq<char>)
    requires
        crate::events::spec_parse_attr_name(n) is Some,
    ensures
        forall|i: int|
            0 <= i < n.len() ==> crate::util::word_char(#[trigger] n[i]) || n[i] == '/',
{
    reveal_strlit("did");
    reveal_strlit("pub");
    reveal_strlit("svc");
    let segs = crate::util::split_on(n, '/');
    assert forall|j: int| 0 <= j < segs.len() implies crate::util::is_word(#[trigger] segs[j]) by {
        if j == 0 {
            assert(segs[0] == "did"@);
            assert("did"@[0] == 'd' && "did"@[1] == 'i' && "did"@[2] == 'd');
            assert(crate::util::word_char('d') && crate::util::word_char('i'));
        } else if j == 1 {
            if segs[1] == "pub"@ {
                assert("pub"@[0] == 'p' && "pub"@[1] == 'u' && "pub"@[2] == 'b');
            } else {
                assert(segs[1] == "svc"@);
                assert("svc"@[0] == 's' && "svc"@[1] == 'v' && "svc"@[2] == 'c');
            }
        }
    }
    lemma_split_chars_all_ok(n, '/');
}

/// Two attribute changes whose names the grammar accepts share an event
/// index only when they share the name and the value: the separator between
/// them can occur in no parseable name.
pub proof fn lemma_attr_ei_injective(n1: Seq<char>, v1: Seq<char>, n2: Seq<char>, v2: Seq<char>)
    requires
        crate::events::spec_parse_attr_name(n1) is Some,
        crate::events::spec_parse_attr_name(n2) is Some,
        attr_ei(n1, v1) == attr_ei(n2, v2),
    ensures
        n1 == n2,
        v1 == v2,
{
    let p = "DIDAttributeChanged-"@;
    let d = "-"@;
    reveal_strlit("-");
    reveal_strlit("DIDAttributeChanged-");
    let e1 = n1 + d + v1;
    let e2 = n2 + d + v2;
    assert(attr_ei(n1, v1) =~= p + e1);
    assert(attr_ei(n2, v2) =~= p + e2);
    assert(e1 =~= (p + e1).skip(p.len() as int));
    assert(e2 =~= (p + e2).skip(p.len() as int));
    assert(e1 == e2);
    lemma_parse_chars(n1);
    lemma_parse_chars(n2);
    if n1.len() == n2.len() {
        assert(n1 =~= e1.take(n1.len() as int));
        assert(n2 =~= e2.take(n2.len() as int));
        assert(v1 =~= e1.skip(n1.len() as int + 1));
        assert(v2 =~= e2.skip(n2.len() as int + 1));
    } else if n1.len() < n2.len() {
        let q = n1.len() as int;
        assert(e1[q] == d[0]);
        assert(d[0] == '-');
        assert(e2[q] == n2[q]);
        assert(crate::util::word_char(n2[q]) || n2[q] == '/');
        assert(false);
    } else {
        let q = n2.len() as int;
        assert(e2[q] == d[0]);
        assert(d[0] == '-');
        assert(e1[q] == n1[q]);
        assert(crate::util::word_char(n1[q]) || n1[q] == '/');
        assert(false);
    }
}

/// An attribute event index never equals a delegate event index: the two
/// prefixes differ.
pub proof fn lemma_ei_prefixes_differ(n: Seq<char>, v: Seq<char>, t: Seq<char>)
    ensures
        attr_ei(n, v) != "DIDDelegateChanged-"@ + t,
{
    reveal_strlit("DIDAttributeChanged-");
    reveal_strlit("DIDDelegateChanged-");
    let a = attr_ei(n, v);
    let b = "DIDDelegateChanged-"@ + t;
    assert(a[3] == 'A');
    assert(b[3] == 'D');
    if a == b {
        assert(a[3] == b[3]);
    }
}

// ---------------------------------------------------------------------------
// Coverage is preserved by every event but a sigAuth delegate
// ---------------------------------------------------------------------------

/// No two entries of a keyed map share a key.
pub open spec fn keys_unique<VV>(m: Seq<EntryV<VV>>) -> bool {
    forall|i: int, j: int| 0 <= i < j < m.len() ==> (#[trigger] m[i]).key != (#[trigger] m[j]).key
}

/// Storing keeps keys unique.
pub proof fn lemma_assoc_set_unique<VV>(m: Seq<EntryV<VV>>, e: EntryV<VV>)
    requires
        keys_unique(m),
    ensures
        keys_unique(assoc_set(m, e)),
{
    if crate::did::assoc_has_key(m, e.key) {
        lemma_assoc_key_index_in_range(m, e.key);
    }
}

/// After a store, the stored entry is present, entries under other keys are
/// untouched, and under unique keys the entry under the stored key is
/// exactly the stored one.
pub proof fn lemma_assoc_set_details<VV>(m: Seq<EntryV<VV>>, e: EntryV<VV>)
    requires
        keys_unique(m),
    ensures
        assoc_set(m, e).len() >= m.len(),
        exists|j: int| 0 <= j < assoc_set(m, e).len() && #[trigger] assoc_set(m, e)[j] == e,
        forall|i: int|
            0 <= i < m.len() && (#[trigger] m[i]).key != e.key ==> assoc_set(m, e)[i] == m[i],
        forall|i: int|
            0 <= i < m.len() && (#[trigger] m[i]).key == e.key ==> assoc_set(m, e)[i] == e,
{
    if crate::did::assoc_has_key(m, e.key) {
        let idx = assoc_key_index(m, e.key);
        lemma_assoc_key_index_in_range(m, e.key);
        assert(assoc_set(m, e)[idx] == e);
        assert forall|i: int| 0 <= i < m.len() && (#[trigger] m[i]).key == e.key implies assoc_set(
            m,
            e,
        )[i] == e by {
            if i != idx {
                assert(m[i].key != m[idx].key);
            }
        }
    } else {
        assert(assoc_set(m, e)[m.len() as int] == e);
    }
}

/// Every reference entry has a verification-method entry under the same
/// event index whose id is the reference.
pub open spec fn covers(pks: Seq<EntryV<KeyPairV>>, e: EntryV<Seq<char>>) -> bool {
    exists|j: int|
        #![trigger pks[j]]
        0 <= j < pks.len() && pks[j].key == e.key && pks[j].value.id == Some(e.value)
}

pub open spec fn covered_by(refs: Seq<EntryV<Seq<char>>>, pks: Seq<EntryV<KeyPairV>>) -> bool {
    forall|i: int| #![trigger refs[i]] 0 <= i < refs.len() ==> covers(pks, refs[i])
}

/// A concrete witness establishes coverage of one entry.
proof fn covers_intro(pks: Seq<EntryV<KeyPairV>>, e: EntryV<Seq<char>>, j: int)
    requires
        0 <= j < pks.len(),
        pks[j].key == e.key,
        pks[j].value.id == Some(e.value),
    ensures
        covers(pks, e),
{
}

/// Key-indexed coverage of both reference maps.
pub open spec fn refs_keyed(s: StateV) -> bool {
    covered_by(s.auth, s.pks) && covered_by(s.signing_refs, s.pks)
}

/// Storing a reference and its method under the same index preserves
/// coverage.
proof fn lemma_cover_after_set(
    pks: Seq<EntryV<KeyPairV>>,
    refs: Seq<EntryV<Seq<char>>>,
    pkse: EntryV<KeyPairV>,
    re: EntryV<Seq<char>>,
)
    requires
        covered_by(refs, pks),
        keys_unique(refs),
        keys_unique(pks),
        pkse.key == re.key,
        pkse.value.id == Some(re.value),
    ensures
        covered_by(assoc_set(refs, re), assoc_set(pks, pkse)),
{
    lemma_assoc_set_details(refs, re);
    lemma_assoc_set_details(pks, pkse);
    lemma_assoc_set_frame(refs, re);
    let refs2 = assoc_set(refs, re);
    let pks2 = assoc_set(pks, pkse);
    assert forall|i: int| 0 <= i < refs2.len() implies covers(pks2, #[trigger] refs2[i]) by {
        assert(refs2[i] == re || (0 <= i < refs.len() && refs2[i] == refs[i]));
        if refs2[i] == re {
            let j = choose|j: int| 0 <= j < pks2.len() && #[trigger] pks2[j] == pkse;
            covers_intro(pks2, refs2[i], j);
        } else {
            assert(0 <= i < refs.len() && refs2[i] == refs[i]);
            if refs[i].key == re.key {
                assert(refs2[i] == re);
            } else {
                assert(covers(pks, refs[i]));
                let j = choose|j: int|
                    #![trigger pks[j]]
                    0 <= j < pks.len() && pks[j].key == refs[i].key && pks[j].value.id == Some(
                        refs[i].value,
                    );
                assert(pks[j].key != pkse.key);
                assert(pks2[j] == pks[j]);
                covers_intro(pks2, refs2[i], j);
            }
        }
    }
}

/// Storing a method whose index no reference uses preserves coverage.
proof fn lemma_cover_pks_set(
    pks: Seq<EntryV<KeyPairV>>,
    refs: Seq<EntryV<Seq<char>>>,
    pkse: EntryV<KeyPairV>,
)
    requires
        covered_by(refs, pks),
        keys_unique(pks),
        forall|i: int| 0 <= i < refs.len() ==> (#[trigger] refs[i]).key != pkse.key,
    ensures
        covered_by(refs, assoc_set(pks, pkse)),
{
    lemma_assoc_set_details(pks, pkse);
    let pks2 = assoc_set(pks, pkse);
    assert forall|i: int| 0 <= i < refs.len() implies covers(pks2, #[trigger] refs[i]) by {
        assert(covers(pks, refs[i]));
        let j = choose|j: int|
            #![trigger pks[j]]
            0 <= j < pks.len() && pks[j].key == refs[i].key && pks[j].value.id == Some(
                refs[i].value,
            );
        assert(pks[j].key != pkse.key);
        assert(pks2[j] == pks[j]);
        covers_intro(pks2, refs[i], j);
    }
}

/// An authentication entry always stems from a `sigAuth`-purposed public-key
/// attribute (delegate-born entries are excluded by the premise of the law).
pub open spec fn is_sigauth_attr_ei(k: Seq<char>) -> bool {
    exists|n: Seq<char>, v: Seq<char>|
        #[trigger] attr_ei(n, v) == k && match crate::events::spec_parse_attr_name(n) {
            Some(p) => p.section == "pub"@ && p.purpose == "sigAuth"@,
            None => false,
        }
}

/// An assertion entry stems from a public-key attribute whose purpose is not
/// `veriKey`, or from a delegate event.
pub open spec fn is_non_verikey_attr_ei(k: Seq<char>) -> bool {
    exists|n: Seq<char>, v: Seq<char>|
        #[trigger] attr_ei(n, v) == k && match crate::events::spec_parse_attr_name(n) {
            Some(p) => p.section == "pub"@ && p.purpose != "veriKey"@,
            None => false,
        }
}

/// An event index of delegate shape.
pub open spec fn is_delegate_ei(k: Seq<char>) -> bool {
    exists|t: Seq<char>| #[trigger] ("DIDDelegateChanged-"@ + t) == k
}

/// Where the reference entries of a state can have come from.
pub open spec fn provenance_ok(s: StateV) -> bool {
    &&& forall|i: int| 0 <= i < s.auth.len() ==> is_sigauth_attr_ei((#[trigger] s.auth[i]).key)
    &&& forall|i: int|
        0 <= i < s.signing_refs.len() ==> is_non_verikey_attr_ei(
            (#[trigger] s.signing_refs[i]).key,
        ) || is_delegate_ei(s.signing_refs[i].key)
}

/// The failing input of the reference-integrity law: a `sigAuth` delegate
/// adds references without a method.
pub open spec fn no_sigauth_delegate(ev: EventV) -> bool {
    match ev {
        EventV::Delegate(d) => !(crate::events::delegate_type_ok(d) && vstd::utf8::decode_utf8(
            crate::util::trim_nuls(d.delegate_type),
        ) == "sigAuth"@),
        _ => true,
    }
}

/// All keyed maps of the state have unique keys.
pub open spec fn maps_unique(s: StateV) -> bool {
    &&& keys_unique(s.auth)
    &&& keys_unique(s.signing_refs)
    &&& keys_unique(s.pks)
    &&& keys_unique(s.key_agreement_refs)
    &&& keys_unique(s.services)
}

/// Folding any event other than a `sigAuth` delegate preserves key
/// uniqueness, reference coverage and reference provenance.
pub proof fn lemma_event_preserves_coverage(s: StateV, ev: EventV)
    requires
        refs_keyed(s),
        provenance_ok(s),
        maps_unique(s),
        no_sigauth_delegate(ev),
    ensures
        refs_keyed(spec_apply_event(s, ev)),
        provenance_ok(spec_apply_event(s, ev)),
        maps_unique(spec_apply_event(s, ev)),
{
    let s2 = spec_apply_event(s, ev);
    match ev {
        EventV::Owner(_) => {
        },
        EventV::Delegate(d) => {
            if crate::events::delegate_type_ok(d) {
                let dt = vstd::utf8::decode_utf8(crate::util::trim_nuls(d.delegate_type));
                if dt == "veriKey"@ {
                    let n = (s.delegate_count + 1) as u32;
                    let delegate = "0x"@ + crate::util::hex_of(d.delegate);
                    let ei = "DIDDelegateChanged-"@ + dt + "-"@ + delegate;
                    let refstr = s.doc.id + "#delegate-"@ + dec_str(n as nat);
                    let pkse = EntryV {
                        key: ei,
                        value: spec_apply_delegate_verikey_pair(s, d),
                        number: n,
                    };
                    let re = EntryV { key: ei, value: refstr, number: n };
                    lemma_assoc_set_unique(s.pks, pkse);
                    lemma_assoc_set_unique(s.signing_refs, re);
                    lemma_cover_after_set(s.pks, s.signing_refs, pkse, re);
                    // auth is untouched; its attribute-shaped keys differ
                    // from the delegate-shaped key stored into pks
                    assert forall|i: int| 0 <= i < s.auth.len() implies (#[trigger] s.auth[i]).key
                        != ei by {
                        let (an, av) = choose|an: Seq<char>, av: Seq<char>|
                            #[trigger] attr_ei(an, av) == s.auth[i].key && match crate::events::spec_parse_attr_name(
                                an,
                            ) {
                                Some(p) => p.section == "pub"@ && p.purpose == "sigAuth"@,
                                None => false,
                            };
                        assert(ei =~= "DIDDelegateChanged-"@ + (dt + "-"@ + delegate));
                        lemma_ei_prefixes_differ(an, av, dt + "-"@ + delegate);
                    }
                    lemma_cover_pks_set(s.pks, s.auth, pkse);
                    // provenance: the new assertion entry is delegate-shaped
                    lemma_assoc_set_frame(s.signing_refs, re);
                    assert(("DIDDelegateChanged-"@ + (dt + "-"@ + delegate)) =~= ei);
                    assert(is_delegate_ei(ei));
                }
            }
        },
        EventV::Attribute(a) => {
            let name = crate::events::attr_name_text(a);
            match crate::events::spec_parse_attr_name(name) {
                None => {
                },
                Some(parts) => {
                    let value = crate::events::attr_value_text(a);
                    let ei = "DIDAttributeChanged-"@ + name + "-"@ + value;
                    assert(attr_ei(name, value) =~= ei);
                    if parts.section == "pub"@ {
                        let n = (s.delegate_count + 1) as u32;
                        let kp = crate::events::attr_key_pair(s.doc.id, parts, value, n);
                        let refstr = s.doc.id + "#delegate-"@ + dec_str(n as nat);
                        let pkse = EntryV { key: ei, value: kp, number: n };
                        let re = EntryV { key: ei, value: refstr, number: n };
                        assert(kp.id == Some(refstr));
                        lemma_assoc_set_unique(s.pks, pkse);
                        reveal_strlit("sigAuth");
                        reveal_strlit("veriKey");
                        assert("sigAuth"@ != "veriKey"@) by {
                            assert("sigAuth"@[0] == 's' && "veriKey"@[0] == 'v');
                        }
                        if parts.purpose == "sigAuth"@ {
                            lemma_assoc_set_unique(s.auth, re);
                            lemma_assoc_set_unique(s.signing_refs, re);
                            lemma_cover_after_set(s.pks, s.auth, pkse, re);
                            lemma_cover_after_set(s.pks, s.signing_refs, pkse, re);
                            lemma_assoc_set_frame(s.auth, re);
                            lemma_assoc_set_frame(s.signing_refs, re);
                            assert(is_sigauth_attr_ei(ei)) by {
                                assert(attr_ei(name, value) == ei);
                            }
                            assert(is_non_verikey_attr_ei(ei)) by {
                                assert(attr_ei(name, value) == ei);
                            }
                        } else if parts.purpose == "veriKey"@ {
                            lemma_assoc_set_unique(s.key_agreement_refs, pkse);
                            // no reference map can hold this index: a
                            // reference under it would stem from an
                            // attribute with the same name but a purpose
                            // other than veriKey
                            assert forall|i: int| 0 <= i < s.auth.len() implies (#[trigger] s.auth[i]).key
                                != ei by {
                                if s.auth[i].key == ei {
                                    let (an, av) = choose|an: Seq<char>, av: Seq<char>|
                                        #[trigger] attr_ei(an, av) == s.auth[i].key
                                            && match crate::events::spec_parse_attr_name(an) {
                                            Some(p) => p.section == "pub"@ && p.purpose
                                                == "sigAuth"@,
                                            None => false,
                                        };
                                    lemma_attr_ei_injective(an, av, name, value);
                                }
                            }
                            assert forall|i: int|
                                0 <= i < s.signing_refs.len() implies (#[trigger] s.signing_refs[i]).key
                                != ei by {
                                if s.signing_refs[i].key == ei {
                                    if is_non_verikey_attr_ei(s.signing_refs[i].key) {
                                        let (an, av) = choose|an: Seq<char>, av: Seq<char>|
                                            #[trigger] attr_ei(an, av) == s.signing_refs[i].key
                                                && match crate::events::spec_parse_attr_name(an) {
                                                Some(p) => p.section == "pub"@ && p.purpose
                                                    != "veriKey"@,
                                                None => false,
                                            };
                                        lemma_attr_ei_injective(an, av, name, value);
                                    } else {
                                        let t = choose|t: Seq<char>|
                                            #[trigger] ("DIDDelegateChanged-"@ + t) == s.signing_refs[i].key;
                                        lemma_ei_prefixes_differ(name, value, t);
                                    }
                                }
                            }
                            lemma_cover_pks_set(s.pks, s.auth, pkse);
                            lemma_cover_pks_set(s.pks, s.signing_refs, pkse);
                        } else {
                            lemma_assoc_set_unique(s.signing_refs, re);
                            lemma_cover_after_set(s.pks, s.signing_refs, pkse, re);
                            // auth cannot hold this index: its entries stem
                            // from sigAuth attributes
                            assert forall|i: int| 0 <= i < s.auth.len() implies (#[trigger] s.auth[i]).key
                                != ei by {
                                if s.auth[i].key == ei {
                                    let (an, av) = choose|an: Seq<char>, av: Seq<char>|
                                        #[trigger] attr_ei(an, av) == s.auth[i].key
                                            && match crate::events::spec_parse_attr_name(an) {
                                            Some(p) => p.section == "pub"@ && p.purpose
                                                == "sigAuth"@,
                                            None => false,
                                        };
                                    lemma_attr_ei_injective(an, av, name, value);
                                }
                            }
                            lemma_cover_pks_set(s.pks, s.auth, pkse);
                            lemma_assoc_set_frame(s.signing_refs, re);
                            assert(is_non_verikey_attr_ei(ei)) by {
                                assert(attr_ei(name, value) == ei);
                            }
                        }
                    } else {
                        if vstd::utf8::valid_utf8(a.value) {
                            let m = (s.service_count + 1) as u32;
                            let text = vstd::utf8::decode_utf8(a.value);
                            let svc = crate::did::ServiceV {
                                id: s.doc.id + "#service-"@ + dec_str(m as nat),
                                _type: parts.algorithm,
                                service_endpoint: crate::did::spec_endpoint_of(text),
                            };
                            lemma_assoc_set_unique(
                                s.services,
                                EntryV { key: ei, value: svc, number: m },
                            );
                        }
                    }
                },
            }
        },
    }
}

/// Folding a log stream without `sigAuth` delegate events preserves key
/// uniqueness, coverage and provenance.
pub proof fn lemma_stream_preserves_coverage(s: StateV, logs: Seq<LogRecordV>, registry: Seq<u8>)
    requires
        refs_keyed(s),
        provenance_ok(s),
        maps_unique(s),
        forall|i: int|
            0 <= i < logs.len() ==> match (#[trigger] logs[i]).event {
                Some(ev) => no_sigauth_delegate(ev),
                None => true,
            },
    ensures
        refs_keyed(spec_apply_logs(s, logs, registry).0),
        provenance_ok(spec_apply_logs(s, logs, registry).0),
        maps_unique(spec_apply_logs(s, logs, registry).0),
    decreases logs.len(),
{
    if logs.len() > 0 {
        let l = logs[0];
        assert forall|i: int|
            0 <= i < logs.skip(1).len() implies match (#[trigger] logs.skip(1)[i]).event {
            Some(ev) => no_sigauth_delegate(ev),
            None => true,
        } by {
            assert(logs.skip(1)[i] == logs[i + 1]);
        }
        if l.address != registry {
            lemma_stream_preserves_coverage(s, logs.skip(1), registry);
        } else {
            let s1 = StateV { version_id: l.block_number, ..s };
            match l.event {
                None => {
                },
                Some(ev) => {
                    lemma_event_preserves_coverage(s1, ev);
                    if crate::events::event_ok(ev) {
                        lemma_stream_preserves_coverage(
                            spec_apply_event(s1, ev),
                            logs.skip(1),
                            registry,
                        );
                    }
                },
            }
        }
    }
}

/// Law: resolving a log stream that holds no `sigAuth` delegate event from a
/// fresh accumulator yields a document in which every `authentication` and
/// `assertionMethod` entry resolves: it is the `#controller` fragment, the
/// `#controllerKey` fragment, or the id of a verification method of the
/// document.  (`keyAgreement` entries are full verification methods
/// themselves.)  A `sigAuth` delegate event is the one input this does not
/// hold for: it adds references without a matching method.
pub proof fn lemma_log_stream_references_resolve(
    s: StateV,
    logs: Seq<LogRecordV>,
    registry: Seq<u8>,
)
    requires
        s.auth.len() == 0,
        s.signing_refs.len() == 0,
        s.pks.len() == 0,
        s.key_agreement_refs.len() == 0,
        s.services.len() == 0,
        s.doc.authentication.len() == 0,
        s.doc.assertion_method.len() == 0,
        s.doc.verification_method.len() == 0,
        forall|i: int|
            0 <= i < logs.len() ==> match (#[trigger] logs[i]).event {
                Some(ev) => no_sigauth_delegate(ev),
                None => true,
            },
    ensures
        ({
            let end = spec_apply_logs(s, logs, registry).0;
            let d = spec_finalize(end);
            &&& forall|i: int|
                0 <= i < d.authentication.len() ==> ref_resolves(
                    d,
                    #[trigger] d.authentication[i],
                    end.doc.id,
                )
            &&& forall|i: int|
                0 <= i < d.assertion_method.len() ==> ref_resolves(
                    d,
                    #[trigger] d.assertion_method[i],
                    end.doc.id,
                )
        }),
{
    let end = spec_apply_logs(s, logs, registry).0;
    lemma_stream_preserves_coverage(s, logs, registry);
    lemma_doc_preserved_by_logs(s, logs, registry);
    assert(refs_keyed(end));
    lemma_references_resolve(end);
}

/// Folding a log stream does not change the document skeleton.
proof fn lemma_doc_preserved_by_logs(s: StateV, logs: Seq<LogRecordV>, registry: Seq<u8>)
    ensures
        spec_apply_logs(s, logs, registry).0.doc == s.doc,
    decreases logs.len(),
{
    if logs.len() > 0 {
        let l = logs[0];
        if l.address != registry {
            lemma_doc_preserved_by_logs(s, logs.skip(1), registry);
        } else {
            let s1 = StateV { version_id: l.block_number, ..s };
            match l.event {
                None => {
                },
                Some(ev) => {
                    lemma_event_preserves_doc(s1, ev);
                    if crate::events::event_ok(ev) {
                        lemma_doc_preserved_by_logs(spec_apply_event(s1, ev), logs.skip(1), registry);
                    }
                },
            }
        }
    }
}

// ---------------------------------------------------------------------------
// Replay determinism
// ---------------------------------------------------------------------------

/// Re-applying an identical log stream to an identical fresh accumulator
/// yields the identical document: the fold and the projection are functions
/// of the accumulator state and the log records alone, and the executable
/// functions return exactly these functions' values.
pub proof fn lemma_replay_deterministic(
    s1: StateV,
    s2: StateV,
    logs1: Seq<LogRecordV>,
    logs2: Seq<LogRecordV>,
    registry1: Seq<u8>,
    registry2: Seq<u8>,
)
    requires
        s1 == s2,
        logs1 == logs2,
        registry1 == registry2,
    ensures
        spec_finalize(spec_apply_logs(s1, logs1, registry1).0) == spec_finalize(
            spec_apply_logs(s2, logs2, registry2).0,
        ),
        spec_apply_logs(s1, logs1, registry1).1 == spec_apply_logs(s2, logs2, registry2).1,
{
}

// ---------------------------------------------------------------------------
// Repeated events collapse
// ---------------------------------------------------------------------------

/// Applying the same event twice leaves the same keys in every keyed map as
/// applying it once (the second application overwrites its own entries), so
/// no map grows: the event index depends on the event alone.
pub proof fn lemma_reapply_collapses(s: StateV, ev: EventV)
    ensures
        ({
            let s1 = spec_apply_event(s, ev);
            let s2 = spec_apply_event(s1, ev);
            &&& assoc_key_set(s2.pks) =~= assoc_key_set(s1.pks)
            &&& assoc_key_set(s2.auth) =~= assoc_key_set(s1.auth)
            &&& assoc_key_set(s2.signing_refs) =~= assoc_key_set(s1.signing_refs)
            &&& assoc_key_set(s2.key_agreement_refs) =~= assoc_key_set(s1.key_agreement_refs)
            &&& assoc_key_set(s2.services) =~= assoc_key_set(s1.services)
            &&& s2.pks.len() == s1.pks.len()
            &&& s2.auth.len() == s1.auth.len()
            &&& s2.signing_refs.len() == s1.signing_refs.len()
            &&& s2.key_agreement_refs.len() == s1.key_agreement_refs.len()
            &&& s2.services.len() == s1.services.len()
        }),
{
    let s1 = spec_apply_event(s, ev);
    let s2 = spec_apply_event(s1, ev);
    match ev {
        EventV::Owner(_) => {
        },
        EventV::Delegate(d) => {
            if crate::events::delegate_type_ok(d) {
                let dt = vstd::utf8::decode_utf8(crate::util::trim_nuls(d.delegate_type));
                let delegate = "0x"@ + crate::util::hex_of(d.delegate);
                let ei = "DIDDelegateChanged-"@ + dt + "-"@ + delegate;
                let n1 = (s.delegate_count + 1) as u32;
                let n2 = (s1.delegate_count + 1) as u32;
                let r1 = s.doc.id + "#delegate-"@ + dec_str(n1 as nat);
                let r2 = s1.doc.id + "#delegate-"@ + dec_str(n2 as nat);
                lemma_event_preserves_doc(s, ev);
                if dt == "sigAuth"@ {
                    collapse_two(s.auth, EntryV { key: ei, value: r1, number: n1 }, EntryV { key: ei, value: r2, number: n2 });
                    collapse_two(s.signing_refs, EntryV { key: ei, value: r1, number: n1 }, EntryV { key: ei, value: r2, number: n2 });
                } else if dt == "veriKey"@ {
                    collapse_two(s.pks, EntryV { key: ei, value: spec_apply_delegate_verikey_pair(s, d), number: n1 }, EntryV { key: ei, value: spec_apply_delegate_verikey_pair(s1, d), number: n2 });
                    collapse_two(s.signing_refs, EntryV { key: ei, value: r1, number: n1 }, EntryV { key: ei, value: r2, number: n2 });
                }
            }
        },
        EventV::Attribute(a) => {
            match crate::events::spec_parse_attr_name(crate::events::attr_name_text(a)) {
                None => {
                },
                Some(parts) => {
                    let value = crate::events::attr_value_text(a);
                    let ei = "DIDAttributeChanged-"@ + crate::events::attr_name_text(a) + "-"@
                        + value;
                    lemma_event_preserves_doc(s, ev);
                    if parts.section == "pub"@ {
                        let n1 = (s.delegate_count + 1) as u32;
                        let n2 = (s1.delegate_count + 1) as u32;
                        let kp1 = crate::events::attr_key_pair(s.doc.id, parts, value, n1);
                        let kp2 = crate::events::attr_key_pair(s1.doc.id, parts, value, n2);
                        let r1 = s.doc.id + "#delegate-"@ + dec_str(n1 as nat);
                        let r2 = s1.doc.id + "#delegate-"@ + dec_str(n2 as nat);
                        collapse_two(s.pks, EntryV { key: ei, value: kp1, number: n1 }, EntryV { key: ei, value: kp2, number: n2 });
                        if parts.purpose == "sigAuth"@ {
                            collapse_two(s.auth, EntryV { key: ei, value: r1, number: n1 }, EntryV { key: ei, value: r2, number: n2 });
                            collapse_two(s.signing_refs, EntryV { key: ei, value: r1, number: n1 }, EntryV { key: ei, value: r2, number: n2 });
                        } else if parts.purpose == "veriKey"@ {
                            collapse_two(s.key_agreement_refs, EntryV { key: ei, value: kp1, number: n1 }, EntryV { key: ei, value: kp2, number: n2 });
                        } else {
                            collapse_two(s.signing_refs, EntryV { key: ei, value: r1, number: n1 }, EntryV { key: ei, value: r2, number: n2 });
                        }
                    } else {
                        if vstd::utf8::valid_utf8(a.value) {
                            let m1 = (s.service_count + 1) as u32;
                            let m2 = (s1.service_count + 1) as u32;
                            let text = vstd::utf8::decode_utf8(a.value);
                            let svc1 = crate::did::ServiceV {
                                id: s.doc.id + "#service-"@ + dec_str(m1 as nat),
                                _type: parts.algorithm,
                                service_endpoint: crate::did::spec_endpoint_of(text),
                            };
                            let svc2 = crate::did::ServiceV {
                                id: s1.doc.id + "#service-"@ + dec_str(m2 as nat),
                                _type: parts.algorithm,
                                service_endpoint: crate::did::spec_endpoint_of(text),
                            };
                            collapse_two(s.services, EntryV { key: ei, value: svc1, number: m1 }, EntryV { key: ei, value: svc2, number: m2 });
                        }
                    }
                },
            }
        },
    }
}

/// Storing two entries with the same key adds that key once and the second
/// store does not grow the map further.
proof fn collapse_two<VV>(m: Seq<EntryV<VV>>, e1: EntryV<VV>, e2: EntryV<VV>)
    requires
        e1.key == e2.key,
    ensures
        assoc_key_set(assoc_set(assoc_set(m, e1), e2)) =~= assoc_key_set(assoc_set(m, e1)),
        assoc_set(assoc_set(m, e1), e2).len() == assoc_set(m, e1).len(),
{
    lemma_assoc_set_keys(m, e1);
    lemma_assoc_set_keys(assoc_set(m, e1), e2);
    assert(crate::did::assoc_has_key(assoc_set(m, e1), e2.key)) by {
        lemma_assoc_set_keys(m, e1);
        assert(assoc_key_set(assoc_set(m, e1)).contains(e1.key));
    }
}

} // verus!

