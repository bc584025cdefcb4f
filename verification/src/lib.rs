//! Resolver core for `did:ethr` decentralized identifiers.
//!
//! The crate reconstructs a W3C DID Document from the event stream of an
//! ERC-1056 registry contract: each registry change (owner, delegate or
//! attribute) is decoded into a typed event, folded into a document
//! accumulator, and the accumulator is finally projected into the canonical
//! document shape.  All of that logic is verified; the JSON-RPC transport and
//! ABI decoding live outside this crate and hand it plain values.

use vstd::prelude::*;

pub mod did;
pub mod error;
pub mod ethr;
pub mod laws;
pub mod events;
pub mod util;
pub mod verification;

use crate::did::{DidDocument, DidDocumentV};
use crate::error::Error;
use crate::util::{is_hex_char, last_colon_segment, spec_strip0x, strip0x};
use vstd::string::*;

verus! {

/// An `accept` value the resolver can honour.
pub open spec fn spec_accept_ok(a: Seq<char>) -> bool {
    a == "application/did+json"@ || a == "application/did+ld+json"@
}

/// The `@context` list a representation selects: none for plain JSON, the
/// three standard URLs for JSON-LD.
pub open spec fn spec_context(a: Seq<char>) -> Seq<Seq<char>> {
    if a == "application/did+json"@ {
        Seq::empty()
    } else {
        seq![
            "https://www.w3.org/ns/did/v1"@,
            "https://w3id.org/security/suites/secp256k1recovery-2020/v2"@,
            "https://w3id.org/security/v3-unstable"@,
        ]
    }
}

/// A DID the resolver accepts: it ends in `0x` plus 40 or 66 hex digits, and
/// what precedes that suffix contains no newline.
pub open spec fn hex_suffix_ok(s: Seq<char>, n: int) -> bool {
    &&& s.len() >= n + 2
    &&& s[s.len() - n - 2] == '0'
    &&& s[s.len() - n - 1] == 'x'
    &&& forall|i: int| s.len() - n <= i < s.len() ==> is_hex_char(#[trigger] s[i])
    &&& forall|i: int| 0 <= i < s.len() - n - 2 ==> #[trigger] s[i] != '\n'
}

/// Whether a DID string names an identity this resolver can serve.
pub open spec fn spec_did_valid(s: Seq<char>) -> bool {
    hex_suffix_ok(s, 40) || hex_suffix_ok(s, 66)
}

/// The document skeleton a resolution starts from: the DID verbatim as `id`,
/// the context the representation selects, everything else empty.
pub open spec fn spec_skeleton(did: Seq<char>, accept: Seq<char>) -> DidDocumentV {
    DidDocumentV {
        context: spec_context(accept),
        id: did,
        verification_method: Seq::empty(),
        authentication: Seq::empty(),
        assertion_method: Seq::empty(),
        capability_delegation: Seq::empty(),
        capability_invocation: Seq::empty(),
        key_agreement: Seq::empty(),
        services: Seq::empty(),
    }
}

/// Check one suffix shape: `0x` plus `n` hex digits at the very end, no
/// newline before it.
fn check_hex_suffix(s: &str, n: usize) -> (r: bool)
    requires
        n <= 100,
    ensures
        r == hex_suffix_ok(s@, n as int),
{
    let len = s.unicode_len();
    if len < n + 2 {
        return false;
    }
    if s.get_char(len - n - 2) != '0' || s.get_char(len - n - 1) != 'x' {
        return false;
    }
    let mut i: usize = len - n;
    while i < len
        invariant
            len - n <= i <= len,
            len == s@.len(),
            n + 2 <= len,
            forall|j: int| len - n <= j < i ==> is_hex_char(#[trigger] s@[j]),
        decreases len - i,
    {
        let u = s.get_char(i) as u32;
        if !((48 <= u && u <= 57) || (97 <= u && u <= 102) || (65 <= u && u <= 70)) {
            return false;
        }
        i = i + 1;
    }
    let mut j: usize = 0;
    while j < len - n - 2
        invariant
            j <= len - n - 2,
            n + 2 <= len,
            len == s@.len(),
            forall|k: int| 0 <= k < j ==> #[trigger] s@[k] != '\n',
            forall|k: int| len - n <= k < len ==> is_hex_char(#[trigger] s@[k]),
        decreases len - n - 2 - j,
    {
        if s.get_char(j) == '\n' {
            return false;
        }
        j = j + 1;
    }
    true
}

/// Whether a DID string names an identity this resolver can serve: it must
/// end in a 20-byte address or a 33-byte compressed public key in hex.
pub fn is_valid_did(did: &str) -> (r: bool)
    ensures
        r == spec_did_valid(did@),
{
    check_hex_suffix(did, 40) || check_hex_suffix(did, 66)
}

/// Start a resolution: validate the `accept` representation and the DID,
/// and hand back the document skeleton together with the registry identity
/// (the DID's identifier without its `0x` prefix).  The representation is
/// checked before the DID.
pub fn prepare_resolution(did: &str, accept: &str) -> (r: Result<(DidDocument, String), Error>)
    ensures
        r is Ok <==> spec_accept_ok(accept@) && spec_did_valid(did@),
        r matches Ok(p) ==> p.0.deep_view() == spec_skeleton(did@, accept@) && p.1@
            == spec_strip0x(last_colon_segment(did@)),
        !spec_accept_ok(accept@) ==> (r matches Err(Error::UnsupportedAccept(a)) && a@
            == accept@),
        spec_accept_ok(accept@) && !spec_did_valid(did@) ==> (r matches Err(Error::InvalidDid(d))
            && d@ == did@),
{
    let mut context: Vec<String> = Vec::new();
    if accept.to_owned() == "application/did+json".to_owned() {
        // no context entries for the plain JSON representation
    } else if accept.to_owned() == "application/did+ld+json".to_owned() {
        context.push("https://www.w3.org/ns/did/v1".to_owned());
        context.push("https://w3id.org/security/suites/secp256k1recovery-2020/v2".to_owned());
        context.push("https://w3id.org/security/v3-unstable".to_owned());
    } else {
        return Err(Error::UnsupportedAccept(accept.to_owned()));
    }
    if !is_valid_did(did) {
        return Err(Error::InvalidDid(did.to_owned()));
    }
    let len = did.unicode_len();
    let identifier = match crate::util::find_last(did, ':') {
        Some(i) => {
            proof {
                did@.index_of_last_ensures(':');
            }
            did.substring_char(i + 1, len).to_owned()
        },
        None => {
            proof {
                assert(did@.skip(0) =~= did@);
            }
            did.to_owned()
        },
    };
    let contract_address = strip0x(identifier);
    let doc = DidDocument {
        context,
        id: did.to_owned(),
        verification_method: Vec::new(),
        authentication: Vec::new(),
        assertion_method: Vec::new(),
        capability_delegation: Vec::new(),
        capability_invocation: Vec::new(),
        key_agreement: Vec::new(),
        services: Vec::new(),
    };
    proof {
        assert(doc.deep_view() =~~= spec_skeleton(did@, accept@));
    }
    Ok((doc, contract_address))
}

} // verus!
