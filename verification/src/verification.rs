//! Verification-suite names and the legacy-algorithm alias table.

use vstd::prelude::*;
use vstd::string::*;

verus! {

/// Canonical suite assigned to a legacy verification-suite name, if the name
/// is in the alias table.
pub open spec fn spec_legacy_alias(name: Seq<char>) -> Option<Seq<char>> {
    if name == "Secp256k1VerificationKey2018"@ {
        Some("EcdsaSecp256k1VerificationKey2019"@)
    } else if name == "Ed25519SignatureAuthentication2018"@ {
        Some("Ed25519VerificationKey2018"@)
    } else if name == "Secp256k1SignatureAuthentication2018"@ {
        Some("EcdsaSecp256k1VerificationKey2019"@)
    } else if name == "RSAVerificationKey2018"@ {
        Some("RSAVerificationKey2018"@)
    } else if name == "Ed25519VerificationKey2018"@ {
        Some("Ed25519VerificationKey2018"@)
    } else if name == "X25519KeyAgreementKey2019"@ {
        Some("X25519KeyAgreementKey2019"@)
    } else {
        None
    }
}

/// Look a candidate suite name up in the legacy alias table.
pub fn legacy_alias(name: &String) -> (r: Option<String>)
    ensures
        match r {
            Some(v) => spec_legacy_alias(name@) == Some(v@),
            None => spec_legacy_alias(name@) is None,
        },
{
    if *name == "Secp256k1VerificationKey2018".to_owned() {
        Some("EcdsaSecp256k1VerificationKey2019".to_owned())
    } else if *name == "Ed25519SignatureAuthentication2018".to_owned() {
        Some("Ed25519VerificationKey2018".to_owned())
    } else if *name == "Secp256k1SignatureAuthentication2018".to_owned() {
        Some("EcdsaSecp256k1VerificationKey2019".to_owned())
    } else if *name == "RSAVerificationKey2018".to_owned() {
        Some("RSAVerificationKey2018".to_owned())
    } else if *name == "Ed25519VerificationKey2018".to_owned() {
        Some("Ed25519VerificationKey2018".to_owned())
    } else if *name == "X25519KeyAgreementKey2019".to_owned() {
        Some("X25519KeyAgreementKey2019".to_owned())
    } else {
        None
    }
}

} // verus!
