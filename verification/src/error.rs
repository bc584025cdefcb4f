//! Errors surfaced by the resolver core.

use vstd::prelude::*;
use vstd::string::*;

verus! {

/// Everything that can go wrong while resolving a `did:ethr` identifier.
#[derive(Debug, PartialEq)]
pub enum Error {
    /// The DID string does not end in a 20-byte address or a 33-byte
    /// compressed public key in hex; carries the offending DID.
    InvalidDid(String),
    /// The requested representation is not one the resolver produces;
    /// carries the offending `accept` value.
    UnsupportedAccept(String),
    /// A JSON-RPC call failed; carries the transport's message.
    RpcFailure(String),
    /// A registry log's topics match none of the three known events.
    UnknownTopic,
    /// A log field that must be text is not valid UTF-8.
    DecodeFailure,
}

impl Error {
    /// A human-readable description of the error.
    pub fn message(&self) -> (r: String)
        ensures
            match self {
                Error::InvalidDid(d) => r@ == "Not a valid did:ethr: "@ + d@,
                Error::UnsupportedAccept(a) => r@
                    == "The DID resolver does not support the requested 'accept' format: "@ + a@,
                Error::RpcFailure(m) => r@ == m@,
                Error::UnknownTopic => r@ == "Topic can't be identified"@,
                Error::DecodeFailure => r@ == "invalid utf-8 in a log field"@,
            },
    {
        match self {
            Error::InvalidDid(d) => "Not a valid did:ethr: ".to_owned().concat(d.as_str()),
            Error::UnsupportedAccept(a) => {
                "The DID resolver does not support the requested 'accept' format: ".to_owned().concat(
                    a.as_str(),
                )
            },
            Error::RpcFailure(m) => m.clone(),
            Error::UnknownTopic => "Topic can't be identified".to_owned(),
            Error::DecodeFailure => "invalid utf-8 in a log field".to_owned(),
        }
    }
}

} // verus!
