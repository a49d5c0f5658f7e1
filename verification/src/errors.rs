use vstd::prelude::*;

verus! {

/// The error taxonomy of the trust-session layer.
///
/// Every fallible control-plane operation reports one of these values;
/// contracts state exactly on which inputs each variant is produced.
#[derive(Debug, Clone, Copy, PartialEq, Eq, Structural)]
pub enum ApiError {
    /// A portable address could not be mapped to a live route.
    InvalidRoute,
    /// Secure-channel negotiation exceeded its deadline.
    ChannelTimeout,
    /// The issuer identity descriptor is malformed; fatal, never retried.
    InvalidAuthorityIdentity,
    /// A remote call failed after a channel was established.
    RpcFailure,
    /// A retrieved credential could not be decoded.
    MalformedCredential,
    /// The cached retriever has no stored credential.
    NotConfigured,
    /// A socket bind, connect or disconnect failed.
    TransportFailure,
    /// A transport or session lookup missed.
    NotFound,
}

} // verus!
