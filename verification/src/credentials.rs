use vstd::prelude::*;
use crate::addr::{Address, Route, bytes_dup, bytes_eq};
use crate::errors::ApiError;
use crate::hexutil::{hex_decode, hex_decoded, valid_hex};
use crate::multiaddr::MultiAddr;
use crate::sessions::{SessionPolicy, SessionRegistry};

verus! {

/// An opaque signed claim bound to an identity: retrieved, never locally
/// mutated, immutable once obtained.
#[derive(Debug)]
pub struct Credential {
    pub data: Vec<u8>,
}

/// The credential wire form: a version byte of 1 followed by the claim.
pub open spec fn spec_decode_credential(b: Seq<u8>) -> Option<Seq<u8>> {
    if b.len() >= 1 && b[0] == 1 {
        Some(b.drop_first())
    } else {
        None
    }
}

/// Decode a credential from its wire form.
pub fn decode_credential(b: &Vec<u8>) -> (r: Option<Credential>)
    ensures
        r is Some <==> spec_decode_credential(b@) is Some,
        r matches Some(c) ==> Some(c.data@) == spec_decode_credential(b@),
{
    if b.len() >= 1 && b[0] == 1 {
        let mut data: Vec<u8> = Vec::new();
        let mut i: usize = 1;
        while i < b.len()
            invariant
                1 <= i <= b@.len(),
                data@ == b@.subrange(1, i as int),
            decreases b@.len() - i,
        {
            data.push(b[i]);
            proof {
                assert(data@ =~= b@.subrange(1, i + 1 as int));
            }
            i += 1;
        }
        proof {
            assert(b@.subrange(1, b@.len() as int) =~= b@.drop_first());
        }
        Some(Credential { data })
    } else {
        None
    }
}

/// Locally persisted credential material, loaded from configuration state by
/// the surrounding application.
#[derive(Debug)]
pub struct CredentialState {
    pub stored: Option<Vec<u8>>,
}

/// The cached retrieval strategy: it reads previously persisted credential
/// material and performs no network I/O.
#[derive(Debug)]
pub struct CredentialStateRetriever {
    pub state: CredentialState,
}

impl CredentialStateRetriever {
    pub fn new(state: CredentialState) -> (r: CredentialStateRetriever)
        ensures
            r.state == state,
    {
        CredentialStateRetriever { state }
    }

    /// The stored credential: not-configured when nothing was ever stored,
    /// malformed when the stored bytes cannot be decoded.
    pub fn retrieve(&self) -> (r: Result<Credential, ApiError>)
        ensures
            self.state.stored is None ==> r == Err::<Credential, ApiError>(ApiError::NotConfigured),
            self.state.stored matches Some(b) ==> match spec_decode_credential(b@) {
                Option::None => r == Err::<Credential, ApiError>(ApiError::MalformedCredential),
                Option::Some(d) => r matches Ok(c) && c.data@ == d,
            },
    {
        match &self.state.stored {
            None => Err(ApiError::NotConfigured),
            Some(b) => match decode_credential(b) {
                None => Err(ApiError::MalformedCredential),
                Some(c) => Ok(c),
            },
        }
    }
}

/// The issuer identity descriptor bootstrapping trust toward a credential
/// issuer: a hex-encoded serialized public-identity blob and the issuer's
/// portable address.
#[derive(Debug)]
pub struct CredentialIssuerInfo {
    pub identity: Vec<u8>,
    pub maddr: MultiAddr,
}

impl CredentialIssuerInfo {
    pub fn new(identity: Vec<u8>, maddr: MultiAddr) -> (r: CredentialIssuerInfo)
        ensures
            r.identity@ == identity@,
            r.maddr@ == maddr@,
    {
        CredentialIssuerInfo { identity, maddr }
    }

    /// The issuer's serialized public-identity blob, decoded from its stored
    /// hex form. A malformed descriptor is a fatal configuration error,
    /// never retried.
    pub fn public_identity_blob(&self) -> (r: Result<Vec<u8>, ApiError>)
        ensures
            r is Ok <==> valid_hex(self.identity@),
            r matches Ok(b) ==> b@ == hex_decoded(self.identity@),
            r matches Err(e) ==> e == ApiError::InvalidAuthorityIdentity,
    {
        match hex_decode(&self.identity) {
            Some(b) => Ok(b),
            None => Err(ApiError::InvalidAuthorityIdentity),
        }
    }
}

/// A multi-identifier allow-list: a secure channel request must fail if the
/// peer's identifier is not in the set.
#[derive(Debug)]
pub struct TrustMultiIdentifiersPolicy {
    pub allowed: Vec<Vec<u8>>,
}

impl TrustMultiIdentifiersPolicy {
    /// Whether the allow-list contains this identifier.
    pub open spec fn spec_allows(&self, id: Seq<u8>) -> bool {
        exists|i: int| 0 <= i < self.allowed@.len() && (#[trigger] self.allowed@[i])@ == id
    }

    pub fn new(allowed: Vec<Vec<u8>>) -> (r: TrustMultiIdentifiersPolicy)
        ensures
            r.allowed == allowed,
    {
        TrustMultiIdentifiersPolicy { allowed }
    }

    pub fn is_allowed(&self, id: &Vec<u8>) -> (r: bool)
        ensures
            r == self.spec_allows(id@),
    {
        let mut i: usize = 0;
        while i < self.allowed.len()
            invariant
                i <= self.allowed@.len(),
                forall|j: int| 0 <= j < i ==> (#[trigger] self.allowed@[j])@ != id@,
            decreases self.allowed@.len() - i,
        {
            if bytes_eq(&self.allowed[i], id) {
                return true;
            }
            i += 1;
        }
        false
    }
}

/// Where one remote credential retrieval stands.
#[derive(Debug)]
pub enum RetrieveState {
    /// The descriptor was decoded; the vault's import of the blob is awaited.
    AwaitingImport,
    /// The issuer's identifier is known; route resolution is awaited.
    AwaitingRoute { issuer_id: Vec<u8> },
    /// Channel negotiation under the single-identifier trust policy is
    /// awaited.
    AwaitingChannel { issuer_id: Vec<u8>, session_id: u64 },
    /// The channel stands to an authorized peer; the RPC reply is awaited.
    AwaitingRpc,
    /// The credential was retrieved.
    Done { credential: Credential },
    /// Retrieval failed; the error propagates to the caller verbatim, with
    /// no automatic retry at this layer.
    Failed { error: ApiError },
}

/// What the surrounding application must do next.
#[derive(Debug)]
pub enum RetrieveAction {
    /// Hand the serialized blob to the identity vault for import.
    ImportIdentity { blob: Vec<u8> },
    /// Resolve the issuer's portable address to a route, dialing if needed.
    ResolveRoute,
    /// Negotiate a secure channel along the route, under the allow-list,
    /// within the deadline; the new channel is tagged with the session id.
    OpenChannel { route: Route, allowed: TrustMultiIdentifiersPolicy, timeout_secs: u64, session_id: u64 },
    /// Issue the credential RPC to the well-known issuer endpoint over the
    /// established channel.
    CallIssuer,
}

/// What the outside world reported back.
#[derive(Debug)]
pub enum RetrieveEvent {
    /// The vault imported the blob, or could not.
    Imported { identifier: Option<Vec<u8>> },
    /// The resolver produced a route, or could not.
    RouteResolved { route: Option<Route> },
    /// Channel negotiation completed with this peer, on this local channel
    /// endpoint.
    ChannelEstablished { peer: Vec<u8>, channel_address: Address },
    /// Channel negotiation reached its deadline.
    ChannelTimedOut,
    /// Channel negotiation failed below the policy layer.
    ChannelFailed,
    /// The RPC completed with these reply bytes, or failed.
    RpcReply { reply: Option<Vec<u8>> },
}

/// Whether an event is the one the state awaits.
pub open spec fn spec_expects(state: RetrieveState, event: RetrieveEvent) -> bool {
    match state {
        RetrieveState::AwaitingImport => event matches RetrieveEvent::Imported { .. },
        RetrieveState::AwaitingRoute { .. } => event matches RetrieveEvent::RouteResolved { .. },
        RetrieveState::AwaitingChannel { .. } => (event matches RetrieveEvent::ChannelEstablished {
            ..
        } || event matches RetrieveEvent::ChannelTimedOut || event
            matches RetrieveEvent::ChannelFailed),
        RetrieveState::AwaitingRpc => event matches RetrieveEvent::RpcReply { .. },
        RetrieveState::Done { .. } => false,
        RetrieveState::Failed { .. } => false,
    }
}

/// The remote retrieval strategy: it drives address resolution, a
/// trust-policy-constrained secure channel to the issuer, and one RPC over
/// that channel. It performs no local caching; every run re-fetches.
#[derive(Debug)]
pub struct CredentialIssuerRetriever {
    pub issuer: CredentialIssuerInfo,
}

impl CredentialIssuerRetriever {
    pub fn new(issuer: CredentialIssuerInfo) -> (r: CredentialIssuerRetriever)
        ensures
            r.issuer.identity@ == issuer.identity@,
            r.issuer.maddr@ == issuer.maddr@,
    {
        CredentialIssuerRetriever { issuer }
    }

    /// Begin a retrieval: decode the issuer identity descriptor.
    ///
    /// Corrupted hex is a fatal configuration failure and produces no
    /// action, so no network call of any kind is ever made for a malformed
    /// descriptor.
    pub fn start_retrieve(&self) -> (r: (RetrieveState, Option<RetrieveAction>))
        ensures
            valid_hex(self.issuer.identity@) ==> {
                &&& r.0 is AwaitingImport
                &&& r.1 matches Some(RetrieveAction::ImportIdentity { blob }) && blob@
                    == hex_decoded(self.issuer.identity@)
            },
            !valid_hex(self.issuer.identity@) ==> {
                &&& r.0 == (RetrieveState::Failed { error: ApiError::InvalidAuthorityIdentity })
                &&& r.1 is None
            },
    {
        match self.issuer.public_identity_blob() {
            Ok(blob) => (
                RetrieveState::AwaitingImport,
                Some(RetrieveAction::ImportIdentity { blob }),
            ),
            Err(e) => (RetrieveState::Failed { error: e }, None),
        }
    }

    /// Advance a retrieval by one event.
    ///
    /// The credential RPC is requested only when the negotiated peer is the
    /// issuer identifier the trust policy allows; negotiation with any other
    /// peer can never complete, so the attempt ends as a deadline expiry and
    /// no RPC is ever attempted toward an unauthorized peer. On route
    /// resolution the registry hands out a fresh session id; on channel
    /// establishment the channel endpoint is registered as both session
    /// producer and consumer, so downstream hops inherit its session.
    pub fn step(&self, state: RetrieveState, event: RetrieveEvent, registry: &mut SessionRegistry)
        -> (r: (RetrieveState, Option<RetrieveAction>))
        requires
            spec_expects(state, event),
            old(registry).wf(),
            old(registry).next_id < u64::MAX,
        ensures
            final(registry).wf(),
            // No RPC toward an unauthorized peer: the RPC action only arises from
            // an established channel whose peer is the awaited issuer identifier.
            r.1 matches Some(RetrieveAction::CallIssuer) ==> {
                &&& state matches RetrieveState::AwaitingChannel { issuer_id, .. }
                &&& event matches RetrieveEvent::ChannelEstablished { peer, .. }
                &&& (state matches RetrieveState::AwaitingChannel { issuer_id, .. } && event
                    matches RetrieveEvent::ChannelEstablished { peer, .. } ==> peer@ == issuer_id@)
            },
            (state matches RetrieveState::AwaitingChannel { issuer_id, .. } && event
                matches RetrieveEvent::ChannelEstablished { peer, .. } && peer@ != issuer_id@)
                ==> r == (
                (RetrieveState::Failed { error: ApiError::ChannelTimeout }),
                Option::<RetrieveAction>::None,
            ),
            state matches RetrieveState::AwaitingImport ==> match event {
                RetrieveEvent::Imported { identifier: Option::None } => r == (
                    (RetrieveState::Failed { error: ApiError::InvalidAuthorityIdentity }),
                    Option::<RetrieveAction>::None,
                ),
                RetrieveEvent::Imported { identifier: Option::Some(id) } => {
                    &&& r.0 matches RetrieveState::AwaitingRoute { issuer_id } && issuer_id@ == id@
                    &&& r.1 == Some(RetrieveAction::ResolveRoute)
                },
                _ => true,
            },
            state matches RetrieveState::AwaitingRoute { issuer_id } ==> match event {
                RetrieveEvent::RouteResolved { route: Option::None } => r == (
                    (RetrieveState::Failed { error: ApiError::InvalidRoute }),
                    Option::<RetrieveAction>::None,
                ),
                RetrieveEvent::RouteResolved { route: Option::Some(route) } => {
                    &&& r.0 matches RetrieveState::AwaitingChannel { issuer_id: i2, session_id }
                        && i2@ == issuer_id@ && session_id == old(registry).next_id
                    &&& r.1 matches Some(RetrieveAction::OpenChannel {
                        route: r2,
                        allowed,
                        timeout_secs,
                        session_id,
                    }) && r2@ == route@ && timeout_secs == 120 && session_id == old(
                        registry,
                    ).next_id && allowed.allowed@.len() == 1 && allowed.allowed@[0]@ == issuer_id@
                    &&& final(registry).next_id == old(registry).next_id + 1
                },
                _ => true,
            },
            (state matches RetrieveState::AwaitingChannel { .. } && event
                matches RetrieveEvent::ChannelTimedOut) ==> r == (
                (RetrieveState::Failed { error: ApiError::ChannelTimeout }),
                Option::<RetrieveAction>::None,
            ),
            (state matches RetrieveState::AwaitingChannel { .. } && event
                matches RetrieveEvent::ChannelFailed) ==> r == (
                (RetrieveState::Failed { error: ApiError::TransportFailure }),
                Option::<RetrieveAction>::None,
            ),
            state matches RetrieveState::AwaitingRpc ==> match event {
                RetrieveEvent::RpcReply { reply: Option::None } => r == (
                    (RetrieveState::Failed { error: ApiError::RpcFailure }),
                    Option::<RetrieveAction>::None,
                ),
                RetrieveEvent::RpcReply { reply: Option::Some(bytes) } => match spec_decode_credential(
                    bytes@,
                ) {
                    Option::None => r == (
                        (RetrieveState::Failed { error: ApiError::MalformedCredential }),
                        Option::<RetrieveAction>::None,
                    ),
                    Option::Some(d) => r.0 matches RetrieveState::Done { credential }
                        && credential.data@ == d && r.1 is None,
                },
                _ => true,
            },
    {
        match (state, event) {
            (RetrieveState::AwaitingImport, RetrieveEvent::Imported { identifier }) => match identifier {
                None => (
                    RetrieveState::Failed { error: ApiError::InvalidAuthorityIdentity },
                    None,
                ),
                Some(id) => (
                    RetrieveState::AwaitingRoute { issuer_id: id },
                    Some(RetrieveAction::ResolveRoute),
                ),
            },
            (RetrieveState::AwaitingRoute { issuer_id }, RetrieveEvent::RouteResolved { route }) => match route {
                None => (RetrieveState::Failed { error: ApiError::InvalidRoute }, None),
                Some(route) => {
                    let session_id = registry.generate_session_id();
                    let mut allowed: Vec<Vec<u8>> = Vec::new();
                    allowed.push(bytes_dup(&issuer_id));
                    (
                        RetrieveState::AwaitingChannel { issuer_id, session_id },
                        Some(
                            RetrieveAction::OpenChannel {
                                route,
                                allowed: TrustMultiIdentifiersPolicy::new(allowed),
                                timeout_secs: 120,
                                session_id,
                            },
                        ),
                    )
                },
            },
            (
                RetrieveState::AwaitingChannel { issuer_id, session_id },
                RetrieveEvent::ChannelEstablished { peer, channel_address },
            ) => {
                if !bytes_eq(&peer, &issuer_id) {
                    // A peer the policy excludes can never complete
                    // negotiation: the attempt ends as a deadline expiry.
                    return (RetrieveState::Failed { error: ApiError::ChannelTimeout }, None);
                }
                if session_id < registry.next_id && !registry.has_session(session_id)
                    && registry.find_session_with_producer_address(&channel_address).is_none() {
                    registry.register_producer(
                        session_id,
                        channel_address.dup(),
                        SessionPolicy::ProducerAllowMultiple,
                    );
                    registry.add_consumer(
                        channel_address,
                        session_id,
                        SessionPolicy::ProducerAllowMultiple,
                    );
                }
                (RetrieveState::AwaitingRpc, Some(RetrieveAction::CallIssuer))
            },
            (RetrieveState::AwaitingChannel { .. }, RetrieveEvent::ChannelTimedOut) => (
                RetrieveState::Failed { error: ApiError::ChannelTimeout },
                None,
            ),
            (RetrieveState::AwaitingChannel { .. }, RetrieveEvent::ChannelFailed) => (
                RetrieveState::Failed { error: ApiError::TransportFailure },
                None,
            ),
            (RetrieveState::AwaitingRpc, RetrieveEvent::RpcReply { reply }) => match reply {
                None => (RetrieveState::Failed { error: ApiError::RpcFailure }, None),
                Some(bytes) => match decode_credential(&bytes) {
                    None => (
                        RetrieveState::Failed { error: ApiError::MalformedCredential },
                        None,
                    ),
                    Some(credential) => (RetrieveState::Done { credential }, None),
                },
            },
            _ => {
                proof {
                    assert(false);
                }
                (RetrieveState::Failed { error: ApiError::RpcFailure }, None)
            },
        }
    }
}

} // verus!
