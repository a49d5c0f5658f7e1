use vstd::prelude::*;
use crate::addr::{Address, AddressArena, Route};
use crate::errors::ApiError;
use crate::sessions::{SessionPolicy, SessionRegistry};

verus! {

/// The routed part of an envelope: where it still has to go, where replies
/// should travel, and the opaque payload.
#[derive(Debug)]
pub struct TransportMessage {
    pub onward_route: Route,
    pub return_route: Route,
    pub payload: Vec<u8>,
}

/// An envelope together with its out-of-band routing metadata, which the
/// relay carries through untouched.
#[derive(Debug)]
pub struct LocalMessage {
    pub transport: TransportMessage,
    pub local_info: Vec<u8>,
}

/// What one in-flight relay request remembers while the reply is awaited:
/// the original return route and the dedicated child endpoint that the reply
/// will arrive on.
#[derive(Debug)]
pub struct PendingReply {
    pub return_route: Route,
    pub child: Address,
}

/// The view of an envelope: onward route, return route, payload, metadata.
pub open spec fn spec_msg_view(m: LocalMessage) -> (
    Seq<(Seq<u8>, u64)>,
    Seq<(Seq<u8>, u64)>,
    Seq<u8>,
    Seq<u8>,
) {
    (m.transport.onward_route@, m.transport.return_route@, m.transport.payload@, m.local_info@)
}

/// The envelope forwarded one hop onward: this worker's own hop removed,
/// replies redirected to the dedicated child endpoint, payload and metadata
/// untouched.
pub open spec fn spec_forwarded(msg: LocalMessage, child: (Seq<u8>, u64)) -> (
    Seq<(Seq<u8>, u64)>,
    Seq<(Seq<u8>, u64)>,
    Seq<u8>,
    Seq<u8>,
) {
    (
        msg.transport.onward_route@.drop_first(),
        seq![child],
        msg.transport.payload@,
        msg.local_info@,
    )
}

/// The envelope relaying a reply back: addressed along the original return
/// route, with an empty return route and the reply's payload and metadata.
pub open spec fn spec_replied(pending: PendingReply, response: LocalMessage) -> (
    Seq<(Seq<u8>, u64)>,
    Seq<(Seq<u8>, u64)>,
    Seq<u8>,
    Seq<u8>,
) {
    (
        pending.return_route@,
        Seq::<(Seq<u8>, u64)>::empty(),
        response.transport.payload@,
        response.local_info@,
    )
}

/// A long-lived forwarding endpoint. It accepts an inbound envelope,
/// forwards it one hop closer to its destination through a disposable child
/// endpoint, and later relays the single reply back along the original
/// return path. The worker itself is stateless across messages except for
/// the arena that makes each child endpoint uniquely addressed.
#[derive(Debug)]
pub struct RpcProxyService {
    pub arena: AddressArena,
}

/// The diagnostic tag carried by every relay child endpoint: the ASCII bytes
/// of "rpc".
pub open spec fn spec_child_tag() -> Seq<u8> {
    seq![114u8, 112u8, 99u8]
}

/// Builds the diagnostic tag for a relay child endpoint.
fn child_tag() -> (t: Vec<u8>)
    ensures
        t@ == spec_child_tag(),
{
    let mut t: Vec<u8> = Vec::new();
    t.push(114);
    t.push(112);
    t.push(99);
    proof {
        assert(t@ =~= spec_child_tag());
    }
    t
}

impl RpcProxyService {
    pub fn new() -> (r: RpcProxyService)
        ensures
            r.arena.next_nonce == 0,
    {
        RpcProxyService { arena: AddressArena::new() }
    }

    /// The receive-to-forward half of one relay request.
    ///
    /// Strips this worker's own hop from the onward route, reads the next
    /// hop, allocates a fresh single-use child endpoint for the reply, and,
    /// if the next hop is a registered session producer, registers the child
    /// as a consumer of that same session so the forwarded traffic stays
    /// authorized; with no such session the message travels under the open
    /// policy and the registry is untouched. Fails only when the onward
    /// route is too short to have a next hop, and then changes nothing.
    pub fn prepare_forward(&mut self, registry: &mut SessionRegistry, msg: LocalMessage) -> (r:
        Result<(LocalMessage, PendingReply), ApiError>)
        requires
            old(self).arena.next_nonce < u64::MAX,
            old(registry).wf(),
        ensures
            final(registry).wf(),
            r is Ok <==> msg.transport.onward_route@.len() >= 2,
            r is Err ==> {
                &&& *final(self) == *old(self)
                &&& *final(registry) == *old(registry)
                &&& r == Err::<(LocalMessage, PendingReply), ApiError>(ApiError::InvalidRoute)
            },
            r matches Ok((fwd, pending)) ==> {
                let next = msg.transport.onward_route@[1];
                &&& spec_msg_view(fwd) == spec_forwarded(msg, pending.child@)
                &&& pending.return_route@ == msg.transport.return_route@
                &&& pending.child.nonce == old(self).arena.next_nonce + 1
                &&& final(self).arena.next_nonce == old(self).arena.next_nonce + 1
                &&& final(registry).next_id == old(registry).next_id
                &&& (!old(registry).spec_has_producer(next) ==> *final(registry) == *old(registry))
                &&& (old(registry).spec_has_producer(next) ==> exists|i: int|
                    {
                        &&& 0 <= i < old(registry).sessions@.len()
                        &&& (#[trigger] old(registry).sessions@[i]).producer@ == next
                        &&& final(registry).sessions@.len() == old(registry).sessions@.len()
                        &&& forall|j: int|
                            0 <= j < old(registry).sessions@.len() && j != i ==> final(registry).sessions@[j] == old(registry).sessions@[j]
                        &&& final(registry).sessions@[i].id == old(registry).sessions@[i].id
                        &&& final(registry).sessions@[i].producer@ == old(registry).sessions@[i].producer@
                        &&& final(registry).sessions@[i].policy == old(registry).sessions@[i].policy
                        &&& final(registry).sessions@[i].consumers@.len() == old(registry).sessions@[i].consumers@.len() + 1
                        &&& final(registry).sessions@[i].consumers@.last().address@
                            == pending.child@
                        &&& final(registry).sessions@[i].consumers@.last().policy
                            == SessionPolicy::ProducerAllowMultiple
                    })
            },
    {
        let LocalMessage { transport, local_info } = msg;
        let TransportMessage { onward_route: mut onward, return_route, payload } = transport;
        if onward.len() < 2 {
            return Err(ApiError::InvalidRoute);
        }
        match onward.step() {
            Ok(()) => {},
            Err(_) => {
                return Err(ApiError::InvalidRoute);
            },
        }
        let next = match onward.next_hop() {
            Some(a) => a.dup(),
            None => {
                return Err(ApiError::InvalidRoute);
            },
        };
        let child = self.arena.fresh_address(child_tag());
        match registry.find_session_with_producer_address(&next) {
            Some(session_id) => {
                registry.add_consumer(
                    child.dup(),
                    session_id,
                    SessionPolicy::ProducerAllowMultiple,
                );
            },
            None => {},
        }
        let fwd = LocalMessage {
            transport: TransportMessage {
                onward_route: onward,
                return_route: Route::single(child.dup()),
                payload,
            },
            local_info,
        };
        Ok((fwd, PendingReply { return_route, child }))
    }

    /// The reply half of one relay request: the reply's payload is re-wrapped
    /// into a fresh envelope addressed along the original return route, with
    /// no further hops inserted, and the child endpoint is discarded.
    pub fn relay_reply(&self, pending: PendingReply, response: LocalMessage) -> (out: LocalMessage)
        ensures
            spec_msg_view(out) == spec_replied(pending, response),
    {
        let PendingReply { return_route, child: _ } = pending;
        LocalMessage {
            transport: TransportMessage {
                onward_route: return_route,
                return_route: Route::empty(),
                payload: response.transport.payload,
            },
            local_info: response.local_info,
        }
    }
}

/// Relay round trip: for a payload sent along a route of exactly this relay
/// and one destination, with a return route back to the origin, the
/// destination observes exactly the original payload with no hops inserted
/// beyond the reply endpoint, and the origin receives exactly the
/// destination's reply bytes along the original return route.
pub proof fn lemma_relay_round_trip(
    msg: LocalMessage,
    fwd: LocalMessage,
    pending: PendingReply,
    response: LocalMessage,
    out: LocalMessage,
)
    requires
        msg.transport.onward_route@.len() == 2,
        spec_msg_view(fwd) == spec_forwarded(msg, pending.child@),
        pending.return_route@ == msg.transport.return_route@,
        spec_msg_view(out) == spec_replied(pending, response),
    ensures
        fwd.transport.onward_route@ =~= seq![msg.transport.onward_route@[1]],
        fwd.transport.payload@ == msg.transport.payload@,
        fwd.transport.return_route@ =~= seq![pending.child@],
        out.transport.onward_route@ == msg.transport.return_route@,
        out.transport.payload@ == response.transport.payload@,
        out.transport.return_route@.len() == 0,
{
}

/// Concurrent relay requests never share reply endpoints: two forwarded
/// envelopes whose child endpoints come from distinct draws of one arena
/// carry distinct reply addresses, so one request's reply cannot be
/// delivered to another's child endpoint.
pub proof fn lemma_concurrent_replies_isolated(
    fwd1: LocalMessage,
    pending1: PendingReply,
    after_first: AddressArena,
    before_second: AddressArena,
    fwd2: LocalMessage,
    pending2: PendingReply,
)
    requires
        fwd1.transport.return_route@ =~= seq![pending1.child@],
        fwd2.transport.return_route@ =~= seq![pending2.child@],
        pending1.child.nonce == after_first.next_nonce,
        before_second.next_nonce >= after_first.next_nonce,
        pending2.child.nonce == before_second.next_nonce + 1,
    ensures
        fwd1.transport.return_route@[0] != fwd2.transport.return_route@[0],
{
    crate::addr::lemma_fresh_addresses_distinct(
        pending1.child,
        after_first,
        before_second,
        pending2.child,
    );
}

} // verus!
