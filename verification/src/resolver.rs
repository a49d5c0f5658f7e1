use vstd::prelude::*;
use crate::addr::{Address, Route, bytes_eq, bytes_dup};
use crate::errors::ApiError;
use crate::multiaddr::{MultiAddr, Proto, ProtoV, spec_proto_value};
use crate::transport::{TransportMode, Transports};

verus! {

/// Whether a portable address names a protocol stack the transport manager
/// supports: a host (DNS name or literal IPv4), then a TCP port, then any
/// number of named services.
pub open spec fn spec_supported(ps: Seq<ProtoV>) -> bool {
    &&& ps.len() >= 2
    &&& (ps[0] matches ProtoV::DnsAddr(_) || ps[0] matches ProtoV::Ip4(_))
    &&& ps[1] matches ProtoV::Tcp(_)
    &&& forall|i: int| 2 <= i < ps.len() ==> (#[trigger] ps[i]) matches ProtoV::Service(_)
}

/// The socket address text of a supported portable address: host, a colon,
/// and the decimal port.
pub open spec fn spec_socket_text(ps: Seq<ProtoV>) -> Seq<u8>
    recommends
        spec_supported(ps),
{
    spec_proto_value(ps[0]) + seq![58u8] + spec_proto_value(ps[1])
}

/// The route a supported portable address resolves to, given the worker
/// address fronting the transport connection: the transport hop first, then
/// one hop per named service, in order.
pub open spec fn spec_route_for(ps: Seq<ProtoV>, worker: (Seq<u8>, u64)) -> Seq<(Seq<u8>, u64)>
    recommends
        spec_supported(ps),
{
    seq![worker] + Seq::new((ps.len() - 2) as nat, |i: int| (spec_proto_value(ps[i + 2]), 0u64))
}

/// What address resolution decided.
#[derive(Debug)]
pub enum ResolveOutcome {
    /// An existing outbound connection covers the target; the route is ready.
    Ready(Route),
    /// No live connection reaches the target: the caller must dial this
    /// socket address, record the transport, and resolve again.
    NeedsConnect(Vec<u8>),
}

/// Map a portable address onto a concrete route of transport-layer hops.
///
/// Fails exactly when the address does not name a supported protocol stack.
/// Otherwise, if the transport table already holds an outbound connection to
/// the target socket, the route reuses its worker address (resolution is
/// idempotent per distinct target) and continues through the named services;
/// if not, the caller is told which socket address to dial.
pub fn resolve(ma: &MultiAddr, transports: &Transports) -> (r: Result<ResolveOutcome, ApiError>)
    requires
        transports.wf(),
    ensures
        r is Err <==> !spec_supported(ma@),
        r matches Err(e) ==> e == ApiError::InvalidRoute,
        r matches Ok(out) ==> match out {
            ResolveOutcome::Ready(route) => exists|i: int|
                {
                    &&& 0 <= i < transports.records@.len()
                    &&& (#[trigger] transports.records@[i]).transport.tm == TransportMode::Connect
                    &&& transports.records@[i].transport.socket_address@ == spec_socket_text(ma@)
                    &&& route@ == spec_route_for(
                        ma@,
                        transports.records@[i].transport.worker_address@,
                    )
                },
            ResolveOutcome::NeedsConnect(socket) => {
                &&& socket@ == spec_socket_text(ma@)
                &&& forall|i: int|
                    0 <= i < transports.records@.len() ==> !((
                    #[trigger] transports.records@[i]).transport.tm == TransportMode::Connect
                        && transports.records@[i].transport.socket_address@ == spec_socket_text(
                        ma@,
                    ))
            },
        },
{
    if ma.protos.len() < 2 {
        return Err(ApiError::InvalidRoute);
    }
    let host: Vec<u8> = match &ma.protos[0] {
        Proto::DnsAddr(h) => bytes_dup(h),
        Proto::Ip4(h) => bytes_dup(h),
        _ => {
            return Err(ApiError::InvalidRoute);
        },
    };
    let port: u16 = match &ma.protos[1] {
        Proto::Tcp(p) => *p,
        _ => {
            return Err(ApiError::InvalidRoute);
        },
    };
    let mut k: usize = 2;
    while k < ma.protos.len()
        invariant
            2 <= k <= ma.protos@.len(),
            forall|i: int| 2 <= i < k ==> (#[trigger] ma@[i]) matches ProtoV::Service(_),
        decreases ma.protos@.len() - k,
    {
        match &ma.protos[k] {
            Proto::Service(_) => {},
            _ => {
                proof {
                    assert(ma@[k as int] == ma.protos@[k as int]@);
                    assert(!spec_supported(ma@));
                }
                return Err(ApiError::InvalidRoute);
            },
        }
        k += 1;
    }
    let mut socket = host;
    socket.push(58);
    crate::multiaddr::push_dec(&mut socket, port);
    proof {
        assert(socket@ =~= spec_socket_text(ma@));
    }
    let mut i: usize = 0;
    while i < transports.records.len()
        invariant
            i <= transports.records@.len(),
            socket@ == spec_socket_text(ma@),
            spec_supported(ma@),
            forall|j: int|
                0 <= j < i ==> !((#[trigger] transports.records@[j]).transport.tm
                    == TransportMode::Connect
                    && transports.records@[j].transport.socket_address@ == spec_socket_text(ma@)),
        decreases transports.records@.len() - i,
    {
        let rec = &transports.records[i];
        if rec.transport.tm == TransportMode::Connect && bytes_eq(
            &rec.transport.socket_address,
            &socket,
        ) {
            let mut route = Route::single(rec.transport.worker_address.dup());
            let mut k2: usize = 2;
            while k2 < ma.protos.len()
                invariant
                    2 <= k2 <= ma.protos@.len(),
                    spec_supported(ma@),
                    route@.len() == k2 - 1,
                    route@[0] == transports.records@[i as int].transport.worker_address@,
                    0 <= i < transports.records@.len(),
                    forall|j: int|
                        1 <= j < k2 - 1 ==> route@[j] == (spec_proto_value(ma@[j + 1]), 0u64),
                decreases ma.protos@.len() - k2,
            {
                let name: Vec<u8> = match &ma.protos[k2] {
                    Proto::Service(n) => bytes_dup(n),
                    _ => {
                        proof {
                            assert(ma@[k2 as int] == ma.protos@[k2 as int]@);
                            assert(false);
                        }
                        return Err(ApiError::InvalidRoute);
                    },
                };
                route.push_hop(Address::well_known(name));
                k2 += 1;
            }
            proof {
                assert(route@ =~= spec_route_for(
                    ma@,
                    transports.records@[i as int].transport.worker_address@,
                ));
            }
            return Ok(ResolveOutcome::Ready(route));
        }
        i += 1;
    }
    Ok(ResolveOutcome::NeedsConnect(socket))
}

/// For every supported portable address, the resolved route's final hop is
/// the requested endpoint: the last named service when the address names
/// services, and otherwise the transport connection's own worker.
pub proof fn lemma_resolve_final_hop(ps: Seq<ProtoV>, worker: (Seq<u8>, u64))
    requires
        spec_supported(ps),
    ensures
        spec_route_for(ps, worker).len() == ps.len() - 1,
        ps.len() > 2 ==> spec_route_for(ps, worker).last() == (
            spec_proto_value(ps[ps.len() - 1]),
            0u64,
        ),
        ps.len() == 2 ==> spec_route_for(ps, worker).last() == worker,
{
}

} // verus!
