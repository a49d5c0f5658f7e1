use trust_sessions::addr::{Address, Route};
use trust_sessions::errors::ApiError;
use trust_sessions::relay::{LocalMessage, RpcProxyService, TransportMessage};
use trust_sessions::sessions::{SessionPolicy, SessionRegistry};

fn addr(name: &str) -> Address {
    Address { name: name.as_bytes().to_vec(), nonce: 0 }
}

fn route(names: &[&str]) -> Route {
    let mut r = Route::empty();
    for n in names {
        r.push_hop(addr(n));
    }
    r
}

fn envelope(onward: &[&str], back: &[&str], payload: &[u8]) -> LocalMessage {
    LocalMessage {
        transport: TransportMessage {
            onward_route: route(onward),
            return_route: route(back),
            payload: payload.to_vec(),
        },
        local_info: Vec::new(),
    }
}

#[test]
fn relay_round_trip_preserves_payloads_byte_for_byte() {
    let mut relay = RpcProxyService::new();
    let mut reg = SessionRegistry::new();
    let msg = envelope(&["relay", "dest"], &["origin"], b"payload p");
    let (fwd, pending) = relay.prepare_forward(&mut reg, msg).unwrap();
    // Dest observes exactly the original payload, one hop, no insertions.
    assert_eq!(fwd.transport.payload, b"payload p".to_vec());
    assert_eq!(fwd.transport.onward_route.len(), 1);
    assert!(fwd.transport.onward_route.next_hop().unwrap().addr_eq(&addr("dest")));
    // The reply goes to the dedicated child endpoint alone.
    assert_eq!(fwd.transport.return_route.len(), 1);
    assert!(fwd.transport.return_route.next_hop().unwrap().addr_eq(&pending.child));
    // Dest replies; the origin receives exactly dest's bytes.
    let response = envelope(&[], &[], b"reply bytes");
    let out = relay.relay_reply(pending, response);
    assert_eq!(out.transport.payload, b"reply bytes".to_vec());
    assert_eq!(out.transport.onward_route.len(), 1);
    assert!(out.transport.onward_route.next_hop().unwrap().addr_eq(&addr("origin")));
    assert_eq!(out.transport.return_route.len(), 0);
}

#[test]
fn short_onward_route_is_rejected_unchanged() {
    let mut relay = RpcProxyService::new();
    let mut reg = SessionRegistry::new();
    let msg = envelope(&["relay"], &["origin"], b"p");
    let r = relay.prepare_forward(&mut reg, msg);
    assert!(matches!(r, Err(ApiError::InvalidRoute)));
    assert_eq!(reg.sessions.len(), 0);
}

#[test]
fn child_inherits_session_of_next_hop_producer() {
    let mut relay = RpcProxyService::new();
    let mut reg = SessionRegistry::new();
    let sid = reg.generate_session_id();
    reg.register_producer(sid, addr("dest"), SessionPolicy::ProducerAllowMultiple);
    let msg = envelope(&["relay", "dest"], &["origin"], b"p");
    let (_fwd, pending) = relay.prepare_forward(&mut reg, msg).unwrap();
    // The child endpoint was registered as a consumer of dest's session.
    assert_eq!(reg.sessions[0].consumers.len(), 1);
    assert!(reg.sessions[0].consumers[0].address.addr_eq(&pending.child));
}

#[test]
fn unknown_next_hop_forwards_under_open_policy() {
    let mut relay = RpcProxyService::new();
    let mut reg = SessionRegistry::new();
    let sid = reg.generate_session_id();
    reg.register_producer(sid, addr("elsewhere"), SessionPolicy::ProducerAllowMultiple);
    let msg = envelope(&["relay", "dest"], &["origin"], b"p");
    let (_fwd, _pending) = relay.prepare_forward(&mut reg, msg).unwrap();
    // No session has dest as producer: nothing was registered, no error.
    assert_eq!(reg.sessions[0].consumers.len(), 0);
}

#[test]
fn hundred_concurrent_requests_get_their_own_replies() {
    let mut relay = RpcProxyService::new();
    let mut reg = SessionRegistry::new();
    let n = 100;
    let mut pendings = Vec::new();
    let mut children = std::collections::HashSet::new();
    for k in 0..n {
        let payload = format!("payload number {k}");
        let origin = format!("origin_{k}");
        let msg = envelope(&["relay", "dest"], &[origin.as_str()], payload.as_bytes());
        let (fwd, pending) = relay.prepare_forward(&mut reg, msg).unwrap();
        assert_eq!(fwd.transport.payload, payload.as_bytes().to_vec());
        // Every request gets its own child endpoint.
        assert!(children.insert(pending.child.nonce));
        pendings.push((k, pending));
    }
    // Replies arrive in reverse order; each still reaches its own origin.
    for (k, pending) in pendings.into_iter().rev() {
        let reply = format!("reply for {k}");
        let response = envelope(&[], &[], reply.as_bytes());
        let out = relay.relay_reply(pending, response);
        assert_eq!(out.transport.payload, reply.as_bytes().to_vec());
        let expected_origin = format!("origin_{k}");
        assert!(out.transport.onward_route.next_hop().unwrap().addr_eq(&addr(&expected_origin)));
    }
}
