use trust_sessions::addr::Address;
use trust_sessions::errors::ApiError;
use trust_sessions::multiaddr::{MultiAddr, Proto};
use trust_sessions::resolver::{ResolveOutcome, resolve};
use trust_sessions::sessions::SessionRegistry;
use trust_sessions::transport::{TcpConnection, TransportMode, TransportType, Transports};

fn issuer_maddr() -> MultiAddr {
    let mut m = MultiAddr::empty();
    m.push_proto(Proto::DnsAddr(b"cloud.example".to_vec()));
    m.push_proto(Proto::Tcp(62526));
    m.push_proto(Proto::Service(b"credential_issuer".to_vec()));
    m
}

#[test]
fn render_produces_the_canonical_text() {
    assert_eq!(
        issuer_maddr().to_text(),
        b"/dnsaddr/cloud.example/tcp/62526/service/credential_issuer".to_vec()
    );
}

#[test]
fn parse_recovers_the_rendered_address() {
    let text = issuer_maddr().to_text();
    let parsed = MultiAddr::parse(&text).unwrap();
    assert_eq!(parsed.to_text(), text);
    assert_eq!(parsed.protos.len(), 3);
    assert!(matches!(&parsed.protos[1], Proto::Tcp(62526)));
}

#[test]
fn parse_accepts_ip4_hosts() {
    let parsed = MultiAddr::parse(&b"/ip4/127.0.0.1/tcp/8080".to_vec()).unwrap();
    assert_eq!(parsed.protos.len(), 2);
    assert!(matches!(&parsed.protos[0], Proto::Ip4(h) if h == &b"127.0.0.1".to_vec()));
}

#[test]
fn parse_rejects_malformed_text() {
    // No leading separator.
    assert!(matches!(MultiAddr::parse(&b"dnsaddr/x/tcp/1".to_vec()), Err(ApiError::InvalidRoute)));
    // Unknown protocol keyword.
    assert!(matches!(MultiAddr::parse(&b"/udp/1".to_vec()), Err(ApiError::InvalidRoute)));
    // Missing value.
    assert!(matches!(MultiAddr::parse(&b"/dnsaddr".to_vec()), Err(ApiError::InvalidRoute)));
    // Empty value.
    assert!(matches!(MultiAddr::parse(&b"/dnsaddr//tcp/1".to_vec()), Err(ApiError::InvalidRoute)));
    // Port out of range, non-numeric, and non-canonical.
    assert!(matches!(MultiAddr::parse(&b"/ip4/h/tcp/65536".to_vec()), Err(ApiError::InvalidRoute)));
    assert!(matches!(MultiAddr::parse(&b"/ip4/h/tcp/12x".to_vec()), Err(ApiError::InvalidRoute)));
    assert!(matches!(MultiAddr::parse(&b"/ip4/h/tcp/0080".to_vec()), Err(ApiError::InvalidRoute)));
}

#[test]
fn parse_accepts_edge_ports() {
    assert!(MultiAddr::parse(&b"/ip4/h/tcp/0".to_vec()).is_ok());
    assert!(MultiAddr::parse(&b"/ip4/h/tcp/65535".to_vec()).is_ok());
}

#[test]
fn resolve_unsupported_stack_is_invalid_route() {
    let table = Transports::new();
    // A service with no transport beneath it is not a supported stack.
    let mut m = MultiAddr::empty();
    m.push_proto(Proto::Service(b"api".to_vec()));
    assert!(matches!(resolve(&m, &table), Err(ApiError::InvalidRoute)));
    // An empty address is not one either.
    assert!(matches!(resolve(&MultiAddr::empty(), &table), Err(ApiError::InvalidRoute)));
}

#[test]
fn resolve_asks_for_a_dial_when_no_connection_exists() {
    let table = Transports::new();
    match resolve(&issuer_maddr(), &table).unwrap() {
        ResolveOutcome::NeedsConnect(socket) => {
            assert_eq!(socket, b"cloud.example:62526".to_vec());
        },
        ResolveOutcome::Ready(_) => panic!("no connection exists yet"),
    }
}

#[test]
fn resolve_reuses_the_live_connection_and_ends_at_the_service() {
    let mut table = Transports::new();
    let mut reg = SessionRegistry::new();
    let sid = reg.generate_session_id();
    table
        .add_transport(
            &mut reg,
            TransportType::Tcp,
            TransportMode::Connect,
            sid,
            Some(TcpConnection {
                socket_address: b"cloud.example:62526".to_vec(),
                worker_address: Address { name: b"tcp_out".to_vec(), nonce: 0 },
            }),
        )
        .unwrap();
    match resolve(&issuer_maddr(), &table).unwrap() {
        ResolveOutcome::Ready(route) => {
            // Transport hop first, then the requested endpoint as final hop.
            assert_eq!(route.len(), 2);
            assert!(route.next_hop().unwrap().addr_eq(&Address {
                name: b"tcp_out".to_vec(),
                nonce: 0
            }));
            let mut r = route;
            r.step().unwrap();
            assert!(r.next_hop().unwrap().addr_eq(&Address {
                name: b"credential_issuer".to_vec(),
                nonce: 0
            }));
        },
        ResolveOutcome::NeedsConnect(_) => panic!("connection should be reused"),
    }
}
