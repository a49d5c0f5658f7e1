use trust_sessions::addr::Address;
use trust_sessions::errors::ApiError;
use trust_sessions::message::{Status, ResponseBody, create_transport_response,
    delete_transport_response, get_transport_response};
use trust_sessions::sessions::SessionRegistry;
use trust_sessions::transport::{DeleteOutcome, TcpConnection, TransportMode, TransportType,
    Transports};

fn worker(name: &str) -> Address {
    Address { name: name.as_bytes().to_vec(), nonce: 0 }
}

fn connection(socket: &str, name: &str) -> TcpConnection {
    TcpConnection { socket_address: socket.as_bytes().to_vec(), worker_address: worker(name) }
}

#[test]
fn create_then_delete_then_get_is_not_found() {
    let mut table = Transports::new();
    let mut reg = SessionRegistry::new();
    let sid = reg.generate_session_id();
    let status = table
        .add_transport(
            &mut reg,
            TransportType::Tcp,
            TransportMode::Connect,
            sid,
            Some(connection("127.0.0.1:4000", "tcp_out_1")),
        )
        .unwrap();
    let tid = status.tid;
    assert!(table.get_transport(tid, TransportType::Tcp, TransportMode::Connect).is_some());
    let outcome = table.delete_transport(tid);
    assert!(matches!(outcome, DeleteOutcome::RemovedConnection(_)));
    assert!(table.get_transport(tid, TransportType::Tcp, TransportMode::Connect).is_none());
    assert!(!table.has_alias(tid));
}

#[test]
fn delete_listener_removes_entry_without_touching_socket() {
    let mut table = Transports::new();
    let mut reg = SessionRegistry::new();
    let sid = reg.generate_session_id();
    let status = table
        .add_transport(
            &mut reg,
            TransportType::Tcp,
            TransportMode::Listen,
            sid,
            Some(connection("0.0.0.0:4001", "tcp_listener_1")),
        )
        .unwrap();
    let outcome = table.delete_transport(status.tid);
    // A listener delete only drops the table entry: no disconnect action is
    // handed back, the socket stays bound (documented non-goal).
    assert!(matches!(outcome, DeleteOutcome::RemovedListener));
    assert!(!table.has_alias(status.tid));
}

#[test]
fn delete_unknown_alias_is_bad_request_not_error() {
    let mut table = Transports::new();
    let outcome = table.delete_transport(42);
    assert!(matches!(outcome, DeleteOutcome::Unknown));
    let resp = delete_transport_response(&outcome);
    assert_eq!(resp.status, Status::BadRequest);
}

#[test]
fn failed_connect_leaves_no_entry_and_reports_bad_request() {
    let mut table = Transports::new();
    let mut reg = SessionRegistry::new();
    let sid = reg.generate_session_id();
    // The transport layer reported a dial failure: nothing is created.
    let result = table.add_transport(&mut reg, TransportType::Tcp, TransportMode::Connect, sid, None);
    assert_eq!(result.as_ref().err(), Some(&ApiError::TransportFailure));
    assert_eq!(table.records.len(), 0);
    assert_eq!(reg.sessions.len(), 0);
    let resp = create_transport_response(result);
    assert_eq!(resp.status, Status::BadRequest);
    // No placeholder record rides along with the failure.
    assert!(matches!(resp.body, ResponseBody::Failure(ApiError::TransportFailure)));
}

#[test]
fn get_requires_exact_mode_and_type_match() {
    let mut table = Transports::new();
    let mut reg = SessionRegistry::new();
    let sid = reg.generate_session_id();
    let status = table
        .add_transport(
            &mut reg,
            TransportType::Tcp,
            TransportMode::Listen,
            sid,
            Some(connection("0.0.0.0:4002", "tcp_listener_2")),
        )
        .unwrap();
    // Same alias, wrong mode: treated as not found.
    assert!(table.get_transport(status.tid, TransportType::Tcp, TransportMode::Connect).is_none());
    let found = table.get_transport(status.tid, TransportType::Tcp, TransportMode::Listen);
    assert!(found.is_some());
    let resp = get_transport_response(table.get_transport(status.tid, TransportType::Tcp, TransportMode::Connect));
    assert_eq!(resp.status, Status::NotFound);
}

#[test]
fn list_filters_by_mode_only() {
    let mut table = Transports::new();
    let mut reg = SessionRegistry::new();
    let sid1 = reg.generate_session_id();
    table
        .add_transport(
            &mut reg,
            TransportType::Tcp,
            TransportMode::Listen,
            sid1,
            Some(connection("0.0.0.0:4003", "l1")),
        )
        .unwrap();
    let sid2 = reg.generate_session_id();
    table
        .add_transport(
            &mut reg,
            TransportType::Tcp,
            TransportMode::Connect,
            sid2,
            Some(connection("10.0.0.1:4004", "c1")),
        )
        .unwrap();
    let sid3 = reg.generate_session_id();
    table
        .add_transport(
            &mut reg,
            TransportType::Tcp,
            TransportMode::Connect,
            sid3,
            Some(connection("10.0.0.2:4005", "c2")),
        )
        .unwrap();
    let listeners = table.get_tcp_con_or_list(TransportMode::Listen);
    let connections = table.get_tcp_con_or_list(TransportMode::Connect);
    assert_eq!(listeners.len(), 1);
    assert_eq!(connections.len(), 2);
    assert_eq!(connections[0].transport.socket_address, b"10.0.0.1:4004".to_vec());
    assert_eq!(connections[1].transport.socket_address, b"10.0.0.2:4005".to_vec());
}

#[test]
fn created_record_carries_session_and_registers_producer() {
    let mut table = Transports::new();
    let mut reg = SessionRegistry::new();
    let sid = reg.generate_session_id();
    let status = table
        .add_transport(
            &mut reg,
            TransportType::Tcp,
            TransportMode::Connect,
            sid,
            Some(connection("127.0.0.1:4006", "tcp_out_6")),
        )
        .unwrap();
    assert_eq!(status.transport.session_id, sid);
    assert_eq!(reg.find_session_with_producer_address(&worker("tcp_out_6")), Some(sid));
}
