use trust_sessions::addr::Address;
use trust_sessions::sessions::{SessionPolicy, SessionRegistry};

fn addr(name: &str) -> Address {
    Address { name: name.as_bytes().to_vec(), nonce: 0 }
}

#[test]
fn session_ids_pairwise_distinct_over_ten_thousand() {
    let mut reg = SessionRegistry::new();
    let mut seen = std::collections::HashSet::new();
    for _ in 0..10_000 {
        let id = reg.generate_session_id();
        assert!(seen.insert(id), "session id repeated");
    }
    assert_eq!(seen.len(), 10_000);
}

#[test]
fn generated_id_never_collides_with_live_session() {
    let mut reg = SessionRegistry::new();
    let id = reg.generate_session_id();
    reg.register_producer(id, addr("producer_a"), SessionPolicy::ProducerAllowMultiple);
    let id2 = reg.generate_session_id();
    assert_ne!(id, id2);
    assert!(!reg.has_session(id2));
    assert!(reg.has_session(id));
}

#[test]
fn find_session_by_producer_address() {
    let mut reg = SessionRegistry::new();
    let id = reg.generate_session_id();
    reg.register_producer(id, addr("producer_a"), SessionPolicy::ProducerAllowMultiple);
    assert_eq!(reg.find_session_with_producer_address(&addr("producer_a")), Some(id));
    assert_eq!(reg.find_session_with_producer_address(&addr("producer_b")), None);
}

#[test]
fn add_consumer_on_missing_session_is_a_noop() {
    let mut reg = SessionRegistry::new();
    let id = reg.generate_session_id();
    reg.register_producer(id, addr("producer_a"), SessionPolicy::ProducerAllowMultiple);
    // A session id that was never registered: silently ignored, no panic,
    // no error, nothing changed.
    reg.add_consumer(addr("consumer_x"), id + 17, SessionPolicy::ProducerAllowMultiple);
    assert_eq!(reg.sessions.len(), 1);
    assert_eq!(reg.sessions[0].consumers.len(), 0);
}

#[test]
fn add_consumer_on_live_session_appends() {
    let mut reg = SessionRegistry::new();
    let id = reg.generate_session_id();
    reg.register_producer(id, addr("producer_a"), SessionPolicy::ProducerAllowMultiple);
    reg.add_consumer(addr("consumer_x"), id, SessionPolicy::ProducerAllowMultiple);
    assert_eq!(reg.sessions[0].consumers.len(), 1);
    assert!(reg.sessions[0].consumers[0].address.addr_eq(&addr("consumer_x")));
}
