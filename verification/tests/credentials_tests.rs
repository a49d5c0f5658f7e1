use trust_sessions::addr::{Address, Route};
use trust_sessions::credentials::{CredentialIssuerInfo, CredentialIssuerRetriever,
    CredentialState, CredentialStateRetriever, RetrieveAction, RetrieveEvent, RetrieveState};
use trust_sessions::errors::ApiError;
use trust_sessions::message::{Status, send_message_response};
use trust_sessions::multiaddr::{MultiAddr, Proto};
use trust_sessions::sessions::SessionRegistry;

fn issuer_maddr() -> MultiAddr {
    let mut m = MultiAddr::empty();
    m.push_proto(Proto::DnsAddr(b"issuer.example".to_vec()));
    m.push_proto(Proto::Tcp(62526));
    m.push_proto(Proto::Service(b"credential_issuer".to_vec()));
    m
}

#[test]
fn cached_retriever_without_state_is_not_configured() {
    let retriever = CredentialStateRetriever::new(CredentialState { stored: None });
    assert_eq!(retriever.retrieve().err(), Some(ApiError::NotConfigured));
}

#[test]
fn cached_retriever_with_undecodable_state_is_malformed() {
    // Wrong version byte: the stored bytes cannot be decoded.
    let retriever = CredentialStateRetriever::new(CredentialState { stored: Some(vec![2, 7, 7]) });
    assert_eq!(retriever.retrieve().err(), Some(ApiError::MalformedCredential));
}

#[test]
fn cached_retriever_returns_the_stored_claim() {
    let retriever =
        CredentialStateRetriever::new(CredentialState { stored: Some(vec![1, 10, 20, 30]) });
    let credential = retriever.retrieve().unwrap();
    assert_eq!(credential.data, vec![10, 20, 30]);
}

#[test]
fn corrupted_hex_descriptor_fails_fatally_with_zero_network_calls() {
    let info = CredentialIssuerInfo::new(b"zz not hex".to_vec(), issuer_maddr());
    let retriever = CredentialIssuerRetriever::new(info);
    let (state, action) = retriever.start_retrieve();
    assert!(matches!(state, RetrieveState::Failed { error: ApiError::InvalidAuthorityIdentity }));
    // No action at all: nothing is imported, resolved, dialed or called.
    assert!(action.is_none());
}

#[test]
fn odd_length_hex_descriptor_is_also_fatal() {
    let info = CredentialIssuerInfo::new(b"abc".to_vec(), issuer_maddr());
    let retriever = CredentialIssuerRetriever::new(info);
    let (state, action) = retriever.start_retrieve();
    assert!(matches!(state, RetrieveState::Failed { error: ApiError::InvalidAuthorityIdentity }));
    assert!(action.is_none());
}

#[test]
fn valid_hex_descriptor_is_decoded_for_import() {
    let info = CredentialIssuerInfo::new(b"AAbb01".to_vec(), issuer_maddr());
    let retriever = CredentialIssuerRetriever::new(info);
    let (state, action) = retriever.start_retrieve();
    assert!(matches!(state, RetrieveState::AwaitingImport));
    // The wrapper really decoded: the blob is the byte form, not the text.
    match action.unwrap() {
        RetrieveAction::ImportIdentity { blob } => assert_eq!(blob, vec![0xAA, 0xBB, 0x01]),
        _ => panic!("expected an import action"),
    }
}

#[test]
fn excluded_peer_fails_before_any_rpc() {
    let info = CredentialIssuerInfo::new(b"aabb".to_vec(), issuer_maddr());
    let retriever = CredentialIssuerRetriever::new(info);
    let mut reg = SessionRegistry::new();
    let (state, _action) = retriever.start_retrieve();
    let (state, action) = retriever.step(
        state,
        RetrieveEvent::Imported { identifier: Some(b"issuer_ident".to_vec()) },
        &mut reg,
    );
    assert!(matches!(action, Some(RetrieveAction::ResolveRoute)));
    let route = Route::single(Address { name: b"tcp_out".to_vec(), nonce: 0 });
    let (state, action) = retriever.step(
        state,
        RetrieveEvent::RouteResolved { route: Some(route) },
        &mut reg,
    );
    match action.unwrap() {
        RetrieveAction::OpenChannel { allowed, timeout_secs, .. } => {
            assert_eq!(timeout_secs, 120);
            assert_eq!(allowed.allowed, vec![b"issuer_ident".to_vec()]);
        },
        _ => panic!("expected a channel action"),
    }
    // The negotiated peer is not the allowed issuer: the attempt fails and
    // no credential RPC is ever requested.
    let (state, action) = retriever.step(
        state,
        RetrieveEvent::ChannelEstablished {
            peer: b"someone_else".to_vec(),
            channel_address: Address { name: b"sc".to_vec(), nonce: 0 },
        },
        &mut reg,
    );
    assert!(matches!(state, RetrieveState::Failed { error: ApiError::ChannelTimeout }));
    assert!(action.is_none());
}

#[test]
fn full_retrieval_reaches_the_issuer_and_decodes_the_credential() {
    let info = CredentialIssuerInfo::new(b"aabb".to_vec(), issuer_maddr());
    let retriever = CredentialIssuerRetriever::new(info);
    let mut reg = SessionRegistry::new();
    let (state, _action) = retriever.start_retrieve();
    let (state, _action) = retriever.step(
        state,
        RetrieveEvent::Imported { identifier: Some(b"issuer_ident".to_vec()) },
        &mut reg,
    );
    let route = Route::single(Address { name: b"tcp_out".to_vec(), nonce: 0 });
    let (state, _action) = retriever.step(
        state,
        RetrieveEvent::RouteResolved { route: Some(route) },
        &mut reg,
    );
    let channel_address = Address { name: b"sc".to_vec(), nonce: 0 };
    let (state, action) = retriever.step(
        state,
        RetrieveEvent::ChannelEstablished {
            peer: b"issuer_ident".to_vec(),
            channel_address: channel_address.dup(),
        },
        &mut reg,
    );
    assert!(matches!(state, RetrieveState::AwaitingRpc));
    assert!(matches!(action, Some(RetrieveAction::CallIssuer)));
    // The channel endpoint became a session producer, so downstream hops
    // inherit its session.
    assert!(reg.find_session_with_producer_address(&channel_address).is_some());
    let (state, action) = retriever.step(
        state,
        RetrieveEvent::RpcReply { reply: Some(vec![1, 42, 43]) },
        &mut reg,
    );
    assert!(action.is_none());
    match state {
        RetrieveState::Done { credential } => assert_eq!(credential.data, vec![42, 43]),
        _ => panic!("expected a retrieved credential"),
    }
}

#[test]
fn channel_timeout_and_rpc_failures_map_to_their_errors() {
    let info = CredentialIssuerInfo::new(b"aabb".to_vec(), issuer_maddr());
    let retriever = CredentialIssuerRetriever::new(info);
    let mut reg = SessionRegistry::new();
    let (state, _action) = retriever.start_retrieve();
    let (state, _action) = retriever.step(
        state,
        RetrieveEvent::Imported { identifier: Some(b"i".to_vec()) },
        &mut reg,
    );
    // Resolution failed: invalid route.
    let (state, action) =
        retriever.step(state, RetrieveEvent::RouteResolved { route: None }, &mut reg);
    assert!(matches!(state, RetrieveState::Failed { error: ApiError::InvalidRoute }));
    assert!(action.is_none());

    // A second run: the deadline expires during negotiation.
    let (state, _action) = retriever.start_retrieve();
    let (state, _action) = retriever.step(
        state,
        RetrieveEvent::Imported { identifier: Some(b"i".to_vec()) },
        &mut reg,
    );
    let route = Route::single(Address { name: b"tcp_out".to_vec(), nonce: 0 });
    let (state, _action) =
        retriever.step(state, RetrieveEvent::RouteResolved { route: Some(route) }, &mut reg);
    let (state, _action) = retriever.step(state, RetrieveEvent::ChannelTimedOut, &mut reg);
    assert!(matches!(state, RetrieveState::Failed { error: ApiError::ChannelTimeout }));

    // A vault that cannot import the blob: fatal configuration error.
    let (state, _action) = retriever.start_retrieve();
    let (state, _action) =
        retriever.step(state, RetrieveEvent::Imported { identifier: None }, &mut reg);
    assert!(matches!(
        state,
        RetrieveState::Failed { error: ApiError::InvalidAuthorityIdentity }
    ));

    // An undecodable RPC reply is a malformed credential.
    let (state, _action) = retriever.start_retrieve();
    let (state, _action) = retriever.step(
        state,
        RetrieveEvent::Imported { identifier: Some(b"i".to_vec()) },
        &mut reg,
    );
    let route = Route::single(Address { name: b"tcp_out".to_vec(), nonce: 0 });
    let (state, _action) =
        retriever.step(state, RetrieveEvent::RouteResolved { route: Some(route) }, &mut reg);
    let (state, _action) = retriever.step(
        state,
        RetrieveEvent::ChannelEstablished {
            peer: b"i".to_vec(),
            channel_address: Address { name: b"sc2".to_vec(), nonce: 0 },
        },
        &mut reg,
    );
    let (state, _action) =
        retriever.step(state, RetrieveEvent::RpcReply { reply: Some(vec![9]) }, &mut reg);
    assert!(matches!(state, RetrieveState::Failed { error: ApiError::MalformedCredential }));

    // A failed RPC after an established channel.
    let (state, _action) = retriever.start_retrieve();
    let (state, _action) = retriever.step(
        state,
        RetrieveEvent::Imported { identifier: Some(b"i".to_vec()) },
        &mut reg,
    );
    let route = Route::single(Address { name: b"tcp_out".to_vec(), nonce: 0 });
    let (state, _action) =
        retriever.step(state, RetrieveEvent::RouteResolved { route: Some(route) }, &mut reg);
    let (state, _action) = retriever.step(
        state,
        RetrieveEvent::ChannelEstablished {
            peer: b"i".to_vec(),
            channel_address: Address { name: b"sc3".to_vec(), nonce: 0 },
        },
        &mut reg,
    );
    let (state, _action) =
        retriever.step(state, RetrieveEvent::RpcReply { reply: None }, &mut reg);
    assert!(matches!(state, RetrieveState::Failed { error: ApiError::RpcFailure }));
}

#[test]
fn send_message_outcomes_become_structured_statuses() {
    let ok = send_message_response(Ok(b"reply".to_vec()));
    assert_eq!(ok.status, Status::Success);
    let err = send_message_response(Err(ApiError::InvalidRoute));
    assert_eq!(err.status, Status::InternalServerError);
}
