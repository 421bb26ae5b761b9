use p2p_handshake::p2p::btc::{
    collect_events, handle_message, run_session, Config, Message, EXPECTED_HANDSHAKE_MESSAGES,
};
use p2p_handshake::p2p::view::{Event, EventDirection};
use p2p_handshake::p2p::{
    pair_outcomes, peer_configs, run_failed, Commands, HandshakeConfig, P2PError, P2PErrorKind,
};

fn greeting(user_agent: &str) -> Message {
    Message::Version {
        version: 70015,
        timestamp: 1_700_000_000,
        nonce: 99,
        user_agent: user_agent.to_string(),
    }
}

#[test]
fn dispatch_of_greeting_records_event_and_replies() {
    let (event, reply) = handle_message(&greeting("/peer/"), 55);
    let event = event.unwrap();
    assert_eq!(event.name(), "version");
    assert!(matches!(event.direction(), EventDirection::IN));
    assert_eq!(event.time(), 55);
    assert_eq!(
        event.data_pairs(),
        &[
            ("vers".to_string(), "70015".to_string()),
            ("user-agent".to_string(), "/peer/".to_string())
        ]
    );
    assert!(reply);
}

#[test]
fn dispatch_of_acknowledgment_records_event_without_reply() {
    let (event, reply) = handle_message(&Message::Verack, 80);
    let event = event.unwrap();
    assert_eq!(event.name(), "verack");
    assert!(matches!(event.direction(), EventDirection::IN));
    assert_eq!(event.time(), 80);
    assert!(event.data_pairs().is_empty());
    assert!(!reply);
}

#[test]
fn dispatch_ignores_messages_outside_the_handshake() {
    let (event, reply) = handle_message(&Message::Other, 80);
    assert!(event.is_none());
    assert!(!reply);
}

#[test]
fn conforming_session_completes_with_four_events_in_order() {
    let inbound = vec![(greeting("/peer/"), 100), (Message::Verack, 120)];
    let chain = run_session("10.0.0.1:8333".to_string(), 0, &inbound);

    assert!(chain.is_complete());
    assert_eq!(chain.len(), EXPECTED_HANDSHAKE_MESSAGES);

    assert_eq!(chain.get(0).unwrap().name(), "version");
    assert!(matches!(chain.get(0).unwrap().direction(), EventDirection::OUT));
    assert_eq!(chain.get(1).unwrap().name(), "version");
    assert!(matches!(chain.get(1).unwrap().direction(), EventDirection::IN));
    assert_eq!(chain.get(2).unwrap().name(), "verack");
    assert_eq!(chain.get(3).unwrap().name(), "verack");
    let d2 = matches!(chain.get(2).unwrap().direction(), EventDirection::IN);
    let d3 = matches!(chain.get(3).unwrap().direction(), EventDirection::IN);
    assert_ne!(d2, d3);
}

#[test]
fn session_ignores_unrelated_messages_between_replies() {
    let inbound = vec![
        (Message::Other, 90),
        (greeting("/peer/"), 100),
        (Message::Other, 110),
        (Message::Verack, 120),
    ];
    let chain = run_session("10.0.0.1:8333".to_string(), 0, &inbound);
    assert!(chain.is_complete());
    assert_eq!(chain.len(), 4);
}

#[test]
fn silent_peer_leaves_only_the_outgoing_greeting() {
    // The peer accepted but never replied; the timeout cuts the session
    // short with only the initial OUT event recorded.
    let inbound: Vec<(Message, u64)> = Vec::new();
    let chain = run_session("10.0.0.1:8333".to_string(), 0, &inbound);

    assert!(!chain.is_complete());
    assert_eq!(chain.len(), 1);
    assert_eq!(chain.get(0).unwrap().name(), "version");
    assert!(matches!(chain.get(0).unwrap().direction(), EventDirection::OUT));
}

#[test]
fn cancelling_before_any_exchange_yields_empty_incomplete_chain() {
    let (chain, fired) = collect_events("10.0.0.1:8333".to_string(), Vec::new());
    assert!(!chain.is_complete());
    assert_eq!(chain.len(), 0);
    assert!(!fired);
}

#[test]
fn collector_seals_the_chain_at_the_expected_count() {
    let mut events = Vec::new();
    for (name, dir, t) in [
        ("version", EventDirection::OUT, 0),
        ("version", EventDirection::IN, 10),
        ("verack", EventDirection::IN, 20),
        ("verack", EventDirection::OUT, 30),
        ("addr", EventDirection::IN, 40),
    ] {
        events.push(Event::new(name.to_string(), dir, t));
    }
    let (chain, fired) = collect_events("10.0.0.1:8333".to_string(), events);
    assert!(chain.is_complete());
    assert!(fired);
    assert_eq!(chain.len(), 4);
    assert_eq!(chain.get(3).unwrap().name(), "verack");
}

#[test]
fn orchestrator_pairs_outcomes_preserving_order() {
    // One peer completes the exchange; the other refuses the connection.
    let good = run_session(
        "10.0.0.1:8333".to_string(),
        0,
        &vec![(greeting("/peer/"), 100), (Message::Verack, 120)],
    );
    let refused = P2PError::new(P2PErrorKind::Connect, "connection refused".to_string());

    let outcomes = pair_outcomes(vec![
        ("10.0.0.1:8333".to_string(), Ok(good)),
        ("10.0.0.2:8333".to_string(), Err(refused)),
    ]);

    assert_eq!(outcomes.len(), 2);
    assert_eq!(outcomes[0].id(), "10.0.0.1:8333");
    let chain = match outcomes[0].result() {
        Ok(chain) => chain,
        Err(_) => panic!("expected the first outcome to carry a chain"),
    };
    assert!(chain.is_complete());
    assert_eq!(chain.len(), 4);
    assert_eq!(outcomes[1].id(), "10.0.0.2:8333");
    let err = match outcomes[1].result() {
        Err(err) => err,
        Ok(_) => panic!("expected the second outcome to carry an error"),
    };
    assert!(matches!(err.kind(), P2PErrorKind::Connect));
}

#[test]
fn run_fails_when_any_outcome_is_incomplete_or_an_error() {
    let complete = run_session(
        "a".to_string(),
        0,
        &vec![(greeting("/peer/"), 100), (Message::Verack, 120)],
    );
    let timed_out = run_session("b".to_string(), 0, &Vec::new());

    let all_good = pair_outcomes(vec![("a".to_string(), Ok(complete))]);
    assert!(!run_failed(&all_good));

    let with_incomplete = pair_outcomes(vec![("b".to_string(), Ok(timed_out))]);
    assert!(run_failed(&with_incomplete));

    let with_error = pair_outcomes(vec![(
        "c".to_string(),
        Err(P2PError::new(P2PErrorKind::Connect, "connection refused".to_string())),
    )]);
    assert!(run_failed(&with_error));
}

#[test]
fn peer_configs_fan_out_in_input_order() {
    let config = HandshakeConfig {
        timeout: 500,
        commands: Commands::Btc {
            nodes_addrs: vec!["10.0.0.1:8333".to_string(), "10.0.0.2:8333".to_string()],
            user_agent: "/Satoshi:23.0.0/".to_string(),
        },
    };
    let configs: Vec<Config> = peer_configs(&config);
    assert_eq!(configs.len(), 2);
    assert_eq!(configs[0].node_addr, "10.0.0.1:8333");
    assert_eq!(configs[1].node_addr, "10.0.0.2:8333");
    for c in &configs {
        assert_eq!(c.timeout, 500);
        assert_eq!(c.user_agent, "/Satoshi:23.0.0/");
    }
}
