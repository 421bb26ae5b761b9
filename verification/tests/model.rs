use p2p_handshake::p2p::view::{Event, EventChain, EventDirection, HandshakeResult};
use p2p_handshake::p2p::{P2PError, P2PErrorKind};

#[test]
fn p2p_event_chain_shows_nice_user_output_on_success() {
    let mut chain = EventChain::new("192.168.1.1:8333".to_string());

    let fixed_time: u64 = 0;

    chain.add(Event::new("version".to_string(), EventDirection::OUT, fixed_time));
    chain.add(Event::new("version".to_string(), EventDirection::IN, fixed_time + 100_000_000));
    chain.add(Event::new("verack".to_string(), EventDirection::IN, fixed_time + 120_000_000));
    chain.add(Event::new("verack".to_string(), EventDirection::OUT, fixed_time + 140_000_000));

    chain.mark_as_complete();

    let output = chain.to_display_string();

    assert_eq!(
        format!("\u{2705} - 192.168.1.1:8333 || version \u{1F6EB} -- 100ms --> version \u{1F6EC} -- 20ms --> verack \u{1F6EC} -- 20ms --> verack \u{1F6EB} || total time 140ms."),
        output
    )
}

#[test]
fn p2p_incomplete_event_chain_shows_nice_user_output() {
    let mut chain = EventChain::new("192.168.1.1:8333".to_string());

    let fixed_time: u64 = 0;

    chain.add(Event::new("version".to_string(), EventDirection::OUT, fixed_time));
    chain.add(Event::new("version".to_string(), EventDirection::IN, fixed_time + 100_000_000));

    let output = chain.to_display_string();

    assert_eq!(
        format!("\u{274C} \u{1F550} - 192.168.1.1:8333 || version \u{1F6EB} -- 100ms --> version \u{1F6EC} || total time 100ms."),
        output
    )
}

#[test]
fn p2p_handshake_result_displays_event_chain_on_success() {
    let id = "192.168.1.1:8333".to_string();

    let mut event_chain = EventChain::new(id.clone());
    event_chain.add(Event::new("version".to_string(), EventDirection::IN, 0));
    event_chain.mark_as_complete();

    let result: Result<EventChain, P2PError> = Result::Ok(event_chain);

    let hr = HandshakeResult::new(id.clone(), result);

    assert_eq!(
        format!("\u{2705} - 192.168.1.1:8333 || version \u{1F6EC} || total time 0ns."),
        hr.to_display_string()
    )
}

#[test]
fn p2p_handshake_result_displays_error_on_failure() {
    let id = "192.168.1.1:8333".to_string();

    let error = P2PError::new(P2PErrorKind::Connect, "connection refused !".to_string());

    let result: Result<EventChain, P2PError> = Result::Err(error);

    let hr = HandshakeResult::new(id.clone(), result);

    assert_eq!(
        format!("\u{274C} 192.168.1.1:8333: P2P error: connection refused !"),
        hr.to_display_string()
    )
}

#[test]
fn event_displays_correctly() {
    let mut event = Event::new("ev_1".to_string(), EventDirection::IN, 0);
    event.set_pair("k1".to_string(), "v1".to_string());
    event.set_pair("k2".to_string(), "v2".to_string());

    assert_eq!(
        format!("ev_1 {} (k1:v1 k2:v2)", "\u{1F6EC}"),
        event.to_display_string()
    )
}

#[test]
fn view_event_chain_shows_nice_user_output_on_success() {
    let mut chain = EventChain::new("192.168.1.1:8333".to_string());

    let fixed_time: u64 = 0;

    let mut event = Event::new("version".to_string(), EventDirection::OUT, fixed_time);
    event.set_pair("k1".to_string(), "v1".to_string());
    event.set_pair("k2".to_string(), "v2".to_string());
    chain.add(event);

    chain.add(Event::new("version".to_string(), EventDirection::IN, fixed_time + 100_000_000));
    chain.add(Event::new("verack".to_string(), EventDirection::IN, fixed_time + 120_000_000));
    chain.add(Event::new("verack".to_string(), EventDirection::OUT, fixed_time + 140_000_000));

    chain.mark_as_complete();

    let output = chain.to_display_string();

    assert_eq!(
        format!("{} - 192.168.1.1:8333 || version {} (k1:v1 k2:v2) -- 100ms --> version {} -- 20ms --> verack {} -- 20ms --> verack {} || total time 140ms.",
            "\u{2705}", "\u{1F6EB}", "\u{1F6EC}", "\u{1F6EC}", "\u{1F6EB}"),
        output
    )
}

#[test]
fn view_incomplete_event_chain_shows_nice_user_output() {
    let mut chain = EventChain::new("192.168.1.1:8333".to_string());

    let fixed_time: u64 = 0;

    chain.add(Event::new("version".to_string(), EventDirection::OUT, fixed_time));
    chain.add(Event::new("version".to_string(), EventDirection::IN, fixed_time + 100_000_000));

    let output = chain.to_display_string();

    assert_eq!(
        format!(
            "{} - 192.168.1.1:8333 || version {} -- 100ms --> version {} || total time 100ms.",
            "\u{274C} \u{1F550}", "\u{1F6EB}", "\u{1F6EC}"
        ),
        output
    )
}

#[test]
fn view_handshake_result_displays_event_chain_on_success() {
    let id = "192.168.1.1:8333".to_string();

    let mut event_chain = EventChain::new(id.clone());
    event_chain.add(Event::new("version".to_string(), EventDirection::IN, 0));
    event_chain.mark_as_complete();

    let result: Result<EventChain, P2PError> = Result::Ok(event_chain);

    let hr = HandshakeResult::new(id.clone(), result);

    assert_eq!(
        format!(
            "{} - 192.168.1.1:8333 || version {} || total time 0ns.",
            "\u{2705}", "\u{1F6EC}"
        ),
        hr.to_display_string()
    )
}

#[test]
fn view_handshake_result_displays_error_on_failure() {
    let id = "192.168.1.1:8333".to_string();

    let error = P2PError::new(P2PErrorKind::Connect, "connection refused !".to_string());

    let result: Result<EventChain, P2PError> = Result::Err(error);

    let hr = HandshakeResult::new(id.clone(), result);

    assert_eq!(
        format!(
            "{} 192.168.1.1:8333: P2P error: connection refused !",
            "\u{274C}"
        ),
        hr.to_display_string()
    )
}

#[test]
fn empty_chain_renders_with_empty_timeline() {
    let chain = EventChain::new("192.168.1.1:8333".to_string());
    assert_eq!(
        format!("\u{274C} \u{1F550} - 192.168.1.1:8333 ||  || total time 0ns."),
        chain.to_display_string()
    )
}

#[test]
fn chain_accessors_report_events_in_order() {
    let mut chain = EventChain::new("peer".to_string());
    assert!(chain.is_empty());
    assert_eq!(chain.len(), 0);
    assert!(!chain.is_complete());
    assert_eq!(chain.id(), "peer");

    chain.add(Event::new("version".to_string(), EventDirection::OUT, 7));
    assert!(!chain.is_empty());
    assert_eq!(chain.len(), 1);

    let ev = chain.get(0).unwrap();
    assert_eq!(ev.name(), "version");
    assert_eq!(ev.time(), 7);
    assert!(matches!(ev.direction(), EventDirection::OUT));
    assert!(ev.data_pairs().is_empty());
    assert!(chain.get(1).is_none());

    chain.mark_as_complete();
    assert!(chain.is_complete());
}

#[test]
fn chain_total_elapsed_is_sum_of_deltas() {
    let mut chain = EventChain::new("peer".to_string());
    chain.add(Event::new("version".to_string(), EventDirection::OUT, 0));
    chain.add(Event::new("version".to_string(), EventDirection::IN, 100_000_000));
    chain.add(Event::new("verack".to_string(), EventDirection::IN, 120_000_000));
    chain.add(Event::new("verack".to_string(), EventDirection::OUT, 140_000_000));
    // 100ms + 20ms + 20ms, which telescopes to last minus first.
    assert_eq!(chain.total_elapsed_ns(), 140_000_000);
}

#[test]
fn chain_elapsed_saturates_on_clock_regression() {
    let mut chain = EventChain::new("peer".to_string());
    chain.add(Event::new("a".to_string(), EventDirection::OUT, 50));
    chain.add(Event::new("b".to_string(), EventDirection::IN, 20));
    assert_eq!(chain.total_elapsed_ns(), 0);
}

#[test]
fn error_reports_kind_and_message() {
    let error = P2PError::new(P2PErrorKind::ChannelClosed, "event channel closed".to_string());
    assert!(matches!(error.kind(), P2PErrorKind::ChannelClosed));
    assert_eq!(error.message(), "event channel closed");
    assert_eq!(error.to_display_string(), "P2P error: event channel closed");
}
