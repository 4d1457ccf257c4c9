use std::time::Duration;

use ple7_vpn::{SupervisorAction, SupervisorEvent, MONITOR_PERIOD_SECS};
use ple7_vpn::{
    FrameOutcome, IncomingFrame, ManagedWsClient, PeerAddr, WsClient, WsConfig, WsEvent, WsMessage,
    WsState,
};

fn s(x: &str) -> String {
    x.to_string()
}

fn v4(a: u8, port: u16) -> PeerAddr {
    PeerAddr::V4 { octets: [10, 0, 0, a], port }
}

fn connected(device: &str) -> WsClient {
    let mut c = WsClient::new("https://x", "t", device);
    c.begin_connect();
    c.finish_connect(Ok(())).unwrap();
    c
}

fn update(key: &str, endpoint: &str) -> WsEvent {
    WsEvent::PeerEndpointUpdate { device_id: s("d"), public_key: s(key), endpoint: s(endpoint) }
}

#[test]
fn new_client_turns_http_into_ws() {
    let c = WsClient::new("https://ple7.com", "tok", "dev");
    assert_eq!(c.connect_url(), "wss://ple7.com/ws/mesh?token=tok");
    let c = WsClient::new("http://localhost:3000", "t", "dev");
    assert_eq!(c.connect_url(), "ws://localhost:3000/ws/mesh?token=t");
    let c = WsClient::new("wss://already", "t", "dev");
    assert_eq!(c.connect_url(), "wss://already/ws/mesh?token=t");
}

#[test]
fn url_never_keeps_an_http_scheme() {
    for base in ["https://a/http://b/https://c", "hhttps://x", "http://https://", "httphttps://q"] {
        let url = WsClient::new(base, "", "").connect_url();
        assert!(!url.contains("http://"), "{}", url);
        assert!(!url.contains("https://"), "{}", url);
    }
}

#[test]
fn new_client_is_disconnected_and_cannot_send() {
    let c = WsClient::new("https://x", "t", "dev");
    assert_eq!(c.state(), WsState::Disconnected);
    assert!(!c.has_sender());
    assert_eq!(c.register_endpoint("1.2.3.4:5"), None);
    assert_eq!(c.subscribe("net"), None);
    assert_eq!(c.get_peer_endpoint("k"), None);
}

#[test]
fn successful_connect_opens_the_channel() {
    let mut c = WsClient::new("https://x", "t", "dev");
    c.begin_connect();
    assert_eq!(c.state(), WsState::Connecting);
    assert_eq!(c.finish_connect(Ok(())), Ok(()));
    assert_eq!(c.state(), WsState::Connected);
    assert_eq!(
        c.register_endpoint("1.2.3.4:5"),
        Some(WsMessage::RegisterEndpoint { device_id: s("dev"), endpoint: s("1.2.3.4:5") })
    );
    assert_eq!(c.subscribe("net"), Some(WsMessage::Subscribe { network_id: s("net") }));
}

#[test]
fn failed_connect_reports_and_stays_connecting() {
    let mut c = WsClient::new("https://x", "t", "dev");
    c.begin_connect();
    assert_eq!(c.finish_connect(Err(s("refused"))), Err(s("WebSocket connection failed: refused")));
    assert_eq!(c.state(), WsState::Connecting);
    assert!(!c.has_sender());
}

#[test]
fn disconnect_closes_the_channel() {
    let mut c = WsClient::new("https://x", "t", "dev");
    c.begin_connect();
    c.finish_connect(Ok(())).unwrap();
    c.disconnect();
    assert_eq!(c.state(), WsState::Disconnected);
    assert_eq!(c.register_endpoint("e"), None);
    assert_eq!(c.subscribe("n"), None);
}

#[test]
fn frames_drive_the_reader() {
    let mut c = WsClient::new("https://x", "t", "dev");
    c.begin_connect();
    c.finish_connect(Ok(())).unwrap();
    match c.on_frame(IncomingFrame::Text(s(r#"42["peer_offline",{"deviceId":"p"}]"#))) {
        FrameOutcome::Continue(Some(e)) => assert_eq!(e, WsEvent::PeerOffline { device_id: s("p") }),
        _ => panic!("expected an event"),
    }
    assert!(matches!(c.on_frame(IncomingFrame::Text(s("40"))), FrameOutcome::Continue(None)));
    assert!(matches!(c.on_frame(IncomingFrame::Ping), FrameOutcome::Continue(None)));
    assert!(matches!(c.on_frame(IncomingFrame::Other), FrameOutcome::Continue(None)));
    assert_eq!(c.state(), WsState::Connected);
    assert!(matches!(c.on_frame(IncomingFrame::Close), FrameOutcome::Stop));
    assert_eq!(c.state(), WsState::Disconnected);
    c.begin_connect();
    c.finish_connect(Ok(())).unwrap();
    assert!(matches!(c.on_frame(IncomingFrame::Error), FrameOutcome::Stop));
    assert_eq!(c.state(), WsState::Disconnected);
}

#[test]
fn send_failure_disconnects() {
    let mut c = WsClient::new("https://x", "t", "dev");
    c.begin_connect();
    c.finish_connect(Ok(())).unwrap();
    c.on_send_failed();
    assert_eq!(c.state(), WsState::Disconnected);
}

#[test]
fn endpoint_updates_are_recorded_and_read_back() {
    let mut c = connected("dev");
    c.record_peer_endpoint(&update("k1", "10.0.0.1:1"), Some(v4(1, 1)));
    c.record_peer_endpoint(&update("k2", "10.0.0.2:2"), Some(v4(2, 2)));
    assert_eq!(c.get_peer_endpoint("k1"), Some(v4(1, 1)));
    assert_eq!(c.get_peer_endpoint("k2"), Some(v4(2, 2)));
    c.record_peer_endpoint(&update("k1", "10.0.0.3:3"), Some(v4(3, 3)));
    assert_eq!(c.get_peer_endpoint("k1"), Some(v4(3, 3)));
    assert_eq!(c.get_peer_endpoint("k2"), Some(v4(2, 2)));
    assert_eq!(c.get_peer_endpoint("k3"), None);
    let all = c.peer_endpoints().to_vec();
    assert_eq!(all.len(), 2);
    assert!(all.contains(&(s("k1"), v4(3, 3))));
    assert!(all.contains(&(s("k2"), v4(2, 2))));
}

#[test]
fn unparsed_endpoints_and_other_events_change_nothing() {
    let mut c = connected("dev");
    c.record_peer_endpoint(&update("k1", "not an address"), None);
    assert_eq!(c.get_peer_endpoint("k1"), None);
    c.record_peer_endpoint(&WsEvent::PeerOffline { device_id: s("k1") }, Some(v4(1, 1)));
    c.record_peer_endpoint(&WsEvent::PeerOnline { device_id: s("d"), public_key: s("k1") }, Some(v4(1, 1)));
    assert_eq!(c.get_peer_endpoint("k1"), None);
    assert!(c.peer_endpoints().to_vec().is_empty());
}

#[test]
fn ipv6_endpoints_are_kept() {
    let mut c = connected("dev");
    let a = PeerAddr::V6 { segments: [0x2001, 0xdb8, 0, 0, 0, 0, 0, 1], port: 51820, flowinfo: 0, scope_id: 0 };
    c.record_peer_endpoint(&update("k6", "[2001:db8::1]:51820"), Some(a));
    assert_eq!(c.get_peer_endpoint("k6"), Some(a));
}

fn config() -> WsConfig {
    WsConfig { base_url: s("https://ple7.com"), token: s("tok"), device_id: s("dev-7"), reconnect_interval: Duration::from_secs(5) }
}

#[test]
fn supervisor_refuses_a_second_start() {
    let mut m = ManagedWsClient::new(config());
    assert!(!m.is_running());
    assert_eq!(m.try_start(), Ok(()));
    assert!(m.is_running());
    assert_eq!(m.try_start(), Err(s("Already running")));
    assert!(m.is_running());
    m.stop();
    assert!(!m.is_running());
    assert_eq!(m.try_start(), Ok(()));
}

#[test]
fn supervisor_keeps_its_settings() {
    let m = ManagedWsClient::new(config());
    assert_eq!(m.config().device_id, "dev-7");
    assert_eq!(m.config().reconnect_interval, Duration::from_secs(5));
}

#[test]
fn registration_messages_follow_the_plan() {
    let m = ManagedWsClient::new(config());
    assert_eq!(m.registration_messages(None, None), vec![WsMessage::RegisterDevice { device_id: s("dev-7") }]);
    assert_eq!(
        m.registration_messages(Some("1.2.3.4:9"), Some("net")),
        vec![
            WsMessage::RegisterDevice { device_id: s("dev-7") },
            WsMessage::RegisterEndpoint { device_id: s("dev-7"), endpoint: s("1.2.3.4:9") },
            WsMessage::Subscribe { network_id: s("net") },
        ]
    );
    assert_eq!(
        m.registration_messages(None, Some("net")),
        vec![WsMessage::RegisterDevice { device_id: s("dev-7") }, WsMessage::Subscribe { network_id: s("net") }]
    );
}

#[test]
fn monitoring_stops_when_stopped_or_disconnected() {
    let mut m = ManagedWsClient::new(config());
    let mut c = WsClient::new("https://ple7.com", "tok", "dev-7");
    c.begin_connect();
    c.finish_connect(Ok(())).unwrap();
    assert!(!m.keep_monitoring(Some(&c)));
    m.try_start().unwrap();
    assert!(m.keep_monitoring(Some(&c)));
    assert!(!m.keep_monitoring(None));
    c.on_frame(IncomingFrame::Close);
    assert!(!m.keep_monitoring(Some(&c)));
    c.disconnect();
    assert!(!m.keep_monitoring(Some(&c)));
}

#[test]
fn supervisor_sends_only_over_an_open_channel() {
    let m = ManagedWsClient::new(config());
    assert_eq!(m.register_endpoint(None, "e"), Err(s("Not connected")));
    assert_eq!(m.subscribe(None, "n"), Err(s("Not connected")));
    let mut c = WsClient::new("https://ple7.com", "tok", "other-device");
    assert_eq!(m.register_endpoint(Some(&c), "e"), Err(s("Not connected")));
    c.begin_connect();
    c.finish_connect(Ok(())).unwrap();
    assert_eq!(
        m.register_endpoint(Some(&c), "e"),
        Ok(WsMessage::RegisterEndpoint { device_id: s("dev-7"), endpoint: s("e") })
    );
    assert_eq!(m.subscribe(Some(&c), "n"), Ok(WsMessage::Subscribe { network_id: s("n") }));
    c.record_peer_endpoint(&update("k", "10.0.0.9:9"), Some(v4(9, 9)));
    assert_eq!(m.get_peer_endpoint(Some(&c), "k"), Some(v4(9, 9)));
    assert_eq!(m.get_peer_endpoint(None, "k"), None);
}

#[test]
fn a_disconnected_client_stops_reading_and_keeps_its_peers() {
    let mut c = connected("dev");
    c.record_peer_endpoint(&update("k1", "10.0.0.1:1"), Some(v4(1, 1)));
    c.disconnect();
    assert!(matches!(
        c.on_frame(IncomingFrame::Text(s(r#"42["peer_offline",{"deviceId":"p"}]"#))),
        FrameOutcome::Stop
    ));
    assert!(matches!(c.on_frame(IncomingFrame::Ping), FrameOutcome::Stop));
    assert!(matches!(c.on_frame(IncomingFrame::Close), FrameOutcome::Stop));
    c.record_peer_endpoint(&update("k1", "10.0.0.2:2"), Some(v4(2, 2)));
    c.record_peer_endpoint(&update("k2", "10.0.0.3:3"), Some(v4(3, 3)));
    assert_eq!(c.get_peer_endpoint("k1"), Some(v4(1, 1)));
    assert_eq!(c.get_peer_endpoint("k2"), None);
    assert_eq!(c.state(), WsState::Disconnected);
}

#[test]
fn a_client_never_connected_records_nothing() {
    let mut c = WsClient::new("https://x", "t", "dev");
    c.record_peer_endpoint(&update("k1", "10.0.0.1:1"), Some(v4(1, 1)));
    assert_eq!(c.get_peer_endpoint("k1"), None);
    assert!(matches!(c.on_frame(IncomingFrame::Text(s("40"))), FrameOutcome::Stop));
}

#[test]
fn send_failure_keeps_the_reader_going() {
    let mut c = connected("dev");
    c.on_send_failed();
    assert!(c.has_sender());
    assert!(matches!(
        c.on_frame(IncomingFrame::Text(s(r#"42["peer_offline",{"deviceId":"p"}]"#))),
        FrameOutcome::Continue(Some(_))
    ));
}

#[test]
fn supervisor_steps() {
    let mut m = ManagedWsClient::new(config());
    assert_eq!(MONITOR_PERIOD_SECS, 5);
    assert_eq!(m.next_step(SupervisorEvent::Started, None), SupervisorAction::Exit);
    m.try_start().unwrap();
    assert_eq!(m.next_step(SupervisorEvent::Started, None), SupervisorAction::Connect);
    assert_eq!(m.next_step(SupervisorEvent::ConnectSucceeded, None), SupervisorAction::RegisterAndMonitor);
    assert_eq!(
        m.next_step(SupervisorEvent::ConnectFailed, None),
        SupervisorAction::Wait(Duration::from_secs(5))
    );
    let mut c = connected("dev-7");
    assert_eq!(m.next_step(SupervisorEvent::MonitorTick, Some(&c)), SupervisorAction::Monitor);
    c.on_frame(IncomingFrame::Close);
    assert_eq!(
        m.next_step(SupervisorEvent::MonitorTick, Some(&c)),
        SupervisorAction::Wait(Duration::from_secs(5))
    );
    assert_eq!(m.next_step(SupervisorEvent::WaitOver, None), SupervisorAction::Connect);
    let live = connected("dev-7");
    m.stop();
    assert_eq!(m.next_step(SupervisorEvent::MonitorTick, Some(&live)), SupervisorAction::Exit);
    assert_eq!(m.next_step(SupervisorEvent::ConnectFailed, None), SupervisorAction::Exit);
    assert_eq!(m.next_step(SupervisorEvent::WaitOver, None), SupervisorAction::Exit);
    assert_eq!(m.next_step(SupervisorEvent::ConnectSucceeded, None), SupervisorAction::Exit);
    assert_eq!(m.next_step(SupervisorEvent::Started, None), SupervisorAction::Exit);
}
