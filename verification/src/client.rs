//! The decisions of the control-plane connection: the client's state, the
//! messages it may send, what it does with each received frame, and the
//! supervisor that keeps it connected.

use vstd::prelude::*;
use crate::peers::{PeerAddr, PeerTable};
use crate::socketio::{event_opt_view, parse_socketio_message, socketio_event, WsEvent, WsEventView, WsMessage, WsMessageView};
use crate::text::{
    lemma_replace_absent, lemma_replace_occurrences, lemma_replace_passes_char, occurs_in,
    replace_all, replace_text,
};

verus! {

/// Connection state.
#[derive(Clone, Copy, Debug, PartialEq, Eq, Structural)]
pub enum WsState {
    Disconnected,
    Connecting,
    Connected,
    Reconnecting,
}

/// The WebSocket URL for an HTTP(S) base URL: `https://` becomes `wss://`,
/// then `http://` becomes `ws://`, wherever they occur.
pub open spec fn ws_url_of(base: Seq<char>) -> Seq<char> {
    replace_all(replace_all(base, "https://"@, "wss://"@), "http://"@, "ws://"@)
}

/// The URL a client connects to never names an http or https scheme:
/// neither `http://` nor `https://` occurs anywhere in it.
pub proof fn lemma_ws_url_has_no_http(base: Seq<char>)
    ensures
        !occurs_in(ws_url_of(base), "http://"@),
        !occurs_in(ws_url_of(base), "https://"@),
{
    reveal_strlit("https://");
    reveal_strlit("http://");
    reveal_strlit("wss://");
    reveal_strlit("ws://");
    let secure = replace_all(base, "https://"@, "wss://"@);
    lemma_replace_occurrences(base, "https://"@, "wss://"@, "https://"@);
    lemma_replace_occurrences(secure, "http://"@, "ws://"@, "http://"@);
    lemma_replace_occurrences(secure, "http://"@, "ws://"@, "https://"@);
}

/// An https base URL becomes the wss URL with the same rest, and an http
/// one the ws URL with the same rest, when the rest names no scheme.
pub proof fn lemma_ws_url_of_scheme(rest: Seq<char>)
    requires
        !occurs_in(rest, "http://"@),
        !occurs_in(rest, "https://"@),
    ensures
        ws_url_of("https://"@ + rest) == "wss://"@ + rest,
        ws_url_of("http://"@ + rest) == "ws://"@ + rest,
{
    reveal_strlit("https://");
    reveal_strlit("http://");
    reveal_strlit("wss://");
    reveal_strlit("ws://");
    let hs = "https://"@;
    let h = "http://"@;
    let s1 = hs + rest;
    assert(s1.subrange(0, hs.len() as int) =~= hs);
    assert(s1.subrange(hs.len() as int, s1.len() as int) =~= rest);
    lemma_replace_absent(rest, hs, "wss://"@);
    assert(replace_all(s1, hs, "wss://"@) == "wss://"@ + rest);
    lemma_replace_absent(rest, h, "ws://"@);
    let w = "wss://"@;
    assert(w + rest =~= seq![w[0]] + (seq![w[1]] + (seq![w[2]] + (seq![w[3]] + (seq![w[4]] + (
    seq![w[5]] + rest))))));
    lemma_replace_passes_char(w[5], rest, h, "ws://"@);
    lemma_replace_passes_char(w[4], seq![w[5]] + rest, h, "ws://"@);
    lemma_replace_passes_char(w[3], seq![w[4]] + (seq![w[5]] + rest), h, "ws://"@);
    lemma_replace_passes_char(w[2], seq![w[3]] + (seq![w[4]] + (seq![w[5]] + rest)), h, "ws://"@);
    lemma_replace_passes_char(
        w[1],
        seq![w[2]] + (seq![w[3]] + (seq![w[4]] + (seq![w[5]] + rest))),
        h,
        "ws://"@,
    );
    lemma_replace_passes_char(
        w[0],
        seq![w[1]] + (seq![w[2]] + (seq![w[3]] + (seq![w[4]] + (seq![w[5]] + rest)))),
        h,
        "ws://"@,
    );
    let s2 = h + rest;
    assert(!occurs_in(s2, hs)) by {
        if occurs_in(s2, hs) {
            let j = choose|j: int| 0 <= j && j + hs.len() <= s2.len() && #[trigger] s2.subrange(j, j + hs.len()) == hs;
            if j >= 7 {
                assert(rest.subrange(j - 7, j - 7 + hs.len()) =~= s2.subrange(j, j + hs.len()));
            } else if j == 0 {
                assert(s2.subrange(j, j + hs.len())[4] == s2[4]);
            } else {
                assert(s2.subrange(j, j + hs.len())[0] == s2[j]);
            }
        }
    }
    lemma_replace_absent(s2, hs, "wss://"@);
    assert(s2.subrange(0, h.len() as int) =~= h);
    assert(s2.subrange(h.len() as int, s2.len() as int) =~= rest);
}

/// The model of a client.
pub struct WsClientView {
    pub base_url: Seq<char>,
    pub token: Seq<char>,
    pub device_id: Seq<char>,
    pub state: WsState,
    /// Whether a message channel to the server is open.
    pub sender_open: bool,
    pub peers: Map<Seq<char>, PeerAddr>,
}

/// A frame read from the server, as the client sees it.
pub enum IncomingFrame {
    Text(String),
    Close,
    Ping,
    Error,
    Other,
}

/// What the reader does after a frame.
pub enum FrameOutcome {
    /// Keep reading; hand the event, if any, to the registered callbacks.
    Continue(Option<WsEvent>),
    /// Stop reading.
    Stop,
}

/// The peer endpoints after an event, where `addr` is the event's endpoint
/// as a socket address when it parses as one.
pub open spec fn peers_after_event(
    peers: Map<Seq<char>, PeerAddr>,
    e: WsEventView,
    addr: Option<PeerAddr>,
) -> Map<Seq<char>, PeerAddr> {
    match (e, addr) {
        (WsEventView::PeerEndpointUpdate { public_key, .. }, Some(a)) => peers.insert(public_key, a),
        _ => peers,
    }
}

/// After an endpoint update whose endpoint parsed, the peer's endpoint is
/// the one received, and every other peer's entry is as it was.
pub proof fn lemma_endpoint_update_recorded(
    peers: Map<Seq<char>, PeerAddr>,
    device_id: Seq<char>,
    public_key: Seq<char>,
    endpoint: Seq<char>,
    addr: PeerAddr,
    other: Seq<char>,
)
    ensures
        ({
            let after = peers_after_event(
                peers,
                WsEventView::PeerEndpointUpdate { device_id, public_key, endpoint },
                Some(addr),
            );
            &&& after.contains_key(public_key)
            &&& after[public_key] == addr
            &&& other != public_key ==> (after.contains_key(other) == peers.contains_key(other))
            &&& (other != public_key && peers.contains_key(other)) ==> after[other] == peers[other]
        }),
{
}

/// Events other than endpoint updates, and updates whose endpoint does not
/// parse, leave the peer endpoints as they were.
pub proof fn lemma_other_events_keep_peers(
    peers: Map<Seq<char>, PeerAddr>,
    e: WsEventView,
    addr: Option<PeerAddr>,
)
    requires
        !(e is PeerEndpointUpdate) || addr is None,
    ensures
        peers_after_event(peers, e, addr) == peers,
{
}

/// Client for the control plane's WebSocket: its URL and credentials, its
/// connection state, and the peer endpoints it has learnt.
pub struct WsClient {
    base_url: String,
    token: String,
    device_id: String,
    state: WsState,
    sender_open: bool,
    peer_endpoints: PeerTable,
}

impl View for WsClient {
    type V = WsClientView;

    closed spec fn view(&self) -> WsClientView {
        WsClientView {
            base_url: self.base_url@,
            token: self.token@,
            device_id: self.device_id@,
            state: self.state,
            sender_open: self.sender_open,
            peers: self.peer_endpoints@,
        }
    }
}

impl WsClient {
    /// A disconnected client for the server at `base_url` (an http or https
    /// URL, turned into a ws or wss one).
    pub fn new(base_url: &str, token: &str, device_id: &str) -> (r: WsClient)
        ensures
            r@ == (WsClientView {
                base_url: ws_url_of(base_url@),
                token: token@,
                device_id: device_id@,
                state: WsState::Disconnected,
                sender_open: false,
                peers: Map::empty(),
            }),
    {
        proof {
            reveal_strlit("https://");
            reveal_strlit("http://");
        }
        let secure = replace_text(base_url, "https://", "wss://");
        let ws_url = replace_text(secure.as_str(), "http://", "ws://");
        WsClient {
            base_url: ws_url,
            token: token.to_owned(),
            device_id: device_id.to_owned(),
            state: WsState::Disconnected,
            sender_open: false,
            peer_endpoints: PeerTable::new(),
        }
    }

    /// The current peer endpoints.
    pub fn peer_endpoints(&self) -> (r: PeerTable)
        ensures
            r@ == self@.peers,
    {
        self.peer_endpoints.duplicate()
    }

    /// The endpoint of the peer with this public key, if one is known.
    pub fn get_peer_endpoint(&self, public_key: &str) -> (r: Option<PeerAddr>)
        ensures
            r == (if self@.peers.contains_key(public_key@) {
                Some(self@.peers[public_key@])
            } else {
                None
            }),
    {
        self.peer_endpoints.get(public_key)
    }

    /// The URL to open: `<base>/ws/mesh?token=<token>`.
    pub fn connect_url(&self) -> (r: String)
        ensures
            r@ == self@.base_url + "/ws/mesh?token="@ + self@.token,
    {
        self.base_url.clone().concat("/ws/mesh?token=").concat(self.token.as_str())
    }

    /// Marks the start of a connection attempt.
    pub fn begin_connect(&mut self)
        ensures
            final(self)@ == (WsClientView { state: WsState::Connecting, ..old(self)@ }),
    {
        self.state = WsState::Connecting;
    }

    /// Takes the outcome of a connection attempt. On success the channel is
    /// open and the client is connected; on failure the error is reported as
    /// `WebSocket connection failed: <error>` and the state is left as it was.
    pub fn finish_connect(&mut self, outcome: Result<(), String>) -> (r: Result<(), String>)
        ensures
            outcome is Ok ==> r is Ok && final(self)@ == (WsClientView {
                state: WsState::Connected,
                sender_open: true,
                ..old(self)@
            }),
            outcome matches Err(e) ==> r matches Err(m) && m@ == "WebSocket connection failed: "@
                + e@ && final(self)@ == old(self)@,
    {
        match outcome {
            Ok(()) => {
                self.sender_open = true;
                self.state = WsState::Connected;
                Ok(())
            },
            Err(e) => Err("WebSocket connection failed: ".to_owned().concat(e.as_str())),
        }
    }

    /// The message announcing our public endpoint, if a channel is open.
    pub fn register_endpoint(&self, endpoint: &str) -> (r: Option<WsMessage>)
        ensures
            r is Some <==> self@.sender_open,
            r matches Some(m) ==> m@ == (WsMessageView::RegisterEndpoint {
                device_id: self@.device_id,
                endpoint: endpoint@,
            }),
    {
        if self.sender_open {
            Some(
                WsMessage::RegisterEndpoint {
                    device_id: self.device_id.clone(),
                    endpoint: endpoint.to_owned(),
                },
            )
        } else {
            None
        }
    }

    /// The message subscribing to a network's updates, if a channel is open.
    pub fn subscribe(&self, network_id: &str) -> (r: Option<WsMessage>)
        ensures
            r is Some <==> self@.sender_open,
            r matches Some(m) ==> m@ == (WsMessageView::Subscribe { network_id: network_id@ }),
    {
        if self.sender_open {
            Some(WsMessage::Subscribe { network_id: network_id.to_owned() })
        } else {
            None
        }
    }

    /// The current connection state.
    pub fn state(&self) -> (r: WsState)
        ensures
            r == self@.state,
    {
        self.state
    }

    /// Whether a message channel to the server is open.
    pub fn has_sender(&self) -> (r: bool)
        ensures
            r == self@.sender_open,
    {
        self.sender_open
    }

    /// Closes the channel and marks the client disconnected.
    pub fn disconnect(&mut self)
        ensures
            final(self)@ == (WsClientView {
                state: WsState::Disconnected,
                sender_open: false,
                ..old(self)@
            }),
    {
        self.sender_open = false;
        self.state = WsState::Disconnected;
    }

    /// What the reader does with a frame. Once the channel is closed (by
    /// `disconnect`), every frame stops the reader and changes nothing.
    /// Otherwise a text frame is decoded as a Socket.IO event; a close or a
    /// read error marks the client disconnected and stops the reader; pings
    /// and other frames are passed over.
    pub fn on_frame(&mut self, frame: IncomingFrame) -> (r: FrameOutcome)
        ensures
            !old(self)@.sender_open ==> r is Stop && final(self)@ == old(self)@,
            old(self)@.sender_open ==> match frame {
                IncomingFrame::Text(t) => r matches FrameOutcome::Continue(e) && event_opt_view(e)
                    == socketio_event(t@) && final(self)@ == old(self)@,
                IncomingFrame::Close | IncomingFrame::Error => r is Stop && final(self)@ == (
                WsClientView { state: WsState::Disconnected, ..old(self)@ }),
                IncomingFrame::Ping | IncomingFrame::Other => r matches FrameOutcome::Continue(e)
                    && e is None && final(self)@ == old(self)@,
            },
    {
        if !self.sender_open {
            return FrameOutcome::Stop;
        }
        match frame {
            IncomingFrame::Text(t) => FrameOutcome::Continue(parse_socketio_message(t.as_str())),
            IncomingFrame::Close | IncomingFrame::Error => {
                self.state = WsState::Disconnected;
                FrameOutcome::Stop
            },
            IncomingFrame::Ping | IncomingFrame::Other => FrameOutcome::Continue(None),
        }
    }

    /// Records the endpoint of a peer endpoint update received over the open
    /// channel, where `addr` is that endpoint parsed as a socket address
    /// (`None` when it does not parse); other events, and any event once the
    /// channel is closed, change nothing.
    pub fn record_peer_endpoint(&mut self, event: &WsEvent, addr: Option<PeerAddr>)
        ensures
            old(self)@.sender_open ==> final(self)@ == (WsClientView {
                peers: peers_after_event(old(self)@.peers, event@, addr),
                ..old(self)@
            }),
            !old(self)@.sender_open ==> final(self)@ == old(self)@,
    {
        if !self.sender_open {
            return;
        }
        match (event, addr) {
            (WsEvent::PeerEndpointUpdate { public_key, .. }, Some(a)) => {
                self.peer_endpoints.insert(public_key.clone(), a);
            },
            _ => {},
        }
    }

    /// Marks the client disconnected after a failed send.
    pub fn on_send_failed(&mut self)
        ensures
            final(self)@ == (WsClientView { state: WsState::Disconnected, ..old(self)@ }),
    {
        self.state = WsState::Disconnected;
    }
}

/// `Duration` is `Copy`: its clone is the same duration.
pub assume_specification[ <core::time::Duration as Clone>::clone ](d: &core::time::Duration) -> (r: core::time::Duration)
    ensures
        r == *d,
;

/// Settings of the managed connection.
#[derive(Clone)]
pub struct WsConfig {
    pub base_url: String,
    pub token: String,
    pub device_id: String,
    pub reconnect_interval: core::time::Duration,
}

/// The supervisor of the connection: whether it runs, and what it sends
/// after each (re)connection.
pub struct ManagedWsClient {
    config: WsConfig,
    running: bool,
}

/// The model of a supervisor.
pub struct ManagedView {
    pub base_url: Seq<char>,
    pub token: Seq<char>,
    pub device_id: Seq<char>,
    pub reconnect_interval: core::time::Duration,
    pub running: bool,
}

impl View for ManagedWsClient {
    type V = ManagedView;

    closed spec fn view(&self) -> ManagedView {
        ManagedView {
            base_url: self.config.base_url@,
            token: self.config.token@,
            device_id: self.config.device_id@,
            reconnect_interval: self.config.reconnect_interval,
            running: self.running,
        }
    }
}

/// The messages sent after each successful connection, in order: register
/// the device, then its public endpoint if known, then the network
/// subscription if any.
pub open spec fn registration_plan(
    device_id: Seq<char>,
    endpoint: Option<Seq<char>>,
    network_id: Option<Seq<char>>,
) -> Seq<WsMessageView> {
    seq![WsMessageView::RegisterDevice { device_id }] + match endpoint {
        Some(e) => seq![WsMessageView::RegisterEndpoint { device_id, endpoint: e }],
        None => Seq::empty(),
    } + match network_id {
        Some(n) => seq![WsMessageView::Subscribe { network_id: n }],
        None => Seq::empty(),
    }
}

/// The registration after a connection: first the device, then, whenever a
/// public endpoint is known, that endpoint right after it (whatever the
/// network), then a subscription exactly when a network is given, last;
/// nothing else.
pub proof fn lemma_registration_plan_contents(
    device_id: Seq<char>,
    endpoint: Option<Seq<char>>,
    network_id: Option<Seq<char>>,
)
    ensures
        ({
            let p = registration_plan(device_id, endpoint, network_id);
            &&& p.len() == 1 + (if endpoint is Some { 1int } else { 0 }) + (if network_id is Some {
                1int
            } else {
                0
            })
            &&& p[0] == WsMessageView::RegisterDevice { device_id }
            &&& endpoint matches Some(e) ==> p[1] == (WsMessageView::RegisterEndpoint {
                device_id,
                endpoint: e,
            })
            &&& network_id matches Some(n) ==> p[p.len() - 1] == (WsMessageView::Subscribe {
                network_id: n,
            })
            &&& (exists|i: int| 0 <= i < p.len() && #[trigger] p[i] is RegisterEndpoint) <==> endpoint is Some
            &&& (exists|i: int| 0 <= i < p.len() && #[trigger] p[i] is Subscribe) <==> network_id is Some
            &&& forall|i: int| 0 <= i < p.len() ==> !(#[trigger] p[i] is Unsubscribe) && !(p[i] is Pong)
        }),
{
    let p = registration_plan(device_id, endpoint, network_id);
    let a = match endpoint {
        Some(e) => seq![WsMessageView::RegisterEndpoint { device_id, endpoint: e }],
        None => Seq::<WsMessageView>::empty(),
    };
    let b = match network_id {
        Some(n) => seq![WsMessageView::Subscribe { network_id: n }],
        None => Seq::<WsMessageView>::empty(),
    };
    assert(p == seq![WsMessageView::RegisterDevice { device_id }] + a + b);
    if endpoint is Some {
        assert(p[1] == a[0]);
    }
    if network_id is Some {
        assert(p[p.len() - 1] == b[0]);
        assert(p[p.len() - 1] is Subscribe);
    }
    if endpoint is Some {
        assert(p[1] is RegisterEndpoint);
    }
    assert forall|i: int| 0 <= i < p.len() && #[trigger] p[i] is RegisterEndpoint implies endpoint is Some by {
        if i >= 1 && i < 1 + a.len() {
            assert(p[i] == a[i - 1]);
        } else if i >= 1 + a.len() {
            assert(p[i] == b[i - 1 - a.len()]);
        }
    }
    assert forall|i: int| 0 <= i < p.len() && #[trigger] p[i] is Subscribe implies network_id is Some by {
        if i >= 1 && i < 1 + a.len() {
            assert(p[i] == a[i - 1]);
        } else if i >= 1 + a.len() {
            assert(p[i] == b[i - 1 - a.len()]);
        }
    }
    assert forall|i: int| 0 <= i < p.len() implies !(#[trigger] p[i] is Unsubscribe) && !(p[i] is Pong) by {
        if i >= 1 && i < 1 + a.len() {
            assert(p[i] == a[i - 1]);
        } else if i >= 1 + a.len() {
            assert(p[i] == b[i - 1 - a.len()]);
        }
    }
}

/// The model of an optional text.
pub open spec fn opt_str_view(s: Option<&str>) -> Option<Seq<char>> {
    match s {
        Some(x) => Some(x@),
        None => None,
    }
}

/// Seconds between two looks at the installed connection.
pub const MONITOR_PERIOD_SECS: u64 = 5;

/// What the supervisor's loop has just seen.
#[derive(Clone, Copy, Debug, PartialEq, Eq)]
pub enum SupervisorEvent {
    /// The loop begins.
    Started,
    /// A connection attempt succeeded.
    ConnectSucceeded,
    /// A connection attempt failed.
    ConnectFailed,
    /// `MONITOR_PERIOD_SECS` passed while watching the installed connection.
    MonitorTick,
    /// The wait before reconnecting is over.
    WaitOver,
}

/// What the supervisor's loop does next.
#[derive(Clone, Copy, Debug, PartialEq, Eq)]
pub enum SupervisorAction {
    /// Open a new connection.
    Connect,
    /// Send the registration messages over the new connection, install it,
    /// and look at it again after `MONITOR_PERIOD_SECS`.
    RegisterAndMonitor,
    /// Look at the installed connection again after `MONITOR_PERIOD_SECS`.
    Monitor,
    /// Wait this long, then try to reconnect.
    Wait(core::time::Duration),
    /// Leave the loop (closing a connection just opened, if any).
    Exit,
}

/// A client is installed and its channel is open.
pub open spec fn has_open_channel(client: Option<&WsClient>) -> bool {
    match client {
        Some(c) => c@.sender_open,
        None => false,
    }
}

/// A client is installed and it is not disconnected.
pub open spec fn live_client(client: Option<&WsClient>) -> bool {
    match client {
        Some(c) => c@.state != WsState::Disconnected,
        None => false,
    }
}

impl ManagedWsClient {
    /// A stopped supervisor.
    pub fn new(config: WsConfig) -> (r: ManagedWsClient)
        ensures
            r@ == (ManagedView {
                base_url: config.base_url@,
                token: config.token@,
                device_id: config.device_id@,
                reconnect_interval: config.reconnect_interval,
                running: false,
            }),
    {
        ManagedWsClient { config, running: false }
    }

    /// The settings.
    pub fn config(&self) -> (r: &WsConfig)
        ensures
            r.base_url@ == self@.base_url,
            r.token@ == self@.token,
            r.device_id@ == self@.device_id,
            r.reconnect_interval == self@.reconnect_interval,
    {
        &self.config
    }

    /// Starts the supervisor; refused with `Already running` if it runs.
    pub fn try_start(&mut self) -> (r: Result<(), String>)
        ensures
            old(self)@.running ==> (r matches Err(m) && m@ == "Already running"@ && final(self)@
                == old(self)@),
            !old(self)@.running ==> r is Ok && final(self)@ == (ManagedView {
                running: true,
                ..old(self)@
            }),
    {
        if self.running {
            return Err("Already running".to_owned());
        }
        self.running = true;
        Ok(())
    }

    /// Stops the supervisor.
    pub fn stop(&mut self)
        ensures
            final(self)@ == (ManagedView { running: false, ..old(self)@ }),
    {
        self.running = false;
    }

    /// Whether the supervisor runs (and so reconnects after a loss).
    pub fn is_running(&self) -> (r: bool)
        ensures
            r == self@.running,
    {
        self.running
    }

    /// The messages to send after a successful connection.
    pub fn registration_messages(&self, public_endpoint: Option<&str>, network_id: Option<&str>) -> (r: Vec<WsMessage>)
        ensures
            r@.map_values(|m: WsMessage| m@) == registration_plan(
                self@.device_id,
                opt_str_view(public_endpoint),
                opt_str_view(network_id),
            ),
    {
        let mut r: Vec<WsMessage> = Vec::new();
        r.push(WsMessage::RegisterDevice { device_id: self.config.device_id.clone() });
        match public_endpoint {
            Some(e) => {
                r.push(
                    WsMessage::RegisterEndpoint {
                        device_id: self.config.device_id.clone(),
                        endpoint: e.to_owned(),
                    },
                );
            },
            None => {},
        }
        match network_id {
            Some(n) => {
                r.push(WsMessage::Subscribe { network_id: n.to_owned() });
            },
            None => {},
        }
        assert(r@.map_values(|m: WsMessage| m@) =~= registration_plan(
            self@.device_id,
            opt_str_view(public_endpoint),
            opt_str_view(network_id),
        ));
        r
    }

    /// The supervisor loop's next action: (re)connect while running, register
    /// a connection that succeeds while running, watch it every
    /// `MONITOR_PERIOD_SECS` while running and live, wait the reconnect
    /// interval after a failure or a loss while running, and leave once
    /// stopped (a connection that succeeds after the stop is neither
    /// registered nor installed).
    pub fn next_step(&self, event: SupervisorEvent, client: Option<&WsClient>) -> (r: SupervisorAction)
        ensures
            match event {
                SupervisorEvent::Started | SupervisorEvent::WaitOver => r == (if self@.running {
                    SupervisorAction::Connect
                } else {
                    SupervisorAction::Exit
                }),
                SupervisorEvent::ConnectSucceeded => r == (if self@.running {
                    SupervisorAction::RegisterAndMonitor
                } else {
                    SupervisorAction::Exit
                }),
                SupervisorEvent::ConnectFailed => r == (if self@.running {
                    SupervisorAction::Wait(self@.reconnect_interval)
                } else {
                    SupervisorAction::Exit
                }),
                SupervisorEvent::MonitorTick => r == (if self@.running && live_client(client) {
                    SupervisorAction::Monitor
                } else if self@.running {
                    SupervisorAction::Wait(self@.reconnect_interval)
                } else {
                    SupervisorAction::Exit
                }),
            },
    {
        match event {
            SupervisorEvent::Started | SupervisorEvent::WaitOver => {
                if self.running {
                    SupervisorAction::Connect
                } else {
                    SupervisorAction::Exit
                }
            },
            SupervisorEvent::ConnectSucceeded => {
                if self.running {
                    SupervisorAction::RegisterAndMonitor
                } else {
                    SupervisorAction::Exit
                }
            },
            SupervisorEvent::ConnectFailed => {
                if self.running {
                    SupervisorAction::Wait(self.config.reconnect_interval)
                } else {
                    SupervisorAction::Exit
                }
            },
            SupervisorEvent::MonitorTick => {
                if self.keep_monitoring(client) {
                    SupervisorAction::Monitor
                } else if self.running {
                    SupervisorAction::Wait(self.config.reconnect_interval)
                } else {
                    SupervisorAction::Exit
                }
            },
        }
    }

    /// Whether to keep watching the current connection: the supervisor runs
    /// and a client is installed that is not disconnected.
    pub fn keep_monitoring(&self, client: Option<&WsClient>) -> (r: bool)
        ensures
            r == (self@.running && live_client(client)),
    {
        if !self.running {
            return false;
        }
        match client {
            Some(c) => c.state() != WsState::Disconnected,
            None => false,
        }
    }

    /// The message announcing our endpoint, for the installed client's open
    /// channel; `Not connected` without one.
    pub fn register_endpoint(&self, client: Option<&WsClient>, endpoint: &str) -> (r: Result<WsMessage, String>)
        ensures
            has_open_channel(client) ==> (r matches Ok(m) && m@ == (
            WsMessageView::RegisterEndpoint { device_id: self@.device_id, endpoint: endpoint@ })),
            !has_open_channel(client) ==> (r matches Err(e) && e@ == "Not connected"@),
    {
        match client {
            Some(c) => {
                if c.has_sender() {
                    return Ok(
                        WsMessage::RegisterEndpoint {
                            device_id: self.config.device_id.clone(),
                            endpoint: endpoint.to_owned(),
                        },
                    );
                }
            },
            None => {},
        }
        Err("Not connected".to_owned())
    }

    /// The subscription message, for the installed client's open channel;
    /// `Not connected` without one.
    pub fn subscribe(&self, client: Option<&WsClient>, network_id: &str) -> (r: Result<WsMessage, String>)
        ensures
            has_open_channel(client) ==> (r matches Ok(m) && m@ == (WsMessageView::Subscribe {
                network_id: network_id@,
            })),
            !has_open_channel(client) ==> (r matches Err(e) && e@ == "Not connected"@),
    {
        match client {
            Some(c) => {
                if c.has_sender() {
                    return Ok(WsMessage::Subscribe { network_id: network_id.to_owned() });
                }
            },
            None => {},
        }
        Err("Not connected".to_owned())
    }

    /// The endpoint of a peer as the installed client knows it.
    pub fn get_peer_endpoint(&self, client: Option<&WsClient>, public_key: &str) -> (r: Option<PeerAddr>)
        ensures
            r == (match client {
                Some(c) => if c@.peers.contains_key(public_key@) {
                    Some(c@.peers[public_key@])
                } else {
                    None
                },
                None => None,
            }),
    {
        match client {
            Some(c) => c.get_peer_endpoint(public_key),
            None => None,
        }
    }
}

} // verus!
