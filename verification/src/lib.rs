//! Peer signalling and logging core of the PLE7 mesh VPN desktop client:
//! the Socket.IO frames exchanged with the control plane, the connection's
//! decisions, the peers' endpoints, the recent-log buffer and deep links.

pub mod text;
pub mod json;
pub mod socketio;
pub mod peers;
pub mod logbuf;
pub mod client;
pub mod deeplink;

pub use client::{
    FrameOutcome, IncomingFrame, ManagedWsClient, SupervisorAction, SupervisorEvent, WsClient, WsConfig,
    WsState, MONITOR_PERIOD_SECS,
};
pub use deeplink::{is_deep_link_text, single_instance_deep_link, startup_deep_link};
pub use json::{JsonMember, JsonValue};
pub use logbuf::{add_to_log_buffer, format_file_line, format_log_line, get_logs, LogBuffer, LogLevel, LOG_BUFFER_SIZE};
pub use peers::{PeerAddr, PeerTable};
pub use socketio::{encode_message, event_from_json, format_socketio_message, parse_socketio_message, WsEvent, WsMessage};
