//! The Socket.IO text frames exchanged with the control plane:
//! `42["event",{data}]` (or `2[...]`) in, `42[...]` and `3` out.

use vstd::prelude::*;
use crate::json::{
    json_as_str, json_get_str, member_lookup, json_parse, json_write, parse_json, value_as_str,
    value_get_str, write_json, json_pair, json_string, json_string_object, lemma_array_items,
    Json, JsonValue,
};
use crate::text::{
    all_white_space, chars_equal, chars_from, chars_start_with, has_prefix,
    lemma_trim_ignores_padding, str_chars, string_equals, string_from_chars, trim, trim_chars,
};

verus! {

/// Events received from the control plane.
#[derive(Debug, Clone, PartialEq, Eq)]
pub enum WsEvent {
    /// Peer endpoint updated (for a direct peer-to-peer connection).
    PeerEndpointUpdate { device_id: String, public_key: String, endpoint: String },
    /// Peer came online.
    PeerOnline { device_id: String, public_key: String },
    /// Peer went offline.
    PeerOffline { device_id: String },
    /// Network configuration changed.
    NetworkConfigUpdate { network_id: String },
    /// Keepalive from the server.
    Ping,
    /// The server acknowledged our endpoint report.
    EndpointAck { success: bool },
}

/// The model of a `WsEvent`: its strings as character sequences.
pub enum WsEventView {
    PeerEndpointUpdate { device_id: Seq<char>, public_key: Seq<char>, endpoint: Seq<char> },
    PeerOnline { device_id: Seq<char>, public_key: Seq<char> },
    PeerOffline { device_id: Seq<char> },
    NetworkConfigUpdate { network_id: Seq<char> },
    Ping,
    EndpointAck { success: bool },
}

impl View for WsEvent {
    type V = WsEventView;

    open spec fn view(&self) -> WsEventView {
        match self {
            WsEvent::PeerEndpointUpdate { device_id, public_key, endpoint } =>
                WsEventView::PeerEndpointUpdate {
                device_id: device_id@,
                public_key: public_key@,
                endpoint: endpoint@,
            },
            WsEvent::PeerOnline { device_id, public_key } => WsEventView::PeerOnline {
                device_id: device_id@,
                public_key: public_key@,
            },
            WsEvent::PeerOffline { device_id } => WsEventView::PeerOffline {
                device_id: device_id@,
            },
            WsEvent::NetworkConfigUpdate { network_id } => WsEventView::NetworkConfigUpdate {
                network_id: network_id@,
            },
            WsEvent::Ping => WsEventView::Ping,
            WsEvent::EndpointAck { success } => WsEventView::EndpointAck { success: *success },
        }
    }
}

/// The model of an optional event.
pub open spec fn event_opt_view(e: Option<WsEvent>) -> Option<WsEventView> {
    match e {
        Some(x) => Some(x@),
        None => None,
    }
}

/// Messages sent to the control plane.
#[derive(Debug, Clone, PartialEq, Eq)]
pub enum WsMessage {
    /// Register this device (makes it show as online).
    RegisterDevice { device_id: String },
    /// Register this device with its public endpoint (for peer-to-peer).
    RegisterEndpoint { device_id: String, endpoint: String },
    /// Subscribe to updates for a network.
    Subscribe { network_id: String },
    /// Unsubscribe from a network.
    Unsubscribe { network_id: String },
    /// Pong response.
    Pong,
}

/// The model of a `WsMessage`.
pub enum WsMessageView {
    RegisterDevice { device_id: Seq<char> },
    RegisterEndpoint { device_id: Seq<char>, endpoint: Seq<char> },
    Subscribe { network_id: Seq<char> },
    Unsubscribe { network_id: Seq<char> },
    Pong,
}

impl View for WsMessage {
    type V = WsMessageView;

    open spec fn view(&self) -> WsMessageView {
        match self {
            WsMessage::RegisterDevice { device_id } => WsMessageView::RegisterDevice {
                device_id: device_id@,
            },
            WsMessage::RegisterEndpoint { device_id, endpoint } =>
                WsMessageView::RegisterEndpoint { device_id: device_id@, endpoint: endpoint@ },
            WsMessage::Subscribe { network_id } => WsMessageView::Subscribe {
                network_id: network_id@,
            },
            WsMessage::Unsubscribe { network_id } => WsMessageView::Unsubscribe {
                network_id: network_id@,
            },
            WsMessage::Pong => WsMessageView::Pong,
        }
    }
}

/// The event that a decoded `["name", data]` array stands for.
pub open spec fn event_of_json(v: Json) -> Option<WsEventView> {
    match v {
        Json::Array(items) => if items.len() >= 2 {
            match json_as_str(items[0]) {
                Some(name) => {
                    let data = items[1];
                    if name == "peer_endpoint_update"@ {
                        match (
                            json_get_str(data, "deviceId"@),
                            json_get_str(data, "publicKey"@),
                            json_get_str(data, "endpoint"@),
                        ) {
                            (Some(d), Some(p), Some(e)) => Some(
                                WsEventView::PeerEndpointUpdate {
                                    device_id: d,
                                    public_key: p,
                                    endpoint: e,
                                },
                            ),
                            _ => None,
                        }
                    } else if name == "peer_online"@ {
                        match json_get_str(data, "deviceId"@) {
                            Some(d) => Some(
                                WsEventView::PeerOnline {
                                    device_id: d,
                                    public_key: match json_get_str(data, "publicKey"@) {
                                        Some(p) => p,
                                        None => Seq::empty(),
                                    },
                                },
                            ),
                            None => None,
                        }
                    } else if name == "peer_offline"@ {
                        match json_get_str(data, "deviceId"@) {
                            Some(d) => Some(WsEventView::PeerOffline { device_id: d }),
                            None => None,
                        }
                    } else {
                        None
                    }
                },
                None => None,
            }
        } else {
            None
        },
        _ => None,
    }
}

/// The JSON text of a trimmed frame: after `42` or after the `2` of `2[`;
/// none for connect acknowledgements (`0{..`, `40`, `40{..`) and other frames.
pub open spec fn socketio_json_part(t: Seq<char>) -> Option<Seq<char>> {
    if has_prefix(t, "0{"@) || t == "40"@ || has_prefix(t, "40{"@) {
        None
    } else if has_prefix(t, "42"@) {
        Some(t.subrange(2, t.len() as int))
    } else if has_prefix(t, "2["@) {
        Some(t.subrange(1, t.len() as int))
    } else {
        None
    }
}

/// The event a received text frame carries.
pub open spec fn socketio_event(text: Seq<char>) -> Option<WsEventView> {
    match socketio_json_part(trim(text)) {
        Some(part) => match json_parse(part) {
            Some(j) => event_of_json(j),
            None => None,
        },
        None => None,
    }
}

/// The text of an event frame `42[name, data]`.
pub open spec fn event_frame(name: Seq<char>, data: Json) -> Seq<char> {
    "42"@ + json_write(Json::Array(seq![Json::Str(name), data]))
}

/// The text sent for a message.
pub open spec fn message_text(m: WsMessageView) -> Seq<char> {
    match m {
        WsMessageView::RegisterDevice { device_id } => event_frame(
            "register_device"@,
            Json::Object(seq![("deviceId"@, Json::Str(device_id))]),
        ),
        WsMessageView::RegisterEndpoint { device_id, endpoint } => event_frame(
            "register_endpoint"@,
            Json::Object(seq![("deviceId"@, Json::Str(device_id)), ("endpoint"@, Json::Str(endpoint))]),
        ),
        WsMessageView::Subscribe { network_id } => event_frame(
            "subscribe"@,
            Json::Object(seq![("networkId"@, Json::Str(network_id))]),
        ),
        WsMessageView::Unsubscribe { network_id } => event_frame(
            "unsubscribe"@,
            Json::Object(seq![("networkId"@, Json::Str(network_id))]),
        ),
        WsMessageView::Pong => "3"@,
    }
}

/// White space around a frame does not change the event it carries.
pub proof fn lemma_event_ignores_padding(pre: Seq<char>, text: Seq<char>, post: Seq<char>)
    requires
        all_white_space(pre),
        all_white_space(post),
    ensures
        socketio_event(pre + text + post) == socketio_event(text),
{
    lemma_trim_ignores_padding(pre, text, post);
}

/// Socket.IO connect acknowledgements (`0{..`, `40`, `40{..`, once trimmed)
/// carry no event.
pub proof fn lemma_connect_ack_carries_no_event(text: Seq<char>)
    requires
        has_prefix(trim(text), "0{"@) || trim(text) == "40"@ || has_prefix(trim(text), "40{"@),
    ensures
        socketio_event(text) is None,
{
}

/// Every frame sent for a message is a Socket.IO event frame beginning with
/// `42`, except the pong, which is `3`.
pub proof fn lemma_message_frames(m: WsMessageView)
    ensures
        m is Pong ==> message_text(m) == "3"@,
        !(m is Pong) ==> has_prefix(message_text(m), "42"@),
{
    reveal_strlit("42");
    if !(m is Pong) {
        let t = message_text(m);
        assert(t.subrange(0, 2) =~= "42"@);
    }
}

/// A decoded `["peer_endpoint_update", data, ...]` array gives the update
/// whose device id, public key and endpoint are exactly the string members
/// `deviceId`, `publicKey` and `endpoint` of `data`; it gives no event when
/// any of the three is missing or not a string.
pub proof fn lemma_endpoint_update_fields(
    data: Json,
    rest: Seq<Json>,
    d: Seq<char>,
    k: Seq<char>,
    e: Seq<char>,
)
    ensures
        ({
            let ev = event_of_json(
                Json::Array(seq![Json::Str("peer_endpoint_update"@), data] + rest),
            );
            &&& (json_get_str(data, "deviceId"@) == Some(d) && json_get_str(data, "publicKey"@)
                == Some(k) && json_get_str(data, "endpoint"@) == Some(e)) ==> ev == Some(
                WsEventView::PeerEndpointUpdate { device_id: d, public_key: k, endpoint: e },
            )
            &&& (json_get_str(data, "deviceId"@) is None || json_get_str(data, "publicKey"@) is None
                || json_get_str(data, "endpoint"@) is None) ==> ev is None
        }),
{
    let items = seq![Json::Str("peer_endpoint_update"@), data] + rest;
    assert(items[0] == Json::Str("peer_endpoint_update"@));
    assert(items[1] == data);
}

/// A decoded `["peer_online", data, ...]` array gives the peer whose device
/// id is exactly the string member `deviceId` of `data` and whose public key
/// is exactly its string member `publicKey`, or empty when that is missing
/// or not a string; no event without a string `deviceId`.
pub proof fn lemma_peer_online_fields(data: Json, rest: Seq<Json>, d: Seq<char>, k: Seq<char>)
    ensures
        ({
            let ev = event_of_json(Json::Array(seq![Json::Str("peer_online"@), data] + rest));
            &&& (json_get_str(data, "deviceId"@) == Some(d) && json_get_str(data, "publicKey"@)
                == Some(k)) ==> ev == Some(
                WsEventView::PeerOnline { device_id: d, public_key: k },
            )
            &&& (json_get_str(data, "deviceId"@) == Some(d) && json_get_str(data, "publicKey"@)
                is None) ==> ev == Some(
                WsEventView::PeerOnline { device_id: d, public_key: Seq::empty() },
            )
            &&& json_get_str(data, "deviceId"@) is None ==> ev is None
        }),
{
    reveal_strlit("peer_online");
    reveal_strlit("peer_endpoint_update");
    let items = seq![Json::Str("peer_online"@), data] + rest;
    assert(items[0] == Json::Str("peer_online"@));
    assert(items[1] == data);
    assert("peer_online"@ != "peer_endpoint_update"@) by {
        assert("peer_online"@.len() != "peer_endpoint_update"@.len());
    }
}

/// A decoded `["peer_offline", data, ...]` array gives the peer whose device
/// id is exactly the string member `deviceId` of `data`; no event without
/// one.
pub proof fn lemma_peer_offline_fields(data: Json, rest: Seq<Json>, d: Seq<char>)
    ensures
        ({
            let ev = event_of_json(Json::Array(seq![Json::Str("peer_offline"@), data] + rest));
            &&& json_get_str(data, "deviceId"@) == Some(d) ==> ev == Some(
                WsEventView::PeerOffline { device_id: d },
            )
            &&& json_get_str(data, "deviceId"@) is None ==> ev is None
        }),
{
    reveal_strlit("peer_offline");
    reveal_strlit("peer_online");
    reveal_strlit("peer_endpoint_update");
    let items = seq![Json::Str("peer_offline"@), data] + rest;
    assert(items[0] == Json::Str("peer_offline"@));
    assert(items[1] == data);
    assert("peer_offline"@ != "peer_endpoint_update"@) by {
        assert("peer_offline"@.len() != "peer_endpoint_update"@.len());
    }
    assert("peer_offline"@ != "peer_online"@) by {
        assert("peer_offline"@.len() != "peer_online"@.len());
    }
}

/// For every strings `d`, `k`, `e`: the array
/// `["peer_endpoint_update", {"deviceId": d, "publicKey": k, "endpoint": e}]`
/// decodes to the update carrying exactly `d`, `k` and `e`.
pub proof fn lemma_endpoint_update_object(d: Seq<char>, k: Seq<char>, e: Seq<char>)
    ensures
        event_of_json(
            Json::Array(
                seq![
                    Json::Str("peer_endpoint_update"@),
                    Json::Object(seq![
                        ("deviceId"@, Json::Str(d)),
                        ("publicKey"@, Json::Str(k)),
                        ("endpoint"@, Json::Str(e)),
                    ]),
                ],
            ),
        ) == Some(WsEventView::PeerEndpointUpdate { device_id: d, public_key: k, endpoint: e }),
{
    reveal_strlit("deviceId");
    reveal_strlit("publicKey");
    reveal_strlit("endpoint");
    let ms = seq![("deviceId"@, Json::Str(d)), ("publicKey"@, Json::Str(k)), ("endpoint"@, Json::Str(e))];
    let data = Json::Object(ms);
    assert("deviceId"@ != "publicKey"@) by { assert("deviceId"@[0] != "publicKey"@[0]); }
    assert("deviceId"@ != "endpoint"@) by { assert("deviceId"@[0] != "endpoint"@[0]); }
    assert("publicKey"@ != "endpoint"@) by { assert("publicKey"@[0] != "endpoint"@[0]); }
    let ms1 = ms.drop_first();
    let ms2 = ms1.drop_first();
    assert(ms1 =~= seq![("publicKey"@, Json::Str(k)), ("endpoint"@, Json::Str(e))]);
    assert(ms2 =~= seq![("endpoint"@, Json::Str(e))]);
    assert(member_lookup(ms, "publicKey"@) == member_lookup(ms1, "publicKey"@));
    assert(member_lookup(ms1, "publicKey"@) == Some(Json::Str(k)));
    assert(member_lookup(ms, "endpoint"@) == member_lookup(ms1, "endpoint"@));
    assert(member_lookup(ms1, "endpoint"@) == member_lookup(ms2, "endpoint"@));
    assert(member_lookup(ms2, "endpoint"@) == Some(Json::Str(e)));
    assert(json_get_str(data, "deviceId"@) == Some(d));
    assert(json_get_str(data, "publicKey"@) == Some(k));
    assert(json_get_str(data, "endpoint"@) == Some(e));
    lemma_endpoint_update_fields(data, Seq::empty(), d, k, e);
    assert(seq![Json::Str("peer_endpoint_update"@), data] + Seq::<Json>::empty() =~= seq![
        Json::Str("peer_endpoint_update"@),
        data,
    ]);
}

/// A frame is decoded through the JSON after its `42` (once trimmed): when
/// that JSON is `[name, data, ...]`, the event is what the array stands for.
pub proof fn lemma_event_frame_decoding(text: Seq<char>, j: Json)
    requires
        has_prefix(trim(text), "42"@),
        json_parse(trim(text).subrange(2, trim(text).len() as int)) == Some(j),
    ensures
        socketio_event(text) == event_of_json(j),
{
    reveal_strlit("42");
    reveal_strlit("0{");
    reveal_strlit("40");
    reveal_strlit("40{");
    let t = trim(text);
    assert(t[1] == '2') by {
        assert(t.subrange(0, 2)[1] == t[1]);
    }
    assert(!has_prefix(t, "0{"@)) by {
        assert(t.subrange(0, 2)[0] == t[0]);
    }
    assert(!has_prefix(t, "40{"@)) by {
        if t.len() >= 3 {
            assert(t.subrange(0, 3)[1] == t[1]);
        }
    }
    assert(t != "40"@) by {
        if t.len() == 2 {
            assert("40"@[1] == '0');
        }
    }
}

/// A `2[...]` frame (once trimmed) is decoded through the JSON from its `[`
/// on: when that JSON is an array, the event is what the array stands for.
pub proof fn lemma_plain_event_frame_decoding(text: Seq<char>, j: Json)
    requires
        has_prefix(trim(text), "2["@),
        json_parse(trim(text).subrange(1, trim(text).len() as int)) == Some(j),
    ensures
        socketio_event(text) == event_of_json(j),
{
    reveal_strlit("2[");
    reveal_strlit("42");
    reveal_strlit("0{");
    reveal_strlit("40");
    reveal_strlit("40{");
    let t = trim(text);
    assert(t[0] == '2') by {
        assert(t.subrange(0, 2)[0] == t[0]);
    }
    assert(!has_prefix(t, "0{"@)) by {
        assert(t.subrange(0, 2)[0] == t[0]);
    }
    assert(!has_prefix(t, "40{"@)) by {
        if t.len() >= 3 {
            assert(t.subrange(0, 3)[0] == t[0]);
        }
    }
    assert(!has_prefix(t, "42"@)) by {
        assert(t.subrange(0, 2)[0] == t[0]);
    }
    assert(t != "40"@) by {
        if t.len() == 2 {
            assert("40"@[0] == '4');
        }
    }
}

/// Every message's frame carries its strings unchanged: the frame is `42`
/// followed by the JSON array `[name, data]`, where `data` is an object whose
/// string members are exactly the message's fields (`deviceId`, `endpoint`,
/// `networkId`); the pong is `3`.
pub proof fn lemma_message_frame_fields(m: WsMessageView)
    ensures
        m matches WsMessageView::RegisterDevice { device_id } ==> ({
            let data = Json::Object(seq![("deviceId"@, Json::Str(device_id))]);
            &&& message_text(m) == event_frame("register_device"@, data)
            &&& json_get_str(data, "deviceId"@) == Some(device_id)
        }),
        m matches WsMessageView::RegisterEndpoint { device_id, endpoint } ==> ({
            let data = Json::Object(
                seq![("deviceId"@, Json::Str(device_id)), ("endpoint"@, Json::Str(endpoint))],
            );
            &&& message_text(m) == event_frame("register_endpoint"@, data)
            &&& json_get_str(data, "deviceId"@) == Some(device_id)
            &&& json_get_str(data, "endpoint"@) == Some(endpoint)
        }),
        m matches WsMessageView::Subscribe { network_id } ==> ({
            let data = Json::Object(seq![("networkId"@, Json::Str(network_id))]);
            &&& message_text(m) == event_frame("subscribe"@, data)
            &&& json_get_str(data, "networkId"@) == Some(network_id)
        }),
        m matches WsMessageView::Unsubscribe { network_id } ==> ({
            let data = Json::Object(seq![("networkId"@, Json::Str(network_id))]);
            &&& message_text(m) == event_frame("unsubscribe"@, data)
            &&& json_get_str(data, "networkId"@) == Some(network_id)
        }),
        m is Pong ==> message_text(m) == "3"@,
{
    reveal_strlit("deviceId");
    reveal_strlit("endpoint");
    assert("deviceId"@ != "endpoint"@) by { assert("deviceId"@[0] != "endpoint"@[0]); }
    if let WsMessageView::RegisterEndpoint { device_id, endpoint } = m {
        let ms = seq![("deviceId"@, Json::Str(device_id)), ("endpoint"@, Json::Str(endpoint))];
        assert(ms.drop_first() =~= seq![("endpoint"@, Json::Str(endpoint))]);
        assert(member_lookup(ms, "endpoint"@) == member_lookup(ms.drop_first(), "endpoint"@));
        assert(member_lookup(ms.drop_first(), "endpoint"@) == Some(Json::Str(endpoint)));
        assert(member_lookup(ms, "deviceId"@) == Some(Json::Str(device_id)));
    }
}

/// The event that a decoded `["name", data]` array stands for: peer endpoint
/// updates, peers coming online and going offline; nothing for anything else.
pub fn event_from_json(v: &JsonValue) -> (r: Option<WsEvent>)
    ensures
        event_opt_view(r) == event_of_json(v@),
{
    match v {
        JsonValue::Array(items) => {
            if items.len() < 2 {
                return None;
            }
            proof {
                lemma_array_items(*v);
            }
            let name = match value_as_str(&items[0]) {
                Some(n) => n,
                None => {
                    return None;
                },
            };
            let data = &items[1];
            if string_equals(name, "peer_endpoint_update") {
                let device_id = match value_get_str(data, "deviceId") {
                    Some(s) => s,
                    None => {
                        return None;
                    },
                };
                let public_key = match value_get_str(data, "publicKey") {
                    Some(s) => s,
                    None => {
                        return None;
                    },
                };
                let endpoint = match value_get_str(data, "endpoint") {
                    Some(s) => s,
                    None => {
                        return None;
                    },
                };
                Some(WsEvent::PeerEndpointUpdate { device_id, public_key, endpoint })
            } else if string_equals(name, "peer_online") {
                let device_id = match value_get_str(data, "deviceId") {
                    Some(s) => s,
                    None => {
                        return None;
                    },
                };
                let public_key = match value_get_str(data, "publicKey") {
                    Some(s) => s,
                    None => "".to_owned(),
                };
                proof {
                    reveal_strlit("");
                    assert(public_key@ == match json_get_str(items@[1]@, "publicKey"@) {
                        Some(p) => p,
                        None => Seq::<char>::empty(),
                    });
                }
                Some(WsEvent::PeerOnline { device_id, public_key })
            } else if string_equals(name, "peer_offline") {
                let device_id = match value_get_str(data, "deviceId") {
                    Some(s) => s,
                    None => {
                        return None;
                    },
                };
                Some(WsEvent::PeerOffline { device_id })
            } else {
                None
            }
        },
        _ => {
            proof {
                lemma_array_items(*v);
            }
            None
        },
    }
}

/// Decodes a Socket.IO text frame such as `42["peer_online",{"deviceId":"d"}]`.
/// Surrounding white space is ignored; connect acknowledgements, frames of
/// other types, JSON that does not parse and unknown events give `None`.
pub fn parse_socketio_message(text: &str) -> (r: Option<WsEvent>)
    ensures
        event_opt_view(r) == socketio_event(text@),
{
    let cs = str_chars(text);
    let t = trim_chars(&cs);
    if chars_start_with(&t, "0{") || chars_equal(&t, "40") || chars_start_with(&t, "40{") {
        return None;
    }
    let start: usize;
    if chars_start_with(&t, "42") {
        proof {
            reveal_strlit("42");
        }
        start = 2;
    } else if chars_start_with(&t, "2[") {
        proof {
            reveal_strlit("2[");
        }
        start = 1;
    } else {
        return None;
    }
    let part = chars_from(&t, start);
    let part_text = string_from_chars(part.as_slice());
    match parse_json(part_text.as_str()) {
        Some(v) => event_from_json(&v),
        None => None,
    }
}

/// Formats a Socket.IO event frame: `42` followed by the JSON array
/// `[event, data]`.
pub fn format_socketio_message(event: &str, data: JsonValue) -> (r: String)
    ensures
        r@ == event_frame(event@, data@),
{
    let ghost d = data@;
    let arr = json_pair(json_string(event.to_owned()), data);
    let body = write_json(arr);
    let r = "42".to_owned().concat(body.as_str());
    r
}

/// An object with one string member.
fn object1(k: &str, v: &String) -> (r: JsonValue)
    ensures
        r@ == Json::Object(seq![(k@, Json::Str(v@))]),
{
    let mut names: Vec<String> = Vec::new();
    names.push(k.to_owned());
    let mut values: Vec<String> = Vec::new();
    values.push(v.clone());
    let r = json_string_object(names, values);
    assert(r@->Object_0 =~= seq![(k@, Json::Str(v@))]);
    r
}

/// The text frame sent for a message: `42["register_device",{"deviceId":..}]`
/// and so on, and `3` (a Socket.IO pong) for `Pong`.
pub fn encode_message(msg: &WsMessage) -> (r: String)
    ensures
        r@ == message_text(msg@),
{
    match msg {
        WsMessage::RegisterDevice { device_id } => format_socketio_message(
            "register_device",
            object1("deviceId", device_id),
        ),
        WsMessage::RegisterEndpoint { device_id, endpoint } => {
            let mut names: Vec<String> = Vec::new();
            names.push("deviceId".to_owned());
            names.push("endpoint".to_owned());
            let mut values: Vec<String> = Vec::new();
            values.push(device_id.clone());
            values.push(endpoint.clone());
            let data = json_string_object(names, values);
            assert(data@->Object_0 =~= seq![
                ("deviceId"@, Json::Str(device_id@)),
                ("endpoint"@, Json::Str(endpoint@)),
            ]);
            format_socketio_message("register_endpoint", data)
        },
        WsMessage::Subscribe { network_id } => format_socketio_message(
            "subscribe",
            object1("networkId", network_id),
        ),
        WsMessage::Unsubscribe { network_id } => format_socketio_message(
            "unsubscribe",
            object1("networkId", network_id),
        ),
        WsMessage::Pong => "3".to_owned(),
    }
}

} // verus!
