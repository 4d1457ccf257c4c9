use ple7_vpn::json::{parse_json, write_json, JsonMember, JsonValue};
use ple7_vpn::{encode_message, event_from_json, format_socketio_message, parse_socketio_message, WsEvent, WsMessage};

fn s(x: &str) -> String {
    x.to_string()
}

#[test]
fn parses_peer_endpoint_update() {
    let text = r#"42["peer_endpoint_update",{"deviceId":"dev-1","publicKey":"pk-abc","endpoint":"203.0.113.5:51820"}]"#;
    assert_eq!(
        parse_socketio_message(text),
        Some(WsEvent::PeerEndpointUpdate {
            device_id: s("dev-1"),
            public_key: s("pk-abc"),
            endpoint: s("203.0.113.5:51820"),
        })
    );
}

#[test]
fn parses_plain_event_frame() {
    let text = r#"2["peer_offline",{"deviceId":"dev-9"}]"#;
    assert_eq!(parse_socketio_message(text), Some(WsEvent::PeerOffline { device_id: s("dev-9") }));
}

#[test]
fn peer_online_without_public_key_gets_empty_key() {
    let text = r#"42["peer_online",{"deviceId":"d"}]"#;
    assert_eq!(
        parse_socketio_message(text),
        Some(WsEvent::PeerOnline { device_id: s("d"), public_key: s("") })
    );
    let text = r#"42["peer_online",{"deviceId":"d","publicKey":7}]"#;
    assert_eq!(
        parse_socketio_message(text),
        Some(WsEvent::PeerOnline { device_id: s("d"), public_key: s("") })
    );
    let text = r#"42["peer_online",{"deviceId":"d","publicKey":"k"}]"#;
    assert_eq!(
        parse_socketio_message(text),
        Some(WsEvent::PeerOnline { device_id: s("d"), public_key: s("k") })
    );
}

#[test]
fn connect_acknowledgements_carry_no_event() {
    assert_eq!(parse_socketio_message("40"), None);
    assert_eq!(parse_socketio_message(r#"40{"sid":"abc"}"#), None);
    assert_eq!(parse_socketio_message(r#"0{"sid":"abc","upgrades":[]}"#), None);
    assert_eq!(parse_socketio_message("  40  "), None);
}

#[test]
fn surrounding_white_space_is_ignored() {
    let inner = r#"42["peer_offline",{"deviceId":"x"}]"#;
    let padded = format!(" \t\n{}\r\n\u{3000}", inner);
    assert_eq!(parse_socketio_message(&padded), parse_socketio_message(inner));
    assert_eq!(parse_socketio_message(&padded), Some(WsEvent::PeerOffline { device_id: s("x") }));
}

#[test]
fn other_frames_carry_no_event() {
    assert_eq!(parse_socketio_message("3"), None);
    assert_eq!(parse_socketio_message("2"), None);
    assert_eq!(parse_socketio_message(""), None);
    assert_eq!(parse_socketio_message("41"), None);
    assert_eq!(parse_socketio_message(r#"43["peer_offline",{"deviceId":"x"}]"#), None);
    assert_eq!(parse_socketio_message(r#"["peer_offline",{"deviceId":"x"}]"#), None);
}

#[test]
fn bad_json_and_unknown_events_carry_no_event() {
    assert_eq!(parse_socketio_message(r#"42["peer_offline",{"deviceId":"x"}"#), None);
    assert_eq!(parse_socketio_message(r#"42{"deviceId":"x"}"#), None);
    assert_eq!(parse_socketio_message(r#"42["peer_offline"]"#), None);
    assert_eq!(parse_socketio_message(r#"42["network_config_update",{"networkId":"n"}]"#), None);
    assert_eq!(parse_socketio_message(r#"42[5,{"deviceId":"x"}]"#), None);
    assert_eq!(parse_socketio_message(r#"42["peer_offline",{"device":"x"}]"#), None);
    assert_eq!(parse_socketio_message(r#"42["peer_offline",["deviceId","x"]]"#), None);
    assert_eq!(
        parse_socketio_message(r#"42["peer_endpoint_update",{"deviceId":"d","publicKey":"k"}]"#),
        None
    );
}

#[test]
fn extra_array_items_are_ignored() {
    let text = r#"42["peer_offline",{"deviceId":"x"},"more"]"#;
    assert_eq!(parse_socketio_message(text), Some(WsEvent::PeerOffline { device_id: s("x") }));
}

#[test]
fn a_repeated_member_name_takes_the_last_value() {
    let text = r#"42["peer_offline",{"deviceId":"first","deviceId":"second"}]"#;
    assert_eq!(parse_socketio_message(text), Some(WsEvent::PeerOffline { device_id: s("second") }));
}

#[test]
fn event_from_json_reads_a_built_value() {
    let data = JsonValue::Object(vec![JsonMember { name: s("deviceId"), value: JsonValue::Str(s("z")) }]);
    let v = JsonValue::Array(vec![JsonValue::Str(s("peer_offline")), data]);
    assert_eq!(event_from_json(&v), Some(WsEvent::PeerOffline { device_id: s("z") }));
    assert_eq!(event_from_json(&JsonValue::Null), None);
    assert_eq!(event_from_json(&JsonValue::Array(vec![JsonValue::Str(s("peer_offline"))])), None);
}

#[test]
fn parse_json_reads_the_text() {
    match parse_json(r#"{"a":[1,true,null,"x"]}"#) {
        Some(JsonValue::Object(members)) => {
            assert_eq!(members.len(), 1);
            assert_eq!(members[0].name, "a");
            match &members[0].value {
                JsonValue::Array(items) => {
                    assert_eq!(items.len(), 4);
                    assert!(matches!(items[1], JsonValue::Bool(true)));
                    assert!(matches!(items[2], JsonValue::Null));
                    assert!(matches!(&items[3], JsonValue::Str(t) if t == "x"));
                }
                _ => panic!("expected an array"),
            }
        }
        _ => panic!("expected an object"),
    }
    assert!(parse_json("not json").is_none());
}

#[test]
fn write_json_prints_the_value() {
    let v = JsonValue::Array(vec![JsonValue::Bool(false), JsonValue::Number(serde_json::Number::from(12)), JsonValue::Str(s("q\"t"))]);
    assert_eq!(write_json(v), r#"[false,12,"q\"t"]"#);
}

#[test]
fn formats_event_frames() {
    assert_eq!(format_socketio_message("ping_me", JsonValue::Null), r#"42["ping_me",null]"#);
    let data = JsonValue::Object(vec![JsonMember { name: s("k"), value: JsonValue::Number(serde_json::Number::from(3)) }]);
    assert_eq!(format_socketio_message("e", data), r#"42["e",{"k":3}]"#);
}

#[test]
fn encodes_every_message() {
    assert_eq!(
        encode_message(&WsMessage::RegisterDevice { device_id: s("dev") }),
        r#"42["register_device",{"deviceId":"dev"}]"#
    );
    assert_eq!(
        encode_message(&WsMessage::RegisterEndpoint { device_id: s("dev"), endpoint: s("198.51.100.2:4000") }),
        r#"42["register_endpoint",{"deviceId":"dev","endpoint":"198.51.100.2:4000"}]"#
    );
    assert_eq!(
        encode_message(&WsMessage::Subscribe { network_id: s("net-1") }),
        r#"42["subscribe",{"networkId":"net-1"}]"#
    );
    assert_eq!(
        encode_message(&WsMessage::Unsubscribe { network_id: s("net-1") }),
        r#"42["unsubscribe",{"networkId":"net-1"}]"#
    );
    assert_eq!(encode_message(&WsMessage::Pong), "3");
}

#[test]
fn encoded_frames_begin_with_42_except_pong() {
    let msgs = vec![
        WsMessage::RegisterDevice { device_id: s("a\"b") },
        WsMessage::RegisterEndpoint { device_id: s(""), endpoint: s("") },
        WsMessage::Subscribe { network_id: s("é") },
        WsMessage::Unsubscribe { network_id: s("x") },
    ];
    for m in msgs.iter() {
        assert!(encode_message(m).starts_with("42["));
        assert_eq!(parse_socketio_message(&encode_message(m)), None);
    }
    assert_eq!(encode_message(&WsMessage::RegisterDevice { device_id: s("a\"b") }), r#"42["register_device",{"deviceId":"a\"b"}]"#);
}

#[test]
fn formatted_event_frames_decode_back() {
    for (d, k, e) in [("dev", "pk", "1.2.3.4:5"), ("q\"uote", "back\\slash", ""), ("ünï", "\u{1F600}", "[::1]:7")] {
        let data = JsonValue::Object(vec![
            JsonMember { name: s("deviceId"), value: JsonValue::Str(s(d)) },
            JsonMember { name: s("publicKey"), value: JsonValue::Str(s(k)) },
            JsonMember { name: s("endpoint"), value: JsonValue::Str(s(e)) },
        ]);
        let frame = format_socketio_message("peer_endpoint_update", data);
        assert_eq!(
            parse_socketio_message(&frame),
            Some(WsEvent::PeerEndpointUpdate { device_id: s(d), public_key: s(k), endpoint: s(e) })
        );
        let data = JsonValue::Object(vec![JsonMember { name: s("deviceId"), value: JsonValue::Str(s(d)) }]);
        let frame = format_socketio_message("peer_offline", data);
        assert_eq!(parse_socketio_message(&frame), Some(WsEvent::PeerOffline { device_id: s(d) }));
    }
}
