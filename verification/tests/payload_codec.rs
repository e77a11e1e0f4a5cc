//! Payload encoding and decoding: the registered schemas, the request id,
//! and the opaque fallback.

use castcore::app::parse_app_id;
use castcore::json::{json_to_bytes, parse_document, Json, JsonPair};
use castcore::namespace::{parse_urn, NamespaceUrn};
use castcore::namespace::connection::Connection;
use castcore::namespace::heartbeat::Heartbeat;
use castcore::namespace::receiver::Receiver;
use castcore::payload::{decode_payload, payload_to_json, Custom, Payload};
use castcore::shared::VolumeLevel;

fn doc(text: &str) -> Json {
    parse_document(text.as_bytes()).expect("well-formed JSON")
}

#[test]
fn encode_ping_with_request_id() {
    let j = payload_to_json(Payload::Heartbeat(Heartbeat::Ping), Some(1));
    assert_eq!(json_to_bytes(&j), b"{\"requestId\":1,\"type\":\"PING\"}".to_vec());
}

#[test]
fn encode_connect_without_request_id() {
    let j = payload_to_json(Payload::Connection(Connection::Connect), None);
    assert_eq!(json_to_bytes(&j), b"{\"type\":\"CONNECT\"}".to_vec());
}

#[test]
fn encode_launch_request() {
    let launch = Receiver::launch_request(parse_app_id("CC1AD845"));
    let j = payload_to_json(Payload::Receiver(launch), Some(7));
    assert_eq!(
        json_to_bytes(&j),
        b"{\"requestId\":7,\"type\":\"LAUNCH\",\"appId\":\"CC1AD845\"}".to_vec()
    );
}

#[test]
fn encode_set_volume_request() {
    let req = Receiver::set_volume_request(350, true);
    let j = payload_to_json(Payload::Receiver(req), Some(2));
    assert_eq!(
        json_to_bytes(&j),
        b"{\"requestId\":2,\"type\":\"SET_VOLUME\",\"volume\":{\"muted\":true,\"level\":0.350}}"
            .to_vec()
    );
}

#[test]
fn volume_level_tokens() {
    assert_eq!(VolumeLevel::from_millis(350).token, b"0.350".to_vec());
    assert_eq!(VolumeLevel::from_millis(1000).token, b"1.000".to_vec());
    assert_eq!(VolumeLevel::from_millis(0).token, b"0.000".to_vec());
    assert_eq!(VolumeLevel::from_millis(12345).token, b"12.345".to_vec());
}

#[test]
fn encode_stop_request() {
    let stop = Receiver::stop_request("session-9".to_string());
    let j = payload_to_json(Payload::Receiver(stop), Some(3));
    assert_eq!(
        json_to_bytes(&j),
        b"{\"requestId\":3,\"type\":\"STOP\",\"sessionId\":\"session-9\"}".to_vec()
    );
}

#[test]
fn decode_pong() {
    let ns = NamespaceUrn::Heartbeat;
    let (p, rid) = decode_payload(&ns, doc("{\"type\":\"PONG\"}")).expect("decode");
    assert!(matches!(p, Payload::Heartbeat(Heartbeat::Pong)));
    assert_eq!(rid, None);
}

#[test]
fn decode_request_id_zero_and_nonzero() {
    let ns = NamespaceUrn::Heartbeat;
    let (_, rid) = decode_payload(&ns, doc("{\"requestId\":0,\"type\":\"PING\"}")).expect("decode");
    assert_eq!(rid, Some(0));
    let (_, rid) = decode_payload(&ns, doc("{\"requestId\":31,\"type\":\"PING\"}")).expect("decode");
    assert_eq!(rid, Some(31));
}

#[test]
fn decode_rejects_malformed_request_id() {
    let ns = NamespaceUrn::Heartbeat;
    assert!(decode_payload(&ns, doc("{\"requestId\":\"x\",\"type\":\"PING\"}")).is_err());
    assert!(decode_payload(&ns, doc("{\"requestId\":4294967296,\"type\":\"PING\"}")).is_err());
    assert!(decode_payload(&ns, doc("[1,2]")).is_err());
}

#[test]
fn decode_launch_error() {
    let ns = NamespaceUrn::Receiver;
    let (p, rid) = decode_payload(
        &ns,
        doc("{\"requestId\":4,\"type\":\"LAUNCH_ERROR\",\"reason\":\"NOT_FOUND\"}"),
    )
    .expect("decode");
    assert_eq!(rid, Some(4));
    match p {
        Payload::Receiver(Receiver::LaunchError(le)) => assert_eq!(le.reason, "NOT_FOUND"),
        _ => panic!("expected a launch error"),
    }
}

#[test]
fn decode_receiver_status_with_application() {
    let ns = NamespaceUrn::Receiver;
    let text = "{\"requestId\":5,\"type\":\"RECEIVER_STATUS\",\"status\":{\
        \"applications\":[{\"appId\":\"CC1AD845\",\"appType\":\"WEB\",\
        \"displayName\":\"Default Media Receiver\",\"iconUrl\":\"\",\
        \"isIdleScreen\":false,\"launchedFromCloud\":false,\
        \"namespaces\":[{\"name\":\"urn:x-cast:com.google.cast.media\"}],\
        \"sessionId\":\"s1\",\"statusText\":\"Ready\",\"transportId\":\"t1\",\
        \"universalAppId\":\"CC1AD845\"}],\
        \"volume\":{\"controlType\":\"attenuation\",\"muted\":false,\"level\":1.0}}}";
    let (p, rid) = decode_payload(&ns, doc(text)).expect("decode");
    assert_eq!(rid, Some(5));
    match p {
        Payload::Receiver(Receiver::ReceiverStatus(rs)) => {
            let apps = rs.status.applications.expect("applications");
            assert_eq!(apps.len(), 1);
            assert_eq!(apps[0].transport_id, "t1");
            assert_eq!(apps[0].session_id, "s1");
            assert!(matches!(apps[0].namespaces[0], NamespaceUrn::Media));
            let vol = rs.status.volume;
            assert_eq!(vol.muted, Some(false));
            assert_eq!(vol.level.expect("level").token, b"1.0".to_vec());
        },
        _ => panic!("expected a receiver status"),
    }
}

#[test]
fn decode_ignores_unknown_fields_on_known_types() {
    let ns = NamespaceUrn::Heartbeat;
    let (p, _) = decode_payload(&ns, doc("{\"type\":\"PING\",\"extra\":[1,2]}")).expect("decode");
    assert!(matches!(p, Payload::Heartbeat(Heartbeat::Ping)));
}

#[test]
fn fallback_decode_keeps_namespace_and_fields() {
    // The media namespace has no registered schema in the core; its messages
    // decode into the opaque fallback with every field kept.
    let ns = parse_urn("urn:x-cast:com.google.cast.media");
    let (p, rid) = decode_payload(
        &ns,
        doc("{\"requestId\":9,\"type\":\"MEDIA_STATUS\",\"status\":[{\"mediaSessionId\":1}]}"),
    )
    .expect("fallback never fails");
    assert_eq!(rid, Some(9));
    match p {
        Payload::Custom(c) => {
            assert!(matches!(c.namespace, NamespaceUrn::Media));
            assert_eq!(c.fields.len(), 2);
            assert_eq!(c.fields[0].key, "type");
            assert!(matches!(&c.fields[0].value, Json::Str(s) if s == "MEDIA_STATUS"));
            assert_eq!(c.fields[1].key, "status");
        },
        _ => panic!("expected the fallback"),
    }
}

#[test]
fn fallback_decode_unknown_urn() {
    let ns = parse_urn("urn:x-cast:com.example.custom");
    assert!(matches!(&ns, NamespaceUrn::Custom(s) if s == "urn:x-cast:com.example.custom"));
    let (p, rid) = decode_payload(&ns, doc("{\"hello\":\"world\"}")).expect("fallback");
    assert_eq!(rid, None);
    match p {
        Payload::Custom(c) => {
            assert!(matches!(&c.namespace, NamespaceUrn::Custom(s)
                if s == "urn:x-cast:com.example.custom"));
            assert_eq!(c.fields.len(), 1);
            assert_eq!(c.fields[0].key, "hello");
        },
        _ => panic!("expected the fallback"),
    }
}

#[test]
fn fallback_unrecognized_shape_on_registered_namespace() {
    let ns = NamespaceUrn::Heartbeat;
    let (p, _) = decode_payload(&ns, doc("{\"type\":\"WEIRD\"}")).expect("fallback");
    assert!(matches!(p, Payload::Custom(_)));
}

#[test]
fn custom_payload_reencodes_fields_verbatim() {
    let fields = vec![
        JsonPair { key: "type".to_string(), value: Json::Str("PLAY".to_string()) },
        JsonPair { key: "mediaSessionId".to_string(), value: Json::Num(b"3".to_vec()) },
    ];
    let p = Payload::Custom(Custom { namespace: NamespaceUrn::Media, fields });
    let j = payload_to_json(p, Some(11));
    assert_eq!(
        json_to_bytes(&j),
        b"{\"requestId\":11,\"type\":\"PLAY\",\"mediaSessionId\":3}".to_vec()
    );
}

#[test]
fn payload_namespace_routing() {
    assert!(matches!(
        Payload::Heartbeat(Heartbeat::Ping).namespace(),
        NamespaceUrn::Heartbeat
    ));
    assert!(matches!(
        Payload::Connection(Connection::Close).namespace(),
        NamespaceUrn::Connection
    ));
    let c = Payload::Custom(Custom {
        namespace: NamespaceUrn::Custom("urn:x-cast:z".to_string()),
        fields: Vec::new(),
    });
    assert!(matches!(c.namespace(), NamespaceUrn::Custom(s) if s == "urn:x-cast:z"));
}

#[test]
fn payload_from_conversions() {
    let p: Payload = Heartbeat::Ping.into();
    assert!(matches!(p, Payload::Heartbeat(Heartbeat::Ping)));
    let p: Payload = Connection::Close.into();
    assert!(matches!(p, Payload::Connection(Connection::Close)));
    let p: Payload = Receiver::GetStatus.into();
    assert!(matches!(p, Payload::Receiver(Receiver::GetStatus)));
}
