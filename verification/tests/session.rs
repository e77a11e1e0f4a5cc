//! The session state machine: permissions, request ids, correlation and the
//! end-to-end message paths.

use castcore::app::{parse_app_id, App, AppId};
use castcore::client::{build_message, interpret_message};
use castcore::envelope::{decode_envelope, unframe, Envelope};
use castcore::error::Error;
use castcore::namespace::NamespaceUrn;
use castcore::namespace::connection::Connection;
use castcore::namespace::heartbeat::Heartbeat;
use castcore::namespace::receiver::Receiver as ReceiverPayload;
use castcore::payload::Payload;
use castcore::receiver::{match_launched_app, status_in, Receiver};

/// An endpoint that permits only the heartbeat namespace.
fn heartbeat_only_app() -> App {
    let mut app = App::receiver();
    app.namespaces = vec![NamespaceUrn::Heartbeat];
    app.transport_id = "t9".to_string();
    app
}

fn inbound(namespace: &str, payload: &str) -> Envelope {
    Envelope {
        protocol_version: 0,
        source_id: "receiver-0".to_string(),
        destination_id: "sender-0".to_string(),
        namespace: namespace.to_string(),
        payload: payload.to_string(),
    }
}

#[test]
fn permission_denied_without_namespace() {
    let mut session: Receiver<u32> = Receiver::new();
    session.on_connected();
    let app = heartbeat_only_app();
    // A receiver-control message is not permitted on this endpoint.
    let r = session.prepare_send(&app, Payload::Receiver(ReceiverPayload::GetStatus));
    assert!(matches!(r, Err(Error::UnsupportedNamespace)));
}

#[test]
fn connection_namespace_always_permitted() {
    let mut session: Receiver<u32> = Receiver::new();
    session.on_connected();
    let app = heartbeat_only_app();
    let r = session.prepare_send(&app, Payload::Connection(Connection::Connect));
    assert!(r.is_ok());
}

#[test]
fn no_connection_error_when_disconnected() {
    let session: Receiver<u32> = Receiver::new();
    let platform = App::receiver();
    let r = session.prepare_send(&platform, Payload::Heartbeat(Heartbeat::Ping));
    assert!(matches!(r, Err(Error::NoConnection)));
}

#[test]
fn request_ids_monotone_and_distinct() {
    let mut session: Receiver<u32> = Receiver::new();
    session.on_connected();
    let platform = App::receiver();
    let mut ids = Vec::new();
    for k in 0..8u32 {
        let (id, _) = session
            .begin_request(&platform, Payload::Receiver(ReceiverPayload::GetStatus), k)
            .expect("request");
        ids.push(id);
    }
    for (k, id) in ids.iter().enumerate() {
        assert_eq!(*id, (k as u32) + 1);
    }
    for j in 0..ids.len() {
        for k in 0..ids.len() {
            if j != k {
                assert_ne!(ids[j], ids[k]);
            }
        }
    }
}

#[test]
fn counter_resets_on_disconnect() {
    let mut session: Receiver<u32> = Receiver::new();
    session.on_connected();
    let platform = App::receiver();
    let (id, _) = session
        .begin_request(&platform, Payload::Heartbeat(Heartbeat::Ping), 0)
        .expect("request");
    assert_eq!(id, 1);
    session.on_disconnected();
    assert!(!session.is_connected());
    session.on_connected();
    let (id, _) = session
        .begin_request(&platform, Payload::Heartbeat(Heartbeat::Ping), 0)
        .expect("request");
    assert_eq!(id, 1);
}

#[test]
fn at_most_once_delivery() {
    let mut session: Receiver<&str> = Receiver::new();
    session.on_connected();
    let platform = App::receiver();
    let (id, _) = session
        .begin_request(&platform, Payload::Receiver(ReceiverPayload::GetStatus), "waiter")
        .expect("request");
    let env = inbound(
        "urn:x-cast:com.google.cast.receiver",
        &format!("{{\"requestId\":{},\"type\":\"WEIRD\"}}", id),
    );
    let resp = interpret_message(env).expect("interpret");
    let (delivered, ping) = session.process_response(&resp);
    assert_eq!(delivered, Some("waiter"));
    assert!(!ping);
    // A duplicate of the same response is discarded.
    let env = inbound(
        "urn:x-cast:com.google.cast.receiver",
        &format!("{{\"requestId\":{},\"type\":\"WEIRD\"}}", id),
    );
    let resp = interpret_message(env).expect("interpret");
    let (delivered, _) = session.process_response(&resp);
    assert_eq!(delivered, None);
}

#[test]
fn timeout_leaves_no_entry() {
    let mut session: Receiver<u32> = Receiver::new();
    session.on_connected();
    let platform = App::receiver();
    let (id, _) = session
        .begin_request(&platform, Payload::Receiver(ReceiverPayload::GetStatus), 77)
        .expect("request");
    // The caller's timeout fires: it abandons its own entry.
    session.abandon_request(id);
    // A late response finds nothing.
    let env = inbound(
        "urn:x-cast:com.google.cast.receiver",
        &format!("{{\"requestId\":{},\"type\":\"GET_STATUS\"}}", id),
    );
    let resp = interpret_message(env).expect("interpret");
    let (delivered, _) = session.process_response(&resp);
    assert_eq!(delivered, None);
}

#[test]
fn zero_request_id_is_unsolicited() {
    let mut session: Receiver<u32> = Receiver::new();
    session.on_connected();
    let env = inbound(
        "urn:x-cast:com.google.cast.tp.heartbeat",
        "{\"requestId\":0,\"type\":\"PING\"}",
    );
    let resp = interpret_message(env).expect("interpret");
    let (delivered, ping) = session.process_response(&resp);
    assert_eq!(delivered, None);
    assert!(ping);
}

#[test]
fn connect_and_heartbeat_scenario() {
    // Connect: open the virtual channel, ping, receive the synchronous pong.
    let mut session: Receiver<u32> = Receiver::new();
    session.on_connected();
    assert!(session.is_connected());
    let platform = session.platform.duplicate();
    let connect_frame = session
        .prepare_send(&platform, Payload::Connection(Connection::Connect))
        .expect("connect frame");
    let (body, _) = unframe(&connect_frame).expect("frame");
    let env = decode_envelope(&body).expect("envelope");
    assert_eq!(env.source_id, "sender-0");
    assert_eq!(env.destination_id, "receiver-0");
    assert_eq!(env.namespace, "urn:x-cast:com.google.cast.tp.connection");
    assert_eq!(env.payload, "{\"type\":\"CONNECT\"}");

    let ping_frame = session
        .prepare_send(&platform, Payload::Heartbeat(Heartbeat::Ping))
        .expect("ping frame");
    let (body, _) = unframe(&ping_frame).expect("frame");
    let env = decode_envelope(&body).expect("envelope");
    assert_eq!(env.payload, "{\"type\":\"PING\"}");

    // The receiver answers with a pong, outside request correlation.
    let pong = inbound("urn:x-cast:com.google.cast.tp.heartbeat", "{\"type\":\"PONG\"}");
    let resp = interpret_message(pong).expect("interpret");
    assert_eq!(resp.request_id, None);
    assert!(matches!(resp.payload, Payload::Heartbeat(Heartbeat::Pong)));
    let (delivered, ping) = session.process_response(&resp);
    assert_eq!(delivered, None);
    assert!(!ping);
    assert!(session.is_connected());
}

#[test]
fn launch_application_scenario() {
    let mut session: Receiver<u32> = Receiver::new();
    session.on_connected();
    let platform = session.platform.duplicate();
    let app_id = parse_app_id("CC1AD845");
    assert!(matches!(app_id, AppId::DefaultMediaReceiver));

    // The launch request carries the application id and a fresh request id.
    let (id, frame) = session
        .begin_request(
            &platform,
            Payload::Receiver(ReceiverPayload::launch_request(app_id.duplicate())),
            0,
        )
        .expect("launch");
    let (body, _) = unframe(&frame).expect("frame");
    let env = decode_envelope(&body).expect("envelope");
    assert_eq!(env.namespace, "urn:x-cast:com.google.cast.receiver");
    assert_eq!(
        env.payload,
        format!("{{\"requestId\":{},\"type\":\"LAUNCH\",\"appId\":\"CC1AD845\"}}", id)
    );

    // The receiver reports the application running.
    let status = inbound(
        "urn:x-cast:com.google.cast.receiver",
        &format!(
            "{{\"requestId\":{},\"type\":\"RECEIVER_STATUS\",\"status\":{{\
             \"applications\":[{{\"appId\":\"CC1AD845\",\"appType\":\"WEB\",\
             \"displayName\":\"Default Media Receiver\",\"iconUrl\":\"\",\
             \"isIdleScreen\":false,\"launchedFromCloud\":false,\
             \"namespaces\":[{{\"name\":\"urn:x-cast:com.google.cast.media\"}}],\
             \"sessionId\":\"s1\",\"statusText\":\"Ready\",\"transportId\":\"t1\",\
             \"universalAppId\":\"CC1AD845\"}}],\
             \"volume\":{{\"muted\":false,\"level\":1.0}}}}}}",
            id
        ),
    );
    let resp = interpret_message(status).expect("interpret");
    let (delivered, _) = session.process_response(&resp);
    assert_eq!(delivered, Some(0));
    let app = match_launched_app(&resp.payload, &app_id).expect("application");
    assert_eq!(app.transport_id, "t1");
    assert_eq!(app.session_id, "s1");

    // The new endpoint's own virtual channel opens with a connect message.
    let connect = session
        .prepare_send(&app, Payload::Connection(Connection::Connect))
        .expect("connect frame");
    let (body, _) = unframe(&connect).expect("frame");
    let env = decode_envelope(&body).expect("envelope");
    assert_eq!(env.destination_id, "t1");
    assert_eq!(env.payload, "{\"type\":\"CONNECT\"}");
}

#[test]
fn launch_error_scenario() {
    let mut session: Receiver<u32> = Receiver::new();
    session.on_connected();
    let platform = session.platform.duplicate();
    let app_id = parse_app_id("CC1AD845");
    let (id, _) = session
        .begin_request(
            &platform,
            Payload::Receiver(ReceiverPayload::launch_request(app_id.duplicate())),
            0,
        )
        .expect("launch");
    let err = inbound(
        "urn:x-cast:com.google.cast.receiver",
        &format!(
            "{{\"requestId\":{},\"type\":\"LAUNCH_ERROR\",\"reason\":\"CANCELLED\"}}",
            id
        ),
    );
    let resp = interpret_message(err).expect("interpret");
    let (delivered, _) = session.process_response(&resp);
    assert_eq!(delivered, Some(0));
    match match_launched_app(&resp.payload, &app_id) {
        Err(Error::LaunchError(reason)) => assert_eq!(reason, "CANCELLED"),
        _ => panic!("expected the launch error"),
    }
}

#[test]
fn status_requires_receiver_status_reply() {
    let pong = Payload::Heartbeat(Heartbeat::Pong);
    assert!(matches!(status_in(&pong), Err(Error::NoResponse)));
}

#[test]
fn full_wire_roundtrip() {
    // A message built by the sender decodes back to the same payload.
    let frame = build_message("receiver-0", Payload::Heartbeat(Heartbeat::Ping), Some(12))
        .expect("build");
    let (body, used) = unframe(&frame).expect("frame");
    assert_eq!(used, frame.len());
    let env = decode_envelope(&body).expect("envelope");
    let resp = interpret_message(env).expect("interpret");
    assert_eq!(resp.request_id, Some(12));
    assert!(matches!(resp.payload, Payload::Heartbeat(Heartbeat::Ping)));
    assert!(matches!(resp.namespace, NamespaceUrn::Heartbeat));
}
