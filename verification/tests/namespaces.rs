//! Namespace URNs and application identifiers.

use castcore::app::{parse_app_id, AppId};
use castcore::namespace::{parse_urn, str_eq, NamespaceUrn};

#[test]
fn known_urns_parse() {
    assert!(matches!(
        parse_urn("urn:x-cast:com.google.cast.tp.connection"),
        NamespaceUrn::Connection
    ));
    assert!(matches!(
        parse_urn("urn:x-cast:com.google.cast.tp.heartbeat"),
        NamespaceUrn::Heartbeat
    ));
    assert!(matches!(parse_urn("urn:x-cast:com.google.cast.receiver"), NamespaceUrn::Receiver));
    assert!(matches!(parse_urn("urn:x-cast:com.google.cast.media"), NamespaceUrn::Media));
    assert!(matches!(
        parse_urn("urn:x-cast:com.google.cast.multizone"),
        NamespaceUrn::Multizone
    ));
    assert!(matches!(
        parse_urn("urn:x-cast:com.google.cast.tp.deviceauth"),
        NamespaceUrn::DeviceAuth
    ));
}

#[test]
fn unknown_urn_is_kept_verbatim() {
    let ns = parse_urn("urn:x-cast:com.example.anything");
    assert!(matches!(&ns, NamespaceUrn::Custom(s) if s == "urn:x-cast:com.example.anything"));
    assert_eq!(ns.urn_text(), "urn:x-cast:com.example.anything");
}

#[test]
fn urn_text_roundtrip() {
    let urns = [
        "urn:x-cast:com.google.cast.cac",
        "urn:x-cast:com.google.cast.tp.connection",
        "urn:x-cast:com.google.cast.debugoverlay",
        "urn:x-cast:com.google.cast.tp.deviceauth",
        "urn:x-cast:com.google.cast.tp.heartbeat",
        "urn:x-cast:com.google.cast.media",
        "urn:x-cast:com.google.cast.multizone",
        "urn:x-cast:com.google.cast.receiver",
        "urn:x-cast:com.google.cast.remotecontrol",
        "urn:x-cast:com.google.cast.sse",
        "urn:x-cast:org.example.other",
    ];
    for u in urns {
        let ns = parse_urn(u);
        assert_eq!(ns.urn_text(), *u);
        assert!(ns.same_as(&parse_urn(u)));
    }
}

#[test]
fn distinct_namespaces_differ() {
    assert!(!parse_urn("urn:x-cast:com.google.cast.tp.connection")
        .same_as(&parse_urn("urn:x-cast:com.google.cast.tp.deviceauth")));
}

#[test]
fn string_comparison() {
    assert!(str_eq("abc", "abc"));
    assert!(!str_eq("abc", "abd"));
    assert!(!str_eq("abc", "abcd"));
    assert!(str_eq("", ""));
    assert!(str_eq("héllo", "héllo"));
}

#[test]
fn app_ids_parse_and_print() {
    assert!(matches!(parse_app_id("CC1AD845"), AppId::DefaultMediaReceiver));
    assert!(matches!(parse_app_id("E8C28D3C"), AppId::Backdrop));
    assert!(matches!(parse_app_id("233637DE"), AppId::YouTube));
    assert!(matches!(parse_app_id("ABCD1234"), AppId::Custom(s) if s == "ABCD1234"));
    assert_eq!(parse_app_id("CC1AD845").id_text(), "CC1AD845");
    assert_eq!(parse_app_id("ABCD1234").id_text(), "ABCD1234");
    assert!(parse_app_id("233637DE").same_as(&AppId::YouTube));
}
