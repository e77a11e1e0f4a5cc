//! Namespace URNs: the logical channel a message belongs to.
//!
//! A namespace is carried on the wire as a reverse-DNS-style string. The
//! known channels are enumerated; any other string is kept verbatim in the
//! `Custom` case and round-trips unchanged.

use vstd::prelude::*;
use vstd::string::{StrSliceExecFns, StringExecFns, StringSliceAdditionalSpecFns};
use vstd::utf8::encode_utf8;

pub mod connection;
pub mod heartbeat;
pub mod media;
pub mod multizone;
pub mod receiver;

verus! {

/// A namespace URN: one of the known channels, or any other URN verbatim.
#[derive(Clone, Debug)]
pub enum NamespaceUrn {
    Cac,
    Connection,
    Custom(String),
    DebugOverlay,
    DeviceAuth,
    Heartbeat,
    Media,
    Multizone,
    Receiver,
    RemoteControl,
    Sse,
}

/// Mathematical image of a [`NamespaceUrn`]: the custom case as characters.
pub enum UrnModel {
    Cac,
    Connection,
    Custom(Seq<char>),
    DebugOverlay,
    DeviceAuth,
    Heartbeat,
    Media,
    Multizone,
    Receiver,
    RemoteControl,
    Sse,
}

impl View for NamespaceUrn {
    type V = UrnModel;

    open spec fn view(&self) -> UrnModel {
        match self {
            NamespaceUrn::Cac => UrnModel::Cac,
            NamespaceUrn::Connection => UrnModel::Connection,
            NamespaceUrn::Custom(s) => UrnModel::Custom(s@),
            NamespaceUrn::DebugOverlay => UrnModel::DebugOverlay,
            NamespaceUrn::DeviceAuth => UrnModel::DeviceAuth,
            NamespaceUrn::Heartbeat => UrnModel::Heartbeat,
            NamespaceUrn::Media => UrnModel::Media,
            NamespaceUrn::Multizone => UrnModel::Multizone,
            NamespaceUrn::Receiver => UrnModel::Receiver,
            NamespaceUrn::RemoteControl => UrnModel::RemoteControl,
            NamespaceUrn::Sse => UrnModel::Sse,
        }
    }
}

pub open spec fn cac_urn() -> Seq<char> {
    "urn:x-cast:com.google.cast.cac"@
}

pub open spec fn connection_urn() -> Seq<char> {
    "urn:x-cast:com.google.cast.tp.connection"@
}

pub open spec fn debug_overlay_urn() -> Seq<char> {
    "urn:x-cast:com.google.cast.debugoverlay"@
}

pub open spec fn device_auth_urn() -> Seq<char> {
    "urn:x-cast:com.google.cast.tp.deviceauth"@
}

pub open spec fn heartbeat_urn() -> Seq<char> {
    "urn:x-cast:com.google.cast.tp.heartbeat"@
}

pub open spec fn media_urn() -> Seq<char> {
    "urn:x-cast:com.google.cast.media"@
}

pub open spec fn multizone_urn() -> Seq<char> {
    "urn:x-cast:com.google.cast.multizone"@
}

pub open spec fn receiver_urn() -> Seq<char> {
    "urn:x-cast:com.google.cast.receiver"@
}

pub open spec fn remote_control_urn() -> Seq<char> {
    "urn:x-cast:com.google.cast.remotecontrol"@
}

pub open spec fn sse_urn() -> Seq<char> {
    "urn:x-cast:com.google.cast.sse"@
}

/// The URN text of a namespace.
pub open spec fn spec_urn_text(m: UrnModel) -> Seq<char> {
    match m {
        UrnModel::Cac => cac_urn(),
        UrnModel::Connection => connection_urn(),
        UrnModel::Custom(s) => s,
        UrnModel::DebugOverlay => debug_overlay_urn(),
        UrnModel::DeviceAuth => device_auth_urn(),
        UrnModel::Heartbeat => heartbeat_urn(),
        UrnModel::Media => media_urn(),
        UrnModel::Multizone => multizone_urn(),
        UrnModel::Receiver => receiver_urn(),
        UrnModel::RemoteControl => remote_control_urn(),
        UrnModel::Sse => sse_urn(),
    }
}

/// True of the URN texts that denote a known (non-custom) namespace.
pub open spec fn is_known_urn(s: Seq<char>) -> bool {
    ||| s == cac_urn()
    ||| s == connection_urn()
    ||| s == debug_overlay_urn()
    ||| s == device_auth_urn()
    ||| s == heartbeat_urn()
    ||| s == media_urn()
    ||| s == multizone_urn()
    ||| s == receiver_urn()
    ||| s == remote_control_urn()
    ||| s == sse_urn()
}

/// The namespace a URN text denotes: a known channel, else custom verbatim.
pub open spec fn spec_parse_urn(s: Seq<char>) -> UrnModel {
    if s == cac_urn() {
        UrnModel::Cac
    } else if s == connection_urn() {
        UrnModel::Connection
    } else if s == debug_overlay_urn() {
        UrnModel::DebugOverlay
    } else if s == device_auth_urn() {
        UrnModel::DeviceAuth
    } else if s == heartbeat_urn() {
        UrnModel::Heartbeat
    } else if s == media_urn() {
        UrnModel::Media
    } else if s == multizone_urn() {
        UrnModel::Multizone
    } else if s == receiver_urn() {
        UrnModel::Receiver
    } else if s == remote_control_urn() {
        UrnModel::RemoteControl
    } else if s == sse_urn() {
        UrnModel::Sse
    } else {
        UrnModel::Custom(s)
    }
}

/// A well-formed namespace value never hides a known URN in the custom case;
/// parsing guarantees this, and it makes the text mapping injective.
pub open spec fn urn_wf(m: UrnModel) -> bool {
    m matches UrnModel::Custom(s) ==> !is_known_urn(s)
}

/// Compares two strings character for character.
pub fn str_eq(a: &str, b: &str) -> (r: bool)
    ensures
        r == (a@ == b@),
{
    broadcast use vstd::utf8::encode_utf8_decode_utf8, vstd::utf8::encode_utf8_valid_utf8;

    let ab = a.as_bytes();
    let bb = b.as_bytes();
    if ab.len() != bb.len() {
        return false;
    }
    let mut i: usize = 0;
    while i < ab.len()
        invariant
            i <= ab.len() == bb.len(),
            ab@ == a.spec_bytes(),
            bb@ == b.spec_bytes(),
            forall|j: int| 0 <= j < i ==> ab@[j] == bb@[j],
        decreases ab@.len() - i,
    {
        if ab[i] != bb[i] {
            return false;
        }
        i = i + 1;
    }
    proof {
        assert(a.spec_bytes() =~= b.spec_bytes());
        assert(decode_utf8_eq(a@, b@)) by {
            assert(vstd::utf8::decode_utf8(encode_utf8(a@)) == a@);
            assert(vstd::utf8::decode_utf8(encode_utf8(b@)) == b@);
        }
    }
    true
}

/// Helper naming the conclusion of UTF-8 injectivity.
spec fn decode_utf8_eq(a: Seq<char>, b: Seq<char>) -> bool {
    a == b
}

/// Parses a URN text into a namespace, exactly as [`spec_parse_urn`] does.
pub fn parse_urn(s: &str) -> (r: NamespaceUrn)
    ensures
        r@ == spec_parse_urn(s@),
        urn_wf(r@),
{
    if str_eq(s, "urn:x-cast:com.google.cast.cac") {
        NamespaceUrn::Cac
    } else if str_eq(s, "urn:x-cast:com.google.cast.tp.connection") {
        NamespaceUrn::Connection
    } else if str_eq(s, "urn:x-cast:com.google.cast.debugoverlay") {
        NamespaceUrn::DebugOverlay
    } else if str_eq(s, "urn:x-cast:com.google.cast.tp.deviceauth") {
        NamespaceUrn::DeviceAuth
    } else if str_eq(s, "urn:x-cast:com.google.cast.tp.heartbeat") {
        NamespaceUrn::Heartbeat
    } else if str_eq(s, "urn:x-cast:com.google.cast.media") {
        NamespaceUrn::Media
    } else if str_eq(s, "urn:x-cast:com.google.cast.multizone") {
        NamespaceUrn::Multizone
    } else if str_eq(s, "urn:x-cast:com.google.cast.receiver") {
        NamespaceUrn::Receiver
    } else if str_eq(s, "urn:x-cast:com.google.cast.remotecontrol") {
        NamespaceUrn::RemoteControl
    } else if str_eq(s, "urn:x-cast:com.google.cast.sse") {
        NamespaceUrn::Sse
    } else {
        NamespaceUrn::Custom(s.to_owned())
    }
}

impl NamespaceUrn {
    /// The URN text this namespace is written as on the wire.
    pub fn urn_text(&self) -> (r: String)
        ensures
            r@ == spec_urn_text(self@),
    {
        match self {
            NamespaceUrn::Cac => String::from_str("urn:x-cast:com.google.cast.cac"),
            NamespaceUrn::Connection => String::from_str(
                "urn:x-cast:com.google.cast.tp.connection",
            ),
            NamespaceUrn::Custom(s) => s.clone(),
            NamespaceUrn::DebugOverlay => String::from_str(
                "urn:x-cast:com.google.cast.debugoverlay",
            ),
            NamespaceUrn::DeviceAuth => String::from_str(
                "urn:x-cast:com.google.cast.tp.deviceauth",
            ),
            NamespaceUrn::Heartbeat => String::from_str("urn:x-cast:com.google.cast.tp.heartbeat"),
            NamespaceUrn::Media => String::from_str("urn:x-cast:com.google.cast.media"),
            NamespaceUrn::Multizone => String::from_str("urn:x-cast:com.google.cast.multizone"),
            NamespaceUrn::Receiver => String::from_str("urn:x-cast:com.google.cast.receiver"),
            NamespaceUrn::RemoteControl => String::from_str(
                "urn:x-cast:com.google.cast.remotecontrol",
            ),
            NamespaceUrn::Sse => String::from_str("urn:x-cast:com.google.cast.sse"),
        }
    }

    /// A copy of this namespace denoting the same URN.
    pub fn duplicate(&self) -> (r: NamespaceUrn)
        ensures
            r@ == self@,
    {
        match self {
            NamespaceUrn::Cac => NamespaceUrn::Cac,
            NamespaceUrn::Connection => NamespaceUrn::Connection,
            NamespaceUrn::Custom(s) => NamespaceUrn::Custom(s.clone()),
            NamespaceUrn::DebugOverlay => NamespaceUrn::DebugOverlay,
            NamespaceUrn::DeviceAuth => NamespaceUrn::DeviceAuth,
            NamespaceUrn::Heartbeat => NamespaceUrn::Heartbeat,
            NamespaceUrn::Media => NamespaceUrn::Media,
            NamespaceUrn::Multizone => NamespaceUrn::Multizone,
            NamespaceUrn::Receiver => NamespaceUrn::Receiver,
            NamespaceUrn::RemoteControl => NamespaceUrn::RemoteControl,
            NamespaceUrn::Sse => NamespaceUrn::Sse,
        }
    }

    /// Compares two namespaces; equal namespaces denote the same URN text.
    pub fn same_as(&self, other: &NamespaceUrn) -> (r: bool)
        ensures
            r == (self@ == other@),
    {
        match (self, other) {
            (NamespaceUrn::Cac, NamespaceUrn::Cac) => true,
            (NamespaceUrn::Connection, NamespaceUrn::Connection) => true,
            (NamespaceUrn::Custom(a), NamespaceUrn::Custom(b)) => str_eq(a.as_str(), b.as_str()),
            (NamespaceUrn::DebugOverlay, NamespaceUrn::DebugOverlay) => true,
            (NamespaceUrn::DeviceAuth, NamespaceUrn::DeviceAuth) => true,
            (NamespaceUrn::Heartbeat, NamespaceUrn::Heartbeat) => true,
            (NamespaceUrn::Media, NamespaceUrn::Media) => true,
            (NamespaceUrn::Multizone, NamespaceUrn::Multizone) => true,
            (NamespaceUrn::Receiver, NamespaceUrn::Receiver) => true,
            (NamespaceUrn::RemoteControl, NamespaceUrn::RemoteControl) => true,
            (NamespaceUrn::Sse, NamespaceUrn::Sse) => true,
            _ => false,
        }
    }
}

/// Lists each namespace's URN text and parsing it back: the two maps are
/// mutually inverse on well-formed namespaces.
#[verifier::rlimit(100)]
pub proof fn lemma_urn_roundtrip(m: UrnModel)
    requires
        urn_wf(m),
    ensures
        spec_parse_urn(spec_urn_text(m)) == m,
{
    broadcast use vstd::string::group_string_axioms;

    reveal_strlit("urn:x-cast:com.google.cast.cac");
    reveal_strlit("urn:x-cast:com.google.cast.tp.connection");
    reveal_strlit("urn:x-cast:com.google.cast.debugoverlay");
    reveal_strlit("urn:x-cast:com.google.cast.tp.deviceauth");
    reveal_strlit("urn:x-cast:com.google.cast.tp.heartbeat");
    reveal_strlit("urn:x-cast:com.google.cast.media");
    reveal_strlit("urn:x-cast:com.google.cast.multizone");
    reveal_strlit("urn:x-cast:com.google.cast.receiver");
    reveal_strlit("urn:x-cast:com.google.cast.remotecontrol");
    reveal_strlit("urn:x-cast:com.google.cast.sse");
    // Anchor each URN's length; URNs of equal length are told apart by one
    // character.
    assert(cac_urn().len() == 30);
    assert(connection_urn().len() == 40);
    assert(debug_overlay_urn().len() == 39);
    assert(device_auth_urn().len() == 40);
    assert(heartbeat_urn().len() == 39);
    assert(media_urn().len() == 32);
    assert(multizone_urn().len() == 36);
    assert(receiver_urn().len() == 35);
    assert(remote_control_urn().len() == 40);
    assert(sse_urn().len() == 30);
    assert(connection_urn()[30] != device_auth_urn()[30]);
    assert(connection_urn()[27] != remote_control_urn()[27]);
    assert(device_auth_urn()[27] != remote_control_urn()[27]);
    assert(debug_overlay_urn()[27] != heartbeat_urn()[27]);
    assert(cac_urn()[27] != sse_urn()[27]);
    match m {
        UrnModel::Cac => {
            assert(spec_parse_urn(cac_urn()) == UrnModel::Cac);
        },
        UrnModel::Connection => {
            assert(spec_parse_urn(connection_urn()) == UrnModel::Connection);
        },
        UrnModel::Custom(s) => {
            assert(spec_parse_urn(s) == UrnModel::Custom(s));
        },
        UrnModel::DebugOverlay => {
            assert(spec_parse_urn(debug_overlay_urn()) == UrnModel::DebugOverlay);
        },
        UrnModel::DeviceAuth => {
            assert(spec_parse_urn(device_auth_urn()) == UrnModel::DeviceAuth);
        },
        UrnModel::Heartbeat => {
            assert(spec_parse_urn(heartbeat_urn()) == UrnModel::Heartbeat);
        },
        UrnModel::Media => {
            assert(spec_parse_urn(media_urn()) == UrnModel::Media);
        },
        UrnModel::Multizone => {
            assert(spec_parse_urn(multizone_urn()) == UrnModel::Multizone);
        },
        UrnModel::Receiver => {
            assert(spec_parse_urn(receiver_urn()) == UrnModel::Receiver);
        },
        UrnModel::RemoteControl => {
            assert(spec_parse_urn(remote_control_urn()) == UrnModel::RemoteControl);
        },
        UrnModel::Sse => {
            assert(spec_parse_urn(sse_urn()) == UrnModel::Sse);
        },
    }
}

} // verus!
