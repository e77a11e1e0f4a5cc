//! The payload union and its JSON form.
//!
//! A payload is one message of a registered channel, or the opaque fallback
//! carrying an unregistered channel's fields verbatim. Encoding flattens the
//! message into the JSON sub-envelope, with the request id first when one is
//! given; decoding reads the namespace's schema and falls back to the opaque
//! form whenever the shape is not recognized — only malformed JSON fails.

use vstd::prelude::*;
use vstd::string::StringExecFns;
use crate::app::{AppModel, spec_app_id_text};
use crate::json::{Json, JsonPair, JsonPairV, JsonV, jps, jv, jvs};
use crate::namespace::{NamespaceUrn, UrnModel};
use crate::namespace::connection::Connection;
use crate::namespace::heartbeat::Heartbeat;
use crate::namespace::multizone::{Device, DeviceModel, DeviceResponse, Multizone, MultizoneModel};
use crate::namespace::receiver::{Receiver, ReceiverModel, Status, StatusModel};
use crate::app::App;
use crate::error::Error;
use crate::shared::{Volume, VolumeLevel, VolumeModel, dec_digits};

verus! {

/// A message of an unregistered channel: its namespace and every field of
/// the sub-envelope, kept verbatim.
#[derive(Debug)]
pub struct Custom {
    pub namespace: NamespaceUrn,
    pub fields: Vec<JsonPair>,
}

/// Mathematical image of a [`Custom`] payload.
pub struct CustomModel {
    pub namespace: UrnModel,
    pub fields: Seq<JsonPairV>,
}

impl View for Custom {
    type V = CustomModel;

    open spec fn view(&self) -> CustomModel {
        CustomModel { namespace: self.namespace@, fields: jps(self.fields@) }
    }
}

/// One message of any channel.
#[derive(Debug)]
pub enum Payload {
    Connection(Connection),
    Heartbeat(Heartbeat),
    Multizone(Multizone),
    Receiver(Receiver),
    Custom(Custom),
}

/// Mathematical image of a [`Payload`].
pub enum PayloadModel {
    Connection(Connection),
    Heartbeat(Heartbeat),
    Multizone(MultizoneModel),
    Receiver(ReceiverModel),
    Custom(CustomModel),
}

impl View for Payload {
    type V = PayloadModel;

    open spec fn view(&self) -> PayloadModel {
        match self {
            Payload::Connection(c) => PayloadModel::Connection(*c),
            Payload::Heartbeat(h) => PayloadModel::Heartbeat(*h),
            Payload::Multizone(m) => PayloadModel::Multizone(m@),
            Payload::Receiver(r) => PayloadModel::Receiver(r@),
            Payload::Custom(c) => PayloadModel::Custom(c@),
        }
    }
}

/// The namespace a payload is routed on: intrinsic to its schema, or carried
/// explicitly by the fallback.
pub open spec fn spec_payload_ns(p: PayloadModel) -> UrnModel {
    match p {
        PayloadModel::Connection(_) => UrnModel::Connection,
        PayloadModel::Heartbeat(_) => UrnModel::Heartbeat,
        PayloadModel::Multizone(_) => UrnModel::Multizone,
        PayloadModel::Receiver(_) => UrnModel::Receiver,
        PayloadModel::Custom(c) => c.namespace,
    }
}

impl Payload {
    /// The namespace this payload is routed on.
    pub fn namespace(&self) -> (r: NamespaceUrn)
        ensures
            r@ == spec_payload_ns(self@),
    {
        match self {
            Payload::Connection(_) => NamespaceUrn::Connection,
            Payload::Heartbeat(_) => NamespaceUrn::Heartbeat,
            Payload::Multizone(_) => NamespaceUrn::Multizone,
            Payload::Receiver(_) => NamespaceUrn::Receiver,
            Payload::Custom(c) => c.namespace.duplicate(),
        }
    }
}


impl From<Connection> for Payload {
    /// Wraps a connection message as a payload.
    fn from(val: Connection) -> (r: Payload) {
        Payload::Connection(val)
    }
}

impl vstd::std_specs::convert::FromSpecImpl<Connection> for Payload {
    open spec fn obeys_from_spec() -> bool {
        true
    }

    open spec fn from_spec(val: Connection) -> Payload {
        Payload::Connection(val)
    }
}

impl From<Heartbeat> for Payload {
    /// Wraps a keepalive message as a payload.
    fn from(val: Heartbeat) -> (r: Payload) {
        Payload::Heartbeat(val)
    }
}

impl vstd::std_specs::convert::FromSpecImpl<Heartbeat> for Payload {
    open spec fn obeys_from_spec() -> bool {
        true
    }

    open spec fn from_spec(val: Heartbeat) -> Payload {
        Payload::Heartbeat(val)
    }
}

impl From<Receiver> for Payload {
    /// Wraps a receiver-control message as a payload.
    fn from(val: Receiver) -> (r: Payload) {
        Payload::Receiver(val)
    }
}

impl vstd::std_specs::convert::FromSpecImpl<Receiver> for Payload {
    open spec fn obeys_from_spec() -> bool {
        true
    }

    open spec fn from_spec(val: Receiver) -> Payload {
        Payload::Receiver(val)
    }
}

impl From<Multizone> for Payload {
    /// Wraps a multizone message as a payload.
    fn from(val: Multizone) -> (r: Payload) {
        Payload::Multizone(val)
    }
}

impl vstd::std_specs::convert::FromSpecImpl<Multizone> for Payload {
    open spec fn obeys_from_spec() -> bool {
        true
    }

    open spec fn from_spec(val: Multizone) -> Payload {
        Payload::Multizone(val)
    }
}

impl From<Custom> for Payload {
    /// Wraps a fallback message as a payload.
    fn from(val: Custom) -> (r: Payload) {
        Payload::Custom(val)
    }
}

impl vstd::std_specs::convert::FromSpecImpl<Custom> for Payload {
    open spec fn obeys_from_spec() -> bool {
        true
    }

    open spec fn from_spec(val: Custom) -> Payload {
        Payload::Custom(val)
    }
}

// ---------------------------------------------------------------------------
// Encoding to the JSON sub-envelope
// ---------------------------------------------------------------------------

/// The `type` discriminator member.
pub open spec fn type_pair(t: Seq<char>) -> JsonPairV {
    JsonPairV { key: "type"@, value: JsonV::Str(t) }
}

pub open spec fn opt_bool_json(b: Option<bool>) -> JsonV {
    match b {
        Some(v) => JsonV::Bool(v),
        None => JsonV::Null,
    }
}

pub open spec fn opt_num_json(t: Option<Seq<u8>>) -> JsonV {
    match t {
        Some(v) => JsonV::Num(v),
        None => JsonV::Null,
    }
}

/// A volume as JSON: the control type only when present, the mute state and
/// level always, absent ones as null.
pub open spec fn volume_json(v: VolumeModel) -> JsonV {
    JsonV::Obj(
        (match v.control_type {
            Some(s) => seq![JsonPairV { key: "controlType"@, value: JsonV::Str(s) }],
            None => Seq::empty(),
        }) + seq![
            JsonPairV { key: "muted"@, value: opt_bool_json(v.muted) },
            JsonPairV { key: "level"@, value: opt_num_json(v.level) },
        ],
    )
}

/// A namespace as JSON: an object with the URN under `name`.
pub open spec fn ns_json(m: UrnModel) -> JsonV {
    JsonV::Obj(
        seq![
            JsonPairV {
                key: "name"@,
                value: JsonV::Str(crate::namespace::spec_urn_text(m)),
            },
        ],
    )
}

pub open spec fn ns_list_json(l: Seq<UrnModel>) -> Seq<JsonV> {
    Seq::new(l.len(), |i: int| ns_json(l[i]))
}

/// An application as JSON, every field present.
pub open spec fn app_json(a: AppModel) -> JsonV {
    JsonV::Obj(
        seq![
            JsonPairV { key: "appId"@, value: JsonV::Str(spec_app_id_text(a.app_id)) },
            JsonPairV { key: "appType"@, value: JsonV::Str(a.app_type) },
            JsonPairV { key: "displayName"@, value: JsonV::Str(a.display_name) },
            JsonPairV { key: "iconUrl"@, value: JsonV::Str(a.icon_url) },
            JsonPairV { key: "isIdleScreen"@, value: JsonV::Bool(a.is_idle_screen) },
            JsonPairV { key: "launchedFromCloud"@, value: JsonV::Bool(a.launched_from_cloud) },
            JsonPairV { key: "namespaces"@, value: JsonV::Arr(ns_list_json(a.namespaces)) },
            JsonPairV { key: "sessionId"@, value: JsonV::Str(a.session_id) },
            JsonPairV { key: "statusText"@, value: JsonV::Str(a.status_text) },
            JsonPairV { key: "transportId"@, value: JsonV::Str(a.transport_id) },
            JsonPairV { key: "universalAppId"@, value: JsonV::Str(a.universal_app_id) },
        ],
    )
}

pub open spec fn app_list_json(l: Seq<AppModel>) -> Seq<JsonV> {
    Seq::new(l.len(), |i: int| app_json(l[i]))
}

/// A receiver status as JSON, every field present, absent ones as null.
pub open spec fn status_json(st: StatusModel) -> JsonV {
    JsonV::Obj(
        seq![
            JsonPairV {
                key: "applications"@,
                value: match st.applications {
                    Some(l) => JsonV::Arr(app_list_json(l)),
                    None => JsonV::Null,
                },
            },
            JsonPairV { key: "isActiveInput"@, value: opt_bool_json(st.is_active_input) },
            JsonPairV { key: "isStandby"@, value: opt_bool_json(st.is_standby) },
            JsonPairV { key: "volume"@, value: volume_json(st.volume) },
        ],
    )
}

/// A multizone device as JSON.
pub open spec fn device_json(d: DeviceModel) -> JsonV {
    JsonV::Obj(
        seq![
            JsonPairV { key: "capabilities"@, value: JsonV::Num(dec_digits(d.capabilities as nat)) },
            JsonPairV { key: "deviceId"@, value: JsonV::Str(d.device_id) },
            JsonPairV { key: "name"@, value: JsonV::Str(d.name) },
            JsonPairV { key: "volume"@, value: volume_json(d.volume) },
        ],
    )
}

/// The members a payload flattens into the sub-envelope: its discriminator
/// and its fields, or the fallback's fields verbatim.
pub open spec fn payload_fields(p: PayloadModel) -> Seq<JsonPairV> {
    match p {
        PayloadModel::Connection(Connection::Connect) => seq![type_pair("CONNECT"@)],
        PayloadModel::Connection(Connection::Close) => seq![type_pair("CLOSE"@)],
        PayloadModel::Heartbeat(Heartbeat::Ping) => seq![type_pair("PING"@)],
        PayloadModel::Heartbeat(Heartbeat::Pong) => seq![type_pair("PONG"@)],
        PayloadModel::Receiver(ReceiverModel::GetStatus) => seq![type_pair("GET_STATUS"@)],
        PayloadModel::Receiver(ReceiverModel::Launch(app_id)) => seq![
            type_pair("LAUNCH"@),
            JsonPairV { key: "appId"@, value: JsonV::Str(app_id) },
        ],
        PayloadModel::Receiver(ReceiverModel::SetVolume(v)) => seq![
            type_pair("SET_VOLUME"@),
            JsonPairV { key: "volume"@, value: volume_json(v) },
        ],
        PayloadModel::Receiver(ReceiverModel::Stop(sid)) => seq![
            type_pair("STOP"@),
            JsonPairV { key: "sessionId"@, value: JsonV::Str(sid) },
        ],
        PayloadModel::Receiver(ReceiverModel::LaunchError(reason)) => seq![
            type_pair("LAUNCH_ERROR"@),
            JsonPairV { key: "reason"@, value: JsonV::Str(reason) },
        ],
        PayloadModel::Receiver(ReceiverModel::ReceiverStatus(st)) => seq![
            type_pair("RECEIVER_STATUS"@),
            JsonPairV { key: "status"@, value: status_json(st) },
        ],
        PayloadModel::Multizone(MultizoneModel::DeviceUpdated(d)) => seq![
            type_pair("DEVICE_UPDATED"@),
            JsonPairV { key: "device"@, value: device_json(d.device) },
        ],
        PayloadModel::Custom(c) => c.fields,
    }
}

/// The whole sub-envelope: the request id first when given, then the
/// payload's members.
pub open spec fn payload_json(p: PayloadModel, rid: Option<u32>) -> JsonV {
    JsonV::Obj(
        (match rid {
            Some(n) => seq![
                JsonPairV { key: "requestId"@, value: JsonV::Num(dec_digits(n as nat)) },
            ],
            None => Seq::empty(),
        }) + payload_fields(p),
    )
}

// ---------------------------------------------------------------------------
// The encoder
// ---------------------------------------------------------------------------

fn copy_bytes(v: &Vec<u8>) -> (r: Vec<u8>)
    ensures
        r@ == v@,
{
    let mut out: Vec<u8> = Vec::new();
    let mut i: usize = 0;
    while i < v.len()
        invariant
            i <= v@.len(),
            out@ == v@.subrange(0, i as int),
        decreases v@.len() - i,
    {
        out.push(v[i]);
        proof {
            assert(out@ =~= v@.subrange(0, i + 1));
        }
        i = i + 1;
    }
    proof {
        assert(v@.subrange(0, v@.len() as int) =~= v@);
    }
    out
}

/// A volume in its JSON form.
pub fn volume_to_json(v: &Volume) -> (r: Json)
    ensures
        jv(r) == volume_json(v@),
{
    let mut pairs: Vec<JsonPair> = Vec::new();
    match &v.control_type {
        Some(s) => {
            pairs.push(
                JsonPair { key: String::from_str("controlType"), value: Json::Str(s.clone()) },
            );
        },
        None => {},
    }
    let muted = match v.muted {
        Some(b) => Json::Bool(b),
        None => Json::Null,
    };
    pairs.push(JsonPair { key: String::from_str("muted"), value: muted });
    let level = match &v.level {
        Some(l) => Json::Num(copy_bytes(&l.token)),
        None => Json::Null,
    };
    pairs.push(JsonPair { key: String::from_str("level"), value: level });
    proof {
        crate::json::lemma_jps_index(pairs@);
        assert(jv(Json::Obj(pairs)) == JsonV::Obj(jps(pairs@)));
        assert(jps(pairs@) =~= (match v@.control_type {
            Some(s) => seq![JsonPairV { key: "controlType"@, value: JsonV::Str(s) }],
            None => Seq::<JsonPairV>::empty(),
        }) + seq![
            JsonPairV { key: "muted"@, value: opt_bool_json(v@.muted) },
            JsonPairV { key: "level"@, value: opt_num_json(v@.level) },
        ]);
    }
    Json::Obj(pairs)
}

/// A namespace in its JSON form.
pub fn ns_to_json(n: &NamespaceUrn) -> (r: Json)
    ensures
        jv(r) == ns_json(n@),
{
    let mut pairs: Vec<JsonPair> = Vec::new();
    pairs.push(JsonPair { key: String::from_str("name"), value: Json::Str(n.urn_text()) });
    proof {
        crate::json::lemma_jps_index(pairs@);
        assert(jps(pairs@) =~= seq![
            JsonPairV {
                key: "name"@,
                value: JsonV::Str(crate::namespace::spec_urn_text(n@)),
            },
        ]);
    }
    Json::Obj(pairs)
}

/// An application in its JSON form.
pub fn app_to_json(a: &crate::app::App) -> (r: Json)
    ensures
        jv(r) == app_json(a@),
{
    let mut nsl: Vec<Json> = Vec::new();
    let mut i: usize = 0;
    while i < a.namespaces.len()
        invariant
            i <= a.namespaces@.len(),
            nsl@.len() == i,
            forall|k: int|
                0 <= k < i ==> jv(#[trigger] nsl@[k]) == ns_json(
                    crate::app::urns(a.namespaces@)[k],
                ),
        decreases a.namespaces@.len() - i,
    {
        nsl.push(ns_to_json(&a.namespaces[i]));
        i = i + 1;
    }
    proof {
        crate::json::lemma_jvs_index(nsl@);
        assert(jvs(nsl@) =~= ns_list_json(crate::app::urns(a.namespaces@)));
    }
    let mut pairs: Vec<JsonPair> = Vec::new();
    pairs.push(JsonPair { key: String::from_str("appId"), value: Json::Str(a.app_id.id_text()) });
    pairs.push(JsonPair { key: String::from_str("appType"), value: Json::Str(a.app_type.clone()) });
    pairs.push(
        JsonPair { key: String::from_str("displayName"), value: Json::Str(a.display_name.clone()) },
    );
    pairs.push(JsonPair { key: String::from_str("iconUrl"), value: Json::Str(a.icon_url.clone()) });
    pairs.push(JsonPair { key: String::from_str("isIdleScreen"), value: Json::Bool(a.is_idle_screen) });
    pairs.push(
        JsonPair {
            key: String::from_str("launchedFromCloud"),
            value: Json::Bool(a.launched_from_cloud),
        },
    );
    pairs.push(JsonPair { key: String::from_str("namespaces"), value: Json::Arr(nsl) });
    pairs.push(JsonPair { key: String::from_str("sessionId"), value: Json::Str(a.session_id.clone()) });
    pairs.push(JsonPair { key: String::from_str("statusText"), value: Json::Str(a.status_text.clone()) });
    pairs.push(
        JsonPair { key: String::from_str("transportId"), value: Json::Str(a.transport_id.clone()) },
    );
    pairs.push(
        JsonPair {
            key: String::from_str("universalAppId"),
            value: Json::Str(a.universal_app_id.clone()),
        },
    );
    proof {
        crate::json::lemma_jps_index(pairs@);
        assert(jv(Json::Obj(pairs)) == JsonV::Obj(jps(pairs@)));
        assert(app_json(a@) matches JsonV::Obj(m) && jps(pairs@) =~= m);
    }
    Json::Obj(pairs)
}

/// A receiver status in its JSON form.
pub fn status_to_json(st: &Status) -> (r: Json)
    ensures
        jv(r) == status_json(st@),
{
    let applications = match &st.applications {
        Some(l) => {
            let mut al: Vec<Json> = Vec::new();
            let mut i: usize = 0;
            while i < l.len()
                invariant
                    i <= l@.len(),
                    al@.len() == i,
                    forall|k: int|
                        0 <= k < i ==> jv(#[trigger] al@[k]) == app_json(
                            crate::namespace::receiver::apps(l@)[k],
                        ),
                decreases l@.len() - i,
            {
                al.push(app_to_json(&l[i]));
                i = i + 1;
            }
            proof {
                crate::json::lemma_jvs_index(al@);
                assert(jvs(al@) =~= app_list_json(crate::namespace::receiver::apps(l@)));
            }
            Json::Arr(al)
        },
        None => Json::Null,
    };
    let mut pairs: Vec<JsonPair> = Vec::new();
    pairs.push(JsonPair { key: String::from_str("applications"), value: applications });
    let iai = match st.is_active_input {
        Some(b) => Json::Bool(b),
        None => Json::Null,
    };
    pairs.push(JsonPair { key: String::from_str("isActiveInput"), value: iai });
    let isb = match st.is_standby {
        Some(b) => Json::Bool(b),
        None => Json::Null,
    };
    pairs.push(JsonPair { key: String::from_str("isStandby"), value: isb });
    pairs.push(JsonPair { key: String::from_str("volume"), value: volume_to_json(&st.volume) });
    proof {
        crate::json::lemma_jps_index(pairs@);
        assert(status_json(st@) matches JsonV::Obj(m) && jps(pairs@) =~= m);
    }
    Json::Obj(pairs)
}

/// A multizone device in its JSON form.
pub fn device_to_json(d: &Device) -> (r: Json)
    ensures
        jv(r) == device_json(d@),
{
    let mut pairs: Vec<JsonPair> = Vec::new();
    pairs.push(
        JsonPair {
            key: String::from_str("capabilities"),
            value: Json::Num(crate::shared::dec_token(d.capabilities)),
        },
    );
    pairs.push(JsonPair { key: String::from_str("deviceId"), value: Json::Str(d.device_id.clone()) });
    pairs.push(JsonPair { key: String::from_str("name"), value: Json::Str(d.name.clone()) });
    pairs.push(JsonPair { key: String::from_str("volume"), value: volume_to_json(&d.volume) });
    proof {
        crate::json::lemma_jps_index(pairs@);
        assert(device_json(d@) matches JsonV::Obj(m) && jps(pairs@) =~= m);
    }
    Json::Obj(pairs)
}

fn push_type(pairs: &mut Vec<JsonPair>, t: &str)
    ensures
        final(pairs)@.len() == old(pairs)@.len() + 1,
        final(pairs)@.subrange(0, old(pairs)@.len() as int) == old(pairs)@,
        final(pairs)@[old(pairs)@.len() as int].key@ == "type"@,
        jv(final(pairs)@[old(pairs)@.len() as int].value) == JsonV::Str(t@),
{
    pairs.push(JsonPair { key: String::from_str("type"), value: Json::Str(t.to_owned()) });
    proof {
        assert(pairs@.subrange(0, old(pairs)@.len() as int) =~= old(pairs)@);
    }
}

/// The sub-envelope document of a payload: the request id first when given,
/// then the payload's members.
pub fn payload_to_json(p: Payload, request_id: Option<u32>) -> (r: Json)
    ensures
        jv(r) == payload_json(p@, request_id),
{
    let ghost pm = p@;
    let mut pairs: Vec<JsonPair> = Vec::new();
    match request_id {
        Some(n) => {
            pairs.push(
                JsonPair {
                    key: String::from_str("requestId"),
                    value: Json::Num(crate::shared::dec_token(n)),
                },
            );
        },
        None => {},
    }
    let ghost ridlen: int = pairs@.len() as int;
    let ghost ridpart: Seq<JsonPairV> = match request_id {
        Some(n) => seq![
            JsonPairV { key: "requestId"@, value: JsonV::Num(dec_digits(n as nat)) },
        ],
        None => Seq::empty(),
    };
    proof {
        crate::json::lemma_jps_index(pairs@);
        assert(jps(pairs@) =~= ridpart);
    }
    let ghost base: Seq<JsonPair> = pairs@;
    match p {
        Payload::Connection(Connection::Connect) => {
            push_type(&mut pairs, "CONNECT");
        },
        Payload::Connection(Connection::Close) => {
            push_type(&mut pairs, "CLOSE");
        },
        Payload::Heartbeat(Heartbeat::Ping) => {
            push_type(&mut pairs, "PING");
        },
        Payload::Heartbeat(Heartbeat::Pong) => {
            push_type(&mut pairs, "PONG");
        },
        Payload::Receiver(Receiver::GetStatus) => {
            push_type(&mut pairs, "GET_STATUS");
        },
        Payload::Receiver(Receiver::Launch(lr)) => {
            push_type(&mut pairs, "LAUNCH");
            pairs.push(JsonPair { key: String::from_str("appId"), value: Json::Str(lr.app_id) });
        },
        Payload::Receiver(Receiver::SetVolume(svr)) => {
            push_type(&mut pairs, "SET_VOLUME");
            pairs.push(
                JsonPair { key: String::from_str("volume"), value: volume_to_json(&svr.volume) },
            );
        },
        Payload::Receiver(Receiver::Stop(sr)) => {
            push_type(&mut pairs, "STOP");
            pairs.push(
                JsonPair { key: String::from_str("sessionId"), value: Json::Str(sr.session_id) },
            );
        },
        Payload::Receiver(Receiver::LaunchError(le)) => {
            push_type(&mut pairs, "LAUNCH_ERROR");
            pairs.push(JsonPair { key: String::from_str("reason"), value: Json::Str(le.reason) });
        },
        Payload::Receiver(Receiver::ReceiverStatus(rs)) => {
            push_type(&mut pairs, "RECEIVER_STATUS");
            pairs.push(
                JsonPair { key: String::from_str("status"), value: status_to_json(&rs.status) },
            );
        },
        Payload::Multizone(Multizone::DeviceUpdated(dr)) => {
            push_type(&mut pairs, "DEVICE_UPDATED");
            pairs.push(
                JsonPair { key: String::from_str("device"), value: device_to_json(&dr.device) },
            );
        },
        Payload::Custom(c) => {
            let mut f = c.fields;
            let ghost fv = f@;
            pairs.append(&mut f);
            proof {
                crate::json::lemma_jps_index(pairs@);
                crate::json::lemma_jps_index(fv);
                assert(jps(pairs@) =~= jps(pairs@.subrange(0, ridlen)) + jps(fv)) by {
                    crate::json::lemma_jps_index(pairs@.subrange(0, ridlen));
                    assert(forall|k: int|
                        0 <= k < ridlen ==> #[trigger] pairs@.subrange(0, ridlen)[k] == pairs@[k]);
                    assert(forall|k: int|
                        0 <= k < fv.len() ==> #[trigger] pairs@[ridlen + k] == fv[k]);
                }
            }
        },
    }
    proof {
        crate::json::lemma_jps_index(pairs@);
        assert(forall|i: int| 0 <= i < ridlen ==> #[trigger] jps(pairs@)[i] == ridpart[i]) by {
            crate::json::lemma_jps_index(base);
            assert(forall|i: int| 0 <= i < ridlen ==> #[trigger] pairs@[i] == base[i]);
        }
        match pm {
            PayloadModel::Connection(Connection::Connect) => {
                assert(jps(pairs@) =~= ridpart + payload_fields(pm));
            },
            PayloadModel::Connection(Connection::Close) => {
                assert(jps(pairs@) =~= ridpart + payload_fields(pm));
            },
            PayloadModel::Heartbeat(Heartbeat::Ping) => {
                assert(jps(pairs@) =~= ridpart + payload_fields(pm));
            },
            PayloadModel::Heartbeat(Heartbeat::Pong) => {
                assert(jps(pairs@) =~= ridpart + payload_fields(pm));
            },
            PayloadModel::Receiver(ReceiverModel::GetStatus) => {
                assert(jps(pairs@) =~= ridpart + payload_fields(pm));
            },
            PayloadModel::Receiver(ReceiverModel::Launch(_)) => {
                assert(jps(pairs@) =~= ridpart + payload_fields(pm));
            },
            PayloadModel::Receiver(ReceiverModel::SetVolume(_)) => {
                assert(jps(pairs@) =~= ridpart + payload_fields(pm));
            },
            PayloadModel::Receiver(ReceiverModel::Stop(_)) => {
                assert(jps(pairs@) =~= ridpart + payload_fields(pm));
            },
            PayloadModel::Receiver(ReceiverModel::LaunchError(_)) => {
                assert(jps(pairs@) =~= ridpart + payload_fields(pm));
            },
            PayloadModel::Receiver(ReceiverModel::ReceiverStatus(_)) => {
                assert(jps(pairs@) =~= ridpart + payload_fields(pm));
            },
            PayloadModel::Multizone(MultizoneModel::DeviceUpdated(_)) => {
                assert(jps(pairs@) =~= ridpart + payload_fields(pm));
            },
            PayloadModel::Custom(_) => {
                assert(jps(pairs@) =~= ridpart + payload_fields(pm));
            },
        }
        assert(payload_json(pm, request_id) matches JsonV::Obj(m) && jps(pairs@) =~= m);
    }
    Json::Obj(pairs)
}


// ---------------------------------------------------------------------------
// Decoding from the JSON sub-envelope
// ---------------------------------------------------------------------------

/// The first member with the given key, if any.
pub open spec fn find_field(pairs: Seq<JsonPairV>, key: Seq<char>) -> Option<JsonV>
    decreases pairs.len(),
{
    if pairs.len() == 0 {
        None
    } else if pairs[0].key == key {
        Some(pairs[0].value)
    } else {
        find_field(pairs.subrange(1, pairs.len() as int), key)
    }
}

/// The members without those carrying the given key.
pub open spec fn strip_field(pairs: Seq<JsonPairV>, key: Seq<char>) -> Seq<JsonPairV>
    decreases pairs.len(),
{
    if pairs.len() == 0 {
        Seq::empty()
    } else if pairs[0].key == key {
        strip_field(pairs.subrange(1, pairs.len() as int), key)
    } else {
        seq![pairs[0]] + strip_field(pairs.subrange(1, pairs.len() as int), key)
    }
}

/// The value of a token of decimal digits, if it is one.
pub open spec fn digits_val(t: Seq<u8>) -> Option<nat>
    decreases t.len(),
{
    if t.len() == 0 {
        None
    } else {
        let d = t[t.len() - 1];
        if !(0x30 <= d && d <= 0x39) {
            None
        } else if t.len() == 1 {
            Some((d - 0x30) as nat)
        } else {
            match digits_val(t.subrange(0, t.len() - 1)) {
                Some(h) => Some((h * 10 + (d - 0x30)) as nat),
                None => None,
            }
        }
    }
}

/// A number token as a request id: plain decimal digits, fitting in 32 bits.
pub open spec fn token_u32(t: Seq<u8>) -> Option<u32> {
    match digits_val(t) {
        Some(v) => if v <= u32::MAX { Some(v as u32) } else { None },
        None => None,
    }
}

/// An optional text member: absent and null read as nothing; any value of
/// another kind is a shape mismatch.
pub open spec fn opt_str_of(pairs: Seq<JsonPairV>, key: Seq<char>) -> Option<Option<Seq<char>>> {
    match find_field(pairs, key) {
        None => Some(None),
        Some(JsonV::Null) => Some(None),
        Some(JsonV::Str(s)) => Some(Some(s)),
        Some(_) => None,
    }
}

pub open spec fn opt_bool_of(pairs: Seq<JsonPairV>, key: Seq<char>) -> Option<Option<bool>> {
    match find_field(pairs, key) {
        None => Some(None),
        Some(JsonV::Null) => Some(None),
        Some(JsonV::Bool(b)) => Some(Some(b)),
        Some(_) => None,
    }
}

pub open spec fn opt_num_of(pairs: Seq<JsonPairV>, key: Seq<char>) -> Option<Option<Seq<u8>>> {
    match find_field(pairs, key) {
        None => Some(None),
        Some(JsonV::Null) => Some(None),
        Some(JsonV::Num(t)) => Some(Some(t)),
        Some(_) => None,
    }
}

/// A required text member.
pub open spec fn req_str_of(pairs: Seq<JsonPairV>, key: Seq<char>) -> Option<Seq<char>> {
    match find_field(pairs, key) {
        Some(JsonV::Str(s)) => Some(s),
        _ => None,
    }
}

/// A required truth member.
pub open spec fn req_bool_of(pairs: Seq<JsonPairV>, key: Seq<char>) -> Option<bool> {
    match find_field(pairs, key) {
        Some(JsonV::Bool(b)) => Some(b),
        _ => None,
    }
}

/// A volume read from its JSON form.
pub open spec fn volume_of(j: JsonV) -> Option<VolumeModel> {
    match j {
        JsonV::Obj(pairs) => {
            match (opt_str_of(pairs, "controlType"@), opt_bool_of(pairs, "muted"@), opt_num_of(
                pairs,
                "level"@,
            )) {
                (Some(ct), Some(m), Some(l)) => Some(
                    VolumeModel { control_type: ct, muted: m, level: l },
                ),
                _ => None,
            }
        },
        _ => None,
    }
}

/// A namespace read from its JSON form.
pub open spec fn ns_of(j: JsonV) -> Option<UrnModel> {
    match j {
        JsonV::Obj(pairs) => {
            match req_str_of(pairs, "name"@) {
                Some(s) => Some(crate::namespace::spec_parse_urn(s)),
                None => None,
            }
        },
        _ => None,
    }
}

/// A namespace list read from its JSON form; each entry must be one.
pub open spec fn ns_list_of(items: Seq<JsonV>) -> Option<Seq<UrnModel>> {
    if forall|i: int| 0 <= i < items.len() ==> ns_of(#[trigger] items[i]) is Some {
        Some(Seq::new(items.len(), |i: int| ns_of(items[i]).unwrap()))
    } else {
        None
    }
}

/// An application read from its JSON form; every field is required.
pub open spec fn app_of(j: JsonV) -> Option<AppModel> {
    match j {
        JsonV::Obj(pairs) => {
            let nss = match find_field(pairs, "namespaces"@) {
                Some(JsonV::Arr(items)) => ns_list_of(items),
                _ => None,
            };
            match (req_str_of(pairs, "appId"@), req_str_of(pairs, "appType"@), req_str_of(
                pairs,
                "displayName"@,
            ), req_str_of(pairs, "iconUrl"@), req_bool_of(pairs, "isIdleScreen"@), req_bool_of(
                pairs,
                "launchedFromCloud"@,
            ), nss, req_str_of(pairs, "sessionId"@), req_str_of(pairs, "statusText"@), req_str_of(
                pairs,
                "transportId"@,
            ), req_str_of(pairs, "universalAppId"@)) {
                (
                    Some(aid),
                    Some(at),
                    Some(dn),
                    Some(iu),
                    Some(iis),
                    Some(lfc),
                    Some(nsl),
                    Some(sid),
                    Some(st),
                    Some(tid),
                    Some(uai),
                ) => Some(
                    AppModel {
                        app_id: crate::app::spec_parse_app_id(aid),
                        app_type: at,
                        display_name: dn,
                        icon_url: iu,
                        is_idle_screen: iis,
                        launched_from_cloud: lfc,
                        namespaces: nsl,
                        session_id: sid,
                        status_text: st,
                        transport_id: tid,
                        universal_app_id: uai,
                    },
                ),
                _ => None,
            }
        },
        _ => None,
    }
}

/// An application list read from its JSON form; each entry must be one.
pub open spec fn app_list_of(items: Seq<JsonV>) -> Option<Seq<AppModel>> {
    if forall|i: int| 0 <= i < items.len() ==> app_of(#[trigger] items[i]) is Some {
        Some(Seq::new(items.len(), |i: int| app_of(items[i]).unwrap()))
    } else {
        None
    }
}

/// A receiver status read from its JSON form; the volume is required.
pub open spec fn status_of(j: JsonV) -> Option<StatusModel> {
    match j {
        JsonV::Obj(pairs) => {
            let apps_res: Option<Option<Seq<AppModel>>> = match find_field(
                pairs,
                "applications"@,
            ) {
                None => Some(None),
                Some(JsonV::Null) => Some(None),
                Some(JsonV::Arr(items)) => {
                    match app_list_of(items) {
                        Some(l) => Some(Some(l)),
                        None => None,
                    }
                },
                Some(_) => None,
            };
            let vol_res: Option<VolumeModel> = match find_field(pairs, "volume"@) {
                Some(vj) => volume_of(vj),
                None => None,
            };
            match (apps_res, opt_bool_of(pairs, "isActiveInput"@), opt_bool_of(
                pairs,
                "isStandby"@,
            ), vol_res) {
                (Some(a), Some(iai), Some(isb), Some(v)) => Some(
                    StatusModel {
                        applications: a,
                        is_active_input: iai,
                        is_standby: isb,
                        volume: v,
                    },
                ),
                _ => None,
            }
        },
        _ => None,
    }
}

/// A multizone device read from its JSON form.
pub open spec fn device_of(j: JsonV) -> Option<DeviceModel> {
    match j {
        JsonV::Obj(pairs) => {
            let cap = match find_field(pairs, "capabilities"@) {
                Some(JsonV::Num(t)) => token_u32(t),
                _ => None,
            };
            let vol = match find_field(pairs, "volume"@) {
                Some(vj) => volume_of(vj),
                None => None,
            };
            match (cap, req_str_of(pairs, "deviceId"@), req_str_of(pairs, "name"@), vol) {
                (Some(c), Some(did), Some(n), Some(v)) => Some(
                    DeviceModel { capabilities: c, device_id: did, name: n, volume: v },
                ),
                _ => None,
            }
        },
        _ => None,
    }
}

/// A registered channel's message read from the sub-envelope members, by its
/// discriminator; an unrecognized shape reads as nothing.
pub open spec fn typed_of(ns: UrnModel, pairs: Seq<JsonPairV>) -> Option<PayloadModel> {
    match find_field(pairs, "type"@) {
        Some(JsonV::Str(t)) => {
            match ns {
                UrnModel::Connection => {
                    if t == "CONNECT"@ {
                        Some(PayloadModel::Connection(Connection::Connect))
                    } else if t == "CLOSE"@ {
                        Some(PayloadModel::Connection(Connection::Close))
                    } else {
                        None
                    }
                },
                UrnModel::Heartbeat => {
                    if t == "PING"@ {
                        Some(PayloadModel::Heartbeat(Heartbeat::Ping))
                    } else if t == "PONG"@ {
                        Some(PayloadModel::Heartbeat(Heartbeat::Pong))
                    } else {
                        None
                    }
                },
                UrnModel::Receiver => {
                    if t == "GET_STATUS"@ {
                        Some(PayloadModel::Receiver(ReceiverModel::GetStatus))
                    } else if t == "LAUNCH"@ {
                        match req_str_of(pairs, "appId"@) {
                            Some(aid) => Some(PayloadModel::Receiver(ReceiverModel::Launch(aid))),
                            None => None,
                        }
                    } else if t == "SET_VOLUME"@ {
                        match find_field(pairs, "volume"@) {
                            Some(vj) => match volume_of(vj) {
                                Some(v) => Some(
                                    PayloadModel::Receiver(ReceiverModel::SetVolume(v)),
                                ),
                                None => None,
                            },
                            None => None,
                        }
                    } else if t == "STOP"@ {
                        match req_str_of(pairs, "sessionId"@) {
                            Some(sid) => Some(PayloadModel::Receiver(ReceiverModel::Stop(sid))),
                            None => None,
                        }
                    } else if t == "LAUNCH_ERROR"@ {
                        match req_str_of(pairs, "reason"@) {
                            Some(r) => Some(
                                PayloadModel::Receiver(ReceiverModel::LaunchError(r)),
                            ),
                            None => None,
                        }
                    } else if t == "RECEIVER_STATUS"@ {
                        match find_field(pairs, "status"@) {
                            Some(sj) => match status_of(sj) {
                                Some(st) => Some(
                                    PayloadModel::Receiver(ReceiverModel::ReceiverStatus(st)),
                                ),
                                None => None,
                            },
                            None => None,
                        }
                    } else {
                        None
                    }
                },
                UrnModel::Multizone => {
                    if t == "DEVICE_UPDATED"@ {
                        match find_field(pairs, "device"@) {
                            Some(dj) => match device_of(dj) {
                                Some(d) => Some(
                                    PayloadModel::Multizone(
                                        MultizoneModel::DeviceUpdated(
                                            crate::namespace::multizone::DeviceResponseModel {
                                                device: d,
                                            },
                                        ),
                                    ),
                                ),
                                None => None,
                            },
                            None => None,
                        }
                    } else {
                        None
                    }
                },
                _ => None,
            }
        },
        _ => None,
    }
}

/// The request id carried by the sub-envelope: absent or null reads as none;
/// a number must be a 32-bit unsigned value; anything else is malformed.
pub open spec fn rid_of(pairs: Seq<JsonPairV>) -> Option<Option<u32>> {
    match find_field(pairs, "requestId"@) {
        None => Some(None),
        Some(JsonV::Null) => Some(None),
        Some(JsonV::Num(t)) => match token_u32(t) {
            Some(v) => Some(Some(v)),
            None => None,
        },
        Some(_) => None,
    }
}

/// What a sub-envelope document decodes to on a given namespace: the request
/// id and the registered schema's message, or the opaque fallback carrying
/// every member but the request id. Nothing only when the document is not an
/// object or its request id is malformed.
pub open spec fn spec_decode_payload(ns: UrnModel, doc: JsonV) -> Option<
    (PayloadModel, Option<u32>),
> {
    match doc {
        JsonV::Obj(pairs) => {
            match rid_of(pairs) {
                Some(rid) => {
                    match typed_of(ns, pairs) {
                        Some(p) => Some((p, rid)),
                        None => Some(
                            (
                                PayloadModel::Custom(
                                    CustomModel {
                                        namespace: ns,
                                        fields: strip_field(pairs, "requestId"@),
                                    },
                                ),
                                rid,
                            ),
                        ),
                    }
                },
                None => None,
            }
        },
        _ => None,
    }
}


// ---------------------------------------------------------------------------
// The decoder
// ---------------------------------------------------------------------------

fn find_field_ref<'a>(pairs: &'a Vec<JsonPair>, key: &str) -> (r: Option<&'a Json>)
    ensures
        match r {
            Some(j) => find_field(jps(pairs@), key@) == Some(jv(*j)),
            None => find_field(jps(pairs@), key@) is None,
        },
{
    proof {
        crate::json::lemma_jps_index(pairs@);
    }
    let ghost whole = jps(pairs@);
    proof {
        assert(whole.subrange(0, whole.len() as int) =~= whole);
    }
    let mut i: usize = 0;
    while i < pairs.len()
        invariant
            i <= pairs@.len(),
            whole == jps(pairs@),
            whole.len() == pairs@.len(),
            forall|k: int|
                0 <= k < pairs@.len() ==> #[trigger] whole[k] == (JsonPairV {
                    key: pairs@[k].key@,
                    value: jv(pairs@[k].value),
                }),
            find_field(whole, key@) == find_field(
                whole.subrange(i as int, whole.len() as int),
                key@,
            ),
        decreases pairs@.len() - i,
    {
        let ghost cur = whole.subrange(i as int, whole.len() as int);
        proof {
            assert(cur[0] == whole[i as int]);
            assert(cur.subrange(1, cur.len() as int) =~= whole.subrange(
                i + 1,
                whole.len() as int,
            ));
        }
        if crate::namespace::str_eq(pairs[i].key.as_str(), key) {
            return Some(&pairs[i].value);
        }
        i = i + 1;
    }
    proof {
        assert(whole.subrange(pairs@.len() as int, whole.len() as int) =~= Seq::<
            JsonPairV,
        >::empty());
    }
    None
}

proof fn lemma_digits_val_nondigit(t: Seq<u8>, i: int)
    requires
        0 <= i < t.len(),
        !(0x30 <= t[i] && t[i] <= 0x39),
    ensures
        digits_val(t) is None,
    decreases t.len(),
{
    if t.len() > 1 && i < t.len() - 1 {
        let front = t.subrange(0, t.len() - 1);
        assert(front[i] == t[i]);
        lemma_digits_val_nondigit(front, i);
    }
}

/// Reads a number token as a 32-bit request id, exactly as [`token_u32`].
fn parse_token_u32(t: &Vec<u8>) -> (r: Option<u32>)
    ensures
        r == token_u32(t@),
{
    if t.len() == 0 {
        return None;
    }
    let b0 = t[0];
    if !(0x30 <= b0 && b0 <= 0x39) {
        proof {
            lemma_digits_val_nondigit(t@, 0);
        }
        return None;
    }
    let mut acc: u64 = (b0 - 0x30) as u64;
    let ghost mut rv: nat = (b0 - 0x30) as nat;
    let mut i: usize = 1;
    proof {
        assert(t@.subrange(0, 1) =~= seq![t@[0]]);
        assert(digits_val(t@.subrange(0, 1)) == Some(rv));
    }
    while i < t.len()
        invariant
            1 <= i <= t@.len(),
            digits_val(t@.subrange(0, i as int)) == Some(rv),
            rv <= u32::MAX ==> acc == rv,
            rv > u32::MAX ==> acc == 0x100000000u64,
        decreases t@.len() - i,
    {
        let d = t[i];
        if !(0x30 <= d && d <= 0x39) {
            proof {
                lemma_digits_val_nondigit(t@, i as int);
            }
            return None;
        }
        proof {
            let pre = t@.subrange(0, i + 1);
            assert(pre.subrange(0, i as int) =~= t@.subrange(0, i as int));
            assert(pre[i as int] == t@[i as int]);
            assert(digits_val(pre) == Some((rv * 10 + (d - 0x30)) as nat));
        }
        if acc <= u32::MAX as u64 {
            let nacc = acc * 10 + ((d - 0x30) as u64);
            if nacc > u32::MAX as u64 {
                acc = 0x100000000u64;
            } else {
                acc = nacc;
            }
        } else {
            proof {
                assert(rv * 10 + (d - 0x30) >= rv);
            }
        }
        proof {
            rv = (rv * 10 + (d - 0x30)) as nat;
        }
        i = i + 1;
    }
    proof {
        assert(t@.subrange(0, t@.len() as int) =~= t@);
    }
    if acc > u32::MAX as u64 {
        None
    } else {
        Some(acc as u32)
    }
}

/// Reads a volume, exactly as [`volume_of`] does.
pub fn parse_volume(j: &Json) -> (r: Option<Volume>)
    ensures
        match r {
            Some(v) => volume_of(jv(*j)) == Some(v@),
            None => volume_of(jv(*j)) is None,
        },
{
    match j {
        Json::Obj(pairs) => {
            let control_type: Option<String> = match find_field_ref(pairs, "controlType") {
                None => None,
                Some(Json::Null) => None,
                Some(Json::Str(s)) => Some(s.clone()),
                Some(_) => {
                    return None;
                },
            };
            let muted: Option<bool> = match find_field_ref(pairs, "muted") {
                None => None,
                Some(Json::Null) => None,
                Some(Json::Bool(b)) => Some(*b),
                Some(_) => {
                    return None;
                },
            };
            let level: Option<VolumeLevel> = match find_field_ref(pairs, "level") {
                None => None,
                Some(Json::Null) => None,
                Some(Json::Num(tk)) => Some(VolumeLevel { token: copy_bytes(tk) }),
                Some(_) => {
                    return None;
                },
            };
            Some(Volume { control_type, muted, level })
        },
        _ => None,
    }
}

/// Reads a namespace, exactly as [`ns_of`] does.
fn parse_ns(j: &Json) -> (r: Option<NamespaceUrn>)
    ensures
        match r {
            Some(n) => ns_of(jv(*j)) == Some(n@),
            None => ns_of(jv(*j)) is None,
        },
{
    match j {
        Json::Obj(pairs) => {
            match find_field_ref(pairs, "name") {
                Some(Json::Str(s)) => Some(crate::namespace::parse_urn(s.as_str())),
                _ => None,
            }
        },
        _ => None,
    }
}

fn parse_ns_list(items: &Vec<Json>) -> (r: Option<Vec<NamespaceUrn>>)
    ensures
        match r {
            Some(l) => ns_list_of(jvs(items@)) == Some(crate::app::urns(l@)),
            None => ns_list_of(jvs(items@)) is None,
        },
{
    proof {
        crate::json::lemma_jvs_index(items@);
    }
    let mut out: Vec<NamespaceUrn> = Vec::new();
    let mut i: usize = 0;
    while i < items.len()
        invariant
            i <= items@.len(),
            out@.len() == i,
            jvs(items@).len() == items@.len(),
            forall|k: int| 0 <= k < items@.len() ==> #[trigger] jvs(items@)[k] == jv(items@[k]),
            forall|k: int|
                0 <= k < i ==> ns_of(#[trigger] jvs(items@)[k]) == Some(out@[k]@),
        decreases items@.len() - i,
    {
        match parse_ns(&items[i]) {
            Some(n) => {
                out.push(n);
            },
            None => {
                proof {
                    assert(ns_of(jvs(items@)[i as int]) is None);
                }
                return None;
            },
        }
        i = i + 1;
    }
    proof {
        assert(forall|k: int|
            0 <= k < items@.len() ==> ns_of(#[trigger] jvs(items@)[k]) is Some);
        assert(ns_list_of(jvs(items@)) == Some(
            Seq::new(jvs(items@).len(), |k: int| ns_of(jvs(items@)[k]).unwrap()),
        ));
        assert(Seq::new(jvs(items@).len(), |k: int| ns_of(jvs(items@)[k]).unwrap())
            =~= crate::app::urns(out@));
    }
    Some(out)
}

/// Reads an application, exactly as [`app_of`] does.
pub fn parse_app(j: &Json) -> (r: Option<App>)
    ensures
        match r {
            Some(a) => app_of(jv(*j)) == Some(a@),
            None => app_of(jv(*j)) is None,
        },
{
    let pairs = match j {
        Json::Obj(pairs) => pairs,
        _ => {
            return None;
        },
    };
    let namespaces = match find_field_ref(pairs, "namespaces") {
        Some(Json::Arr(items)) => {
            match parse_ns_list(items) {
                Some(l) => l,
                None => {
                    return None;
                },
            }
        },
        _ => {
            return None;
        },
    };
    let app_id = match find_field_ref(pairs, "appId") {
        Some(Json::Str(s)) => crate::app::parse_app_id(s.as_str()),
        _ => {
            return None;
        },
    };
    let app_type = match find_field_ref(pairs, "appType") {
        Some(Json::Str(s)) => s.clone(),
        _ => {
            return None;
        },
    };
    let display_name = match find_field_ref(pairs, "displayName") {
        Some(Json::Str(s)) => s.clone(),
        _ => {
            return None;
        },
    };
    let icon_url = match find_field_ref(pairs, "iconUrl") {
        Some(Json::Str(s)) => s.clone(),
        _ => {
            return None;
        },
    };
    let is_idle_screen = match find_field_ref(pairs, "isIdleScreen") {
        Some(Json::Bool(b)) => *b,
        _ => {
            return None;
        },
    };
    let launched_from_cloud = match find_field_ref(pairs, "launchedFromCloud") {
        Some(Json::Bool(b)) => *b,
        _ => {
            return None;
        },
    };
    let session_id = match find_field_ref(pairs, "sessionId") {
        Some(Json::Str(s)) => s.clone(),
        _ => {
            return None;
        },
    };
    let status_text = match find_field_ref(pairs, "statusText") {
        Some(Json::Str(s)) => s.clone(),
        _ => {
            return None;
        },
    };
    let transport_id = match find_field_ref(pairs, "transportId") {
        Some(Json::Str(s)) => s.clone(),
        _ => {
            return None;
        },
    };
    let universal_app_id = match find_field_ref(pairs, "universalAppId") {
        Some(Json::Str(s)) => s.clone(),
        _ => {
            return None;
        },
    };
    Some(
        App {
            app_id,
            app_type,
            display_name,
            icon_url,
            is_idle_screen,
            launched_from_cloud,
            namespaces,
            session_id,
            status_text,
            transport_id,
            universal_app_id,
        },
    )
}

fn parse_app_list(items: &Vec<Json>) -> (r: Option<Vec<App>>)
    ensures
        match r {
            Some(l) => app_list_of(jvs(items@)) == Some(crate::namespace::receiver::apps(l@)),
            None => app_list_of(jvs(items@)) is None,
        },
{
    proof {
        crate::json::lemma_jvs_index(items@);
    }
    let mut out: Vec<App> = Vec::new();
    let mut i: usize = 0;
    while i < items.len()
        invariant
            i <= items@.len(),
            out@.len() == i,
            jvs(items@).len() == items@.len(),
            forall|k: int| 0 <= k < items@.len() ==> #[trigger] jvs(items@)[k] == jv(items@[k]),
            forall|k: int|
                0 <= k < i ==> app_of(#[trigger] jvs(items@)[k]) == Some(out@[k]@),
        decreases items@.len() - i,
    {
        match parse_app(&items[i]) {
            Some(a) => {
                out.push(a);
            },
            None => {
                proof {
                    assert(app_of(jvs(items@)[i as int]) is None);
                }
                return None;
            },
        }
        i = i + 1;
    }
    proof {
        assert(forall|k: int|
            0 <= k < items@.len() ==> app_of(#[trigger] jvs(items@)[k]) is Some);
        assert(app_list_of(jvs(items@)) == Some(
            Seq::new(jvs(items@).len(), |k: int| app_of(jvs(items@)[k]).unwrap()),
        ));
        assert(Seq::new(jvs(items@).len(), |k: int| app_of(jvs(items@)[k]).unwrap())
            =~= crate::namespace::receiver::apps(out@));
    }
    Some(out)
}

/// Reads a receiver status, exactly as [`status_of`] does.
pub fn parse_status(j: &Json) -> (r: Option<Status>)
    ensures
        match r {
            Some(st) => status_of(jv(*j)) == Some(st@),
            None => status_of(jv(*j)) is None,
        },
{
    let pairs = match j {
        Json::Obj(pairs) => pairs,
        _ => {
            return None;
        },
    };
    let applications: Option<Vec<App>> = match find_field_ref(pairs, "applications") {
        None => None,
        Some(Json::Null) => None,
        Some(Json::Arr(items)) => {
            match parse_app_list(items) {
                Some(l) => Some(l),
                None => {
                    return None;
                },
            }
        },
        Some(_) => {
            return None;
        },
    };
    let is_active_input: Option<bool> = match find_field_ref(pairs, "isActiveInput") {
        None => None,
        Some(Json::Null) => None,
        Some(Json::Bool(b)) => Some(*b),
        Some(_) => {
            return None;
        },
    };
    let is_standby: Option<bool> = match find_field_ref(pairs, "isStandby") {
        None => None,
        Some(Json::Null) => None,
        Some(Json::Bool(b)) => Some(*b),
        Some(_) => {
            return None;
        },
    };
    let volume = match find_field_ref(pairs, "volume") {
        Some(vj) => {
            match parse_volume(vj) {
                Some(v) => v,
                None => {
                    return None;
                },
            }
        },
        None => {
            return None;
        },
    };
    Some(Status { applications, is_active_input, is_standby, volume })
}

/// Reads a multizone device, exactly as [`device_of`] does.
pub fn parse_device(j: &Json) -> (r: Option<Device>)
    ensures
        match r {
            Some(d) => device_of(jv(*j)) == Some(d@),
            None => device_of(jv(*j)) is None,
        },
{
    let pairs = match j {
        Json::Obj(pairs) => pairs,
        _ => {
            return None;
        },
    };
    let capabilities = match find_field_ref(pairs, "capabilities") {
        Some(Json::Num(tk)) => {
            match parse_token_u32(tk) {
                Some(c) => c,
                None => {
                    return None;
                },
            }
        },
        _ => {
            return None;
        },
    };
    let device_id = match find_field_ref(pairs, "deviceId") {
        Some(Json::Str(s)) => s.clone(),
        _ => {
            return None;
        },
    };
    let name = match find_field_ref(pairs, "name") {
        Some(Json::Str(s)) => s.clone(),
        _ => {
            return None;
        },
    };
    let volume = match find_field_ref(pairs, "volume") {
        Some(vj) => {
            match parse_volume(vj) {
                Some(v) => v,
                None => {
                    return None;
                },
            }
        },
        None => {
            return None;
        },
    };
    Some(Device { capabilities, device_id, name, volume })
}

/// Reads a registered channel's message, exactly as [`typed_of`] does.
fn parse_typed(ns: &NamespaceUrn, pairs: &Vec<JsonPair>) -> (r: Option<Payload>)
    ensures
        match r {
            Some(p) => typed_of(ns@, jps(pairs@)) == Some(p@),
            None => typed_of(ns@, jps(pairs@)) is None,
        },
{
    let t: &String = match find_field_ref(pairs, "type") {
        Some(Json::Str(s)) => s,
        _ => {
            return None;
        },
    };
    match ns {
        NamespaceUrn::Connection => {
            if crate::namespace::str_eq(t.as_str(), "CONNECT") {
                Some(Payload::Connection(Connection::Connect))
            } else if crate::namespace::str_eq(t.as_str(), "CLOSE") {
                Some(Payload::Connection(Connection::Close))
            } else {
                None
            }
        },
        NamespaceUrn::Heartbeat => {
            if crate::namespace::str_eq(t.as_str(), "PING") {
                Some(Payload::Heartbeat(Heartbeat::Ping))
            } else if crate::namespace::str_eq(t.as_str(), "PONG") {
                Some(Payload::Heartbeat(Heartbeat::Pong))
            } else {
                None
            }
        },
        NamespaceUrn::Receiver => {
            if crate::namespace::str_eq(t.as_str(), "GET_STATUS") {
                Some(Payload::Receiver(Receiver::GetStatus))
            } else if crate::namespace::str_eq(t.as_str(), "LAUNCH") {
                match find_field_ref(pairs, "appId") {
                    Some(Json::Str(s)) => Some(
                        Payload::Receiver(
                            Receiver::Launch(
                                crate::namespace::receiver::LaunchRequest { app_id: s.clone() },
                            ),
                        ),
                    ),
                    _ => None,
                }
            } else if crate::namespace::str_eq(t.as_str(), "SET_VOLUME") {
                match find_field_ref(pairs, "volume") {
                    Some(vj) => {
                        match parse_volume(vj) {
                            Some(v) => Some(
                                Payload::Receiver(
                                    Receiver::SetVolume(
                                        crate::namespace::receiver::SetVolumeRequest { volume: v },
                                    ),
                                ),
                            ),
                            None => None,
                        }
                    },
                    None => None,
                }
            } else if crate::namespace::str_eq(t.as_str(), "STOP") {
                match find_field_ref(pairs, "sessionId") {
                    Some(Json::Str(s)) => Some(
                        Payload::Receiver(
                            Receiver::Stop(
                                crate::namespace::receiver::StopRequest { session_id: s.clone() },
                            ),
                        ),
                    ),
                    _ => None,
                }
            } else if crate::namespace::str_eq(t.as_str(), "LAUNCH_ERROR") {
                match find_field_ref(pairs, "reason") {
                    Some(Json::Str(s)) => Some(
                        Payload::Receiver(
                            Receiver::LaunchError(
                                crate::namespace::receiver::LaunchErrorResponse {
                                    reason: s.clone(),
                                },
                            ),
                        ),
                    ),
                    _ => None,
                }
            } else if crate::namespace::str_eq(t.as_str(), "RECEIVER_STATUS") {
                match find_field_ref(pairs, "status") {
                    Some(sj) => {
                        match parse_status(sj) {
                            Some(st) => Some(
                                Payload::Receiver(
                                    Receiver::ReceiverStatus(
                                        crate::namespace::receiver::ReceiverStatusResponse {
                                            status: st,
                                        },
                                    ),
                                ),
                            ),
                            None => None,
                        }
                    },
                    None => None,
                }
            } else {
                None
            }
        },
        NamespaceUrn::Multizone => {
            if crate::namespace::str_eq(t.as_str(), "DEVICE_UPDATED") {
                match find_field_ref(pairs, "device") {
                    Some(dj) => {
                        match parse_device(dj) {
                            Some(d) => Some(
                                Payload::Multizone(
                                    Multizone::DeviceUpdated(DeviceResponse { device: d }),
                                ),
                            ),
                            None => None,
                        }
                    },
                    None => None,
                }
            } else {
                None
            }
        },
        _ => None,
    }
}

/// Decodes a parsed sub-envelope on the given namespace, exactly as
/// [`spec_decode_payload`] does: the registered schema when the shape fits,
/// the opaque fallback otherwise; an error only for a document that is not
/// an object or carries a malformed request id.
pub fn decode_payload(ns: &NamespaceUrn, doc: Json) -> (r: Result<(Payload, Option<u32>), Error>)
    ensures
        match r {
            Ok((p, rid)) => spec_decode_payload(ns@, jv(doc)) == Some((p@, rid)),
            Err(e) => spec_decode_payload(ns@, jv(doc)) is None && e matches Error::Deserialize(_),
        },
{
    let pairs = match doc {
        Json::Obj(pairs) => pairs,
        _ => {
            return Err(
                Error::Deserialize(String::from_str("the message is not a JSON object")),
            );
        },
    };
    let ghost pm = jps(pairs@);
    let rid: Option<u32> = match find_field_ref(&pairs, "requestId") {
        None => None,
        Some(Json::Null) => None,
        Some(Json::Num(tk)) => {
            match parse_token_u32(tk) {
                Some(v) => Some(v),
                None => {
                    return Err(
                        Error::Deserialize(String::from_str("the request id is not a 32-bit value")),
                    );
                },
            }
        },
        Some(_) => {
            return Err(
                Error::Deserialize(String::from_str("the request id is not a number")),
            );
        },
    };
    match parse_typed(ns, &pairs) {
        Some(p) => Ok((p, rid)),
        None => {
            let mut fields: Vec<JsonPair> = Vec::new();
            let mut rest = pairs;
            proof {
                assert(jps(fields@) =~= Seq::<JsonPairV>::empty());
                assert(jps(fields@) + strip_field(jps(rest@), "requestId"@) =~= strip_field(
                    pm,
                    "requestId"@,
                ));
            }
            while rest.len() > 0
                invariant
                    strip_field(pm, "requestId"@) == jps(fields@) + strip_field(
                        jps(rest@),
                        "requestId"@,
                    ),
                decreases rest@.len(),
            {
                let ghost restv = rest@;
                let ghost fieldsv = fields@;
                let p0 = rest.remove(0);
                proof {
                    crate::json::lemma_jps_index(restv);
                    assert(rest@ =~= restv.subrange(1, restv.len() as int));
                    assert(jps(restv) == seq![
                        JsonPairV { key: restv[0].key@, value: jv(restv[0].value) },
                    ] + jps(restv.subrange(1, restv.len() as int)));
                }
                if crate::namespace::str_eq(p0.key.as_str(), "requestId") {
                    proof {
                        assert(strip_field(jps(restv), "requestId"@) == strip_field(
                            jps(rest@),
                            "requestId"@,
                        )) by {
                            assert(jps(restv)[0].key == "requestId"@);
                            assert(jps(restv).subrange(1, jps(restv).len() as int) =~= jps(
                                rest@,
                            ));
                        }
                    }
                } else {
                    fields.push(p0);
                    proof {
                        crate::json::lemma_jps_index(fields@);
                        crate::json::lemma_jps_index(fieldsv);
                        assert(jps(fields@) =~= jps(fieldsv).push(
                            JsonPairV { key: restv[0].key@, value: jv(restv[0].value) },
                        ));
                        assert(jps(restv).subrange(1, jps(restv).len() as int) =~= jps(rest@));
                        assert(strip_field(jps(restv), "requestId"@) == seq![
                            JsonPairV { key: restv[0].key@, value: jv(restv[0].value) },
                        ] + strip_field(jps(rest@), "requestId"@));
                        assert(jps(fields@) + strip_field(jps(rest@), "requestId"@) =~= jps(
                            fieldsv,
                        ) + strip_field(jps(restv), "requestId"@));
                    }
                }
            }
            proof {
                assert(jps(rest@) =~= Seq::<JsonPairV>::empty());
                assert(strip_field(jps(rest@), "requestId"@) =~= Seq::<JsonPairV>::empty());
                assert(jps(fields@) =~= strip_field(pm, "requestId"@));
            }
            Ok((Payload::Custom(Custom { namespace: ns.duplicate(), fields }), rid))
        },
    }
}


/// The namespaces with a registered schema.
pub open spec fn is_registered(ns: UrnModel) -> bool {
    ||| ns == UrnModel::Connection
    ||| ns == UrnModel::Heartbeat
    ||| ns == UrnModel::Receiver
    ||| ns == UrnModel::Multizone
}

/// Law: an envelope whose namespace has no registered schema always decodes
/// into the opaque fallback, carrying that namespace and every member of the
/// sub-envelope but the request id, unchanged; no decode error arises beyond
/// a malformed request id.
pub proof fn lemma_fallback_decode(ns: UrnModel, pairs: Seq<JsonPairV>)
    requires
        !is_registered(ns),
        rid_of(pairs) is Some,
    ensures
        spec_decode_payload(ns, JsonV::Obj(pairs)) == Some(
            (
                PayloadModel::Custom(
                    CustomModel { namespace: ns, fields: strip_field(pairs, "requestId"@) },
                ),
                rid_of(pairs).unwrap(),
            ),
        ),
{
    assert(typed_of(ns, pairs) is None);
}


// ---------------------------------------------------------------------------
// Round trip for request payloads
// ---------------------------------------------------------------------------

proof fn lemma_digits_val_dec(n: nat)
    ensures
        digits_val(dec_digits(n)) == Some(n),
    decreases n,
{
    let d = dec_digits(n);
    if n < 10 {
        assert(d =~= seq![(0x30 + n) as u8]);
    } else {
        lemma_digits_val_dec(n / 10);
        crate::shared::lemma_dec_digits_token_wf(n / 10);
        assert(d == dec_digits(n / 10) + seq![(0x30 + n % 10) as u8]);
        assert(d[d.len() - 1] == (0x30 + n % 10) as u8);
        assert(d.subrange(0, d.len() - 1) =~= dec_digits(n / 10));
    }
}

proof fn lemma_find_concat(a: Seq<JsonPairV>, b: Seq<JsonPairV>, k: Seq<char>)
    ensures
        find_field(a + b, k) == (match find_field(a, k) {
            Some(v) => Some(v),
            None => find_field(b, k),
        }),
    decreases a.len(),
{
    if a.len() == 0 {
        assert(a + b =~= b);
    } else {
        let tail = a.subrange(1, a.len() as int);
        assert((a + b).subrange(1, (a + b).len() as int) =~= tail + b);
        assert((a + b)[0] == a[0]);
        lemma_find_concat(tail, b, k);
    }
}

/// The payloads a sender issues as requests.
pub open spec fn is_request_payload(p: PayloadModel) -> bool {
    match p {
        PayloadModel::Connection(_) => true,
        PayloadModel::Heartbeat(_) => true,
        PayloadModel::Receiver(ReceiverModel::GetStatus) => true,
        PayloadModel::Receiver(ReceiverModel::Launch(_)) => true,
        PayloadModel::Receiver(ReceiverModel::SetVolume(_)) => true,
        PayloadModel::Receiver(ReceiverModel::Stop(_)) => true,
        _ => false,
    }
}

proof fn lemma_find1(p0: JsonPairV, k: Seq<char>)
    ensures
        find_field(seq![p0], k) == (if p0.key == k {
            Some(p0.value)
        } else {
            None
        }),
{
    assert(seq![p0].subrange(1, 1) =~= Seq::<JsonPairV>::empty());
    assert(find_field(Seq::<JsonPairV>::empty(), k) is None);
}

proof fn lemma_find2(p0: JsonPairV, p1: JsonPairV, k: Seq<char>)
    ensures
        find_field(seq![p0, p1], k) == (if p0.key == k {
            Some(p0.value)
        } else if p1.key == k {
            Some(p1.value)
        } else {
            None
        }),
{
    assert(seq![p0, p1].subrange(1, 2) =~= seq![p1]);
    lemma_find1(p1, k);
}

/// Looks one key up in the sub-envelope built from a request-id part and at
/// most two members.
proof fn lemma_lookup(ridpart: Seq<JsonPairV>, fields: Seq<JsonPairV>, k: Seq<char>)
    requires
        ridpart.len() == 0 || (ridpart.len() == 1 && ridpart[0].key == "requestId"@),
        1 <= fields.len() <= 2,
        k != "requestId"@,
    ensures
        find_field(ridpart + fields, k) == (if fields[0].key == k {
            Some(fields[0].value)
        } else if fields.len() == 2 && fields[1].key == k {
            Some(fields[1].value)
        } else {
            None
        }),
{
    lemma_find_concat(ridpart, fields, k);
    if ridpart.len() == 1 {
        assert(ridpart =~= seq![ridpart[0]]);
        lemma_find1(ridpart[0], k);
        assert(find_field(ridpart, k) is None);
    } else {
        assert(ridpart =~= Seq::<JsonPairV>::empty());
        assert(find_field(ridpart, k) is None);
    }
    if fields.len() == 1 {
        assert(fields =~= seq![fields[0]]);
        lemma_find1(fields[0], k);
    } else {
        assert(fields =~= seq![fields[0], fields[1]]);
        lemma_find2(fields[0], fields[1], k);
    }
}

proof fn lemma_volume_roundtrip(v: VolumeModel)
    ensures
        volume_of(volume_json(v)) == Some(v),
{
    broadcast use vstd::string::group_string_axioms;

    reveal_strlit("controlType");
    reveal_strlit("muted");
    reveal_strlit("level");
    assert("controlType"@.len() == 11 && "muted"@.len() == 5 && "level"@.len() == 5);
    assert("muted"@[0] != "level"@[0]);
    let mp = JsonPairV { key: "muted"@, value: opt_bool_json(v.muted) };
    let lp = JsonPairV { key: "level"@, value: opt_num_json(v.level) };
    let tail = seq![mp, lp];
    let ctpart: Seq<JsonPairV> = match v.control_type {
        Some(s) => seq![JsonPairV { key: "controlType"@, value: JsonV::Str(s) }],
        None => Seq::empty(),
    };
    let pairs = ctpart + tail;
    lemma_find_concat(ctpart, tail, "controlType"@);
    lemma_find_concat(ctpart, tail, "muted"@);
    lemma_find_concat(ctpart, tail, "level"@);
    match v.control_type {
        Some(s) => {
            let ctp = JsonPairV { key: "controlType"@, value: JsonV::Str(s) };
            lemma_find1(ctp, "controlType"@);
            lemma_find1(ctp, "muted"@);
            lemma_find1(ctp, "level"@);
        },
        None => {
            assert(ctpart =~= Seq::<JsonPairV>::empty());
        },
    }
    lemma_find2(mp, lp, "controlType"@);
    lemma_find2(mp, lp, "muted"@);
    lemma_find2(mp, lp, "level"@);
    assert(opt_str_of(pairs, "controlType"@) == Some(v.control_type));
    assert(opt_bool_of(pairs, "muted"@) == Some(v.muted));
    assert(opt_num_of(pairs, "level"@) == Some(v.level));
}

/// Law: a request payload, encoded into the sub-envelope and decoded on its
/// own namespace, comes back exactly, request id and all.
#[verifier::rlimit(100)]
pub proof fn lemma_request_payload_roundtrip(p: PayloadModel, rid: Option<u32>)
    requires
        is_request_payload(p),
    ensures
        spec_decode_payload(spec_payload_ns(p), payload_json(p, rid)) == Some((p, rid)),
{
    broadcast use vstd::string::group_string_axioms;

    reveal_strlit("requestId");
    reveal_strlit("type");
    reveal_strlit("appId");
    reveal_strlit("volume");
    reveal_strlit("sessionId");
    reveal_strlit("CONNECT");
    reveal_strlit("CLOSE");
    reveal_strlit("PING");
    reveal_strlit("PONG");
    reveal_strlit("GET_STATUS");
    reveal_strlit("LAUNCH");
    reveal_strlit("SET_VOLUME");
    reveal_strlit("STOP");
    let ridpart: Seq<JsonPairV> = match rid {
        Some(n) => seq![
            JsonPairV { key: "requestId"@, value: JsonV::Num(dec_digits(n as nat)) },
        ],
        None => Seq::empty(),
    };
    let fields = payload_fields(p);
    let pairs = ridpart + fields;
    let ns = spec_payload_ns(p);

    assert("requestId"@.len() == 9 && "type"@.len() == 4 && "appId"@.len() == 5 && "volume"@.len()
        == 6 && "sessionId"@.len() == 9);
    assert("sessionId"@[0] != "requestId"@[0]);
    assert("PING"@[1] != "PONG"@[1]);
    assert("GET_STATUS"@[0] != "SET_VOLUME"@[0]);
    assert("CONNECT"@.len() == 7 && "CLOSE"@.len() == 5);
    assert("PING"@.len() == 4 && "PONG"@.len() == 4);
    assert("GET_STATUS"@.len() == 10 && "LAUNCH"@.len() == 6 && "SET_VOLUME"@.len() == 10
        && "STOP"@.len() == 4);
    assert(1 <= fields.len() <= 2);
    assert(fields[0].key == "type"@);

    // The request id reads back.
    lemma_find_concat(ridpart, fields, "requestId"@);
    if fields.len() == 1 {
        assert(fields =~= seq![fields[0]]);
        lemma_find1(fields[0], "requestId"@);
    } else {
        assert(fields =~= seq![fields[0], fields[1]]);
        lemma_find2(fields[0], fields[1], "requestId"@);
        assert(fields[1].key == "appId"@ || fields[1].key == "volume"@ || fields[1].key
            == "sessionId"@);
    }
    match rid {
        Some(n) => {
            lemma_digits_val_dec(n as nat);
            assert(token_u32(dec_digits(n as nat)) == Some(n));
        },
        None => {},
    }
    assert(rid_of(pairs) == Some(rid));

    // The discriminator reads back and selects the schema; any second member
    // reads back too.
    lemma_lookup(ridpart, fields, "type"@);
    match p {
        PayloadModel::Receiver(ReceiverModel::Launch(aid)) => {
            lemma_lookup(ridpart, fields, "appId"@);
            assert(req_str_of(pairs, "appId"@) == Some(aid));
        },
        PayloadModel::Receiver(ReceiverModel::SetVolume(v)) => {
            lemma_lookup(ridpart, fields, "volume"@);
            assert(find_field(pairs, "volume"@) == Some(volume_json(v)));
            lemma_volume_roundtrip(v);
        },
        PayloadModel::Receiver(ReceiverModel::Stop(sid)) => {
            lemma_lookup(ridpart, fields, "sessionId"@);
            assert(req_str_of(pairs, "sessionId"@) == Some(sid));
        },
        _ => {},
    }
    match p {
        PayloadModel::Connection(Connection::Connect) => {
            assert(typed_of(ns, pairs) == Some(p));
        },
        PayloadModel::Connection(Connection::Close) => {
            assert(typed_of(ns, pairs) == Some(p));
        },
        PayloadModel::Heartbeat(Heartbeat::Ping) => {
            assert(typed_of(ns, pairs) == Some(p));
        },
        PayloadModel::Heartbeat(Heartbeat::Pong) => {
            assert(typed_of(ns, pairs) == Some(p));
        },
        PayloadModel::Receiver(ReceiverModel::GetStatus) => {
            assert(typed_of(ns, pairs) == Some(p));
        },
        PayloadModel::Receiver(ReceiverModel::Launch(_)) => {
            assert(typed_of(ns, pairs) == Some(p));
        },
        PayloadModel::Receiver(ReceiverModel::SetVolume(_)) => {
            assert(typed_of(ns, pairs) == Some(p));
        },
        _ => {
            assert(typed_of(ns, pairs) == Some(p));
        },
    }
}

// ---------------------------------------------------------------------------
// Well-formedness of encoded payloads
// ---------------------------------------------------------------------------

/// A volume whose level token is plausible.
pub open spec fn volume_wf(v: VolumeModel) -> bool {
    v.level matches Some(t) ==> crate::json::token_wf(t)
}

/// A payload whose encoding is well-formed JSON: every number token it
/// carries is plausible.
pub open spec fn payload_wf(p: PayloadModel) -> bool {
    match p {
        PayloadModel::Receiver(ReceiverModel::SetVolume(v)) => volume_wf(v),
        PayloadModel::Receiver(ReceiverModel::ReceiverStatus(st)) => volume_wf(st.volume),
        PayloadModel::Multizone(MultizoneModel::DeviceUpdated(d)) => volume_wf(d.device.volume),
        PayloadModel::Custom(c) => crate::json::json_wf(JsonV::Obj(c.fields)),
        _ => true,
    }
}

proof fn lemma_volume_json_wf(v: VolumeModel)
    requires
        volume_wf(v),
    ensures
        crate::json::json_wf(volume_json(v)),
{
    let m = volume_json(v);
    assert(m matches JsonV::Obj(pairs) && forall|i: int|
        0 <= i < pairs.len() ==> crate::json::json_wf(#[trigger] pairs[i].value));
}

proof fn lemma_app_json_wf(a: AppModel)
    ensures
        crate::json::json_wf(app_json(a)),
{
    let m = app_json(a);
    let nsl = ns_list_json(a.namespaces);
    assert forall|i: int| 0 <= i < nsl.len() implies crate::json::json_wf(#[trigger] nsl[i]) by {
        let nj = ns_json(a.namespaces[i]);
        assert(nj matches JsonV::Obj(ps) && forall|j: int|
            0 <= j < ps.len() ==> crate::json::json_wf(#[trigger] ps[j].value));
    }
    assert(m matches JsonV::Obj(pairs) && forall|i: int|
        0 <= i < pairs.len() ==> crate::json::json_wf(#[trigger] pairs[i].value));
}

proof fn lemma_status_json_wf(st: StatusModel)
    requires
        volume_wf(st.volume),
    ensures
        crate::json::json_wf(status_json(st)),
{
    lemma_volume_json_wf(st.volume);
    match st.applications {
        Some(l) => {
            let al = app_list_json(l);
            assert forall|i: int| 0 <= i < al.len() implies crate::json::json_wf(
                #[trigger] al[i],
            ) by {
                lemma_app_json_wf(l[i]);
            }
        },
        None => {},
    }
    let m = status_json(st);
    assert(m matches JsonV::Obj(pairs) && forall|i: int|
        0 <= i < pairs.len() ==> crate::json::json_wf(#[trigger] pairs[i].value));
}

/// The sub-envelope of a well-formed payload is a well-formed document.
pub proof fn lemma_payload_json_wf(p: PayloadModel, rid: Option<u32>)
    requires
        payload_wf(p),
    ensures
        crate::json::json_wf(payload_json(p, rid)),
{
    crate::shared::lemma_dec_digits_token_wf(match rid {
        Some(n) => n as nat,
        None => 0,
    });
    match p {
        PayloadModel::Receiver(ReceiverModel::SetVolume(v)) => {
            lemma_volume_json_wf(v);
        },
        PayloadModel::Receiver(ReceiverModel::ReceiverStatus(st)) => {
            lemma_status_json_wf(st);
        },
        PayloadModel::Multizone(MultizoneModel::DeviceUpdated(d)) => {
            lemma_volume_json_wf(d.device.volume);
            crate::shared::lemma_dec_digits_token_wf(d.device.capabilities as nat);
            assert(device_json(d.device) matches JsonV::Obj(ps) && forall|j: int|
                0 <= j < ps.len() ==> crate::json::json_wf(#[trigger] ps[j].value));
        },
        _ => {},
    }
    let m = payload_json(p, rid);
    match p {
        PayloadModel::Connection(Connection::Connect) => {
            assert(m matches JsonV::Obj(pairs) && forall|i: int|
                0 <= i < pairs.len() ==> crate::json::json_wf(#[trigger] pairs[i].value));
        },
        PayloadModel::Connection(Connection::Close) => {
            assert(m matches JsonV::Obj(pairs) && forall|i: int|
                0 <= i < pairs.len() ==> crate::json::json_wf(#[trigger] pairs[i].value));
        },
        PayloadModel::Heartbeat(Heartbeat::Ping) => {
            assert(m matches JsonV::Obj(pairs) && forall|i: int|
                0 <= i < pairs.len() ==> crate::json::json_wf(#[trigger] pairs[i].value));
        },
        PayloadModel::Heartbeat(Heartbeat::Pong) => {
            assert(m matches JsonV::Obj(pairs) && forall|i: int|
                0 <= i < pairs.len() ==> crate::json::json_wf(#[trigger] pairs[i].value));
        },
        PayloadModel::Receiver(ReceiverModel::GetStatus) => {
            assert(m matches JsonV::Obj(pairs) && forall|i: int|
                0 <= i < pairs.len() ==> crate::json::json_wf(#[trigger] pairs[i].value));
        },
        PayloadModel::Receiver(ReceiverModel::Launch(_)) => {
            assert(m matches JsonV::Obj(pairs) && forall|i: int|
                0 <= i < pairs.len() ==> crate::json::json_wf(#[trigger] pairs[i].value));
        },
        PayloadModel::Receiver(ReceiverModel::SetVolume(_)) => {
            assert(m matches JsonV::Obj(pairs) && forall|i: int|
                0 <= i < pairs.len() ==> crate::json::json_wf(#[trigger] pairs[i].value));
        },
        PayloadModel::Receiver(ReceiverModel::Stop(_)) => {
            assert(m matches JsonV::Obj(pairs) && forall|i: int|
                0 <= i < pairs.len() ==> crate::json::json_wf(#[trigger] pairs[i].value));
        },
        PayloadModel::Receiver(ReceiverModel::LaunchError(_)) => {
            assert(m matches JsonV::Obj(pairs) && forall|i: int|
                0 <= i < pairs.len() ==> crate::json::json_wf(#[trigger] pairs[i].value));
        },
        PayloadModel::Receiver(ReceiverModel::ReceiverStatus(_)) => {
            assert(m matches JsonV::Obj(pairs) && forall|i: int|
                0 <= i < pairs.len() ==> crate::json::json_wf(#[trigger] pairs[i].value));
        },
        PayloadModel::Multizone(MultizoneModel::DeviceUpdated(_)) => {
            assert(m matches JsonV::Obj(pairs) && forall|i: int|
                0 <= i < pairs.len() ==> crate::json::json_wf(#[trigger] pairs[i].value));
        },
        PayloadModel::Custom(c) => {
            let ridpart: Seq<JsonPairV> = match rid {
                Some(n) => seq![
                    JsonPairV { key: "requestId"@, value: JsonV::Num(dec_digits(n as nat)) },
                ],
                None => Seq::empty(),
            };
            let pairs = ridpart + c.fields;
            assert(m == JsonV::Obj(pairs));
            assert forall|i: int| 0 <= i < pairs.len() implies crate::json::json_wf(
                #[trigger] pairs[i].value,
            ) by {
                if i >= ridpart.len() {
                    assert(pairs[i] == c.fields[i - ridpart.len()]);
                    assert(crate::json::json_wf(c.fields[i - ridpart.len()].value));
                }
            }
        },
    }
}


} // verus!
