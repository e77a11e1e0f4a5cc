//! Turning payloads into framed wire bytes and envelopes into responses.
//!
//! These are the computation halves of the framed transport: building the
//! bytes one send writes, and interpreting the envelope one receive read.
//! The reading and writing of sockets lives outside the library.

use vstd::prelude::*;
use vstd::string::{StrSliceExecFns, StringExecFns, StringSliceAdditionalSpecFns};
use vstd::utf8::{decode_utf8, valid_utf8};
use crate::envelope::{
    Envelope,
    EnvelopeModel,
    PROTOCOL_VERSION,
    encode_envelope,
    frame,
    spec_encode_envelope,
    spec_frame,
    string_from_utf8,
};
use crate::error::Error;
use crate::json::{json_to_bytes, parse_document, ser_json, sp_document};
use crate::namespace::{NamespaceUrn, UrnModel, parse_urn, spec_parse_urn, spec_urn_text};
use crate::payload::{
    Payload,
    PayloadModel,
    decode_payload,
    payload_json,
    payload_to_json,
    payload_wf,
    spec_decode_payload,
    spec_payload_ns,
};

verus! {

/// The source id this sender writes on every envelope.
pub open spec fn sender_id() -> Seq<char> {
    "sender-0"@
}

/// Mathematical image of a [`Response`].
pub struct ResponseModel {
    pub source_id: Seq<char>,
    pub destination_id: Seq<char>,
    pub namespace: UrnModel,
    pub payload: PayloadModel,
    pub request_id: Option<u32>,
}

/// One decoded inbound message: who sent it, on which channel, its payload
/// and the request id it answers, if any.
#[derive(Debug)]
pub struct Response {
    pub source_id: String,
    pub destination_id: String,
    pub namespace: NamespaceUrn,
    pub payload: Payload,
    pub request_id: Option<u32>,
}

impl View for Response {
    type V = ResponseModel;

    open spec fn view(&self) -> ResponseModel {
        ResponseModel {
            source_id: self.source_id@,
            destination_id: self.destination_id@,
            namespace: self.namespace@,
            payload: self.payload@,
            request_id: self.request_id,
        }
    }
}

/// The envelope a payload is sent in: fixed version and source id, the
/// caller's destination, the payload's own namespace, and the sub-envelope
/// serialized as text.
pub open spec fn spec_message_envelope(
    p: PayloadModel,
    rid: Option<u32>,
    dest: Seq<char>,
) -> EnvelopeModel {
    EnvelopeModel {
        protocol_version: PROTOCOL_VERSION,
        source_id: sender_id(),
        destination_id: dest,
        namespace: spec_urn_text(spec_payload_ns(p)),
        payload: decode_utf8(ser_json(payload_json(p, rid))),
    }
}

/// Builds the framed wire bytes that send one payload to `destination_id`,
/// with the given request id. Fails only when the serialized sub-envelope is
/// not valid text or the encoded envelope does not fit one frame.
pub fn build_message(destination_id: &str, payload: Payload, request_id: Option<u32>) -> (r:
    Result<Vec<u8>, Error>)
    ensures
        match r {
            Ok(f) => {
                &&& valid_utf8(ser_json(payload_json(payload@, request_id)))
                &&& spec_encode_envelope(
                    spec_message_envelope(payload@, request_id, destination_id@),
                ).len() <= u32::MAX
                &&& f@ == spec_frame(
                    spec_encode_envelope(
                        spec_message_envelope(payload@, request_id, destination_id@),
                    ),
                )
            },
            Err(e) => {
                &&& (!valid_utf8(ser_json(payload_json(payload@, request_id)))
                    || spec_encode_envelope(
                    spec_message_envelope(payload@, request_id, destination_id@),
                ).len() > u32::MAX)
                &&& e matches Error::Io(_)
            },
        },
{
    let ns = payload.namespace();
    let doc = payload_to_json(payload, request_id);
    let bytes = json_to_bytes(&doc);
    let text = match string_from_utf8(bytes) {
        Some(t) => t,
        None => {
            return Err(
                Error::Io(String::from_str("the serialized message is not valid text")),
            );
        },
    };
    let env = Envelope {
        protocol_version: PROTOCOL_VERSION,
        source_id: String::from_str("sender-0"),
        destination_id: destination_id.to_owned(),
        namespace: ns.urn_text(),
        payload: text,
    };
    let enc = encode_envelope(&env);
    match frame(&enc) {
        Some(f) => Ok(f),
        None => Err(Error::Io(String::from_str("the message does not fit one frame"))),
    }
}

/// A well-formed payload always serializes to valid text: building its
/// message can fail only on the frame-size limit.
pub proof fn lemma_build_message_total(p: PayloadModel, rid: Option<u32>)
    requires
        payload_wf(p),
    ensures
        valid_utf8(ser_json(payload_json(p, rid))),
{
    crate::payload::lemma_payload_json_wf(p, rid);
    crate::json::lemma_ser_json_utf8(payload_json(p, rid));
}

/// What an inbound envelope means: parse its namespace, parse its payload
/// text as JSON, and decode on that namespace. Nothing only for malformed
/// JSON or a malformed request id.
pub open spec fn spec_interpret(e: EnvelopeModel) -> Option<ResponseModel> {
    match sp_document(vstd::utf8::encode_utf8(e.payload)) {
        Some(doc) => match spec_decode_payload(spec_parse_urn(e.namespace), doc) {
            Some((p, rid)) => Some(
                ResponseModel {
                    source_id: e.source_id,
                    destination_id: e.destination_id,
                    namespace: spec_parse_urn(e.namespace),
                    payload: p,
                    request_id: rid,
                },
            ),
            None => None,
        },
        None => None,
    }
}

/// Interprets one inbound envelope, exactly as [`spec_interpret`] does.
pub fn interpret_message(env: Envelope) -> (r: Result<Response, Error>)
    ensures
        match r {
            Ok(resp) => spec_interpret(env@) == Some(resp@),
            Err(e) => spec_interpret(env@) is None && e matches Error::Deserialize(_),
        },
{
    let ns = parse_urn(env.namespace.as_str());
    let doc = match parse_document(env.payload.as_str().as_bytes()) {
        Some(d) => d,
        None => {
            return Err(Error::Deserialize(String::from_str("malformed JSON payload")));
        },
    };
    match decode_payload(&ns, doc) {
        Ok((p, rid)) => Ok(
            Response {
                source_id: env.source_id,
                destination_id: env.destination_id,
                namespace: ns,
                payload: p,
                request_id: rid,
            },
        ),
        Err(e) => Err(e),
    }
}

/// Law: a request survives the wire. The envelope [`build_message`] frames,
/// once unframed and decoded, interprets back to the very payload, request
/// id and namespace it was built from.
pub proof fn lemma_wire_roundtrip(p: PayloadModel, rid: Option<u32>, dest: Seq<char>)
    requires
        crate::payload::is_request_payload(p),
        payload_wf(p),
    ensures
        spec_interpret(spec_message_envelope(p, rid, dest)) == Some(
            ResponseModel {
                source_id: sender_id(),
                destination_id: dest,
                namespace: spec_payload_ns(p),
                payload: p,
                request_id: rid,
            },
        ),
{
    broadcast use vstd::utf8::decode_utf8_encode_utf8;

    let doc = payload_json(p, rid);
    lemma_build_message_total(p, rid);
    assert(vstd::utf8::encode_utf8(decode_utf8(ser_json(doc))) == ser_json(doc));
    crate::payload::lemma_payload_json_wf(p, rid);
    crate::json::lemma_json_roundtrip(doc);
    crate::namespace::lemma_urn_roundtrip(spec_payload_ns(p));
    crate::payload::lemma_request_payload_roundtrip(p, rid);
}


} // verus!
