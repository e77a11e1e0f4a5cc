//! The binary wire envelope and its length-prefixed framing.
//!
//! One envelope carries one namespace-addressed JSON message. On the wire it
//! is a protocol-buffer-style record: field 1 the protocol version (varint),
//! fields 2, 3 and 4 the source id, destination id and namespace (length-
//! delimited UTF-8), field 5 the payload type (varint, always the string
//! kind), field 6 the UTF-8 JSON payload (length-delimited). A frame is a
//! 4-byte big-endian length followed by exactly that many envelope bytes.

use vstd::prelude::*;
use vstd::utf8::{decode_utf8, encode_utf8, valid_utf8};

verus! {

/// The protocol version the client speaks (the first enumerated value).
pub const PROTOCOL_VERSION: u32 = 0;

/// The payload-type code for UTF-8 string payloads.
pub const PAYLOAD_TYPE_STRING: u64 = 0;

/// The wire unit: one namespace-addressed message with a JSON text payload.
#[derive(Clone, Debug)]
pub struct Envelope {
    pub protocol_version: u32,
    pub source_id: String,
    pub destination_id: String,
    pub namespace: String,
    pub payload: String,
}

/// Mathematical image of an [`Envelope`]: each text field as its characters.
pub struct EnvelopeModel {
    pub protocol_version: u32,
    pub source_id: Seq<char>,
    pub destination_id: Seq<char>,
    pub namespace: Seq<char>,
    pub payload: Seq<char>,
}

impl View for Envelope {
    type V = EnvelopeModel;

    open spec fn view(&self) -> EnvelopeModel {
        EnvelopeModel {
            protocol_version: self.protocol_version,
            source_id: self.source_id@,
            destination_id: self.destination_id@,
            namespace: self.namespace@,
            payload: self.payload@,
        }
    }
}

// ---------------------------------------------------------------------------
// Varints
// ---------------------------------------------------------------------------

/// Base-128 encoding with a continuation bit, least significant group first.
pub open spec fn spec_varint(n: nat) -> Seq<u8>
    decreases n,
{
    if n < 128 {
        seq![n as u8]
    } else {
        seq![(n % 128 + 128) as u8] + spec_varint(n / 128)
    }
}

/// Reads one varint at `pos`: the decoded value and the position after it.
/// Values above `u64::MAX` and truncated input are rejected.
pub open spec fn spec_read_varint(s: Seq<u8>, pos: int) -> Option<(u64, int)>
    decreases s.len() - pos,
{
    if pos < 0 || pos >= s.len() {
        None
    } else if s[pos] < 128 {
        Some((s[pos] as u64, pos + 1))
    } else {
        match spec_read_varint(s, pos + 1) {
            Some((hi, end)) => {
                if hi <= (u64::MAX - 127) / 128 {
                    Some(((hi * 128 + (s[pos] - 128)) as u64, end))
                } else {
                    None
                }
            },
            None => None,
        }
    }
}

/// Reading an encoded varint embedded at `pos` yields the value back and
/// stops right after it.
proof fn lemma_varint_roundtrip(n: u64, s: Seq<u8>, pos: int)
    requires
        0 <= pos,
        pos + spec_varint(n as nat).len() <= s.len(),
        s.subrange(pos, pos + spec_varint(n as nat).len()) == spec_varint(n as nat),
    ensures
        spec_read_varint(s, pos) == Some((n, pos + spec_varint(n as nat).len())),
    decreases n,
{
    let enc = spec_varint(n as nat);
    assert(s[pos] == enc[0]);
    if n < 128 {
        assert(enc[0] == n as u8);
    } else {
        let hi = n / 128;
        let tail = spec_varint(hi as nat);
        assert(enc == seq![(n % 128 + 128) as u8] + tail);
        assert(s.subrange(pos + 1, pos + 1 + tail.len() as int) =~= tail) by {
            assert forall|i: int| 0 <= i < tail.len() implies s.subrange(
                pos + 1,
                pos + 1 + tail.len() as int,
            )[i] == tail[i] by {
                assert(s[pos + 1 + i] == enc[1 + i]);
            }
        }
        lemma_varint_roundtrip(hi, s, pos + 1);
        assert(s[pos] == (n % 128 + 128) as u8);
        vstd::arithmetic::div_mod::lemma_fundamental_div_mod(n as int, 128);
        vstd::arithmetic::div_mod::lemma_div_is_ordered(n as int, u64::MAX as int, 128);
        assert(hi <= (u64::MAX - 127) / 128);
    }
}

/// Appends the varint encoding of `n` to `out`.
pub fn write_varint(out: &mut Vec<u8>, n: u64)
    ensures
        final(out)@ == old(out)@ + spec_varint(n as nat),
{
    let mut cur: u64 = n;
    let ghost prefix: Seq<u8> = old(out)@;
    while cur >= 128
        invariant
            out@ + spec_varint(cur as nat) == prefix + spec_varint(n as nat),
        decreases cur,
    {
        let b: u8 = (cur % 128 + 128) as u8;
        let ghost before: Seq<u8> = out@;
        out.push(b);
        proof {
            assert(spec_varint(cur as nat) == seq![b] + spec_varint((cur / 128) as nat));
            assert(out@ + spec_varint((cur / 128) as nat) =~= before + spec_varint(cur as nat));
        }
        cur = cur / 128;
    }
    let ghost before: Seq<u8> = out@;
    out.push(cur as u8);
    proof {
        assert(spec_varint(cur as nat) =~= seq![cur as u8]);
        assert(out@ =~= before + spec_varint(cur as nat));
        assert(out@ =~= prefix + spec_varint(n as nat));
    }
}

/// Relies on `String::from_utf8`: it succeeds exactly on valid UTF-8 input
/// and returns the string those bytes encode.
#[verifier::external_body]
pub(crate) fn string_from_utf8(bytes: Vec<u8>) -> (r: Option<String>)
    ensures
        r is Some <==> valid_utf8(bytes@),
        r matches Some(s) ==> s@ == decode_utf8(bytes@),
{
    String::from_utf8(bytes).ok()
}

/// Reads one varint from `s` at `pos`, exactly as [`spec_read_varint`] does.
pub fn read_varint(s: &[u8], pos: usize) -> (r: Option<(u64, usize)>)
    requires
        pos <= s@.len(),
    ensures
        match r {
            Some((v, end)) => {
                &&& spec_read_varint(s@, pos as int) == Some((v, end as int))
                &&& pos < end <= s@.len()
            },
            None => spec_read_varint(s@, pos as int) is None,
        },
    decreases s@.len() - pos,
{
    if pos >= s.len() {
        return None;
    }
    let b = s[pos];
    if b < 128 {
        Some((b as u64, pos + 1))
    } else {
        match read_varint(s, pos + 1) {
            Some((hi, end)) => {
                if hi <= (u64::MAX - 127) / 128 {
                    Some((hi * 128 + (b - 128) as u64, end))
                } else {
                    None
                }
            },
            None => None,
        }
    }
}

// ---------------------------------------------------------------------------
// Encoding
// ---------------------------------------------------------------------------

/// A length-delimited field: its tag byte, the byte length of the UTF-8 text,
/// then the text's bytes.
pub open spec fn spec_str_field(tag: u8, s: Seq<char>) -> Seq<u8> {
    seq![tag] + spec_varint(encode_utf8(s).len()) + encode_utf8(s)
}

/// The envelope's wire image: protocol version, source, destination,
/// namespace, the string payload-type marker, then the JSON payload.
pub open spec fn spec_encode_envelope(e: EnvelopeModel) -> Seq<u8> {
    seq![8u8] + spec_varint(e.protocol_version as nat) + spec_str_field(0x12, e.source_id)
        + spec_str_field(0x1a, e.destination_id) + spec_str_field(0x22, e.namespace)
        + seq![0x28u8, 0u8] + spec_str_field(0x32, e.payload)
}

fn write_str_field(out: &mut Vec<u8>, tag: u8, s: &str)
    ensures
        final(out)@ == old(out)@ + spec_str_field(tag, s@),
{
    out.push(tag);
    let mut bytes = s.as_bytes_vec();
    write_varint(out, bytes.len() as u64);
    let ghost before: Seq<u8> = out@;
    out.append(&mut bytes);
    proof {
        assert(out@ =~= old(out)@ + spec_str_field(tag, s@));
    }
}

/// Encodes an envelope into its binary wire form.
pub fn encode_envelope(e: &Envelope) -> (r: Vec<u8>)
    ensures
        r@ == spec_encode_envelope(e@),
{
    let mut out: Vec<u8> = Vec::new();
    out.push(8u8);
    write_varint(&mut out, e.protocol_version as u64);
    write_str_field(&mut out, 0x12, e.source_id.as_str());
    write_str_field(&mut out, 0x1a, e.destination_id.as_str());
    write_str_field(&mut out, 0x22, e.namespace.as_str());
    out.push(0x28u8);
    out.push(0u8);
    write_str_field(&mut out, 0x32, e.payload.as_str());
    proof {
        assert(out@ =~= spec_encode_envelope(e@));
    }
    out
}

// ---------------------------------------------------------------------------
// Decoding
// ---------------------------------------------------------------------------

/// Reads one length-delimited UTF-8 string at `pos`: the decoded characters
/// and the position after the field's bytes.
pub open spec fn spec_read_string(s: Seq<u8>, pos: int) -> Option<(Seq<char>, int)> {
    match spec_read_varint(s, pos) {
        Some((len, data)) => {
            if data + len <= s.len() && valid_utf8(s.subrange(data, data + len)) {
                Some((decode_utf8(s.subrange(data, data + len)), data + len))
            } else {
                None
            }
        },
        None => None,
    }
}

/// Position after a field of the given wire type whose value starts at `pos`.
/// Wire types: 0 varint, 1 eight bytes, 2 length-delimited, 5 four bytes.
pub open spec fn spec_skip_field(s: Seq<u8>, pos: int, wire: u64) -> Option<int> {
    if wire == 0 {
        match spec_read_varint(s, pos) {
            Some((_v, end)) => Some(end),
            None => None,
        }
    } else if wire == 1 {
        if pos + 8 <= s.len() {
            Some(pos + 8)
        } else {
            None
        }
    } else if wire == 2 {
        match spec_read_varint(s, pos) {
            Some((len, data)) => {
                if data + len <= s.len() {
                    Some(data + len)
                } else {
                    None
                }
            },
            None => None,
        }
    } else if wire == 5 {
        if pos + 4 <= s.len() {
            Some(pos + 4)
        } else {
            None
        }
    } else {
        None
    }
}

/// Reads fields from `pos` to the end of `s`, folding each recognized field
/// into `acc` (a later occurrence wins) and skipping the others.
pub open spec fn spec_decode_fields(s: Seq<u8>, pos: int, acc: EnvelopeModel) -> Option<
    EnvelopeModel,
>
    decreases s.len() - pos,
{
    if pos == s.len() {
        Some(acc)
    } else if pos < 0 || pos > s.len() {
        None
    } else {
        match spec_read_varint(s, pos) {
            Some((tag, p1)) => {
                let field = tag / 8;
                let wire = tag % 8;
                if field == 1 && wire == 0 {
                    match spec_read_varint(s, p1) {
                        Some((v, p2)) => {
                            if v <= u32::MAX as u64 && p2 > pos && p2 <= s.len() {
                                spec_decode_fields(
                                    s,
                                    p2,
                                    EnvelopeModel { protocol_version: v as u32, ..acc },
                                )
                            } else {
                                None
                            }
                        },
                        None => None,
                    }
                } else if field == 2 && wire == 2 {
                    match spec_read_string(s, p1) {
                        Some((t, p2)) => {
                            if p2 > pos && p2 <= s.len() {
                                spec_decode_fields(s, p2, EnvelopeModel { source_id: t, ..acc })
                            } else {
                                None
                            }
                        },
                        None => None,
                    }
                } else if field == 3 && wire == 2 {
                    match spec_read_string(s, p1) {
                        Some((t, p2)) => {
                            if p2 > pos && p2 <= s.len() {
                                spec_decode_fields(
                                    s,
                                    p2,
                                    EnvelopeModel { destination_id: t, ..acc },
                                )
                            } else {
                                None
                            }
                        },
                        None => None,
                    }
                } else if field == 4 && wire == 2 {
                    match spec_read_string(s, p1) {
                        Some((t, p2)) => {
                            if p2 > pos && p2 <= s.len() {
                                spec_decode_fields(s, p2, EnvelopeModel { namespace: t, ..acc })
                            } else {
                                None
                            }
                        },
                        None => None,
                    }
                } else if field == 6 && wire == 2 {
                    match spec_read_string(s, p1) {
                        Some((t, p2)) => {
                            if p2 > pos && p2 <= s.len() {
                                spec_decode_fields(s, p2, EnvelopeModel { payload: t, ..acc })
                            } else {
                                None
                            }
                        },
                        None => None,
                    }
                } else {
                    match spec_skip_field(s, p1, wire) {
                        Some(p2) => {
                            if p2 > pos && p2 <= s.len() {
                                spec_decode_fields(s, p2, acc)
                            } else {
                                None
                            }
                        },
                        None => None,
                    }
                }
            },
            None => None,
        }
    }
}

/// The envelope a byte string decodes to, if it is well formed: every field
/// read in order over the defaults (version zero, empty texts).
pub open spec fn spec_decode_envelope(s: Seq<u8>) -> Option<EnvelopeModel> {
    spec_decode_fields(
        s,
        0,
        EnvelopeModel {
            protocol_version: 0,
            source_id: Seq::empty(),
            destination_id: Seq::empty(),
            namespace: Seq::empty(),
            payload: Seq::empty(),
        },
    )
}

pub(crate) fn copy_range(s: &[u8], from: usize, to: usize) -> (r: Vec<u8>)
    requires
        from <= to <= s@.len(),
    ensures
        r@ == s@.subrange(from as int, to as int),
{
    let mut out: Vec<u8> = Vec::new();
    let mut i = from;
    while i < to
        invariant
            from <= i <= to <= s@.len(),
            out@ == s@.subrange(from as int, i as int),
        decreases to - i,
    {
        out.push(s[i]);
        proof {
            assert(out@ =~= s@.subrange(from as int, i + 1));
        }
        i = i + 1;
    }
    out
}

/// Reads one length-delimited UTF-8 string, as [`spec_read_string`] does.
fn read_string(s: &[u8], pos: usize) -> (r: Option<(String, usize)>)
    requires
        pos <= s@.len(),
    ensures
        match r {
            Some((t, end)) => {
                &&& spec_read_string(s@, pos as int) == Some((t@, end as int))
                &&& pos < end <= s@.len()
            },
            None => spec_read_string(s@, pos as int) is None,
        },
{
    match read_varint(s, pos) {
        Some((len, data)) => {
            if len > (s.len() - data) as u64 {
                return None;
            }
            let end = data + (len as usize);
            let bytes = copy_range(s, data, end);
            match string_from_utf8(bytes) {
                Some(t) => Some((t, end)),
                None => None,
            }
        },
        None => None,
    }
}

/// Advances over one field's value, as [`spec_skip_field`] does.
fn skip_field(s: &[u8], pos: usize, wire: u64) -> (r: Option<usize>)
    requires
        pos <= s@.len(),
    ensures
        match r {
            Some(p) => {
                &&& spec_skip_field(s@, pos as int, wire) == Some(p as int)
                &&& pos < p <= s@.len()
            },
            None => spec_skip_field(s@, pos as int, wire) is None,
        },
{
    if wire == 0 {
        match read_varint(s, pos) {
            Some((_v, end)) => Some(end),
            None => None,
        }
    } else if wire == 1 {
        if s.len() - pos >= 8 {
            Some(pos + 8)
        } else {
            None
        }
    } else if wire == 2 {
        match read_varint(s, pos) {
            Some((len, data)) => {
                if len <= (s.len() - data) as u64 {
                    Some(data + (len as usize))
                } else {
                    None
                }
            },
            None => None,
        }
    } else if wire == 5 {
        if s.len() - pos >= 4 {
            Some(pos + 4)
        } else {
            None
        }
    } else {
        None
    }
}

/// Decodes a binary envelope, exactly as [`spec_decode_envelope`] reads it.
pub fn decode_envelope(s: &[u8]) -> (r: Option<Envelope>)
    ensures
        match r {
            Some(e) => spec_decode_envelope(s@) == Some(e@),
            None => spec_decode_envelope(s@) is None,
        },
{
    let mut env = Envelope {
        protocol_version: 0,
        source_id: String::new(),
        destination_id: String::new(),
        namespace: String::new(),
        payload: String::new(),
    };
    let mut pos: usize = 0;
    while pos < s.len()
        invariant
            pos <= s@.len(),
            spec_decode_fields(s@, pos as int, env@) == spec_decode_envelope(s@),
        decreases s@.len() - pos,
    {
        let ghost acc0 = env@;
        let ghost pos0 = pos as int;
        let (tag, p1) = match read_varint(s, pos) {
            Some(x) => x,
            None => {
                return None;
            },
        };
        let field = tag / 8;
        let wire = tag % 8;
        if field == 1 && wire == 0 {
            match read_varint(s, p1) {
                Some((v, p2)) => {
                    if v <= u32::MAX as u64 {
                        env.protocol_version = v as u32;
                        pos = p2;
                    } else {
                        return None;
                    }
                },
                None => {
                    return None;
                },
            }
        } else if field == 2 && wire == 2 {
            match read_string(s, p1) {
                Some((t, p2)) => {
                    env.source_id = t;
                    pos = p2;
                },
                None => {
                    return None;
                },
            }
        } else if field == 3 && wire == 2 {
            match read_string(s, p1) {
                Some((t, p2)) => {
                    env.destination_id = t;
                    pos = p2;
                },
                None => {
                    return None;
                },
            }
        } else if field == 4 && wire == 2 {
            match read_string(s, p1) {
                Some((t, p2)) => {
                    env.namespace = t;
                    pos = p2;
                },
                None => {
                    return None;
                },
            }
        } else if field == 6 && wire == 2 {
            match read_string(s, p1) {
                Some((t, p2)) => {
                    env.payload = t;
                    pos = p2;
                },
                None => {
                    return None;
                },
            }
        } else {
            match skip_field(s, p1, wire) {
                Some(p2) => {
                    pos = p2;
                },
                None => {
                    return None;
                },
            }
        }
        proof {
            assert(spec_decode_fields(s@, pos0, acc0) == spec_decode_fields(
                s@,
                pos as int,
                env@,
            ));
        }
    }
    Some(env)
}

// ---------------------------------------------------------------------------
// Round trip
// ---------------------------------------------------------------------------

proof fn lemma_read_string_at(t: Seq<char>, s: Seq<u8>, pos: int)
    requires
        0 <= pos,
        encode_utf8(t).len() <= u64::MAX,
        pos + spec_varint(encode_utf8(t).len()).len() + encode_utf8(t).len() <= s.len(),
        s.subrange(
            pos,
            pos + spec_varint(encode_utf8(t).len()).len() + encode_utf8(t).len(),
        ) == spec_varint(encode_utf8(t).len()) + encode_utf8(t),
    ensures
        spec_read_string(s, pos) == Some(
            (t, pos + spec_varint(encode_utf8(t).len()).len() + encode_utf8(t).len()),
        ),
{
    broadcast use vstd::utf8::encode_utf8_valid_utf8, vstd::utf8::encode_utf8_decode_utf8;

    let bytes = encode_utf8(t);
    let v = spec_varint(bytes.len());
    let whole = v + bytes;
    assert(s.subrange(pos, pos + v.len() as int) =~= v) by {
        assert forall|i: int| 0 <= i < v.len() implies s.subrange(pos, pos + v.len() as int)[i]
            == v[i] by {
            assert(s[pos + i] == whole[i]);
        }
    }
    lemma_varint_roundtrip(bytes.len() as u64, s, pos);
    let data = pos + v.len() as int;
    assert(s.subrange(data, data + bytes.len() as int) =~= bytes) by {
        assert forall|i: int| 0 <= i < bytes.len() implies s.subrange(
            data,
            data + bytes.len() as int,
        )[i] == bytes[i] by {
            assert(s[data + i] == whole[v.len() + i]);
        }
    }
    assert(valid_utf8(s.subrange(data, data + bytes.len() as int)));
    assert(decode_utf8(s.subrange(data, data + bytes.len() as int)) == t);
}

/// The field a recognized tag updates, folded over the accumulator.
spec fn upd_field(acc: EnvelopeModel, field: u64, t: Seq<char>) -> EnvelopeModel {
    if field == 2 {
        EnvelopeModel { source_id: t, ..acc }
    } else if field == 3 {
        EnvelopeModel { destination_id: t, ..acc }
    } else if field == 4 {
        EnvelopeModel { namespace: t, ..acc }
    } else {
        EnvelopeModel { payload: t, ..acc }
    }
}

proof fn lemma_decode_str_field(s: Seq<u8>, pos: int, tag: u8, t: Seq<char>, acc: EnvelopeModel)
    requires
        0 <= pos,
        tag < 128,
        tag % 8 == 2,
        tag / 8 == 2 || tag / 8 == 3 || tag / 8 == 4 || tag / 8 == 6,
        encode_utf8(t).len() <= u64::MAX,
        pos + spec_str_field(tag, t).len() <= s.len(),
        s.subrange(pos, pos + spec_str_field(tag, t).len()) == spec_str_field(tag, t),
    ensures
        spec_decode_fields(s, pos, acc) == spec_decode_fields(
            s,
            pos + spec_str_field(tag, t).len(),
            upd_field(acc, (tag / 8) as u64, t),
        ),
{
    let fld = spec_str_field(tag, t);
    let payload_part = spec_varint(encode_utf8(t).len()) + encode_utf8(t);
    assert(s[pos] == fld[0]);
    assert(fld[0] == tag);
    assert(spec_read_varint(s, pos) == Some((tag as u64, pos + 1)));
    assert(s.subrange(pos + 1, pos + fld.len() as int) =~= payload_part) by {
        assert forall|i: int| 0 <= i < payload_part.len() implies s.subrange(
            pos + 1,
            pos + fld.len() as int,
        )[i] == payload_part[i] by {
            assert(s[pos + 1 + i] == fld[1 + i]);
        }
    }
    lemma_read_string_at(t, s, pos + 1);
    assert((tag as u64) / 8 == (tag / 8) as u64);
    assert((tag as u64) % 8 == 2);
}

/// Decoding an encoded envelope reproduces the envelope exactly.
#[verifier::rlimit(100)]
pub proof fn lemma_envelope_roundtrip(e: EnvelopeModel)
    requires
        encode_utf8(e.source_id).len() <= u64::MAX,
        encode_utf8(e.destination_id).len() <= u64::MAX,
        encode_utf8(e.namespace).len() <= u64::MAX,
        encode_utf8(e.payload).len() <= u64::MAX,
    ensures
        spec_decode_envelope(spec_encode_envelope(e)) == Some(e),
{
    let s = spec_encode_envelope(e);
    let v = spec_varint(e.protocol_version as nat);
    let f2 = spec_str_field(0x12, e.source_id);
    let f3 = spec_str_field(0x1a, e.destination_id);
    let f4 = spec_str_field(0x22, e.namespace);
    let f6 = spec_str_field(0x32, e.payload);
    let o1: int = 1;
    let o2 = o1 + v.len() as int;
    let o3 = o2 + f2.len() as int;
    let o4 = o3 + f3.len() as int;
    let o5 = o4 + f4.len() as int;
    let o6 = o5 + 2;
    assert(s.len() == o6 + f6.len());

    let acc0 = EnvelopeModel {
        protocol_version: 0,
        source_id: Seq::empty(),
        destination_id: Seq::empty(),
        namespace: Seq::empty(),
        payload: Seq::empty(),
    };
    // Field 1: the protocol version.
    assert(s[0] == 8u8);
    assert(spec_read_varint(s, 0) == Some((8u64, 1int)));
    assert(s.subrange(o1, o2) =~= v) by {
        assert forall|i: int| 0 <= i < v.len() implies s.subrange(o1, o2)[i] == v[i] by {
            assert(s[o1 + i] == v[i]);
        }
    }
    lemma_varint_roundtrip(e.protocol_version as u64, s, o1);
    let acc1 = EnvelopeModel { protocol_version: e.protocol_version, ..acc0 };
    assert(spec_decode_fields(s, 0, acc0) == spec_decode_fields(s, o2, acc1));

    // Field 2: the source id.
    assert(s.subrange(o2, o3) =~= f2) by {
        assert forall|i: int| 0 <= i < f2.len() implies s.subrange(o2, o3)[i] == f2[i] by {
            assert(s[o2 + i] == f2[i]);
        }
    }
    lemma_decode_str_field(s, o2, 0x12, e.source_id, acc1);
    let acc2 = upd_field(acc1, 2, e.source_id);

    // Field 3: the destination id.
    assert(s.subrange(o3, o4) =~= f3) by {
        assert forall|i: int| 0 <= i < f3.len() implies s.subrange(o3, o4)[i] == f3[i] by {
            assert(s[o3 + i] == f3[i]);
        }
    }
    lemma_decode_str_field(s, o3, 0x1a, e.destination_id, acc2);
    let acc3 = upd_field(acc2, 3, e.destination_id);

    // Field 4: the namespace.
    assert(s.subrange(o4, o5) =~= f4) by {
        assert forall|i: int| 0 <= i < f4.len() implies s.subrange(o4, o5)[i] == f4[i] by {
            assert(s[o4 + i] == f4[i]);
        }
    }
    lemma_decode_str_field(s, o4, 0x22, e.namespace, acc3);
    let acc4 = upd_field(acc3, 4, e.namespace);

    // Field 5: the payload-type marker, skipped as an unmodeled varint field.
    assert(s[o5] == 0x28u8 && s[o5 + 1] == 0u8);
    assert(spec_read_varint(s, o5) == Some((0x28u64, o5 + 1)));
    assert(spec_read_varint(s, o5 + 1) == Some((0u64, o5 + 2)));
    assert(spec_skip_field(s, o5 + 1, 0) == Some(o5 + 2));
    assert(spec_decode_fields(s, o5, acc4) == spec_decode_fields(s, o6, acc4));

    // Field 6: the JSON payload.
    assert(s.subrange(o6, s.len() as int) =~= f6) by {
        assert forall|i: int| 0 <= i < f6.len() implies s.subrange(o6, s.len() as int)[i]
            == f6[i] by {
            assert(s[o6 + i] == f6[i]);
        }
    }
    lemma_decode_str_field(s, o6, 0x32, e.payload, acc4);
    let acc5 = upd_field(acc4, 6, e.payload);
    assert(spec_decode_fields(s, s.len() as int, acc5) == Some(acc5));
    assert(acc5 == e);
}

/// Framing then unframing and decoding reproduces any envelope whose encoding
/// fits one frame: the codec round trip.
#[verifier::rlimit(100)]
pub proof fn lemma_frame_envelope_roundtrip(e: EnvelopeModel)
    requires
        spec_encode_envelope(e).len() <= u32::MAX,
    ensures
        spec_unframe(spec_frame(spec_encode_envelope(e))) matches Some((body, used))
            && spec_decode_envelope(body) == Some(e),
{
    let enc = spec_encode_envelope(e);
    lemma_frame_roundtrip(enc, Seq::empty());
    assert(spec_frame(enc) + Seq::<u8>::empty() =~= spec_frame(enc));
    assert(encode_utf8(e.source_id).len() <= enc.len()) by {
        assert(spec_str_field(0x12, e.source_id).len() >= encode_utf8(e.source_id).len());
    }
    assert(encode_utf8(e.destination_id).len() <= enc.len()) by {
        assert(spec_str_field(0x1a, e.destination_id).len() >= encode_utf8(
            e.destination_id,
        ).len());
    }
    assert(encode_utf8(e.namespace).len() <= enc.len()) by {
        assert(spec_str_field(0x22, e.namespace).len() >= encode_utf8(e.namespace).len());
    }
    assert(encode_utf8(e.payload).len() <= enc.len()) by {
        assert(spec_str_field(0x32, e.payload).len() >= encode_utf8(e.payload).len());
    }
    lemma_envelope_roundtrip(e);
}

// ---------------------------------------------------------------------------
// Framing
// ---------------------------------------------------------------------------

/// A frame length as four big-endian bytes.
pub open spec fn spec_be32(n: u32) -> Seq<u8> {
    seq![
        (n / 0x1000000) as u8,
        ((n / 0x10000) % 256) as u8,
        ((n / 256) % 256) as u8,
        (n % 256) as u8,
    ]
}

/// The value four big-endian bytes denote.
pub open spec fn spec_be32_value(b0: u8, b1: u8, b2: u8, b3: u8) -> u32 {
    ((b0 as int) * 0x1000000 + (b1 as int) * 0x10000 + (b2 as int) * 256 + (b3 as int)) as u32
}

/// A framed message: the body's length as a 4-byte big-endian prefix, then
/// the body.
pub open spec fn spec_frame(body: Seq<u8>) -> Seq<u8>
    recommends
        body.len() <= u32::MAX,
{
    spec_be32(body.len() as u32) + body
}

/// Reads one frame from the head of `s`: the body and the position after it.
pub open spec fn spec_unframe(s: Seq<u8>) -> Option<(Seq<u8>, int)> {
    if s.len() < 4 {
        None
    } else {
        let n = spec_be32_value(s[0], s[1], s[2], s[3]) as int;
        if 4 + n <= s.len() {
            Some((s.subrange(4, 4 + n), 4 + n))
        } else {
            None
        }
    }
}

proof fn lemma_be32_roundtrip(n: u32)
    ensures
        spec_be32_value(
            spec_be32(n)[0],
            spec_be32(n)[1],
            spec_be32(n)[2],
            spec_be32(n)[3],
        ) == n,
{
    assert((((n / 0x1000000) as u8) as u32) * 0x1000000 + ((((n / 0x10000) % 256) as u8) as u32)
        * 0x10000 + ((((n / 256) % 256) as u8) as u32) * 256 + (((n % 256) as u8) as u32)
        == n) by (bit_vector);
}

/// Unframing a framed body yields the body back.
pub proof fn lemma_frame_roundtrip(body: Seq<u8>, rest: Seq<u8>)
    requires
        body.len() <= u32::MAX,
    ensures
        spec_unframe(spec_frame(body) + rest) == Some((body, 4 + body.len() as int)),
{
    let s = spec_frame(body) + rest;
    let p = spec_be32(body.len() as u32);
    lemma_be32_roundtrip(body.len() as u32);
    assert(s[0] == p[0] && s[1] == p[1] && s[2] == p[2] && s[3] == p[3]);
    assert(s.subrange(4, 4 + body.len() as int) =~= body);
}

/// Prefixes `body` with its big-endian length. Fails only when the body is
/// too long for a 4-byte length.
pub fn frame(body: &Vec<u8>) -> (r: Option<Vec<u8>>)
    ensures
        body@.len() <= u32::MAX ==> (r matches Some(f) && f@ == spec_frame(body@)),
        body@.len() > u32::MAX ==> r is None,
{
    if body.len() > u32::MAX as usize {
        return None;
    }
    let n = body.len() as u32;
    let mut out: Vec<u8> = Vec::new();
    out.push((n / 0x1000000) as u8);
    out.push(((n / 0x10000) % 256) as u8);
    out.push(((n / 256) % 256) as u8);
    out.push((n % 256) as u8);
    let mut i: usize = 0;
    while i < body.len()
        invariant
            i <= body@.len(),
            out@ == spec_be32(n).subrange(0, 4) + body@.subrange(0, i as int),
            n == body@.len(),
        decreases body@.len() - i,
    {
        out.push(body[i]);
        proof {
            assert(out@ =~= spec_be32(n).subrange(0, 4) + body@.subrange(0, i + 1));
        }
        i = i + 1;
    }
    proof {
        assert(spec_be32(n).subrange(0, 4) =~= spec_be32(n));
        assert(body@.subrange(0, body@.len() as int) =~= body@);
    }
    Some(out)
}

/// The body length four big-endian prefix bytes announce.
pub fn frame_length(b0: u8, b1: u8, b2: u8, b3: u8) -> (r: u32)
    ensures
        r == spec_be32_value(b0, b1, b2, b3),
{
    (b0 as u32) * 0x1000000 + (b1 as u32) * 0x10000 + (b2 as u32) * 256 + (b3 as u32)
}

/// Reads one frame from the head of `s`, as [`spec_unframe`] does.
pub fn unframe(s: &[u8]) -> (r: Option<(Vec<u8>, usize)>)
    ensures
        match r {
            Some((body, used)) => spec_unframe(s@) == Some((body@, used as int)),
            None => spec_unframe(s@) is None,
        },
{
    if s.len() < 4 {
        return None;
    }
    let n = frame_length(s[0], s[1], s[2], s[3]);
    if (n as usize) > s.len() - 4 {
        return None;
    }
    let body = copy_range(s, 4, 4 + n as usize);
    Some((body, 4 + n as usize))
}

} // verus!
