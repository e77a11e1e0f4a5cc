//! The JSON sub-envelope: a document model, a serializer and a parser.
//!
//! Every application message travels as JSON text inside the binary
//! envelope. The model keeps numbers as their literal tokens, so any value a
//! receiver sends survives a round trip unchanged; strings are decoded with
//! the full escape syntax, including surrogate pairs.

use vstd::prelude::*;
use vstd::utf8::{decode_utf8, encode_utf8, valid_utf8};

verus! {

broadcast use vstd::seq::axiom_seq_index_decreases, vstd::seq::axiom_seq_subrange_decreases, vstd::std_specs::vec::axiom_vec_index_decreases, vstd::std_specs::vec::axiom_vec_decreases_to_view;

/// One member of a JSON object.
#[derive(Debug)]
pub struct JsonPair {
    pub key: String,
    pub value: Json,
}

/// A JSON document. Numbers keep their literal token; object members keep
/// their order and may repeat, as on the wire.
#[derive(Debug)]
pub enum Json {
    Null,
    Bool(bool),
    Num(Vec<u8>),
    Str(String),
    Arr(Vec<Json>),
    Obj(Vec<JsonPair>),
}

/// Mathematical image of a [`JsonPair`].
pub struct JsonPairV {
    pub key: Seq<char>,
    pub value: JsonV,
}

/// Mathematical image of a [`Json`] document.
pub enum JsonV {
    Null,
    Bool(bool),
    Num(Seq<u8>),
    Str(Seq<char>),
    Arr(Seq<JsonV>),
    Obj(Seq<JsonPairV>),
}

/// The document a [`Json`] value denotes.
pub open spec fn jv(j: Json) -> JsonV
    decreases j, 1int,
{
    match j {
        Json::Null => JsonV::Null,
        Json::Bool(b) => JsonV::Bool(b),
        Json::Num(t) => JsonV::Num(t@),
        Json::Str(s) => JsonV::Str(s@),
        Json::Arr(items) => JsonV::Arr(jvs(items@)),
        Json::Obj(pairs) => JsonV::Obj(jps(pairs@)),
    }
}

/// The documents a sequence of [`Json`] values denotes.
pub open spec fn jvs(items: Seq<Json>) -> Seq<JsonV>
    decreases items, 0int,
{
    if items.len() == 0 {
        Seq::empty()
    } else {
        seq![jv(items[0])] + jvs(items.subrange(1, items.len() as int))
    }
}

/// The members a sequence of [`JsonPair`] values denotes.
pub open spec fn jps(pairs: Seq<JsonPair>) -> Seq<JsonPairV>
    decreases pairs, 0int,
{
    if pairs.len() == 0 {
        Seq::empty()
    } else {
        seq![JsonPairV { key: pairs[0].key@, value: jv(pairs[0].value) }] + jps(
            pairs.subrange(1, pairs.len() as int),
        )
    }
}


/// The denotation of a sequence element, by index.
pub proof fn lemma_jvs_index(items: Seq<Json>)
    ensures
        jvs(items).len() == items.len(),
        forall|i: int| 0 <= i < items.len() ==> #[trigger] jvs(items)[i] == jv(items[i]),
    decreases items.len(),
{
    if items.len() > 0 {
        let tail = items.subrange(1, items.len() as int);
        lemma_jvs_index(tail);
        assert forall|i: int| 0 <= i < items.len() implies #[trigger] jvs(items)[i] == jv(
            items[i],
        ) by {
            if i > 0 {
                assert(jvs(items)[i] == jvs(tail)[i - 1]);
                assert(tail[i - 1] == items[i]);
            }
        }
    }
}

/// The denotation of a member, by index.
pub proof fn lemma_jps_index(pairs: Seq<JsonPair>)
    ensures
        jps(pairs).len() == pairs.len(),
        forall|i: int|
            0 <= i < pairs.len() ==> #[trigger] jps(pairs)[i] == (JsonPairV {
                key: pairs[i].key@,
                value: jv(pairs[i].value),
            }),
    decreases pairs.len(),
{
    if pairs.len() > 0 {
        let tail = pairs.subrange(1, pairs.len() as int);
        lemma_jps_index(tail);
        assert forall|i: int| 0 <= i < pairs.len() implies #[trigger] jps(pairs)[i] == (JsonPairV {
            key: pairs[i].key@,
            value: jv(pairs[i].value),
        }) by {
            if i > 0 {
                assert(jps(pairs)[i] == jps(tail)[i - 1]);
                assert(tail[i - 1] == pairs[i]);
            }
        }
    }
}

// ---------------------------------------------------------------------------
// Well-formedness
// ---------------------------------------------------------------------------

/// The bytes that may occur in a number token.
pub open spec fn num_char(b: u8) -> bool {
    b == 0x2b || b == 0x2d || b == 0x2e || (0x30 <= b && b <= 0x39) || b == 0x45 || b == 0x65
}

/// A plausible number token: sign or digit first, number bytes throughout.
pub open spec fn token_wf(t: Seq<u8>) -> bool {
    &&& t.len() >= 1
    &&& forall|i: int| 0 <= i < t.len() ==> num_char(#[trigger] t[i])
    &&& (t[0] == 0x2d || (0x30 <= t[0] && t[0] <= 0x39))
}

/// A document the serializer can commit to the wire: every number token is
/// plausible.
pub open spec fn json_wf(v: JsonV) -> bool
    decreases v, 1int,
{
    match v {
        JsonV::Null => true,
        JsonV::Bool(_) => true,
        JsonV::Num(t) => token_wf(t),
        JsonV::Str(_) => true,
        JsonV::Arr(items) => forall|i: int| 0 <= i < items.len() ==> json_wf(#[trigger] items[i]),
        JsonV::Obj(pairs) => forall|i: int|
            0 <= i < pairs.len() ==> json_wf(#[trigger] pairs[i].value),
    }
}

// ---------------------------------------------------------------------------
// Serializing
// ---------------------------------------------------------------------------

/// A byte of the serializer's hexadecimal notation.
pub open spec fn hex_digit(n: u8) -> u8 {
    if n < 10 {
        (0x30 + n) as u8
    } else {
        (0x57 + n) as u8
    }
}

/// How one content byte appears inside a JSON string literal: quote and
/// backslash escaped, control bytes in hexadecimal, the rest verbatim.
pub open spec fn esc_byte(b: u8) -> Seq<u8> {
    if b == 0x22 {
        seq![0x5cu8, 0x22u8]
    } else if b == 0x5c {
        seq![0x5cu8, 0x5cu8]
    } else if b < 0x20 {
        seq![0x5cu8, 0x75u8, 0x30u8, 0x30u8, hex_digit(b / 16), hex_digit(b % 16)]
    } else {
        seq![b]
    }
}

/// A string body, escaped byte for byte.
pub open spec fn esc_bytes(bs: Seq<u8>) -> Seq<u8>
    decreases bs.len(),
{
    if bs.len() == 0 {
        Seq::empty()
    } else {
        esc_byte(bs[0]) + esc_bytes(bs.subrange(1, bs.len() as int))
    }
}

/// A string literal: quoted, escaped UTF-8.
pub open spec fn ser_string(s: Seq<char>) -> Seq<u8> {
    seq![0x22u8] + esc_bytes(encode_utf8(s)) + seq![0x22u8]
}

/// The canonical text of a document: no whitespace, members in order.
pub open spec fn ser_json(v: JsonV) -> Seq<u8>
    decreases v, 1int,
{
    match v {
        JsonV::Null => seq![0x6eu8, 0x75u8, 0x6cu8, 0x6cu8],
        JsonV::Bool(b) => {
            if b {
                seq![0x74u8, 0x72u8, 0x75u8, 0x65u8]
            } else {
                seq![0x66u8, 0x61u8, 0x6cu8, 0x73u8, 0x65u8]
            }
        },
        JsonV::Num(t) => t,
        JsonV::Str(s) => ser_string(s),
        JsonV::Arr(items) => {
            if items.len() == 0 {
                seq![0x5bu8, 0x5du8]
            } else {
                seq![0x5bu8] + ser_items(items) + seq![0x5du8]
            }
        },
        JsonV::Obj(pairs) => {
            if pairs.len() == 0 {
                seq![0x7bu8, 0x7du8]
            } else {
                seq![0x7bu8] + ser_pairs(pairs) + seq![0x7du8]
            }
        },
    }
}

/// Array elements joined with commas.
pub open spec fn ser_items(items: Seq<JsonV>) -> Seq<u8>
    decreases items, 0int,
{
    if items.len() == 0 {
        Seq::empty()
    } else if items.len() == 1 {
        ser_json(items[0])
    } else {
        ser_json(items[0]) + seq![0x2cu8] + ser_items(items.subrange(1, items.len() as int))
    }
}

/// Object members joined with commas, each a quoted key, a colon and the
/// member's value.
pub open spec fn ser_pairs(pairs: Seq<JsonPairV>) -> Seq<u8>
    decreases pairs, 0int,
{
    if pairs.len() == 0 {
        Seq::empty()
    } else {
        let head = ser_string(pairs[0].key) + seq![0x3au8] + ser_json(pairs[0].value);
        if pairs.len() == 1 {
            head
        } else {
            head + seq![0x2cu8] + ser_pairs(pairs.subrange(1, pairs.len() as int))
        }
    }
}

/// Serializing distributes over concatenated string bodies.
proof fn lemma_esc_bytes_concat(a: Seq<u8>, b: Seq<u8>)
    ensures
        esc_bytes(a + b) == esc_bytes(a) + esc_bytes(b),
    decreases a.len(),
{
    if a.len() == 0 {
        assert(a + b =~= b);
        assert(esc_bytes(a) + esc_bytes(b) =~= esc_bytes(b));
    } else {
        let tail = a.subrange(1, a.len() as int);
        assert((a + b).subrange(1, (a + b).len() as int) =~= tail + b);
        lemma_esc_bytes_concat(tail, b);
        assert(esc_byte(a[0]) + (esc_bytes(tail) + esc_bytes(b)) =~= (esc_byte(a[0]) + esc_bytes(
            tail,
        )) + esc_bytes(b));
        assert((a + b)[0] == a[0]);
    }
}

/// Escaping leaves bytes outside the escape set untouched.
proof fn lemma_esc_bytes_identity(s: Seq<u8>)
    requires
        forall|i: int| 0 <= i < s.len() ==> #[trigger] s[i] >= 0x80,
    ensures
        esc_bytes(s) == s,
    decreases s.len(),
{
    if s.len() > 0 {
        lemma_esc_bytes_identity(s.subrange(1, s.len() as int));
        assert(esc_bytes(s) =~= s);
    }
}

/// A sequence of 7-bit bytes is valid UTF-8.
proof fn lemma_ascii_seq_valid(s: Seq<u8>)
    requires
        forall|i: int| 0 <= i < s.len() ==> #[trigger] s[i] < 0x80,
    ensures
        valid_utf8(s),
    decreases s.len(),
{
    if s.len() > 0 {
        assert(vstd::utf8::valid_first_scalar(s));
        assert(vstd::utf8::pop_first_scalar(s) =~= s.subrange(1, s.len() as int));
        lemma_ascii_seq_valid(s.subrange(1, s.len() as int));
    }
}

/// The escape notation of a 7-bit byte is made of 7-bit bytes.
proof fn lemma_esc_byte_ascii(b: u8)
    requires
        b < 0x80,
    ensures
        forall|i: int| 0 <= i < esc_byte(b).len() ==> #[trigger] esc_byte(b)[i] < 0x80,
{
}

/// An escaped UTF-8 string body is itself valid UTF-8: the escapes are
/// ASCII and multi-byte encodings pass through whole.
proof fn lemma_esc_utf8_valid(chars: Seq<char>)
    ensures
        valid_utf8(esc_bytes(encode_utf8(chars))),
    decreases chars.len(),
{
    broadcast use vstd::utf8::valid_utf8_concat;

    if chars.len() == 0 {
        assert(esc_bytes(encode_utf8(chars)) =~= Seq::empty());
    } else {
        let c = chars[0];
        let enc = vstd::utf8::encode_scalar(c as u32);
        let restb = encode_utf8(chars.drop_first());
        let whole = enc + restb;
        assert(encode_utf8(chars) == whole);
        lemma_esc_bytes_concat(enc, restb);
        lemma_esc_utf8_valid(chars.drop_first());
        vstd::utf8::char_is_scalar(c);
        vstd::utf8::encode_utf8_first_scalar(chars);
        assert(vstd::utf8::length_of_first_scalar(whole) == enc.len());
        if (c as u32) < 0x80 {
            assert(enc.len() == 1);
            assert(vstd::utf8::is_leading_byte_width_1(whole[0]));
            assert(enc[0] == whole[0]);
            assert(enc.subrange(1, 1) =~= Seq::<u8>::empty());
            assert(esc_bytes(enc) == esc_byte(enc[0]) + esc_bytes(enc.subrange(1, 1)));
            assert(esc_bytes(enc) =~= esc_byte(enc[0]));
            lemma_esc_byte_ascii(enc[0]);
            lemma_ascii_seq_valid(esc_bytes(enc));
        } else {
            assert(enc.len() >= 2);
            assert(vstd::utf8::valid_leading_and_continuation_bytes_first_codepoint(whole));
            assert(vstd::utf8::length_of_first_codepoint(whole) == enc.len());
            assert forall|i: int| 0 <= i < enc.len() implies #[trigger] enc[i] >= 0x80 by {
                assert(whole[i] == enc[i]);
                if i == 0 {
                    assert(!vstd::utf8::is_leading_byte_width_1(whole[0]));
                } else {
                    assert(vstd::utf8::is_continuation_byte(whole[i]));
                }
            }
            lemma_esc_bytes_identity(enc);
            let combined = enc + esc_bytes(restb);
            assert(forall|i: int| 0 <= i < enc.len() ==> #[trigger] combined[i] == whole[i]);
            assert(vstd::utf8::valid_first_scalar(combined));
            assert(vstd::utf8::length_of_first_scalar(combined) == enc.len());
            assert(vstd::utf8::pop_first_scalar(combined) =~= esc_bytes(restb));
            assert(valid_utf8(combined));
            assert(esc_bytes(encode_utf8(chars)) == combined);
        }
    }
}

/// A serialized document is valid UTF-8 text.
pub proof fn lemma_ser_json_utf8(v: JsonV)
    ensures
        json_wf(v) ==> valid_utf8(ser_json(v)),
    decreases v, 1int,
{
    broadcast use vstd::utf8::valid_utf8_concat;

    if json_wf(v) {
        match v {
            JsonV::Null => {
                lemma_ascii_seq_valid(ser_json(v));
            },
            JsonV::Bool(_) => {
                lemma_ascii_seq_valid(ser_json(v));
            },
            JsonV::Num(t) => {
                lemma_ascii_seq_valid(t);
            },
            JsonV::Str(s) => {
                lemma_ser_string_utf8(s);
            },
            JsonV::Arr(items) => {
                if items.len() == 0 {
                    lemma_ascii_seq_valid(ser_json(v));
                } else {
                    lemma_ascii_seq_valid(seq![0x5bu8]);
                    lemma_ascii_seq_valid(seq![0x5du8]);
                    lemma_ser_items_utf8(items);
                    assert(valid_utf8(seq![0x5bu8] + ser_items(items)));
                    assert(valid_utf8((seq![0x5bu8] + ser_items(items)) + seq![0x5du8]));
                }
            },
            JsonV::Obj(pairs) => {
                if pairs.len() == 0 {
                    lemma_ascii_seq_valid(ser_json(v));
                } else {
                    lemma_ascii_seq_valid(seq![0x7bu8]);
                    lemma_ascii_seq_valid(seq![0x7du8]);
                    lemma_ser_pairs_utf8(pairs);
                    assert(valid_utf8(seq![0x7bu8] + ser_pairs(pairs)));
                    assert(valid_utf8((seq![0x7bu8] + ser_pairs(pairs)) + seq![0x7du8]));
                }
            },
        }
    }
}

/// A serialized string literal is valid UTF-8 text.
proof fn lemma_ser_string_utf8(s: Seq<char>)
    ensures
        valid_utf8(ser_string(s)),
{
    broadcast use vstd::utf8::valid_utf8_concat;

    let q = seq![0x22u8];
    let body = esc_bytes(encode_utf8(s));
    lemma_ascii_seq_valid(q);
    lemma_esc_utf8_valid(s);
    assert(valid_utf8(q + body));
    assert(valid_utf8((q + body) + q));
}

proof fn lemma_ser_items_utf8(items: Seq<JsonV>)
    requires
        items.len() >= 1,
        forall|i: int| 0 <= i < items.len() ==> json_wf(#[trigger] items[i]),
    ensures
        valid_utf8(ser_items(items)),
    decreases items, 0int,
{
    broadcast use vstd::utf8::valid_utf8_concat;

    lemma_ser_json_utf8(items[0]);
    if items.len() > 1 {
        lemma_ascii_seq_valid(seq![0x2cu8]);
        lemma_ser_items_utf8(items.subrange(1, items.len() as int));
        let head = ser_json(items[0]);
        let rest = ser_items(items.subrange(1, items.len() as int));
        assert(valid_utf8(head + seq![0x2cu8]));
        assert(valid_utf8((head + seq![0x2cu8]) + rest));
    }
}

proof fn lemma_ser_pairs_utf8(pairs: Seq<JsonPairV>)
    requires
        pairs.len() >= 1,
        forall|i: int| 0 <= i < pairs.len() ==> json_wf(#[trigger] pairs[i].value),
    ensures
        valid_utf8(ser_pairs(pairs)),
    decreases pairs, 0int,
{
    broadcast use vstd::utf8::valid_utf8_concat;

    lemma_ser_string_utf8(pairs[0].key);
    lemma_ascii_seq_valid(seq![0x3au8]);
    lemma_ser_json_utf8(pairs[0].value);
    let head = ser_string(pairs[0].key) + seq![0x3au8] + ser_json(pairs[0].value);
    assert(valid_utf8(ser_string(pairs[0].key) + seq![0x3au8]));
    assert(valid_utf8(head));
    if pairs.len() > 1 {
        lemma_ascii_seq_valid(seq![0x2cu8]);
        lemma_ser_pairs_utf8(pairs.subrange(1, pairs.len() as int));
        let rest = ser_pairs(pairs.subrange(1, pairs.len() as int));
        assert(valid_utf8(head + seq![0x2cu8]));
        assert(valid_utf8((head + seq![0x2cu8]) + rest));
    }
}

/// Appends one escaped content byte.
fn write_esc_byte(b: u8, out: &mut Vec<u8>)
    ensures
        final(out)@ == old(out)@ + esc_byte(b),
{
    if b == 0x22 {
        out.push(0x5c);
        out.push(0x22);
    } else if b == 0x5c {
        out.push(0x5c);
        out.push(0x5c);
    } else if b < 0x20 {
        out.push(0x5c);
        out.push(0x75);
        out.push(0x30);
        out.push(0x30);
        let hi = b / 16;
        let lo = b % 16;
        out.push(if hi < 10 { 0x30 + hi } else { 0x57 + hi });
        out.push(if lo < 10 { 0x30 + lo } else { 0x57 + lo });
    } else {
        out.push(b);
    }
    proof {
        assert(final(out)@ =~= old(out)@ + esc_byte(b));
    }
}

/// Appends a quoted, escaped string literal.
fn write_string(s: &str, out: &mut Vec<u8>)
    ensures
        final(out)@ == old(out)@ + ser_string(s@),
{
    out.push(0x22);
    let bytes = s.as_bytes();
    let mut i: usize = 0;
    while i < bytes.len()
        invariant
            i <= bytes@.len(),
            bytes@ == encode_utf8(s@),
            out@ == old(out)@ + seq![0x22u8] + esc_bytes(bytes@.subrange(0, i as int)),
        decreases bytes@.len() - i,
    {
        let ghost before = bytes@.subrange(0, i as int);
        write_esc_byte(bytes[i], out);
        proof {
            assert(bytes@.subrange(0, i + 1) =~= before + seq![bytes@[i as int]]);
            lemma_esc_bytes_concat(before, seq![bytes@[i as int]]);
            assert(esc_bytes(seq![bytes@[i as int]]) =~= esc_byte(bytes@[i as int])) by {
                let one = seq![bytes@[i as int]];
                assert(one.subrange(1, 1) =~= Seq::<u8>::empty());
                assert(esc_bytes(one) == esc_byte(one[0]) + esc_bytes(one.subrange(1, 1)));
                assert(esc_byte(one[0]) + Seq::<u8>::empty() =~= esc_byte(one[0]));
            }
            assert(out@ =~= old(out)@ + seq![0x22u8] + esc_bytes(bytes@.subrange(0, i + 1)));
        }
        i = i + 1;
    }
    out.push(0x22);
    proof {
        assert(bytes@.subrange(0, bytes@.len() as int) =~= bytes@);
        assert(out@ =~= old(out)@ + ser_string(s@));
    }
}

/// The serialization of the elements from `i` on, commas between them.
spec fn ser_items_from(items: Seq<Json>, i: int) -> Seq<u8>
    decreases items.len() - i,
{
    if i < 0 || i >= items.len() {
        Seq::empty()
    } else if i == items.len() - 1 {
        ser_json(jv(items[i]))
    } else {
        ser_json(jv(items[i])) + seq![0x2cu8] + ser_items_from(items, i + 1)
    }
}

/// The serialization of the members from `i` on, commas between them.
spec fn ser_pairs_from(pairs: Seq<JsonPair>, i: int) -> Seq<u8>
    decreases pairs.len() - i,
{
    if i < 0 || i >= pairs.len() {
        Seq::empty()
    } else {
        let head = ser_string(pairs[i].key@) + seq![0x3au8] + ser_json(jv(pairs[i].value));
        if i == pairs.len() - 1 {
            head
        } else {
            head + seq![0x2cu8] + ser_pairs_from(pairs, i + 1)
        }
    }
}

proof fn lemma_ser_items_from(items: Seq<Json>, i: int)
    requires
        0 <= i <= items.len(),
    ensures
        ser_items_from(items, i) == ser_items(jvs(items.subrange(i, items.len() as int))),
    decreases items.len() - i,
{
    let sub = items.subrange(i, items.len() as int);
    if i >= items.len() {
        assert(sub.len() == 0);
    } else {
        assert(jvs(sub).len() >= 1 && jvs(sub)[0] == jv(items[i])) by {
            assert(sub[0] == items[i]);
        }
        if i == items.len() - 1 {
            assert(jvs(sub) =~= seq![jv(items[i])] + jvs(sub.subrange(1, sub.len() as int)));
            assert(sub.subrange(1, sub.len() as int) =~= Seq::<Json>::empty());
            assert(jvs(sub).len() == 1);
        } else {
            lemma_ser_items_from(items, i + 1);
            let subn = items.subrange(i + 1, items.len() as int);
            assert(sub.subrange(1, sub.len() as int) =~= subn);
            assert(jvs(sub) == seq![jv(items[i])] + jvs(subn));
            assert(jvs(subn).len() == subn.len()) by {
                lemma_jvs_len(subn);
            }
            assert(jvs(sub).subrange(1, jvs(sub).len() as int) =~= jvs(subn));
        }
    }
}

proof fn lemma_jvs_len(items: Seq<Json>)
    ensures
        jvs(items).len() == items.len(),
    decreases items.len(),
{
    if items.len() > 0 {
        lemma_jvs_len(items.subrange(1, items.len() as int));
    }
}

proof fn lemma_jps_len(pairs: Seq<JsonPair>)
    ensures
        jps(pairs).len() == pairs.len(),
    decreases pairs.len(),
{
    if pairs.len() > 0 {
        lemma_jps_len(pairs.subrange(1, pairs.len() as int));
    }
}

proof fn lemma_ser_pairs_from(pairs: Seq<JsonPair>, i: int)
    requires
        0 <= i <= pairs.len(),
    ensures
        ser_pairs_from(pairs, i) == ser_pairs(jps(pairs.subrange(i, pairs.len() as int))),
    decreases pairs.len() - i,
{
    let sub = pairs.subrange(i, pairs.len() as int);
    if i >= pairs.len() {
        assert(sub.len() == 0);
    } else {
        assert(jps(sub).len() >= 1 && jps(sub)[0] == (JsonPairV {
            key: pairs[i].key@,
            value: jv(pairs[i].value),
        })) by {
            assert(sub[0] == pairs[i]);
        }
        if i == pairs.len() - 1 {
            assert(sub.subrange(1, sub.len() as int) =~= Seq::<JsonPair>::empty());
            assert(jps(Seq::<JsonPair>::empty()).len() == 0);
            assert(jps(sub) =~= seq![jps(sub)[0]]);
            assert(jps(sub).len() == 1);
        } else {
            lemma_ser_pairs_from(pairs, i + 1);
            let subn = pairs.subrange(i + 1, pairs.len() as int);
            assert(sub.subrange(1, sub.len() as int) =~= subn);
            assert(jps(sub) == seq![jps(sub)[0]] + jps(subn));
            lemma_jps_len(subn);
            assert(jps(sub).subrange(1, jps(sub).len() as int) =~= jps(subn));
        }
    }
}

/// Appends the canonical text of a document.
pub fn write_json(j: &Json, out: &mut Vec<u8>)
    ensures
        final(out)@ == old(out)@ + ser_json(jv(*j)),
    decreases *j, 1int, 0int,
{
    match j {
        Json::Null => {
            out.push(0x6e);
            out.push(0x75);
            out.push(0x6c);
            out.push(0x6c);
            proof {
                assert(out@ =~= old(out)@ + ser_json(jv(*j)));
            }
        },
        Json::Bool(b) => {
            if *b {
                out.push(0x74);
                out.push(0x72);
                out.push(0x75);
                out.push(0x65);
            } else {
                out.push(0x66);
                out.push(0x61);
                out.push(0x6c);
                out.push(0x73);
                out.push(0x65);
            }
            proof {
                assert(out@ =~= old(out)@ + ser_json(jv(*j)));
            }
        },
        Json::Num(t) => {
            let mut i: usize = 0;
            while i < t.len()
                invariant
                    i <= t@.len(),
                    out@ == old(out)@ + t@.subrange(0, i as int),
                decreases t@.len() - i,
            {
                out.push(t[i]);
                proof {
                    assert(out@ =~= old(out)@ + t@.subrange(0, i + 1));
                }
                i = i + 1;
            }
            proof {
                assert(t@.subrange(0, t@.len() as int) =~= t@);
            }
        },
        Json::Str(s) => {
            write_string(s.as_str(), out);
        },
        Json::Arr(items) => {
            out.push(0x5b);
            if items.len() > 0 {
                write_items(items, 0, out);
            }
            out.push(0x5d);
            proof {
                lemma_ser_items_from(items@, 0);
                assert(items@.subrange(0, items@.len() as int) =~= items@);
                assert(out@ =~= old(out)@ + ser_json(jv(*j)));
            }
        },
        Json::Obj(pairs) => {
            out.push(0x7b);
            if pairs.len() > 0 {
                write_pairs(pairs, 0, out);
            }
            out.push(0x7d);
            proof {
                lemma_ser_pairs_from(pairs@, 0);
                assert(pairs@.subrange(0, pairs@.len() as int) =~= pairs@);
                assert(out@ =~= old(out)@ + ser_json(jv(*j)));
            }
        },
    }
}

fn write_items(items: &Vec<Json>, i: usize, out: &mut Vec<u8>)
    requires
        i < items@.len(),
    ensures
        final(out)@ == old(out)@ + ser_items_from(items@, i as int),
    decreases *items, 0int, items@.len() - i,
{
    write_json(&items[i], out);
    if i < items.len() - 1 {
        out.push(0x2c);
        write_items(items, i + 1, out);
        proof {
            assert(out@ =~= old(out)@ + ser_items_from(items@, i as int));
        }
    }
}

fn write_pairs(pairs: &Vec<JsonPair>, i: usize, out: &mut Vec<u8>)
    requires
        i < pairs@.len(),
    ensures
        final(out)@ == old(out)@ + ser_pairs_from(pairs@, i as int),
    decreases *pairs, 0int, pairs@.len() - i,
{
    write_string(pairs[i].key.as_str(), out);
    out.push(0x3a);
    write_json(&pairs[i].value, out);
    if i < pairs.len() - 1 {
        out.push(0x2c);
        write_pairs(pairs, i + 1, out);
    }
    proof {
        assert(out@ =~= old(out)@ + ser_pairs_from(pairs@, i as int));
    }
}

/// The canonical text of a document, as bytes.
pub fn json_to_bytes(j: &Json) -> (r: Vec<u8>)
    ensures
        r@ == ser_json(jv(*j)),
{
    let mut out: Vec<u8> = Vec::new();
    write_json(j, &mut out);
    proof {
        assert(out@ =~= ser_json(jv(*j)));
    }
    out
}

// ---------------------------------------------------------------------------
// Parsing
// ---------------------------------------------------------------------------

/// JSON whitespace.
pub open spec fn ws_char(b: u8) -> bool {
    b == 0x20 || b == 0x09 || b == 0x0a || b == 0x0d
}

/// The first position at or after `pos` holding a non-whitespace byte, or
/// the end of the input.
pub open spec fn sp_ws(s: Seq<u8>, pos: int) -> int
    decreases s.len() - pos,
{
    if pos < 0 || pos >= s.len() {
        pos
    } else if ws_char(s[pos]) {
        sp_ws(s, pos + 1)
    } else {
        pos
    }
}

/// The first position at or after `pos` holding a byte no number token may
/// contain, or the end of the input.
pub open spec fn sp_num_end(s: Seq<u8>, pos: int) -> int
    decreases s.len() - pos,
{
    if pos < 0 || pos >= s.len() {
        pos
    } else if num_char(s[pos]) {
        sp_num_end(s, pos + 1)
    } else {
        pos
    }
}

/// The numeric value of a hexadecimal digit byte.
pub open spec fn sp_hex_val(b: u8) -> Option<u32> {
    if 0x30 <= b && b <= 0x39 {
        Some((b - 0x30) as u32)
    } else if 0x61 <= b && b <= 0x66 {
        Some((b - 0x61 + 10) as u32)
    } else if 0x41 <= b && b <= 0x46 {
        Some((b - 0x41 + 10) as u32)
    } else {
        None
    }
}

/// Four hexadecimal digits at `pos`, as a code point.
pub open spec fn sp_hex4(s: Seq<u8>, pos: int) -> Option<u32> {
    if 0 <= pos && pos + 4 <= s.len() {
        match (sp_hex_val(s[pos]), sp_hex_val(s[pos + 1]), sp_hex_val(s[pos + 2]), sp_hex_val(
            s[pos + 3],
        )) {
            (Some(a), Some(b), Some(c), Some(d)) => Some(
                (a * 0x1000 + b * 0x100 + c * 0x10 + d) as u32,
            ),
            _ => None,
        }
    } else {
        None
    }
}

/// The UTF-8 encoding of a Unicode scalar value.
pub open spec fn utf8_enc(cp: u32) -> Seq<u8> {
    if cp < 0x80 {
        seq![cp as u8]
    } else if cp < 0x800 {
        seq![(0xc0 + cp / 0x40) as u8, (0x80 + cp % 0x40) as u8]
    } else if cp < 0x10000 {
        seq![(0xe0 + cp / 0x1000) as u8, (0x80 + (cp / 0x40) % 0x40) as u8, (0x80 + cp % 0x40) as u8]
    } else {
        seq![
            (0xf0 + cp / 0x40000) as u8,
            (0x80 + (cp / 0x1000) % 0x40) as u8,
            (0x80 + (cp / 0x40) % 0x40) as u8,
            (0x80 + cp % 0x40) as u8,
        ]
    }
}

/// Reads a string body from just after its opening quote: the unescaped
/// content bytes and the position after the closing quote.
pub open spec fn sp_str_content(s: Seq<u8>, pos: int) -> Option<(Seq<u8>, int)>
    decreases s.len() - pos, 0int,
{
    if pos < 0 || pos >= s.len() {
        None
    } else if s[pos] == 0x22 {
        Some((Seq::empty(), pos + 1))
    } else if s[pos] == 0x5c {
        if pos + 1 >= s.len() {
            None
        } else {
            let e = s[pos + 1];
            if e == 0x22 || e == 0x5c || e == 0x2f {
                match sp_str_content(s, pos + 2) {
                    Some((rest, q)) => Some((seq![e] + rest, q)),
                    None => None,
                }
            } else if e == 0x62 {
                match sp_str_content(s, pos + 2) {
                    Some((rest, q)) => Some((seq![0x08u8] + rest, q)),
                    None => None,
                }
            } else if e == 0x66 {
                match sp_str_content(s, pos + 2) {
                    Some((rest, q)) => Some((seq![0x0cu8] + rest, q)),
                    None => None,
                }
            } else if e == 0x6e {
                match sp_str_content(s, pos + 2) {
                    Some((rest, q)) => Some((seq![0x0au8] + rest, q)),
                    None => None,
                }
            } else if e == 0x72 {
                match sp_str_content(s, pos + 2) {
                    Some((rest, q)) => Some((seq![0x0du8] + rest, q)),
                    None => None,
                }
            } else if e == 0x74 {
                match sp_str_content(s, pos + 2) {
                    Some((rest, q)) => Some((seq![0x09u8] + rest, q)),
                    None => None,
                }
            } else if e == 0x75 {
                match sp_hex4(s, pos + 2) {
                    Some(cp) => {
                        if 0xd800 <= cp && cp < 0xdc00 {
                            // A high surrogate must pair with a low one.
                            if pos + 12 <= s.len() && s[pos + 6] == 0x5c && s[pos + 7] == 0x75 {
                                match sp_hex4(s, pos + 8) {
                                    Some(lo) => {
                                        if 0xdc00 <= lo && lo < 0xe000 {
                                            let scalar = 0x10000 + (cp - 0xd800) * 0x400 + (lo
                                                - 0xdc00);
                                            match sp_str_content(s, pos + 12) {
                                                Some((rest, q)) => Some(
                                                    (utf8_enc(scalar as u32) + rest, q),
                                                ),
                                                None => None,
                                            }
                                        } else {
                                            None
                                        }
                                    },
                                    None => None,
                                }
                            } else {
                                None
                            }
                        } else if 0xdc00 <= cp && cp < 0xe000 {
                            None
                        } else {
                            match sp_str_content(s, pos + 6) {
                                Some((rest, q)) => Some((utf8_enc(cp) + rest, q)),
                                None => None,
                            }
                        }
                    },
                    None => None,
                }
            } else {
                None
            }
        }
    } else if s[pos] < 0x20 {
        None
    } else {
        match sp_str_content(s, pos + 1) {
            Some((rest, q)) => Some((seq![s[pos]] + rest, q)),
            None => None,
        }
    }
}

/// Reads one JSON value at `pos`, after any whitespace: the document and the
/// position after it.
pub open spec fn sp_value(s: Seq<u8>, pos: int) -> Option<(JsonV, int)>
    decreases s.len() - pos, 2int,
{
    let p = sp_ws(s, pos);
    if p < pos || p >= s.len() {
        None
    } else {
        let b = s[p];
        if b == 0x6e {
            if p + 4 <= s.len() && s[p + 1] == 0x75 && s[p + 2] == 0x6c && s[p + 3] == 0x6c {
                Some((JsonV::Null, p + 4))
            } else {
                None
            }
        } else if b == 0x74 {
            if p + 4 <= s.len() && s[p + 1] == 0x72 && s[p + 2] == 0x75 && s[p + 3] == 0x65 {
                Some((JsonV::Bool(true), p + 4))
            } else {
                None
            }
        } else if b == 0x66 {
            if p + 5 <= s.len() && s[p + 1] == 0x61 && s[p + 2] == 0x6c && s[p + 3] == 0x73 && s[p
                + 4] == 0x65 {
                Some((JsonV::Bool(false), p + 5))
            } else {
                None
            }
        } else if b == 0x22 {
            match sp_str_content(s, p + 1) {
                Some((bytes, q)) => {
                    if valid_utf8(bytes) {
                        Some((JsonV::Str(decode_utf8(bytes)), q))
                    } else {
                        None
                    }
                },
                None => None,
            }
        } else if b == 0x2d || (0x30 <= b && b <= 0x39) {
            let q = sp_num_end(s, p + 1);
            if p < q && q <= s.len() {
                Some((JsonV::Num(s.subrange(p, q)), q))
            } else {
                None
            }
        } else if b == 0x5b {
            let q = sp_ws(s, p + 1);
            if q < p + 1 || q > s.len() {
                None
            } else if q < s.len() && s[q] == 0x5d {
                Some((JsonV::Arr(Seq::empty()), q + 1))
            } else {
                match sp_arr_items(s, p + 1) {
                    Some((items, e)) => Some((JsonV::Arr(items), e)),
                    None => None,
                }
            }
        } else if b == 0x7b {
            let q = sp_ws(s, p + 1);
            if q < p + 1 || q > s.len() {
                None
            } else if q < s.len() && s[q] == 0x7d {
                Some((JsonV::Obj(Seq::empty()), q + 1))
            } else {
                match sp_obj_items(s, p + 1) {
                    Some((pairs, e)) => Some((JsonV::Obj(pairs), e)),
                    None => None,
                }
            }
        } else {
            None
        }
    }
}

/// Reads the elements of a non-empty array from just after its opening
/// bracket (or a comma): the elements and the position after the closing
/// bracket.
pub open spec fn sp_arr_items(s: Seq<u8>, pos: int) -> Option<(Seq<JsonV>, int)>
    decreases s.len() - pos, 3int,
{
    if pos < 0 {
        None
    } else {
        match sp_value(s, pos) {
            Some((v, q)) => {
                if q <= pos || q > s.len() {
                    None
                } else {
                    let r = sp_ws(s, q);
                    if r < q || r >= s.len() {
                        None
                    } else if s[r] == 0x2c {
                        match sp_arr_items(s, r + 1) {
                            Some((rest, e)) => Some((seq![v] + rest, e)),
                            None => None,
                        }
                    } else if s[r] == 0x5d {
                        Some((seq![v], r + 1))
                    } else {
                        None
                    }
                }
            },
            None => None,
        }
    }
}

/// Reads the members of a non-empty object from just after its opening brace
/// (or a comma): the members and the position after the closing brace.
pub open spec fn sp_obj_items(s: Seq<u8>, pos: int) -> Option<(Seq<JsonPairV>, int)>
    decreases s.len() - pos, 3int,
{
    if pos < 0 {
        None
    } else {
        let p = sp_ws(s, pos);
        if p < pos || p >= s.len() || s[p] != 0x22 {
            None
        } else {
            match sp_str_content(s, p + 1) {
                Some((kb, q)) => {
                    if !valid_utf8(kb) || q <= p || q > s.len() {
                        None
                    } else {
                        let key = decode_utf8(kb);
                        let r = sp_ws(s, q);
                        if r < q || r >= s.len() || s[r] != 0x3a {
                            None
                        } else {
                            match sp_value(s, r + 1) {
                                Some((v, t)) => {
                                    if t <= r || t > s.len() {
                                        None
                                    } else {
                                        let u = sp_ws(s, t);
                                        if u < t || u >= s.len() {
                                            None
                                        } else if s[u] == 0x2c {
                                            match sp_obj_items(s, u + 1) {
                                                Some((rest, e)) => Some(
                                                    (seq![JsonPairV { key, value: v }] + rest, e),
                                                ),
                                                None => None,
                                            }
                                        } else if s[u] == 0x7d {
                                            Some((seq![JsonPairV { key, value: v }], u + 1))
                                        } else {
                                            None
                                        }
                                    }
                                },
                                None => None,
                            }
                        }
                    }
                },
                None => None,
            }
        }
    }
}

/// Reads a whole JSON text: one value, then only whitespace to the end.
pub open spec fn sp_document(s: Seq<u8>) -> Option<JsonV> {
    match sp_value(s, 0) {
        Some((v, q)) => {
            if sp_ws(s, q) == s.len() {
                Some(v)
            } else {
                None
            }
        },
        None => None,
    }
}

fn skip_ws(s: &[u8], pos: usize) -> (r: usize)
    requires
        pos <= s@.len(),
    ensures
        r == sp_ws(s@, pos as int),
        pos <= r <= s@.len(),
{
    let mut i = pos;
    while i < s.len() && (s[i] == 0x20 || s[i] == 0x09 || s[i] == 0x0a || s[i] == 0x0d)
        invariant
            pos <= i <= s@.len(),
            sp_ws(s@, pos as int) == sp_ws(s@, i as int),
        decreases s@.len() - i,
    {
        i = i + 1;
    }
    i
}

fn num_end(s: &[u8], pos: usize) -> (r: usize)
    requires
        pos <= s@.len(),
    ensures
        r == sp_num_end(s@, pos as int),
        pos <= r <= s@.len(),
{
    let mut i = pos;
    while i < s.len() && (s[i] == 0x2b || s[i] == 0x2d || s[i] == 0x2e || (0x30 <= s[i] && s[i]
        <= 0x39) || s[i] == 0x45 || s[i] == 0x65)
        invariant
            pos <= i <= s@.len(),
            sp_num_end(s@, pos as int) == sp_num_end(s@, i as int),
        decreases s@.len() - i,
    {
        i = i + 1;
    }
    i
}

fn hex_val(b: u8) -> (r: Option<u32>)
    ensures
        r == sp_hex_val(b),
{
    if 0x30 <= b && b <= 0x39 {
        Some((b - 0x30) as u32)
    } else if 0x61 <= b && b <= 0x66 {
        Some((b - 0x61 + 10) as u32)
    } else if 0x41 <= b && b <= 0x46 {
        Some((b - 0x41 + 10) as u32)
    } else {
        None
    }
}

fn parse_hex4(s: &[u8], pos: usize) -> (r: Option<u32>)
    requires
        pos <= s@.len(),
    ensures
        r == sp_hex4(s@, pos as int),
        r matches Some(cp) ==> cp < 0x10000,
{
    if s.len() - pos < 4 {
        return None;
    }
    match (hex_val(s[pos]), hex_val(s[pos + 1]), hex_val(s[pos + 2]), hex_val(s[pos + 3])) {
        (Some(a), Some(b), Some(c), Some(d)) => Some(a * 0x1000 + b * 0x100 + c * 0x10 + d),
        _ => None,
    }
}

fn utf8_enc_vec(cp: u32) -> (r: Vec<u8>)
    requires
        cp < 0x110000,
    ensures
        r@ == utf8_enc(cp),
{
    let mut out: Vec<u8> = Vec::new();
    if cp < 0x80 {
        out.push(cp as u8);
    } else if cp < 0x800 {
        out.push((0xc0 + cp / 0x40) as u8);
        out.push((0x80 + cp % 0x40) as u8);
    } else if cp < 0x10000 {
        out.push((0xe0 + cp / 0x1000) as u8);
        out.push((0x80 + (cp / 0x40) % 0x40) as u8);
        out.push((0x80 + cp % 0x40) as u8);
    } else {
        out.push((0xf0 + cp / 0x40000) as u8);
        out.push((0x80 + (cp / 0x1000) % 0x40) as u8);
        out.push((0x80 + (cp / 0x40) % 0x40) as u8);
        out.push((0x80 + cp % 0x40) as u8);
    }
    proof {
        assert(out@ =~= utf8_enc(cp));
    }
    out
}

fn parse_str_content(s: &[u8], pos: usize) -> (r: Option<(Vec<u8>, usize)>)
    requires
        pos <= s@.len(),
    ensures
        match r {
            Some((bytes, end)) => {
                &&& sp_str_content(s@, pos as int) == Some((bytes@, end as int))
                &&& pos < end <= s@.len()
            },
            None => sp_str_content(s@, pos as int) is None,
        },
    decreases s@.len() - pos, 0int,
{
    if pos >= s.len() {
        return None;
    }
    let b = s[pos];
    if b == 0x22 {
        let out: Vec<u8> = Vec::new();
        proof {
            assert(out@ =~= Seq::<u8>::empty());
        }
        return Some((out, pos + 1));
    }
    if b == 0x5c {
        if s.len() - pos < 2 {
            return None;
        }
        let e = s[pos + 1];
        let mapped: Option<u8> = if e == 0x22 || e == 0x5c || e == 0x2f {
            Some(e)
        } else if e == 0x62 {
            Some(0x08)
        } else if e == 0x66 {
            Some(0x0c)
        } else if e == 0x6e {
            Some(0x0a)
        } else if e == 0x72 {
            Some(0x0d)
        } else if e == 0x74 {
            Some(0x09)
        } else {
            None
        };
        match mapped {
            Some(m) => {
                match parse_str_content(s, pos + 2) {
                    Some((rest, q)) => {
                        let ghost restv = rest@;
                        let mut out: Vec<u8> = Vec::new();
                        out.push(m);
                        let mut tail = rest;
                        out.append(&mut tail);
                        proof {
                            assert(out@ =~= seq![m] + restv);
                        }
                        Some((out, q))
                    },
                    None => None,
                }
            },
            None => {
                if e == 0x75 {
                    match parse_hex4(s, pos + 2) {
                        Some(cp) => {
                            if 0xd800 <= cp && cp < 0xdc00 {
                                if s.len() - pos >= 12 && s[pos + 6] == 0x5c && s[pos + 7]
                                    == 0x75 {
                                    match parse_hex4(s, pos + 8) {
                                        Some(lo) => {
                                            if 0xdc00 <= lo && lo < 0xe000 {
                                                let scalar: u32 = 0x10000 + (cp - 0xd800) * 0x400
                                                    + (lo - 0xdc00);
                                                match parse_str_content(s, pos + 12) {
                                                    Some((rest, q)) => {
                                                        let ghost restv = rest@;
                                                        let mut out = utf8_enc_vec(scalar);
                                                        let mut tail = rest;
                                                        out.append(&mut tail);
                                                        proof {
                                                            assert(out@ =~= utf8_enc(scalar)
                                                                + restv);
                                                        }
                                                        Some((out, q))
                                                    },
                                                    None => None,
                                                }
                                            } else {
                                                None
                                            }
                                        },
                                        None => None,
                                    }
                                } else {
                                    None
                                }
                            } else if 0xdc00 <= cp && cp < 0xe000 {
                                None
                            } else {
                                match parse_str_content(s, pos + 6) {
                                    Some((rest, q)) => {
                                        let ghost restv = rest@;
                                        let mut out = utf8_enc_vec(cp);
                                        let mut tail = rest;
                                        out.append(&mut tail);
                                        proof {
                                            assert(out@ =~= utf8_enc(cp) + restv);
                                        }
                                        Some((out, q))
                                    },
                                    None => None,
                                }
                            }
                        },
                        None => None,
                    }
                } else {
                    None
                }
            },
        }
    } else if b < 0x20 {
        None
    } else {
        match parse_str_content(s, pos + 1) {
            Some((rest, q)) => {
                let ghost restv = rest@;
                let mut out: Vec<u8> = Vec::new();
                out.push(b);
                let mut tail = rest;
                out.append(&mut tail);
                proof {
                    assert(out@ =~= seq![b] + restv);
                }
                Some((out, q))
            },
            None => None,
        }
    }
}

/// Reads one JSON value, exactly as [`sp_value`] does.
pub fn parse_value(s: &[u8], pos: usize) -> (r: Option<(Json, usize)>)
    requires
        pos <= s@.len(),
    ensures
        match r {
            Some((j, end)) => {
                &&& sp_value(s@, pos as int) == Some((jv(j), end as int))
                &&& pos < end <= s@.len()
            },
            None => sp_value(s@, pos as int) is None,
        },
    decreases s@.len() - pos, 2int,
{
    let p = skip_ws(s, pos);
    if p >= s.len() {
        return None;
    }
    let b = s[p];
    if b == 0x6e {
        if s.len() - p >= 4 && s[p + 1] == 0x75 && s[p + 2] == 0x6c && s[p + 3] == 0x6c {
            Some((Json::Null, p + 4))
        } else {
            None
        }
    } else if b == 0x74 {
        if s.len() - p >= 4 && s[p + 1] == 0x72 && s[p + 2] == 0x75 && s[p + 3] == 0x65 {
            Some((Json::Bool(true), p + 4))
        } else {
            None
        }
    } else if b == 0x66 {
        if s.len() - p >= 5 && s[p + 1] == 0x61 && s[p + 2] == 0x6c && s[p + 3] == 0x73 && s[p + 4]
            == 0x65 {
            Some((Json::Bool(false), p + 5))
        } else {
            None
        }
    } else if b == 0x22 {
        match parse_str_content(s, p + 1) {
            Some((bytes, q)) => {
                let ghost bv = bytes@;
                match crate::envelope::string_from_utf8(bytes) {
                    Some(t) => Some((Json::Str(t), q)),
                    None => None,
                }
            },
            None => None,
        }
    } else if b == 0x2d || (0x30 <= b && b <= 0x39) {
        let q = num_end(s, p + 1);
        let tok = crate::envelope::copy_range(s, p, q);
        Some((Json::Num(tok), q))
    } else if b == 0x5b {
        let q = skip_ws(s, p + 1);
        if q < s.len() && s[q] == 0x5d {
            let items: Vec<Json> = Vec::new();
            proof {
                assert(jvs(items@) =~= Seq::<JsonV>::empty());
            }
            Some((Json::Arr(items), q + 1))
        } else {
            match parse_arr_items(s, p + 1) {
                Some((items, e)) => Some((Json::Arr(items), e)),
                None => None,
            }
        }
    } else if b == 0x7b {
        let q = skip_ws(s, p + 1);
        if q < s.len() && s[q] == 0x7d {
            let pairs: Vec<JsonPair> = Vec::new();
            proof {
                assert(jps(pairs@) =~= Seq::<JsonPairV>::empty());
            }
            Some((Json::Obj(pairs), q + 1))
        } else {
            match parse_obj_items(s, p + 1) {
                Some((pairs, e)) => Some((Json::Obj(pairs), e)),
                None => None,
            }
        }
    } else {
        None
    }
}

fn parse_arr_items(s: &[u8], pos: usize) -> (r: Option<(Vec<Json>, usize)>)
    requires
        pos <= s@.len(),
    ensures
        match r {
            Some((items, end)) => {
                &&& sp_arr_items(s@, pos as int) == Some((jvs(items@), end as int))
                &&& pos < end <= s@.len()
            },
            None => sp_arr_items(s@, pos as int) is None,
        },
    decreases s@.len() - pos, 3int,
{
    match parse_value(s, pos) {
        Some((v, q)) => {
            let r2 = skip_ws(s, q);
            if r2 >= s.len() {
                return None;
            }
            if s[r2] == 0x2c {
                match parse_arr_items(s, r2 + 1) {
                    Some((rest, e)) => {
                        let ghost restv = rest@;
                        let mut items = rest;
                        items.insert(0, v);
                        proof {
                            assert(items@.subrange(1, items@.len() as int) =~= restv);
                            assert(jvs(items@) =~= seq![jv(items@[0])] + jvs(restv));
                        }
                        Some((items, e))
                    },
                    None => None,
                }
            } else if s[r2] == 0x5d {
                let mut items: Vec<Json> = Vec::new();
                items.push(v);
                proof {
                    assert(items@.subrange(1, 1) =~= Seq::<Json>::empty());
                    assert(jvs(Seq::<Json>::empty()) =~= Seq::<JsonV>::empty());
                    assert(jvs(items@) == seq![jv(items@[0])] + jvs(items@.subrange(1, 1)));
                    assert(jvs(items@) =~= seq![jv(items@[0])]);
                }
                Some((items, r2 + 1))
            } else {
                None
            }
        },
        None => None,
    }
}

#[verifier::rlimit(100)]
fn parse_obj_items(s: &[u8], pos: usize) -> (r: Option<(Vec<JsonPair>, usize)>)
    requires
        pos <= s@.len(),
    ensures
        match r {
            Some((pairs, end)) => {
                &&& sp_obj_items(s@, pos as int) == Some((jps(pairs@), end as int))
                &&& pos < end <= s@.len()
            },
            None => sp_obj_items(s@, pos as int) is None,
        },
    decreases s@.len() - pos, 3int,
{
    let p = skip_ws(s, pos);
    if p >= s.len() {
        return None;
    }
    if s[p] != 0x22 {
        return None;
    }
    match parse_str_content(s, p + 1) {
        Some((kb, q)) => {
            let ghost kbv = kb@;
            match crate::envelope::string_from_utf8(kb) {
                Some(key) => {
                    let r2 = skip_ws(s, q);
                    if r2 >= s.len() {
                        return None;
                    }
                    if s[r2] != 0x3a {
                        return None;
                    }
                    match parse_value(s, r2 + 1) {
                        Some((v, t)) => {
                            let u = skip_ws(s, t);
                            if u >= s.len() {
                                return None;
                            }
                            if s[u] == 0x2c {
                                match parse_obj_items(s, u + 1) {
                                    Some((rest, e)) => {
                                        let ghost restv = rest@;
                                        let mut pairs = rest;
                                        pairs.insert(0, JsonPair { key, value: v });
                                        proof {
                                            assert(pairs@.subrange(1, pairs@.len() as int)
                                                =~= restv);
                                            assert(jps(pairs@) =~= seq![
                                                JsonPairV {
                                                    key: pairs@[0].key@,
                                                    value: jv(pairs@[0].value),
                                                },
                                            ] + jps(restv));
                                        }
                                        Some((pairs, e))
                                    },
                                    None => None,
                                }
                            } else if s[u] == 0x7d {
                                let mut pairs: Vec<JsonPair> = Vec::new();
                                pairs.push(JsonPair { key, value: v });
                                proof {
                                    assert(pairs@.subrange(1, 1) =~= Seq::<JsonPair>::empty());
                                    assert(jps(Seq::<JsonPair>::empty())
                                        =~= Seq::<JsonPairV>::empty());
                                    assert(jps(pairs@) =~= seq![
                                        JsonPairV {
                                            key: pairs@[0].key@,
                                            value: jv(pairs@[0].value),
                                        },
                                    ]);
                                }
                                Some((pairs, u + 1))
                            } else {
                                None
                            }
                        },
                        None => None,
                    }
                },
                None => None,
            }
        },
        None => None,
    }
}

/// Parses a whole JSON text, exactly as [`sp_document`] does.
pub fn parse_document(s: &[u8]) -> (r: Option<Json>)
    ensures
        match r {
            Some(j) => sp_document(s@) == Some(jv(j)),
            None => sp_document(s@) is None,
        },
{
    match parse_value(s, 0) {
        Some((j, q)) => {
            let w = skip_ws(s, q);
            if w == s.len() {
                Some(j)
            } else {
                None
            }
        },
        None => None,
    }
}

// ---------------------------------------------------------------------------
// Round trip
// ---------------------------------------------------------------------------

proof fn lemma_byte_at(s: Seq<u8>, pos: int, part: Seq<u8>, i: int)
    requires
        0 <= pos,
        pos + part.len() <= s.len(),
        s.subrange(pos, pos + part.len() as int) == part,
        0 <= i < part.len(),
    ensures
        s[pos + i] == part[i],
{
    assert(s.subrange(pos, pos + part.len() as int)[i] == part[i]);
}

proof fn lemma_embed(s: Seq<u8>, pos: int, part: Seq<u8>, lo: int, hi: int)
    requires
        0 <= pos,
        pos + part.len() <= s.len(),
        s.subrange(pos, pos + part.len() as int) == part,
        0 <= lo <= hi <= part.len(),
    ensures
        s.subrange(pos + lo, pos + hi) == part.subrange(lo, hi),
{
    assert(s.subrange(pos + lo, pos + hi) =~= part.subrange(lo, hi)) by {
        assert forall|i: int| 0 <= i < hi - lo implies s.subrange(pos + lo, pos + hi)[i]
            == part.subrange(lo, hi)[i] by {
            assert(s.subrange(pos, pos + part.len() as int)[lo + i] == part[lo + i]);
        }
    }
}

proof fn lemma_num_end_scan(s: Seq<u8>, from: int, to: int)
    requires
        0 <= from <= to <= s.len(),
        forall|i: int| from <= i < to ==> num_char(#[trigger] s[i]),
        to == s.len() || !num_char(s[to]),
    ensures
        sp_num_end(s, from) == to,
    decreases to - from,
{
    if from < to {
        lemma_num_end_scan(s, from + 1, to);
    }
}

/// The serializer's escape of a string body, read back by the parser, yields
/// the body's bytes and stops at the closing quote.
proof fn lemma_str_content_at(bs: Seq<u8>, s: Seq<u8>, pos: int)
    requires
        0 <= pos,
        pos + esc_bytes(bs).len() + 1 <= s.len(),
        s.subrange(pos, pos + esc_bytes(bs).len()) == esc_bytes(bs),
        s[pos + esc_bytes(bs).len()] == 0x22,
    ensures
        sp_str_content(s, pos) == Some((bs, pos + esc_bytes(bs).len() + 1)),
    decreases bs.len(),
{
    if bs.len() == 0 {
        assert(esc_bytes(bs).len() == 0);
    } else {
        let b = bs[0];
        let tail = bs.subrange(1, bs.len() as int);
        let eb = esc_byte(b);
        let et = esc_bytes(tail);
        let all = esc_bytes(bs);
        assert(all == eb + et);
        assert(all.subrange(0, eb.len() as int) =~= eb);
        assert(all.subrange(eb.len() as int, all.len() as int) =~= et);
        lemma_embed(s, pos, all, 0, eb.len() as int);
        lemma_embed(s, pos, all, eb.len() as int, all.len() as int);
        let tpos = pos + eb.len() as int;
        assert(s[tpos + et.len()] == 0x22);
        lemma_str_content_at(tail, s, tpos);
        let after = pos + all.len() + 1;
        if b == 0x22 {
            lemma_byte_at(s, pos, eb, 0);
            lemma_byte_at(s, pos, eb, 1);
            assert(s[pos] == 0x5c && s[pos + 1] == 0x22);
            assert(seq![b] + tail =~= bs);
        } else if b == 0x5c {
            lemma_byte_at(s, pos, eb, 0);
            lemma_byte_at(s, pos, eb, 1);
            assert(s[pos] == 0x5c && s[pos + 1] == 0x5c);
            assert(seq![b] + tail =~= bs);
        } else if b < 0x20 {
            lemma_byte_at(s, pos, eb, 0);
            lemma_byte_at(s, pos, eb, 1);
            lemma_byte_at(s, pos, eb, 2);
            lemma_byte_at(s, pos, eb, 3);
            lemma_byte_at(s, pos, eb, 4);
            lemma_byte_at(s, pos, eb, 5);
            assert(s[pos] == 0x5c && s[pos + 1] == 0x75);
            assert(s[pos + 2] == 0x30 && s[pos + 3] == 0x30);
            assert(s[pos + 4] == hex_digit(b / 16) && s[pos + 5] == hex_digit(b % 16));
            assert(sp_hex_val(0x30u8) == Some(0u32));
            assert(sp_hex_val(hex_digit(b / 16)) == Some((b / 16) as u32));
            assert(sp_hex_val(hex_digit(b % 16)) == Some((b % 16) as u32));
            vstd::arithmetic::div_mod::lemma_fundamental_div_mod(b as int, 16);
            assert(sp_hex4(s, pos + 2) == Some(b as u32));
            assert(!(0xd800 <= b as u32 && (b as u32) < 0xdc00));
            assert(!(0xdc00 <= b as u32 && (b as u32) < 0xe000));
            assert(utf8_enc(b as u32) =~= seq![b]);
            assert(utf8_enc(b as u32) + tail =~= bs);
        } else {
            lemma_byte_at(s, pos, eb, 0);
            assert(s[pos] == b);
            assert(seq![b] + tail =~= bs);
        }
    }
}

/// The leading byte of any serialized document: never whitespace, a comma, a
/// colon or a closing bracket.
proof fn lemma_ser_first_byte(v: JsonV)
    requires
        json_wf(v),
    ensures
        ser_json(v).len() >= 1,
        !ws_char(ser_json(v)[0]),
        ser_json(v)[0] != 0x5d && ser_json(v)[0] != 0x7d && ser_json(v)[0] != 0x2c,
        ser_json(v)[0] != 0x3a,
{
    match v {
        JsonV::Num(t) => {
            assert(ser_json(v)[0] == t[0]);
        },
        _ => {},
    }
}

proof fn lemma_parse_ser(v: JsonV, s: Seq<u8>, pos: int)
    requires
        json_wf(v),
        0 <= pos,
        pos + ser_json(v).len() <= s.len(),
        s.subrange(pos, pos + ser_json(v).len()) == ser_json(v),
        pos + ser_json(v).len() == s.len() || !num_char(s[pos + ser_json(v).len()]),
    ensures
        sp_value(s, pos) == Some((v, pos + ser_json(v).len())),
    decreases v, 2int,
{
    let ser = ser_json(v);
    let l = ser.len() as int;
    lemma_ser_first_byte(v);
    lemma_byte_at(s, pos, ser, 0);
    assert(s[pos] == ser[0]);
    assert(sp_ws(s, pos) == pos);
    match v {
        JsonV::Null => {
            lemma_byte_at(s, pos, ser, 1);
            lemma_byte_at(s, pos, ser, 2);
            lemma_byte_at(s, pos, ser, 3);
            assert(s[pos] == 0x6e && s[pos + 1] == 0x75 && s[pos + 2] == 0x6c && s[pos + 3]
                == 0x6c);
        },
        JsonV::Bool(b) => {
            lemma_byte_at(s, pos, ser, 1);
            lemma_byte_at(s, pos, ser, 2);
            lemma_byte_at(s, pos, ser, 3);
            if !b {
                lemma_byte_at(s, pos, ser, 4);
            }
        },
        JsonV::Num(t) => {
            assert(s[pos] == t[0]);
            assert forall|i: int| pos + 1 <= i < pos + l implies num_char(s[i]) by {
                lemma_byte_at(s, pos, ser, i - pos);
                assert(num_char(t[i - pos]));
            }
            lemma_num_end_scan(s, pos + 1, pos + l);
            assert(s.subrange(pos, pos + l) =~= t);
        },
        JsonV::Str(t) => {
            lemma_parse_ser_str(t, s, pos);
        },
        JsonV::Arr(items) => {
            lemma_parse_ser_arr(items, s, pos);
        },
        JsonV::Obj(pairs) => {
            lemma_parse_ser_obj(pairs, s, pos);
        },
    }
}

proof fn lemma_parse_ser_str(t: Seq<char>, s: Seq<u8>, pos: int)
    requires
        0 <= pos,
        pos + ser_json(JsonV::Str(t)).len() <= s.len(),
        s.subrange(pos, pos + ser_json(JsonV::Str(t)).len()) == ser_json(JsonV::Str(t)),
    ensures
        sp_value(s, pos) == Some((JsonV::Str(t), pos + ser_json(JsonV::Str(t)).len())),
{
    let ser = ser_json(JsonV::Str(t));
    let l = ser.len() as int;
    let body = esc_bytes(encode_utf8(t));
    assert(ser == (seq![0x22u8] + body) + seq![0x22u8]);
    lemma_byte_at(s, pos, ser, 0);
    assert(s[pos] == 0x22);
    assert(sp_ws(s, pos) == pos);
    assert(ser.subrange(1, 1 + body.len() as int) =~= body);
    lemma_embed(s, pos, ser, 1, 1 + body.len() as int);
    lemma_byte_at(s, pos, ser, 1 + body.len() as int);
    assert(ser[1 + body.len() as int] == 0x22);
    lemma_str_content_at(encode_utf8(t), s, pos + 1);
    broadcast use vstd::utf8::encode_utf8_valid_utf8, vstd::utf8::encode_utf8_decode_utf8;

    assert(sp_str_content(s, pos + 1) == Some((encode_utf8(t), pos + l)));
    assert(decode_utf8(encode_utf8(t)) == t);
}

proof fn lemma_parse_ser_arr(items: Seq<JsonV>, s: Seq<u8>, pos: int)
    requires
        json_wf(JsonV::Arr(items)),
        0 <= pos,
        pos + ser_json(JsonV::Arr(items)).len() <= s.len(),
        s.subrange(pos, pos + ser_json(JsonV::Arr(items)).len()) == ser_json(JsonV::Arr(items)),
    ensures
        sp_value(s, pos) == Some((JsonV::Arr(items), pos + ser_json(JsonV::Arr(items)).len())),
    decreases items, 1int,
{
    let ser = ser_json(JsonV::Arr(items));
    lemma_byte_at(s, pos, ser, 0);
    assert(s[pos] == 0x5b);
    assert(sp_ws(s, pos) == pos);
    if items.len() == 0 {
        lemma_byte_at(s, pos, ser, 1);
        assert(s[pos + 1] == 0x5d);
        assert(sp_ws(s, pos + 1) == pos + 1);
        assert(items =~= Seq::<JsonV>::empty());
    } else {
        let inner = ser_items(items);
        assert(ser == (seq![0x5bu8] + inner) + seq![0x5du8]);
        lemma_ser_first_byte(items[0]);
        assert(inner[0] == ser_json(items[0])[0]);
        lemma_byte_at(s, pos, ser, 1);
        assert(ser[1] == inner[0]);
        assert(s[pos + 1] == inner[0]);
        assert(sp_ws(s, pos + 1) == pos + 1);
        assert(s[pos + 1] != 0x5d);
        assert(ser.subrange(1, 1 + inner.len() as int + 1) =~= inner + seq![0x5du8]);
        lemma_embed(s, pos, ser, 1, 1 + inner.len() as int + 1);
        lemma_arr_items_at(items, s, pos + 1);
        assert(sp_arr_items(s, pos + 1) == Some((items, pos + ser.len() as int)));
        assert(sp_value(s, pos) == Some((JsonV::Arr(items), pos + ser.len() as int)));
    }
}

proof fn lemma_parse_ser_obj(pairs: Seq<JsonPairV>, s: Seq<u8>, pos: int)
    requires
        json_wf(JsonV::Obj(pairs)),
        0 <= pos,
        pos + ser_json(JsonV::Obj(pairs)).len() <= s.len(),
        s.subrange(pos, pos + ser_json(JsonV::Obj(pairs)).len()) == ser_json(JsonV::Obj(pairs)),
    ensures
        sp_value(s, pos) == Some((JsonV::Obj(pairs), pos + ser_json(JsonV::Obj(pairs)).len())),
    decreases pairs, 1int,
{
    let ser = ser_json(JsonV::Obj(pairs));
    lemma_byte_at(s, pos, ser, 0);
    assert(s[pos] == 0x7b);
    assert(sp_ws(s, pos) == pos);
    if pairs.len() == 0 {
        lemma_byte_at(s, pos, ser, 1);
        assert(s[pos + 1] == 0x7d);
        assert(sp_ws(s, pos + 1) == pos + 1);
        assert(pairs =~= Seq::<JsonPairV>::empty());
    } else {
        let inner = ser_pairs(pairs);
        assert(ser == (seq![0x7bu8] + inner) + seq![0x7du8]);
        assert(inner[0] == ser_string(pairs[0].key)[0]);
        assert(inner[0] == 0x22);
        lemma_byte_at(s, pos, ser, 1);
        assert(ser[1] == inner[0]);
        assert(s[pos + 1] == inner[0]);
        assert(sp_ws(s, pos + 1) == pos + 1);
        assert(s[pos + 1] != 0x7d);
        assert(ser.subrange(1, 1 + inner.len() as int + 1) =~= inner + seq![0x7du8]);
        lemma_embed(s, pos, ser, 1, 1 + inner.len() as int + 1);
        lemma_obj_items_at(pairs, s, pos + 1);
        assert(sp_obj_items(s, pos + 1) == Some((pairs, pos + ser.len() as int)));
        assert(sp_value(s, pos) == Some((JsonV::Obj(pairs), pos + ser.len() as int)));
    }
}

proof fn lemma_arr_items_at(items: Seq<JsonV>, s: Seq<u8>, pos: int)
    requires
        items.len() >= 1,
        forall|i: int| 0 <= i < items.len() ==> json_wf(#[trigger] items[i]),
        0 <= pos,
        pos + ser_items(items).len() + 1 <= s.len(),
        s.subrange(pos, pos + ser_items(items).len() + 1) == ser_items(items) + seq![0x5du8],
    ensures
        sp_arr_items(s, pos) == Some((items, pos + ser_items(items).len() + 1)),
    decreases items, 0int,
{
    let inner = ser_items(items);
    let all = inner + seq![0x5du8];
    let h = ser_json(items[0]);
    if items.len() == 1 {
        assert(inner == h);
        assert(all.subrange(0, h.len() as int) =~= h);
        lemma_embed(s, pos, all, 0, h.len() as int);
        lemma_byte_at(s, pos, all, h.len() as int);
        assert(all[h.len() as int] == 0x5d);
        assert(s[pos + h.len()] == 0x5d);
        lemma_parse_ser(items[0], s, pos);
        assert(sp_ws(s, pos + h.len() as int) == pos + h.len());
        assert(seq![items[0]] =~= items);
    } else {
        let rest = items.subrange(1, items.len() as int);
        let rinner = ser_items(rest);
        assert(inner == (h + seq![0x2cu8]) + rinner);
        assert(all.subrange(0, h.len() as int) =~= h);
        lemma_embed(s, pos, all, 0, h.len() as int);
        lemma_byte_at(s, pos, all, h.len() as int);
        assert(all[h.len() as int] == 0x2c);
        assert(s[pos + h.len()] == 0x2c);
        lemma_parse_ser(items[0], s, pos);
        assert(sp_ws(s, pos + h.len() as int) == pos + h.len());
        let rpos = pos + h.len() + 1;
        assert(all.subrange(h.len() as int + 1, all.len() as int) =~= rinner + seq![0x5du8]);
        lemma_embed(s, pos, all, h.len() as int + 1, all.len() as int);
        lemma_arr_items_at(rest, s, rpos);
        assert(seq![items[0]] + rest =~= items);
    }
}

proof fn lemma_obj_items_at(pairs: Seq<JsonPairV>, s: Seq<u8>, pos: int)
    requires
        pairs.len() >= 1,
        forall|i: int| 0 <= i < pairs.len() ==> json_wf(#[trigger] pairs[i].value),
        0 <= pos,
        pos + ser_pairs(pairs).len() + 1 <= s.len(),
        s.subrange(pos, pos + ser_pairs(pairs).len() + 1) == ser_pairs(pairs) + seq![0x7du8],
    ensures
        sp_obj_items(s, pos) == Some((pairs, pos + ser_pairs(pairs).len() + 1)),
    decreases pairs, 0int,
{
    let inner = ser_pairs(pairs);
    let all = inner + seq![0x7du8];
    let key = pairs[0].key;
    let kb = ser_string(key);
    let vb = ser_json(pairs[0].value);
    let head = (kb + seq![0x3au8]) + vb;
    let kbody = esc_bytes(encode_utf8(key));
    assert(kb == (seq![0x22u8] + kbody) + seq![0x22u8]);
    // The key literal and its closing quote.
    lemma_byte_at(s, pos, all, 0);
    assert(all[0] == head[0] && head[0] == kb[0] && kb[0] == 0x22);
    assert(s[pos] == 0x22);
    assert(sp_ws(s, pos) == pos);
    assert(all.subrange(0, head.len() as int) =~= head);
    lemma_embed(s, pos, all, 0, head.len() as int);
    assert(head.subrange(1, 1 + kbody.len() as int) =~= kbody);
    lemma_embed(s, pos, head, 1, 1 + kbody.len() as int);
    lemma_byte_at(s, pos, head, 1 + kbody.len() as int);
    assert(head[1 + kbody.len() as int] == kb[1 + kbody.len() as int]);
    assert(kb[1 + kbody.len() as int] == 0x22);
    lemma_str_content_at(encode_utf8(key), s, pos + 1);
    broadcast use vstd::utf8::encode_utf8_valid_utf8, vstd::utf8::encode_utf8_decode_utf8;

    let qk = pos + kb.len() as int;
    assert(sp_str_content(s, pos + 1) == Some((encode_utf8(key), qk)));
    assert(decode_utf8(encode_utf8(key)) == key);
    // The colon.
    lemma_byte_at(s, pos, head, kb.len() as int);
    assert(head[kb.len() as int] == 0x3a);
    assert(s[qk] == 0x3a);
    assert(sp_ws(s, qk) == qk);
    // The member value.
    let vpos = qk + 1;
    assert(head.subrange(kb.len() as int + 1, head.len() as int) =~= vb);
    lemma_embed(s, pos, head, kb.len() as int + 1, head.len() as int);
    let vend = vpos + vb.len() as int;
    assert(vend == pos + head.len());
    if pairs.len() == 1 {
        assert(inner == head);
        lemma_byte_at(s, pos, all, head.len() as int);
        assert(all[head.len() as int] == 0x7d);
        assert(s[vend] == 0x7d);
        lemma_parse_ser(pairs[0].value, s, vpos);
        assert(sp_ws(s, vend) == vend);
        assert(seq![pairs[0]] =~= pairs);
        assert(pairs[0] == (JsonPairV { key, value: pairs[0].value }));
    } else {
        let rest = pairs.subrange(1, pairs.len() as int);
        let rinner = ser_pairs(rest);
        assert(inner == (head + seq![0x2cu8]) + rinner);
        lemma_byte_at(s, pos, all, head.len() as int);
        assert(all[head.len() as int] == 0x2c);
        assert(s[vend] == 0x2c);
        lemma_parse_ser(pairs[0].value, s, vpos);
        assert(sp_ws(s, vend) == vend);
        let rpos = vend + 1;
        assert(all.subrange(head.len() as int + 1, all.len() as int) =~= rinner + seq![0x7du8]);
        lemma_embed(s, pos, all, head.len() as int + 1, all.len() as int);
        lemma_obj_items_at(rest, s, rpos);
        assert(seq![pairs[0]] + rest =~= pairs);
        assert(pairs[0] == (JsonPairV { key, value: pairs[0].value }));
    }
}

/// Parsing the canonical text of a well-formed document yields the document
/// back: the JSON codec round trip.
pub proof fn lemma_json_roundtrip(v: JsonV)
    requires
        json_wf(v),
    ensures
        sp_document(ser_json(v)) == Some(v),
{
    let s = ser_json(v);
    assert(s.subrange(0, s.len() as int) =~= s);
    lemma_parse_ser(v, s, 0);
    assert(sp_ws(s, s.len() as int) == s.len());
}

} // verus!
