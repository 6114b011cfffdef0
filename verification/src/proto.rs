//! Protobuf encoding of system messages and of the wire envelope.
//!
//! Each message is a sequence of protobuf fields (see [`crate::wire`]).
//! Encoders write the fields in tag order and leave out fields that hold
//! their default value (empty text or bytes, zero), except optional fields
//! and embedded messages, which are written whenever they are present.
//! Decoders read every field in order. A scalar field that occurs again
//! replaces the value read before; an embedded message that occurs again
//! (or a oneof variant read again) is merged into the one read before, its
//! fields replacing those read earlier; a header entry with a name seen
//! before replaces that header's value. Unknown tags are skipped, and a
//! known tag with the wrong wire type, text that is not UTF-8, or a
//! malformed embedded message makes the whole message malformed.

use vstd::prelude::*;
use vstd::slice::*;
use vstd::string::*;
use vstd::utf8::*;
use crate::wire::{
    bytes_field_bytes, field_parse, fields_parse, lemma_field_parse_len, lemma_fields_parse_cons,
    put_bytes_field, put_varint_field, raw_field_view, read_field, varint_field_bytes, RawField,
    WireField, WireValue,
};
use crate::node::{ActorId, NodeId};
use crate::remote::{pairs_distinct, pairs_map, plain_pairs, SerializationError, WireEnvelope, WireHeaders};
use crate::interceptor::SendMode;
use crate::text::{decimal_text, u64_to_decimal};
use crate::system_actors::{CancelRequest, CancelResponse, SpawnRequest, SpawnResponse, UnwatchRequest, WatchNotification, WatchRequest};

verus! {

/// Maximum allowed size of a system message payload (1 MiB).
pub const MAX_SYSTEM_MSG_SIZE: usize = 1048576;

/// Maximum allowed size of a wire envelope frame (4 MiB).
pub const MAX_WIRE_ENVELOPE_SIZE: usize = 4194304;

/// Something that absorbs the fields of one message kind, one at a time.
///
/// `accept` says what a field does to the decoded state: `None` when the
/// field makes the message malformed.
pub trait FieldSink: View + Sized {
    /// The state after one more field.
    spec fn accept(st: Self::V, f: WireField) -> Option<Self::V>;

    /// Absorb one field read from `bytes`.
    fn take_field(&mut self, f: &RawField, bytes: &[u8]) -> (ok: bool)
        requires
            f.wire_type == 0 || f.wire_type == 1 || f.wire_type == 2 || f.wire_type == 5,
            f.wire_type == 2 ==> f.start <= f.end <= bytes@.len(),
        ensures
            ok == Self::accept(old(self)@, raw_field_view(*f, bytes@)) is Some,
            ok ==> final(self)@ == Self::accept(old(self)@, raw_field_view(*f, bytes@))->0,
    ;
}

/// The state after absorbing the fields `fs` in order.
pub open spec fn sink_fold<T: FieldSink>(fs: Seq<WireField>, st: T::V) -> Option<T::V>
    decreases fs.len(),
{
    if fs.len() == 0 {
        Some(st)
    } else {
        match T::accept(st, fs[0]) {
            Some(st2) => sink_fold::<T>(fs.drop_first(), st2),
            None => None,
        }
    }
}

/// The state after absorbing all fields of the bytes `s`.
pub open spec fn sink_decode<T: FieldSink>(s: Seq<u8>, st: T::V) -> Option<T::V> {
    match fields_parse(s) {
        Some(fs) => sink_fold::<T>(fs, st),
        None => None,
    }
}

/// Decoding a non-empty input: its first field, then the rest.
pub proof fn lemma_sink_decode_step<T: FieldSink>(s: Seq<u8>, st: T::V)
    requires
        s.len() > 0,
    ensures
        field_parse(s) is None ==> sink_decode::<T>(s, st) is None,
        field_parse(s) matches Some((f, n)) ==> sink_decode::<T>(s, st) == (match T::accept(st, f) {
            Some(st2) => sink_decode::<T>(s.skip(n as int), st2),
            None => None,
        }),
{
    lemma_field_parse_len(s);
    if let Some((f, n)) = field_parse(s) {
        lemma_fields_parse_cons(s, f, n);
        if let Some(fs) = fields_parse(s.skip(n as int)) {
            assert((seq![f] + fs).drop_first() =~= fs);
            assert((seq![f] + fs)[0] == f);
        }
    }
}

/// Absorbs every field of `bytes` into `sink`.
pub fn decode_into<T: FieldSink>(bytes: &[u8], sink: &mut T) -> (ok: bool)
    ensures
        ok == sink_decode::<T>(bytes@, old(sink)@) is Some,
        ok ==> final(sink)@ == sink_decode::<T>(bytes@, old(sink)@)->0,
{
    let ghost target = sink_decode::<T>(bytes@, sink@);
    let mut pos: usize = 0;
    assert(bytes@.skip(0) =~= bytes@);
    while pos < bytes.len()
        invariant
            pos <= bytes@.len(),
            target == sink_decode::<T>(bytes@, old(sink)@),
            target == sink_decode::<T>(bytes@.skip(pos as int), sink@),
        decreases bytes@.len() - pos,
    {
        let ghost s = bytes@.skip(pos as int);
        proof {
            lemma_sink_decode_step::<T>(s, sink@);
            lemma_field_parse_len(s);
        }
        match read_field(bytes, pos) {
            None => {
                return false;
            },
            Some((raw, next)) => {
                let ghost before = sink@;
                if !sink.take_field(&raw, bytes) {
                    return false;
                }
                assert(s.skip(next - pos) =~= bytes@.skip(next as int));
                pos = next;
            },
        }
    }
    assert(bytes@.skip(pos as int) =~= Seq::<u8>::empty());
    assert(fields_parse(Seq::<u8>::empty()) == Some(Seq::<WireField>::empty()));
    true
}

/// Converts bytes to text (std's `String::from_utf8`).
///
/// std returns the text when the bytes are valid UTF-8 and an error
/// otherwise; the text's UTF-8 encoding is the given bytes.
#[verifier::external_body]
fn utf8_string(v: Vec<u8>) -> (r: Option<String>)
    ensures
        r is Some <==> valid_utf8(v@),
        r matches Some(s) ==> encode_utf8(s@) == v@,
{
    match String::from_utf8(v) {
        Ok(s) => Some(s),
        Err(_) => None,
    }
}

/// The text a field carries, when it is length-delimited valid UTF-8.
pub open spec fn field_text(v: WireValue) -> Option<Seq<char>> {
    match v {
        WireValue::Bytes(b) => if valid_utf8(b) { Some(decode_utf8(b)) } else { None },
        _ => None,
    }
}

/// The bytes a field carries, when it is length-delimited.
pub open spec fn field_data(v: WireValue) -> Option<Seq<u8>> {
    match v {
        WireValue::Bytes(b) => Some(b),
        _ => None,
    }
}

/// The 64-bit number a field carries, when it is a varint.
pub open spec fn field_u64(v: WireValue) -> Option<u64> {
    match v {
        WireValue::Varint(n) => Some(n as u64),
        _ => None,
    }
}

/// Copies `bytes[start..end]`.
fn copy_range(bytes: &[u8], start: usize, end: usize) -> (r: Vec<u8>)
    requires
        start <= end <= bytes@.len(),
    ensures
        r@ == bytes@.subrange(start as int, end as int),
{
    let sub = slice_subrange(bytes, start, end);
    slice_to_vec(sub)
}

/// The text of a raw field.
fn raw_text(f: &RawField, bytes: &[u8]) -> (r: Option<String>)
    requires
        f.wire_type == 2 ==> f.start <= f.end <= bytes@.len(),
    ensures
        r is Some <==> field_text(raw_field_view(*f, bytes@).value) is Some,
        r matches Some(s) ==> s@ == field_text(raw_field_view(*f, bytes@).value)->0,
{
    if f.wire_type != 2 {
        return None;
    }
    let v = copy_range(bytes, f.start, f.end);
    let ghost b = v@;
    let r = utf8_string(v);
    proof {
        if r is Some {
            encode_utf8_decode_utf8(r->0@);
        }
    }
    r
}

/// The bytes of a raw field.
fn raw_data(f: &RawField, bytes: &[u8]) -> (r: Option<Vec<u8>>)
    requires
        f.wire_type == 2 ==> f.start <= f.end <= bytes@.len(),
    ensures
        r is Some <==> field_data(raw_field_view(*f, bytes@).value) is Some,
        r matches Some(v) ==> v@ == field_data(raw_field_view(*f, bytes@).value)->0,
{
    if f.wire_type != 2 {
        return None;
    }
    Some(copy_range(bytes, f.start, f.end))
}

/// The number of a raw field.
fn raw_u64(f: &RawField, bytes: &[u8]) -> (r: Option<u64>)
    ensures
        r == field_u64(raw_field_view(*f, bytes@).value),
{
    if f.wire_type != 0 {
        return None;
    }
    Some(f.value)
}

// ---------------------------------------------------------------------------
// ActorId
// ---------------------------------------------------------------------------

/// Decoded state of an actor id: node text and local number.
pub struct ActorIdState {
    pub node: Seq<char>,
    pub local: u64,
}

/// Absorbs the fields of an actor id: node id (1, text), local (2, varint).
pub struct ActorIdSink {
    pub node: String,
    pub local: u64,
}

impl View for ActorIdSink {
    type V = ActorIdState;

    open spec fn view(&self) -> ActorIdState {
        ActorIdState { node: self.node@, local: self.local }
    }
}

/// An actor id before any field: empty node text, local number zero.
pub open spec fn actor_id_start() -> ActorIdState {
    ActorIdState { node: Seq::empty(), local: 0 }
}

impl FieldSink for ActorIdSink {
    open spec fn accept(st: ActorIdState, f: WireField) -> Option<ActorIdState> {
        if f.tag == 1 {
            match field_text(f.value) {
                Some(t) => Some(ActorIdState { node: t, ..st }),
                None => None,
            }
        } else if f.tag == 2 {
            match field_u64(f.value) {
                Some(n) => Some(ActorIdState { local: n, ..st }),
                None => None,
            }
        } else {
            Some(st)
        }
    }

    fn take_field(&mut self, f: &RawField, bytes: &[u8]) -> (ok: bool) {
        if f.tag == 1 {
            match raw_text(f, bytes) {
                Some(t) => {
                    self.node = t;
                    true
                },
                None => false,
            }
        } else if f.tag == 2 {
            match raw_u64(f, bytes) {
                Some(n) => {
                    self.local = n;
                    true
                },
                None => false,
            }
        } else {
            true
        }
    }
}

/// The actor id encoded by an embedded message's bytes, when well formed.
pub open spec fn actor_id_decode(b: Seq<u8>) -> Option<ActorIdState> {
    sink_decode::<ActorIdSink>(b, actor_id_start())
}

/// Encoding of an actor id message: node id (1) when not empty, local (2)
/// when not zero.
pub open spec fn actor_id_bytes(node: Seq<char>, local: u64) -> Seq<u8> {
    (if node.len() == 0 { Seq::empty() } else { bytes_field_bytes(1, encode_utf8(node)) })
        + (if local == 0 { Seq::empty() } else { varint_field_bytes(2, local as nat) })
}

/// Appends the encoding of an actor id.
fn put_actor_id(buf: &mut Vec<u8>, id: &ActorId)
    ensures
        final(buf)@ == old(buf)@ + actor_id_bytes(id.node.0@, id.local),
{
    let ghost start = buf@;
    let text = id.node.0.as_str();
    if !text.is_empty() {
        put_bytes_field(buf, 1, text.as_bytes());
    }
    let ghost mid = buf@;
    if id.local != 0 {
        put_varint_field(buf, 2, id.local);
    }
    proof {
        assert(id.node.0@.len() == 0 <==> encode_utf8(id.node.0@).len() == 0) by {
            if id.node.0@.len() > 0 {
                encode_utf8_decode_utf8(id.node.0@);
            }
        }
    }
    assert(buf@ =~= start + actor_id_bytes(id.node.0@, id.local));
}


// ---------------------------------------------------------------------------
// Field encoders shared by the messages
// ---------------------------------------------------------------------------

/// A text field, left out when the text is empty.
pub open spec fn text_field_bytes(tag: nat, t: Seq<char>) -> Seq<u8> {
    if t.len() == 0 {
        Seq::empty()
    } else {
        bytes_field_bytes(tag, encode_utf8(t))
    }
}

/// A bytes field, left out when empty.
pub open spec fn data_field_bytes(tag: nat, d: Seq<u8>) -> Seq<u8> {
    if d.len() == 0 {
        Seq::empty()
    } else {
        bytes_field_bytes(tag, d)
    }
}

/// A varint field, left out when zero.
pub open spec fn num_field_bytes(tag: nat, v: u64) -> Seq<u8> {
    if v == 0 {
        Seq::empty()
    } else {
        varint_field_bytes(tag, v as nat)
    }
}

/// An optional text field, written whenever present (even when empty).
pub open spec fn opt_text_field_bytes(tag: nat, t: Option<Seq<char>>) -> Seq<u8> {
    match t {
        Some(x) => bytes_field_bytes(tag, encode_utf8(x)),
        None => Seq::empty(),
    }
}

/// Text is empty exactly when its UTF-8 encoding is.
pub proof fn lemma_encode_utf8_empty(t: Seq<char>)
    ensures
        (t.len() == 0) == (encode_utf8(t).len() == 0),
{
    encode_utf8_decode_utf8(t);
    if encode_utf8(t).len() == 0 {
        assert(encode_utf8(t) =~= Seq::<u8>::empty());
    }
}

/// Appends a text field, left out when the text is empty.
pub fn put_text_field(buf: &mut Vec<u8>, tag: u32, t: &str)
    requires
        1 <= tag < 0x2000_0000,
    ensures
        final(buf)@ == old(buf)@ + text_field_bytes(tag as nat, t@),
{
    proof {
        lemma_encode_utf8_empty(t@);
    }
    if !t.is_empty() {
        put_bytes_field(buf, tag, t.as_bytes());
    } else {
        assert(buf@ =~= old(buf)@ + text_field_bytes(tag as nat, t@));
    }
}

/// Appends an optional text field.
pub fn put_opt_text_field(buf: &mut Vec<u8>, tag: u32, t: &Option<String>)
    requires
        1 <= tag < 0x2000_0000,
    ensures
        final(buf)@ == old(buf)@ + opt_text_field_bytes(tag as nat, match t { Some(x) => Some(x@), None => None }),
{
    match t {
        Some(x) => put_bytes_field(buf, tag, x.as_str().as_bytes()),
        None => {
            assert(buf@ =~= old(buf)@ + Seq::<u8>::empty());
        },
    }
}

/// Appends a bytes field, left out when empty.
pub fn put_data_field(buf: &mut Vec<u8>, tag: u32, d: &[u8])
    requires
        1 <= tag < 0x2000_0000,
    ensures
        final(buf)@ == old(buf)@ + data_field_bytes(tag as nat, d@),
{
    if d.len() > 0 {
        put_bytes_field(buf, tag, d);
    } else {
        assert(buf@ =~= old(buf)@ + data_field_bytes(tag as nat, d@));
    }
}

/// Appends an embedded actor id message (always written).
pub fn put_actor_id_field(buf: &mut Vec<u8>, tag: u32, id: &ActorId)
    requires
        1 <= tag < 0x2000_0000,
    ensures
        final(buf)@ == old(buf)@ + bytes_field_bytes(tag as nat, actor_id_bytes(id.node.0@, id.local)),
{
    let mut inner: Vec<u8> = Vec::new();
    put_actor_id(&mut inner, id);
    assert(inner@ =~= actor_id_bytes(id.node.0@, id.local));
    put_bytes_field(buf, tag, inner.as_slice());
}

// ---------------------------------------------------------------------------
// Errors
// ---------------------------------------------------------------------------

/// `<what>: payload too large (<len> bytes, max <limit>)`.
pub open spec fn too_large_text(what: Seq<char>, len: nat, limit: nat) -> Seq<char> {
    what + ": payload too large ("@ + decimal_text(len) + " bytes, max "@ + decimal_text(limit) + ")"@
}

/// `decode <what>: malformed protobuf data`.
pub open spec fn malformed_text(what: Seq<char>) -> Seq<char> {
    "decode "@ + what + ": malformed protobuf data"@
}

/// `missing required field: <name>`.
pub open spec fn missing_field_text(name: Seq<char>) -> Seq<char> {
    "missing required field: "@ + name
}

/// Refuses a payload longer than `limit`.
fn check_size(bytes: &[u8], limit: usize, what: &str) -> (r: Result<(), SerializationError>)
    ensures
        r is Ok <==> bytes@.len() <= limit,
        r matches Err(e) ==> e.message@ == too_large_text(what@, bytes@.len(), limit as nat),
{
    if bytes.len() > limit {
        let mut s = String::from_str(what);
        s.append(": payload too large (");
        let a = u64_to_decimal(bytes.len() as u64);
        s.append(a.as_str());
        s.append(" bytes, max ");
        let b = u64_to_decimal(limit as u64);
        s.append(b.as_str());
        s.append(")");
        Err(SerializationError { message: s })
    } else {
        Ok(())
    }
}

/// The error for malformed input.
fn malformed(what: &str) -> (e: SerializationError)
    ensures
        e.message@ == malformed_text(what@),
{
    let mut s = String::from_str("decode ");
    s.append(what);
    s.append(": malformed protobuf data");
    SerializationError { message: s }
}

/// The error for an absent embedded message.
fn missing_field(name: &str) -> (e: SerializationError)
    ensures
        e.message@ == missing_field_text(name@),
{
    let mut s = String::from_str("missing required field: ");
    s.append(name);
    SerializationError { message: s }
}

// ---------------------------------------------------------------------------
// Required actor ids
// ---------------------------------------------------------------------------

/// What a required embedded actor id decodes to: the id, or an error text.
pub open spec fn required_actor_id(slot: Option<ActorIdState>, name: Seq<char>) -> Result<ActorIdState, Seq<char>> {
    match slot {
        None => Err(missing_field_text(name)),
        Some(a) => if a.node.len() == 0 {
            Err("ActorId: node_id must not be empty"@)
        } else {
            Ok(a)
        },
    }
}

/// The decoded state of an optional actor id slot.
pub open spec fn actor_slot(slot: Option<ActorIdSink>) -> Option<ActorIdState> {
    match slot {
        Some(a) => Some(a@),
        None => None,
    }
}

/// Builds the actor id of a required embedded message.
fn require_actor_id(slot: Option<ActorIdSink>, name: &str) -> (r: Result<ActorId, SerializationError>)
    ensures
        required_actor_id(actor_slot(slot), name@) matches Ok(a) ==> (r matches Ok(id) && id.node.0@ == a.node && id.local == a.local),
        required_actor_id(actor_slot(slot), name@) matches Err(t) ==> (r matches Err(e) && e.message@ == t),
{
    match slot {
        None => Err(missing_field(name)),
        Some(a) => {
            if a.node.as_str().is_empty() {
                Err(SerializationError::new("ActorId: node_id must not be empty"))
            } else {
                Ok(ActorId { node: NodeId(a.node), local: a.local })
            }
        },
    }
}

/// The embedded actor id a field carries, when it is a well-formed one,
/// merged into the one read before (if any): fields the new occurrence
/// carries replace those of the earlier one.
pub open spec fn field_actor_id(prev: Option<ActorIdState>, v: WireValue) -> Option<ActorIdState> {
    match v {
        WireValue::Bytes(b) => sink_decode::<ActorIdSink>(b, match prev {
            Some(p) => p,
            None => actor_id_start(),
        }),
        _ => None,
    }
}

/// Decodes the embedded actor id a raw field carries into the one read
/// before (if any).
fn raw_actor_id(prev: Option<ActorIdSink>, f: &RawField, bytes: &[u8]) -> (r: Option<ActorIdSink>)
    requires
        f.wire_type == 2 ==> f.start <= f.end <= bytes@.len(),
    ensures
        r is Some <==> field_actor_id(actor_slot(prev), raw_field_view(*f, bytes@).value) is Some,
        r matches Some(a) ==> a@ == field_actor_id(actor_slot(prev), raw_field_view(*f, bytes@).value)->0,
{
    if f.wire_type != 2 {
        return None;
    }
    let mut sink = match prev {
        Some(p) => p,
        None => ActorIdSink { node: String::new(), local: 0 },
    };
    let sub = slice_subrange(bytes, f.start, f.end);
    if decode_into(sub, &mut sink) {
        Some(sink)
    } else {
        None
    }
}


// ---------------------------------------------------------------------------
// Laws of field decoding
// ---------------------------------------------------------------------------

/// Decoding input that starts with one whole field.
pub proof fn lemma_sink_decode_prefix<T: FieldSink>(a: Seq<u8>, rest: Seq<u8>, st: T::V, f: WireField)
    requires
        a.len() > 0,
        field_parse(a + rest) == Some((f, a.len())),
    ensures
        sink_decode::<T>(a + rest, st) == (match T::accept(st, f) {
            Some(s2) => sink_decode::<T>(rest, s2),
            None => None,
        }),
{
    lemma_sink_decode_step::<T>(a + rest, st);
    assert((a + rest).skip(a.len() as int) =~= rest);
}

/// The text carried by the encoding of a text.
pub proof fn lemma_field_text_encoded(t: Seq<char>)
    ensures
        field_text(WireValue::Bytes(encode_utf8(t))) == Some(t),
{
    encode_utf8_valid_utf8(t);
    encode_utf8_decode_utf8(t);
}

/// Decoding input that starts with a text field.
pub proof fn lemma_text_field_decode<T: FieldSink>(tag: u32, t: Seq<char>, rest: Seq<u8>, st: T::V)
    requires
        1 <= tag < 0x2000_0000,
        encode_utf8(t).len() <= u64::MAX,
    ensures
        t.len() == 0 ==> sink_decode::<T>(text_field_bytes(tag as nat, t) + rest, st) == sink_decode::<T>(rest, st),
        t.len() > 0 ==> sink_decode::<T>(text_field_bytes(tag as nat, t) + rest, st) == (match T::accept(
            st,
            WireField { tag: tag as nat, value: WireValue::Bytes(encode_utf8(t)) },
        ) {
            Some(s2) => sink_decode::<T>(rest, s2),
            None => None,
        }),
{
    if t.len() == 0 {
        assert(text_field_bytes(tag as nat, t) + rest =~= rest);
    } else {
        let a = bytes_field_bytes(tag as nat, encode_utf8(t));
        crate::wire::lemma_bytes_field_roundtrip(tag, encode_utf8(t), rest);
        crate::wire::lemma_varint_bytes_len(tag as nat * 8 + 2);
        lemma_sink_decode_prefix::<T>(a, rest, st, WireField { tag: tag as nat, value: WireValue::Bytes(encode_utf8(t)) });
    }
}

/// Decoding input that starts with a bytes field.
pub proof fn lemma_data_field_decode<T: FieldSink>(tag: u32, d: Seq<u8>, rest: Seq<u8>, st: T::V)
    requires
        1 <= tag < 0x2000_0000,
        d.len() <= u64::MAX,
    ensures
        d.len() == 0 ==> sink_decode::<T>(data_field_bytes(tag as nat, d) + rest, st) == sink_decode::<T>(rest, st),
        d.len() > 0 ==> sink_decode::<T>(data_field_bytes(tag as nat, d) + rest, st) == (match T::accept(
            st,
            WireField { tag: tag as nat, value: WireValue::Bytes(d) },
        ) {
            Some(s2) => sink_decode::<T>(rest, s2),
            None => None,
        }),
{
    if d.len() == 0 {
        assert(data_field_bytes(tag as nat, d) + rest =~= rest);
    } else {
        let a = bytes_field_bytes(tag as nat, d);
        crate::wire::lemma_bytes_field_roundtrip(tag, d, rest);
        crate::wire::lemma_varint_bytes_len(tag as nat * 8 + 2);
        lemma_sink_decode_prefix::<T>(a, rest, st, WireField { tag: tag as nat, value: WireValue::Bytes(d) });
    }
}

/// Decoding input that starts with a length-delimited field that is always
/// written.
pub proof fn lemma_present_field_decode<T: FieldSink>(tag: u32, d: Seq<u8>, rest: Seq<u8>, st: T::V)
    requires
        1 <= tag < 0x2000_0000,
        d.len() <= u64::MAX,
    ensures
        sink_decode::<T>(bytes_field_bytes(tag as nat, d) + rest, st) == (match T::accept(
            st,
            WireField { tag: tag as nat, value: WireValue::Bytes(d) },
        ) {
            Some(s2) => sink_decode::<T>(rest, s2),
            None => None,
        }),
{
    let a = bytes_field_bytes(tag as nat, d);
    crate::wire::lemma_bytes_field_roundtrip(tag, d, rest);
    crate::wire::lemma_varint_bytes_len(tag as nat * 8 + 2);
    lemma_sink_decode_prefix::<T>(a, rest, st, WireField { tag: tag as nat, value: WireValue::Bytes(d) });
}

/// Decoding input that starts with a varint field.
pub proof fn lemma_num_field_decode<T: FieldSink>(tag: u32, v: u64, rest: Seq<u8>, st: T::V)
    requires
        1 <= tag < 0x2000_0000,
    ensures
        v == 0 ==> sink_decode::<T>(num_field_bytes(tag as nat, v) + rest, st) == sink_decode::<T>(rest, st),
        v != 0 ==> sink_decode::<T>(num_field_bytes(tag as nat, v) + rest, st) == (match T::accept(
            st,
            WireField { tag: tag as nat, value: WireValue::Varint(v as nat) },
        ) {
            Some(s2) => sink_decode::<T>(rest, s2),
            None => None,
        }),
{
    if v == 0 {
        assert(num_field_bytes(tag as nat, v) + rest =~= rest);
    } else {
        let a = varint_field_bytes(tag as nat, v as nat);
        crate::wire::lemma_varint_field_roundtrip(tag, v, rest);
        crate::wire::lemma_varint_bytes_len(tag as nat * 8);
        lemma_sink_decode_prefix::<T>(a, rest, st, WireField { tag: tag as nat, value: WireValue::Varint(v as nat) });
    }
}

/// Decoding the empty input leaves the state as it is.
pub proof fn lemma_sink_decode_empty<T: FieldSink>(st: T::V)
    ensures
        sink_decode::<T>(Seq::empty(), st) == Some(st),
{
    assert(fields_parse(Seq::<u8>::empty()) == Some(Seq::<WireField>::empty()));
}

/// Reading back the encoding of an actor id.
pub proof fn lemma_actor_id_roundtrip(node: Seq<char>, local: u64)
    requires
        encode_utf8(node).len() <= u64::MAX,
    ensures
        actor_id_decode(actor_id_bytes(node, local)) == Some(ActorIdState { node, local }),
{
    let st0 = actor_id_start();
    let b2 = if local == 0 { Seq::<u8>::empty() } else { varint_field_bytes(2, local as nat) };
    assert(b2 =~= num_field_bytes(2, local) + Seq::<u8>::empty());
    lemma_field_text_encoded(node);
    lemma_text_field_decode::<ActorIdSink>(1, node, b2, st0);
    let st1 = ActorIdState { node, local: 0 };
    lemma_num_field_decode::<ActorIdSink>(2, local, Seq::empty(), st1);
    lemma_sink_decode_empty::<ActorIdSink>(st1);
    lemma_sink_decode_empty::<ActorIdSink>(ActorIdState { node, local });
    if node.len() == 0 {
        assert(st0 == st1);
    }
    assert(actor_id_bytes(node, local) =~= text_field_bytes(1, node) + b2);
}

// ---------------------------------------------------------------------------
// SpawnRequest
// ---------------------------------------------------------------------------

/// Decoded state of a spawn request.
pub struct SpawnRequestState {
    pub actor_type: Seq<char>,
    pub args: Seq<u8>,
    pub name: Seq<char>,
    pub request_id: Seq<char>,
}

/// Absorbs the fields of a spawn request: actor type (1, text), arguments
/// (2, bytes), name (3, text), request id (4, text).
pub struct SpawnRequestSink {
    pub actor_type: String,
    pub args: Vec<u8>,
    pub name: String,
    pub request_id: String,
}

impl View for SpawnRequestSink {
    type V = SpawnRequestState;

    open spec fn view(&self) -> SpawnRequestState {
        SpawnRequestState { actor_type: self.actor_type@, args: self.args@, name: self.name@, request_id: self.request_id@ }
    }
}

/// A spawn request before any field: all empty.
pub open spec fn spawn_request_start() -> SpawnRequestState {
    SpawnRequestState { actor_type: Seq::empty(), args: Seq::empty(), name: Seq::empty(), request_id: Seq::empty() }
}

impl FieldSink for SpawnRequestSink {
    open spec fn accept(st: SpawnRequestState, f: WireField) -> Option<SpawnRequestState> {
        if f.tag == 1 {
            match field_text(f.value) {
                Some(t) => Some(SpawnRequestState { actor_type: t, ..st }),
                None => None,
            }
        } else if f.tag == 2 {
            match field_data(f.value) {
                Some(d) => Some(SpawnRequestState { args: d, ..st }),
                None => None,
            }
        } else if f.tag == 3 {
            match field_text(f.value) {
                Some(t) => Some(SpawnRequestState { name: t, ..st }),
                None => None,
            }
        } else if f.tag == 4 {
            match field_text(f.value) {
                Some(t) => Some(SpawnRequestState { request_id: t, ..st }),
                None => None,
            }
        } else {
            Some(st)
        }
    }

    fn take_field(&mut self, f: &RawField, bytes: &[u8]) -> (ok: bool) {
        if f.tag == 1 {
            match raw_text(f, bytes) {
                Some(t) => {
                    self.actor_type = t;
                    true
                },
                None => false,
            }
        } else if f.tag == 2 {
            match raw_data(f, bytes) {
                Some(d) => {
                    self.args = d;
                    true
                },
                None => false,
            }
        } else if f.tag == 3 {
            match raw_text(f, bytes) {
                Some(t) => {
                    self.name = t;
                    true
                },
                None => false,
            }
        } else if f.tag == 4 {
            match raw_text(f, bytes) {
                Some(t) => {
                    self.request_id = t;
                    true
                },
                None => false,
            }
        } else {
            true
        }
    }
}

/// Encoding of a spawn request.
pub open spec fn spawn_request_bytes(actor_type: Seq<char>, args: Seq<u8>, name: Seq<char>, request_id: Seq<char>) -> Seq<u8> {
    text_field_bytes(1, actor_type) + data_field_bytes(2, args) + text_field_bytes(3, name) + text_field_bytes(4, request_id)
}

/// The outcome of decoding a spawn request: its fields, or the error text.
pub open spec fn spawn_request_decoding(b: Seq<u8>) -> Result<SpawnRequestState, Seq<char>> {
    if b.len() > MAX_SYSTEM_MSG_SIZE {
        Err(too_large_text("SpawnRequest"@, b.len(), MAX_SYSTEM_MSG_SIZE as nat))
    } else {
        match sink_decode::<SpawnRequestSink>(b, spawn_request_start()) {
            None => Err(malformed_text("SpawnRequest"@)),
            Some(st) => if st.actor_type.len() == 0 {
                Err("SpawnRequest: type_name must not be empty"@)
            } else if st.request_id.len() == 0 {
                Err("SpawnRequest: request_id must not be empty"@)
            } else {
                Ok(st)
            },
        }
    }
}

/// Encode a spawn request to protobuf bytes.
pub fn encode_spawn_request(req: SpawnRequest) -> (b: Vec<u8>)
    ensures
        b@ == spawn_request_bytes(req.actor_type@, req.args_bytes@, req.name@, req.request_id@),
{
    let mut buf: Vec<u8> = Vec::new();
    put_text_field(&mut buf, 1, req.actor_type.as_str());
    put_data_field(&mut buf, 2, req.args_bytes.as_slice());
    put_text_field(&mut buf, 3, req.name.as_str());
    put_text_field(&mut buf, 4, req.request_id.as_str());
    assert(buf@ =~= spawn_request_bytes(req.actor_type@, req.args_bytes@, req.name@, req.request_id@));
    buf
}

/// Decode a spawn request from protobuf bytes.
pub fn decode_spawn_request(bytes: &[u8]) -> (r: Result<SpawnRequest, SerializationError>)
    ensures
        spawn_request_decoding(bytes@) matches Ok(st) ==> (r matches Ok(req) && req.actor_type@ == st.actor_type
            && req.args_bytes@ == st.args && req.name@ == st.name && req.request_id@ == st.request_id),
        spawn_request_decoding(bytes@) matches Err(t) ==> (r matches Err(e) && e.message@ == t),
{
    check_size(bytes, MAX_SYSTEM_MSG_SIZE, "SpawnRequest")?;
    let mut sink = SpawnRequestSink { actor_type: String::new(), args: Vec::new(), name: String::new(), request_id: String::new() };
    assert(sink@ =~= spawn_request_start());
    if !decode_into(bytes, &mut sink) {
        return Err(malformed("SpawnRequest"));
    }
    if sink.actor_type.as_str().is_empty() {
        return Err(SerializationError::new("SpawnRequest: type_name must not be empty"));
    }
    if sink.request_id.as_str().is_empty() {
        return Err(SerializationError::new("SpawnRequest: request_id must not be empty"));
    }
    Ok(SpawnRequest { actor_type: sink.actor_type, args_bytes: sink.args, name: sink.name, request_id: sink.request_id })
}

/// The fields of an encoded spawn request read back as they were written.
proof fn lemma_spawn_request_fields(actor_type: Seq<char>, args: Seq<u8>, name: Seq<char>, request_id: Seq<char>)
    requires
        spawn_request_bytes(actor_type, args, name, request_id).len() <= MAX_SYSTEM_MSG_SIZE,
    ensures
        sink_decode::<SpawnRequestSink>(spawn_request_bytes(actor_type, args, name, request_id), spawn_request_start())
            == Some(SpawnRequestState { actor_type, args, name, request_id }),
{
    let f1 = text_field_bytes(1, actor_type);
    let f2 = data_field_bytes(2, args);
    let f3 = text_field_bytes(3, name);
    let f4 = text_field_bytes(4, request_id);
    let whole = spawn_request_bytes(actor_type, args, name, request_id);
    assert(whole =~= f1 + (f2 + (f3 + (f4 + Seq::<u8>::empty()))));
    lemma_field_text_encoded(actor_type);
    lemma_field_text_encoded(name);
    lemma_field_text_encoded(request_id);
    let s0 = spawn_request_start();
    let s1 = SpawnRequestState { actor_type, ..s0 };
    let s2 = SpawnRequestState { args, ..s1 };
    let s3 = SpawnRequestState { name, ..s2 };
    let s4 = SpawnRequestState { request_id, ..s3 };
    lemma_text_field_decode::<SpawnRequestSink>(1, actor_type, f2 + (f3 + (f4 + Seq::<u8>::empty())), s0);
    if actor_type.len() == 0 {
        assert(actor_type =~= Seq::<char>::empty());
        assert(s0 == s1);
    }
    lemma_data_field_decode::<SpawnRequestSink>(2, args, f3 + (f4 + Seq::<u8>::empty()), s1);
    if args.len() == 0 {
        assert(args =~= Seq::<u8>::empty());
        assert(s1 == s2);
    }
    lemma_text_field_decode::<SpawnRequestSink>(3, name, f4 + Seq::<u8>::empty(), s2);
    if name.len() == 0 {
        assert(name =~= Seq::<char>::empty());
        assert(s2 == s3);
    }
    lemma_text_field_decode::<SpawnRequestSink>(4, request_id, Seq::<u8>::empty(), s3);
    if request_id.len() == 0 {
        assert(request_id =~= Seq::<char>::empty());
        assert(s3 == s4);
    }
    lemma_sink_decode_empty::<SpawnRequestSink>(s4);
}

/// A spawn request with an actor type and a request id comes back unchanged
/// from its encoding, as long as the encoding is within the size limit.
pub proof fn law_spawn_request_roundtrip(actor_type: Seq<char>, args: Seq<u8>, name: Seq<char>, request_id: Seq<char>)
    requires
        actor_type.len() > 0,
        request_id.len() > 0,
        spawn_request_bytes(actor_type, args, name, request_id).len() <= MAX_SYSTEM_MSG_SIZE,
    ensures
        spawn_request_decoding(spawn_request_bytes(actor_type, args, name, request_id))
            == Ok::<SpawnRequestState, Seq<char>>(SpawnRequestState { actor_type, args, name, request_id }),
{
    lemma_spawn_request_fields(actor_type, args, name, request_id);
}

/// An encoded spawn request without an actor type is refused for it; one
/// with an actor type but no request id is refused for that.
pub proof fn law_spawn_request_required_fields(actor_type: Seq<char>, args: Seq<u8>, name: Seq<char>, request_id: Seq<char>)
    requires
        spawn_request_bytes(actor_type, args, name, request_id).len() <= MAX_SYSTEM_MSG_SIZE,
    ensures
        actor_type.len() == 0 ==> spawn_request_decoding(spawn_request_bytes(actor_type, args, name, request_id))
            == Err::<SpawnRequestState, Seq<char>>("SpawnRequest: type_name must not be empty"@),
        actor_type.len() > 0 && request_id.len() == 0 ==> spawn_request_decoding(spawn_request_bytes(actor_type, args, name, request_id))
            == Err::<SpawnRequestState, Seq<char>>("SpawnRequest: request_id must not be empty"@),
{
    lemma_spawn_request_fields(actor_type, args, name, request_id);
}


// ---------------------------------------------------------------------------
// Messages made of two actor ids: watch, unwatch, watch notification
// ---------------------------------------------------------------------------

/// Decoded state of a message holding two embedded actor ids.
pub struct ActorPairState {
    pub first: Option<ActorIdState>,
    pub second: Option<ActorIdState>,
}

/// Absorbs two embedded actor ids (tags 1 and 2).
pub struct ActorPairSink {
    pub first: Option<ActorIdSink>,
    pub second: Option<ActorIdSink>,
}

impl View for ActorPairSink {
    type V = ActorPairState;

    open spec fn view(&self) -> ActorPairState {
        ActorPairState { first: actor_slot(self.first), second: actor_slot(self.second) }
    }
}

/// Neither actor id present yet.
pub open spec fn actor_pair_start() -> ActorPairState {
    ActorPairState { first: None, second: None }
}

impl FieldSink for ActorPairSink {
    open spec fn accept(st: ActorPairState, f: WireField) -> Option<ActorPairState> {
        if f.tag == 1 {
            match field_actor_id(st.first, f.value) {
                Some(a) => Some(ActorPairState { first: Some(a), ..st }),
                None => None,
            }
        } else if f.tag == 2 {
            match field_actor_id(st.second, f.value) {
                Some(a) => Some(ActorPairState { second: Some(a), ..st }),
                None => None,
            }
        } else {
            Some(st)
        }
    }

    fn take_field(&mut self, f: &RawField, bytes: &[u8]) -> (ok: bool) {
        if f.tag == 1 {
            let mut prev: Option<ActorIdSink> = None;
            std::mem::swap(&mut prev, &mut self.first);
            match raw_actor_id(prev, f, bytes) {
                Some(a) => {
                    self.first = Some(a);
                    true
                },
                None => false,
            }
        } else if f.tag == 2 {
            let mut prev: Option<ActorIdSink> = None;
            std::mem::swap(&mut prev, &mut self.second);
            match raw_actor_id(prev, f, bytes) {
                Some(a) => {
                    self.second = Some(a);
                    true
                },
                None => false,
            }
        } else {
            true
        }
    }
}

/// Encoding of two actor ids as embedded messages 1 and 2.
pub open spec fn actor_pair_bytes(a: ActorIdState, b: ActorIdState) -> Seq<u8> {
    bytes_field_bytes(1, actor_id_bytes(a.node, a.local)) + bytes_field_bytes(2, actor_id_bytes(b.node, b.local))
}

/// The state of an actor id.
pub open spec fn actor_state(id: ActorId) -> ActorIdState {
    ActorIdState { node: id.node.0@, local: id.local }
}

/// Outcome of decoding a message of two required actor ids.
pub open spec fn actor_pair_decoding(b: Seq<u8>, what: Seq<char>, first_name: Seq<char>, second_name: Seq<char>)
    -> Result<(ActorIdState, ActorIdState), Seq<char>>
{
    if b.len() > MAX_SYSTEM_MSG_SIZE {
        Err(too_large_text(what, b.len(), MAX_SYSTEM_MSG_SIZE as nat))
    } else {
        match sink_decode::<ActorPairSink>(b, actor_pair_start()) {
            None => Err(malformed_text(what)),
            Some(st) => match required_actor_id(st.first, first_name) {
                Err(t) => Err(t),
                Ok(x) => match required_actor_id(st.second, second_name) {
                    Err(t) => Err(t),
                    Ok(y) => Ok((x, y)),
                },
            },
        }
    }
}

/// Appends two actor ids as embedded messages 1 and 2.
fn encode_actor_pair(a: &ActorId, b: &ActorId) -> (r: Vec<u8>)
    ensures
        r@ == actor_pair_bytes(actor_state(*a), actor_state(*b)),
{
    let mut buf: Vec<u8> = Vec::new();
    put_actor_id_field(&mut buf, 1, a);
    put_actor_id_field(&mut buf, 2, b);
    assert(buf@ =~= actor_pair_bytes(actor_state(*a), actor_state(*b)));
    buf
}

/// Decodes two required actor ids.
fn decode_actor_pair(bytes: &[u8], what: &str, first_name: &str, second_name: &str) -> (r: Result<(ActorId, ActorId), SerializationError>)
    ensures
        actor_pair_decoding(bytes@, what@, first_name@, second_name@) matches Ok((x, y)) ==> (r matches Ok((a, b))
            && actor_state(a) == x && actor_state(b) == y),
        actor_pair_decoding(bytes@, what@, first_name@, second_name@) matches Err(t) ==> (r matches Err(e) && e.message@ == t),
{
    check_size(bytes, MAX_SYSTEM_MSG_SIZE, what)?;
    let mut sink = ActorPairSink { first: None, second: None };
    if !decode_into(bytes, &mut sink) {
        return Err(malformed(what));
    }
    let a = require_actor_id(sink.first, first_name)?;
    let b = require_actor_id(sink.second, second_name)?;
    Ok((a, b))
}

/// Reading back two encoded actor ids.
pub proof fn lemma_actor_pair_roundtrip(a: ActorIdState, b: ActorIdState)
    requires
        actor_pair_bytes(a, b).len() <= u64::MAX,
    ensures
        sink_decode::<ActorPairSink>(actor_pair_bytes(a, b), actor_pair_start())
            == Some(ActorPairState { first: Some(a), second: Some(b) }),
{
    let ea = actor_id_bytes(a.node, a.local);
    let eb = actor_id_bytes(b.node, b.local);
    assert(encode_utf8(a.node).len() <= u64::MAX) by {
        assert(actor_pair_bytes(a, b).len() >= ea.len());
        if a.node.len() > 0 {
            assert(ea.len() >= encode_utf8(a.node).len());
        } else {
            lemma_encode_utf8_empty(a.node);
        }
    }
    assert(encode_utf8(b.node).len() <= u64::MAX) by {
        assert(actor_pair_bytes(a, b).len() >= eb.len());
        if b.node.len() > 0 {
            assert(eb.len() >= encode_utf8(b.node).len());
        } else {
            lemma_encode_utf8_empty(b.node);
        }
    }
    lemma_actor_id_roundtrip(a.node, a.local);
    lemma_actor_id_roundtrip(b.node, b.local);
    let f2 = bytes_field_bytes(2, eb);
    assert(actor_pair_bytes(a, b) =~= bytes_field_bytes(1, ea) + f2);
    let s0 = actor_pair_start();
    let s1 = ActorPairState { first: Some(a), ..s0 };
    lemma_present_field_decode::<ActorPairSink>(1, ea, f2, s0);
    assert(f2 =~= f2 + Seq::<u8>::empty());
    lemma_present_field_decode::<ActorPairSink>(2, eb, Seq::empty(), s1);
    lemma_sink_decode_empty::<ActorPairSink>(ActorPairState { second: Some(b), ..s1 });
}

/// A message of two actor ids with non-empty node ids comes back unchanged
/// from its encoding, within the size limit.
pub proof fn law_actor_pair_roundtrip(a: ActorIdState, b: ActorIdState, what: Seq<char>, n1: Seq<char>, n2: Seq<char>)
    requires
        a.node.len() > 0,
        b.node.len() > 0,
        actor_pair_bytes(a, b).len() <= MAX_SYSTEM_MSG_SIZE,
    ensures
        actor_pair_decoding(actor_pair_bytes(a, b), what, n1, n2) == Ok::<(ActorIdState, ActorIdState), Seq<char>>((a, b)),
{
    lemma_actor_pair_roundtrip(a, b);
}

/// Encode a watch request: target (1), watcher (2).
pub fn encode_watch_request(req: WatchRequest) -> (b: Vec<u8>)
    ensures
        b@ == actor_pair_bytes(actor_state(req.target), actor_state(req.watcher)),
{
    encode_actor_pair(&req.target, &req.watcher)
}

/// Decode a watch request.
pub fn decode_watch_request(bytes: &[u8]) -> (r: Result<WatchRequest, SerializationError>)
    ensures
        actor_pair_decoding(bytes@, "WatchRequest"@, "WatchRequest.target"@, "WatchRequest.watcher"@) matches Ok((x, y))
            ==> (r matches Ok(req) && actor_state(req.target) == x && actor_state(req.watcher) == y),
        actor_pair_decoding(bytes@, "WatchRequest"@, "WatchRequest.target"@, "WatchRequest.watcher"@) matches Err(t)
            ==> (r matches Err(e) && e.message@ == t),
{
    let (target, watcher) = decode_actor_pair(bytes, "WatchRequest", "WatchRequest.target", "WatchRequest.watcher")?;
    Ok(WatchRequest { target, watcher })
}

/// Encode an unwatch request: target (1), watcher (2).
pub fn encode_unwatch_request(req: UnwatchRequest) -> (b: Vec<u8>)
    ensures
        b@ == actor_pair_bytes(actor_state(req.target), actor_state(req.watcher)),
{
    encode_actor_pair(&req.target, &req.watcher)
}

/// Decode an unwatch request.
pub fn decode_unwatch_request(bytes: &[u8]) -> (r: Result<UnwatchRequest, SerializationError>)
    ensures
        actor_pair_decoding(bytes@, "UnwatchRequest"@, "UnwatchRequest.target"@, "UnwatchRequest.watcher"@) matches Ok((x, y))
            ==> (r matches Ok(req) && actor_state(req.target) == x && actor_state(req.watcher) == y),
        actor_pair_decoding(bytes@, "UnwatchRequest"@, "UnwatchRequest.target"@, "UnwatchRequest.watcher"@) matches Err(t)
            ==> (r matches Err(e) && e.message@ == t),
{
    let (target, watcher) = decode_actor_pair(bytes, "UnwatchRequest", "UnwatchRequest.target", "UnwatchRequest.watcher")?;
    Ok(UnwatchRequest { target, watcher })
}

/// Encode a watch notification: terminated actor (1), watcher (2).
pub fn encode_watch_notification(notif: WatchNotification) -> (b: Vec<u8>)
    ensures
        b@ == actor_pair_bytes(actor_state(notif.terminated), actor_state(notif.watcher)),
{
    encode_actor_pair(&notif.terminated, &notif.watcher)
}

/// Decode a watch notification.
pub fn decode_watch_notification(bytes: &[u8]) -> (r: Result<WatchNotification, SerializationError>)
    ensures
        actor_pair_decoding(bytes@, "WatchNotification"@, "WatchNotification.terminated"@, "WatchNotification.watcher"@) matches Ok((x, y))
            ==> (r matches Ok(n) && actor_state(n.terminated) == x && actor_state(n.watcher) == y),
        actor_pair_decoding(bytes@, "WatchNotification"@, "WatchNotification.terminated"@, "WatchNotification.watcher"@) matches Err(t)
            ==> (r matches Err(e) && e.message@ == t),
{
    let (terminated, watcher) = decode_actor_pair(
        bytes,
        "WatchNotification",
        "WatchNotification.terminated",
        "WatchNotification.watcher",
    )?;
    Ok(WatchNotification { terminated, watcher })
}

// ---------------------------------------------------------------------------
// ConnectPeer / DisconnectPeer
// ---------------------------------------------------------------------------

/// Decoded state of a peer message: node id (1, text), address (2, optional text).
pub struct PeerState {
    pub node_id: Seq<char>,
    pub address: Option<Seq<char>>,
}

/// Absorbs the fields of a peer message.
pub struct PeerSink {
    pub node_id: String,
    pub address: Option<String>,
}

/// The text of an optional string.
pub open spec fn opt_text(o: Option<String>) -> Option<Seq<char>> {
    match o {
        Some(s) => Some(s@),
        None => None,
    }
}

impl View for PeerSink {
    type V = PeerState;

    open spec fn view(&self) -> PeerState {
        PeerState { node_id: self.node_id@, address: opt_text(self.address) }
    }
}

/// A peer message before any field.
pub open spec fn peer_start() -> PeerState {
    PeerState { node_id: Seq::empty(), address: None }
}

impl FieldSink for PeerSink {
    open spec fn accept(st: PeerState, f: WireField) -> Option<PeerState> {
        if f.tag == 1 {
            match field_text(f.value) {
                Some(t) => Some(PeerState { node_id: t, ..st }),
                None => None,
            }
        } else if f.tag == 2 {
            match field_text(f.value) {
                Some(t) => Some(PeerState { address: Some(t), ..st }),
                None => None,
            }
        } else {
            Some(st)
        }
    }

    fn take_field(&mut self, f: &RawField, bytes: &[u8]) -> (ok: bool) {
        if f.tag == 1 {
            match raw_text(f, bytes) {
                Some(t) => {
                    self.node_id = t;
                    true
                },
                None => false,
            }
        } else if f.tag == 2 {
            match raw_text(f, bytes) {
                Some(t) => {
                    self.address = Some(t);
                    true
                },
                None => false,
            }
        } else {
            true
        }
    }
}

/// Encoding of a peer message.
pub open spec fn peer_bytes(node_id: Seq<char>, address: Option<Seq<char>>) -> Seq<u8> {
    text_field_bytes(1, node_id) + opt_text_field_bytes(2, address)
}

/// Outcome of decoding a peer message.
pub open spec fn peer_decoding(b: Seq<u8>, what: Seq<char>) -> Result<PeerState, Seq<char>> {
    if b.len() > MAX_SYSTEM_MSG_SIZE {
        Err(too_large_text(what, b.len(), MAX_SYSTEM_MSG_SIZE as nat))
    } else {
        match sink_decode::<PeerSink>(b, peer_start()) {
            None => Err(malformed_text(what)),
            Some(st) => if st.node_id.len() == 0 {
                Err(what + ": node_id must not be empty"@)
            } else {
                Ok(st)
            },
        }
    }
}

/// Decodes a peer message.
fn decode_peer(bytes: &[u8], what: &str) -> (r: Result<PeerSink, SerializationError>)
    ensures
        peer_decoding(bytes@, what@) matches Ok(st) ==> (r matches Ok(p) && p@ == st),
        peer_decoding(bytes@, what@) matches Err(t) ==> (r matches Err(e) && e.message@ == t),
{
    check_size(bytes, MAX_SYSTEM_MSG_SIZE, what)?;
    let mut sink = PeerSink { node_id: String::new(), address: None };
    assert(sink@ =~= peer_start());
    if !decode_into(bytes, &mut sink) {
        return Err(malformed(what));
    }
    if sink.node_id.as_str().is_empty() {
        let mut s = String::from_str(what);
        s.append(": node_id must not be empty");
        return Err(SerializationError { message: s });
    }
    Ok(sink)
}

/// Encode a connect-peer message: node id (1), address (2) when given.
pub fn encode_connect_peer(node_id: &NodeId, address: Option<&str>) -> (b: Vec<u8>)
    ensures
        b@ == peer_bytes(node_id@, match address { Some(a) => Some(a@), None => None }),
{
    let mut buf: Vec<u8> = Vec::new();
    put_text_field(&mut buf, 1, node_id.0.as_str());
    let addr: Option<String> = match address {
        Some(a) => Some(String::from_str(a)),
        None => None,
    };
    put_opt_text_field(&mut buf, 2, &addr);
    assert(buf@ =~= peer_bytes(node_id@, match address { Some(a) => Some(a@), None => None }));
    buf
}

/// Decode a connect-peer message into its node id and optional address.
pub fn decode_connect_peer(bytes: &[u8]) -> (r: Result<(NodeId, Option<String>), SerializationError>)
    ensures
        peer_decoding(bytes@, "ConnectPeer"@) matches Ok(st) ==> (r matches Ok((n, a)) && n@ == st.node_id && opt_text(a) == st.address),
        peer_decoding(bytes@, "ConnectPeer"@) matches Err(t) ==> (r matches Err(e) && e.message@ == t),
{
    let p = decode_peer(bytes, "ConnectPeer")?;
    Ok((NodeId(p.node_id), p.address))
}

/// Encode a disconnect-peer message: node id (1).
pub fn encode_disconnect_peer(node_id: &NodeId) -> (b: Vec<u8>)
    ensures
        b@ == peer_bytes(node_id@, None),
{
    let mut buf: Vec<u8> = Vec::new();
    put_text_field(&mut buf, 1, node_id.0.as_str());
    assert(buf@ =~= peer_bytes(node_id@, None));
    buf
}

/// Decode a disconnect-peer message into its node id.
pub fn decode_disconnect_peer(bytes: &[u8]) -> (r: Result<NodeId, SerializationError>)
    ensures
        peer_decoding(bytes@, "DisconnectPeer"@) matches Ok(st) ==> (r matches Ok(n) && n@ == st.node_id),
        peer_decoding(bytes@, "DisconnectPeer"@) matches Err(t) ==> (r matches Err(e) && e.message@ == t),
{
    let p = decode_peer(bytes, "DisconnectPeer")?;
    Ok(NodeId(p.node_id))
}

/// A peer message with a non-empty node id comes back unchanged from its
/// encoding, within the size limit.
pub proof fn law_peer_roundtrip(node_id: Seq<char>, address: Option<Seq<char>>, what: Seq<char>)
    requires
        node_id.len() > 0,
        peer_bytes(node_id, address).len() <= MAX_SYSTEM_MSG_SIZE,
    ensures
        peer_decoding(peer_bytes(node_id, address), what) == Ok::<PeerState, Seq<char>>(PeerState { node_id, address }),
{
    let f1 = text_field_bytes(1, node_id);
    let f2 = opt_text_field_bytes(2, address);
    assert(peer_bytes(node_id, address) =~= f1 + (f2 + Seq::<u8>::empty()));
    lemma_field_text_encoded(node_id);
    let s0 = peer_start();
    let s1 = PeerState { node_id, ..s0 };
    lemma_text_field_decode::<PeerSink>(1, node_id, f2 + Seq::<u8>::empty(), s0);
    match address {
        Some(a) => {
            lemma_field_text_encoded(a);
            lemma_present_field_decode::<PeerSink>(2, encode_utf8(a), Seq::empty(), s1);
            lemma_sink_decode_empty::<PeerSink>(PeerState { address: Some(a), ..s1 });
        },
        None => {
            assert(f2 + Seq::<u8>::empty() =~= Seq::<u8>::empty());
            lemma_sink_decode_empty::<PeerSink>(s1);
        },
    }
}

/// An encoded peer message without a node id is refused for it, within the
/// size limit.
pub proof fn law_peer_requires_node_id(address: Option<Seq<char>>, what: Seq<char>)
    requires
        peer_bytes(Seq::<char>::empty(), address).len() <= MAX_SYSTEM_MSG_SIZE,
    ensures
        peer_decoding(peer_bytes(Seq::<char>::empty(), address), what)
            == Err::<PeerState, Seq<char>>(what + ": node_id must not be empty"@),
{
    let node_id = Seq::<char>::empty();
    let f1 = text_field_bytes(1, node_id);
    let f2 = opt_text_field_bytes(2, address);
    assert(peer_bytes(node_id, address) =~= f1 + (f2 + Seq::<u8>::empty()));
    lemma_field_text_encoded(node_id);
    let s0 = peer_start();
    lemma_text_field_decode::<PeerSink>(1, node_id, f2 + Seq::<u8>::empty(), s0);
    match address {
        Some(a) => {
            lemma_field_text_encoded(a);
            lemma_present_field_decode::<PeerSink>(2, encode_utf8(a), Seq::empty(), s0);
            lemma_sink_decode_empty::<PeerSink>(PeerState { address: Some(a), ..s0 });
        },
        None => {
            assert(f2 + Seq::<u8>::empty() =~= Seq::<u8>::empty());
            lemma_sink_decode_empty::<PeerSink>(s0);
        },
    }
}

// ---------------------------------------------------------------------------
// CancelRequest
// ---------------------------------------------------------------------------

/// Decoded state of a cancel request: target (1, actor id), request id
/// (2, optional text).
pub struct CancelRequestState {
    pub target: Option<ActorIdState>,
    pub request_id: Option<Seq<char>>,
}

/// Absorbs the fields of a cancel request.
pub struct CancelRequestSink {
    pub target: Option<ActorIdSink>,
    pub request_id: Option<String>,
}

impl View for CancelRequestSink {
    type V = CancelRequestState;

    open spec fn view(&self) -> CancelRequestState {
        CancelRequestState { target: actor_slot(self.target), request_id: opt_text(self.request_id) }
    }
}

/// A cancel request before any field.
pub open spec fn cancel_request_start() -> CancelRequestState {
    CancelRequestState { target: None, request_id: None }
}

impl FieldSink for CancelRequestSink {
    open spec fn accept(st: CancelRequestState, f: WireField) -> Option<CancelRequestState> {
        if f.tag == 1 {
            match field_actor_id(st.target, f.value) {
                Some(a) => Some(CancelRequestState { target: Some(a), ..st }),
                None => None,
            }
        } else if f.tag == 2 {
            match field_text(f.value) {
                Some(t) => Some(CancelRequestState { request_id: Some(t), ..st }),
                None => None,
            }
        } else {
            Some(st)
        }
    }

    fn take_field(&mut self, f: &RawField, bytes: &[u8]) -> (ok: bool) {
        if f.tag == 1 {
            let mut prev: Option<ActorIdSink> = None;
            std::mem::swap(&mut prev, &mut self.target);
            match raw_actor_id(prev, f, bytes) {
                Some(a) => {
                    self.target = Some(a);
                    true
                },
                None => false,
            }
        } else if f.tag == 2 {
            match raw_text(f, bytes) {
                Some(t) => {
                    self.request_id = Some(t);
                    true
                },
                None => false,
            }
        } else {
            true
        }
    }
}

/// Encoding of a cancel request.
pub open spec fn cancel_request_bytes(target: ActorIdState, request_id: Option<Seq<char>>) -> Seq<u8> {
    bytes_field_bytes(1, actor_id_bytes(target.node, target.local)) + opt_text_field_bytes(2, request_id)
}

/// Outcome of decoding a cancel request: target and optional request id.
pub open spec fn cancel_request_decoding(b: Seq<u8>) -> Result<(ActorIdState, Option<Seq<char>>), Seq<char>> {
    if b.len() > MAX_SYSTEM_MSG_SIZE {
        Err(too_large_text("CancelRequest"@, b.len(), MAX_SYSTEM_MSG_SIZE as nat))
    } else {
        match sink_decode::<CancelRequestSink>(b, cancel_request_start()) {
            None => Err(malformed_text("CancelRequest"@)),
            Some(st) => match required_actor_id(st.target, "CancelRequest.target"@) {
                Err(t) => Err(t),
                Ok(a) => Ok((a, st.request_id)),
            },
        }
    }
}

/// Encode a cancel request.
pub fn encode_cancel_request(req: CancelRequest) -> (b: Vec<u8>)
    ensures
        b@ == cancel_request_bytes(actor_state(req.target), opt_text(req.request_id)),
{
    let mut buf: Vec<u8> = Vec::new();
    put_actor_id_field(&mut buf, 1, &req.target);
    put_opt_text_field(&mut buf, 2, &req.request_id);
    assert(buf@ =~= cancel_request_bytes(actor_state(req.target), opt_text(req.request_id)));
    buf
}

/// Decode a cancel request.
pub fn decode_cancel_request(bytes: &[u8]) -> (r: Result<CancelRequest, SerializationError>)
    ensures
        cancel_request_decoding(bytes@) matches Ok((a, rid)) ==> (r matches Ok(req) && actor_state(req.target) == a
            && opt_text(req.request_id) == rid),
        cancel_request_decoding(bytes@) matches Err(t) ==> (r matches Err(e) && e.message@ == t),
{
    check_size(bytes, MAX_SYSTEM_MSG_SIZE, "CancelRequest")?;
    let mut sink = CancelRequestSink { target: None, request_id: None };
    if !decode_into(bytes, &mut sink) {
        return Err(malformed("CancelRequest"));
    }
    let target = require_actor_id(sink.target, "CancelRequest.target")?;
    Ok(CancelRequest { target, request_id: sink.request_id })
}

/// A cancel request whose target has a non-empty node id comes back
/// unchanged from its encoding, within the size limit.
pub proof fn law_cancel_request_roundtrip(target: ActorIdState, request_id: Option<Seq<char>>)
    requires
        target.node.len() > 0,
        cancel_request_bytes(target, request_id).len() <= MAX_SYSTEM_MSG_SIZE,
    ensures
        cancel_request_decoding(cancel_request_bytes(target, request_id))
            == Ok::<(ActorIdState, Option<Seq<char>>), Seq<char>>((target, request_id)),
{
    let ea = actor_id_bytes(target.node, target.local);
    assert(encode_utf8(target.node).len() <= u64::MAX) by {
        assert(ea.len() >= encode_utf8(target.node).len());
    }
    lemma_actor_id_roundtrip(target.node, target.local);
    let f2 = opt_text_field_bytes(2, request_id);
    assert(cancel_request_bytes(target, request_id) =~= bytes_field_bytes(1, ea) + (f2 + Seq::<u8>::empty()));
    let s0 = cancel_request_start();
    let s1 = CancelRequestState { target: Some(target), ..s0 };
    lemma_present_field_decode::<CancelRequestSink>(1, ea, f2 + Seq::<u8>::empty(), s0);
    match request_id {
        Some(t) => {
            lemma_field_text_encoded(t);
            lemma_present_field_decode::<CancelRequestSink>(2, encode_utf8(t), Seq::empty(), s1);
            lemma_sink_decode_empty::<CancelRequestSink>(CancelRequestState { request_id: Some(t), ..s1 });
        },
        None => {
            assert(f2 + Seq::<u8>::empty() =~= Seq::<u8>::empty());
            lemma_sink_decode_empty::<CancelRequestSink>(s1);
        },
    }
}


// ---------------------------------------------------------------------------
// SpawnResponse
// ---------------------------------------------------------------------------

/// Decoded state of a spawn success: request id (1, text), actor id (2).
pub struct SpawnSuccessState {
    pub request_id: Seq<char>,
    pub actor_id: Option<ActorIdState>,
}

/// Absorbs the fields of a spawn success.
pub struct SpawnSuccessSink {
    pub request_id: String,
    pub actor_id: Option<ActorIdSink>,
}

impl View for SpawnSuccessSink {
    type V = SpawnSuccessState;

    open spec fn view(&self) -> SpawnSuccessState {
        SpawnSuccessState { request_id: self.request_id@, actor_id: actor_slot(self.actor_id) }
    }
}

impl FieldSink for SpawnSuccessSink {
    open spec fn accept(st: SpawnSuccessState, f: WireField) -> Option<SpawnSuccessState> {
        if f.tag == 1 {
            match field_text(f.value) {
                Some(t) => Some(SpawnSuccessState { request_id: t, ..st }),
                None => None,
            }
        } else if f.tag == 2 {
            match field_actor_id(st.actor_id, f.value) {
                Some(a) => Some(SpawnSuccessState { actor_id: Some(a), ..st }),
                None => None,
            }
        } else {
            Some(st)
        }
    }

    fn take_field(&mut self, f: &RawField, bytes: &[u8]) -> (ok: bool) {
        if f.tag == 1 {
            match raw_text(f, bytes) {
                Some(t) => {
                    self.request_id = t;
                    true
                },
                None => false,
            }
        } else if f.tag == 2 {
            let mut prev: Option<ActorIdSink> = None;
            std::mem::swap(&mut prev, &mut self.actor_id);
            match raw_actor_id(prev, f, bytes) {
                Some(a) => {
                    self.actor_id = Some(a);
                    true
                },
                None => false,
            }
        } else {
            true
        }
    }
}

/// Decoded state of a spawn failure: request id (1, text), error (2, text).
pub struct SpawnFailureState {
    pub request_id: Seq<char>,
    pub error: Seq<char>,
}

/// Absorbs the fields of a spawn failure.
pub struct SpawnFailureSink {
    pub request_id: String,
    pub error: String,
}

impl View for SpawnFailureSink {
    type V = SpawnFailureState;

    open spec fn view(&self) -> SpawnFailureState {
        SpawnFailureState { request_id: self.request_id@, error: self.error@ }
    }
}

impl FieldSink for SpawnFailureSink {
    open spec fn accept(st: SpawnFailureState, f: WireField) -> Option<SpawnFailureState> {
        if f.tag == 1 {
            match field_text(f.value) {
                Some(t) => Some(SpawnFailureState { request_id: t, ..st }),
                None => None,
            }
        } else if f.tag == 2 {
            match field_text(f.value) {
                Some(t) => Some(SpawnFailureState { error: t, ..st }),
                None => None,
            }
        } else {
            Some(st)
        }
    }

    fn take_field(&mut self, f: &RawField, bytes: &[u8]) -> (ok: bool) {
        if f.tag == 1 {
            match raw_text(f, bytes) {
                Some(t) => {
                    self.request_id = t;
                    true
                },
                None => false,
            }
        } else if f.tag == 2 {
            match raw_text(f, bytes) {
                Some(t) => {
                    self.error = t;
                    true
                },
                None => false,
            }
        } else {
            true
        }
    }
}

/// A spawn success before any field.
pub open spec fn spawn_success_start() -> SpawnSuccessState {
    SpawnSuccessState { request_id: Seq::empty(), actor_id: None }
}

/// A spawn failure before any field.
pub open spec fn spawn_failure_start() -> SpawnFailureState {
    SpawnFailureState { request_id: Seq::empty(), error: Seq::empty() }
}

/// Which variant a spawn response holds, as decoded.
pub enum SpawnResultState {
    Success(SpawnSuccessState),
    Failure(SpawnFailureState),
}

/// The variant a spawn response holds while it is being decoded.
pub enum SpawnResultSink {
    Success(SpawnSuccessSink),
    Failure(SpawnFailureSink),
}

/// Absorbs the fields of a spawn response: success (1) or failure (2). The
/// variant read last wins; a variant read again is merged into the earlier one.
pub struct SpawnResponseSink {
    pub result: Option<SpawnResultSink>,
}

impl View for SpawnResponseSink {
    type V = Option<SpawnResultState>;

    open spec fn view(&self) -> Option<SpawnResultState> {
        match self.result {
            Some(SpawnResultSink::Success(x)) => Some(SpawnResultState::Success(x@)),
            Some(SpawnResultSink::Failure(x)) => Some(SpawnResultState::Failure(x@)),
            None => None,
        }
    }
}

impl FieldSink for SpawnResponseSink {
    open spec fn accept(st: Option<SpawnResultState>, f: WireField) -> Option<Option<SpawnResultState>> {
        if f.tag == 1 {
            match f.value {
                WireValue::Bytes(b) => match sink_decode::<SpawnSuccessSink>(b, match st {
                    Some(SpawnResultState::Success(x)) => x,
                    _ => spawn_success_start(),
                }) {
                    Some(x) => Some(Some(SpawnResultState::Success(x))),
                    None => None,
                },
                _ => None,
            }
        } else if f.tag == 2 {
            match f.value {
                WireValue::Bytes(b) => match sink_decode::<SpawnFailureSink>(b, match st {
                    Some(SpawnResultState::Failure(x)) => x,
                    _ => spawn_failure_start(),
                }) {
                    Some(x) => Some(Some(SpawnResultState::Failure(x))),
                    None => None,
                },
                _ => None,
            }
        } else {
            Some(st)
        }
    }

    fn take_field(&mut self, f: &RawField, bytes: &[u8]) -> (ok: bool) {
        if f.tag == 1 {
            if f.wire_type != 2 {
                return false;
            }
            let sub = slice_subrange(bytes, f.start, f.end);
            let mut prev: Option<SpawnResultSink> = None;
            std::mem::swap(&mut prev, &mut self.result);
            let mut inner = match prev {
                Some(SpawnResultSink::Success(x)) => x,
                _ => SpawnSuccessSink { request_id: String::new(), actor_id: None },
            };
            if !decode_into(sub, &mut inner) {
                return false;
            }
            self.result = Some(SpawnResultSink::Success(inner));
            true
        } else if f.tag == 2 {
            if f.wire_type != 2 {
                return false;
            }
            let sub = slice_subrange(bytes, f.start, f.end);
            let mut prev: Option<SpawnResultSink> = None;
            std::mem::swap(&mut prev, &mut self.result);
            let mut inner = match prev {
                Some(SpawnResultSink::Failure(x)) => x,
                _ => SpawnFailureSink { request_id: String::new(), error: String::new() },
            };
            if !decode_into(sub, &mut inner) {
                return false;
            }
            self.result = Some(SpawnResultSink::Failure(inner));
            true
        } else {
            true
        }
    }
}

/// A spawn response as plain values.
pub enum SpawnResponseView {
    Success { request_id: Seq<char>, actor_id: ActorIdState },
    Failure { request_id: Seq<char>, error: Seq<char> },
}

/// The plain values of a spawn response.
pub open spec fn spawn_response_view(r: SpawnResponse) -> SpawnResponseView {
    match r {
        SpawnResponse::Success { request_id, actor_id } => SpawnResponseView::Success {
            request_id: request_id@,
            actor_id: actor_state(actor_id),
        },
        SpawnResponse::Failure { request_id, error } => SpawnResponseView::Failure { request_id: request_id@, error: error@ },
    }
}

/// Encoding of a spawn response.
pub open spec fn spawn_response_bytes(v: SpawnResponseView) -> Seq<u8> {
    match v {
        SpawnResponseView::Success { request_id, actor_id } => bytes_field_bytes(
            1,
            text_field_bytes(1, request_id) + bytes_field_bytes(2, actor_id_bytes(actor_id.node, actor_id.local)),
        ),
        SpawnResponseView::Failure { request_id, error } => bytes_field_bytes(
            2,
            text_field_bytes(1, request_id) + text_field_bytes(2, error),
        ),
    }
}

/// Outcome of decoding a spawn response.
pub open spec fn spawn_response_decoding(b: Seq<u8>) -> Result<SpawnResponseView, Seq<char>> {
    if b.len() > MAX_SYSTEM_MSG_SIZE {
        Err(too_large_text("SpawnResponse"@, b.len(), MAX_SYSTEM_MSG_SIZE as nat))
    } else {
        match sink_decode::<SpawnResponseSink>(b, None) {
            None => Err(malformed_text("SpawnResponse"@)),
            Some(None) => Err("SpawnResponse: missing oneof result"@),
            Some(Some(SpawnResultState::Success(x))) => match required_actor_id(x.actor_id, "SpawnSuccess.actor_id"@) {
                Err(t) => Err(t),
                Ok(a) => Ok(SpawnResponseView::Success { request_id: x.request_id, actor_id: a }),
            },
            Some(Some(SpawnResultState::Failure(x))) => Ok(SpawnResponseView::Failure { request_id: x.request_id, error: x.error }),
        }
    }
}

/// Encode a spawn response.
pub fn encode_spawn_response(resp: SpawnResponse) -> (b: Vec<u8>)
    ensures
        b@ == spawn_response_bytes(spawn_response_view(resp)),
{
    let ghost v = spawn_response_view(resp);
    let mut inner: Vec<u8> = Vec::new();
    let mut buf: Vec<u8> = Vec::new();
    match resp {
        SpawnResponse::Success { request_id, actor_id } => {
            put_text_field(&mut inner, 1, request_id.as_str());
            put_actor_id_field(&mut inner, 2, &actor_id);
            put_bytes_field(&mut buf, 1, inner.as_slice());
        },
        SpawnResponse::Failure { request_id, error } => {
            put_text_field(&mut inner, 1, request_id.as_str());
            put_text_field(&mut inner, 2, error.as_str());
            put_bytes_field(&mut buf, 2, inner.as_slice());
        },
    }
    assert(buf@ =~= spawn_response_bytes(v));
    buf
}

/// Decode a spawn response.
pub fn decode_spawn_response(bytes: &[u8]) -> (r: Result<SpawnResponse, SerializationError>)
    ensures
        spawn_response_decoding(bytes@) matches Ok(v) ==> (r matches Ok(resp) && spawn_response_view(resp) == v),
        spawn_response_decoding(bytes@) matches Err(t) ==> (r matches Err(e) && e.message@ == t),
{
    check_size(bytes, MAX_SYSTEM_MSG_SIZE, "SpawnResponse")?;
    let mut sink = SpawnResponseSink { result: None };
    if !decode_into(bytes, &mut sink) {
        return Err(malformed("SpawnResponse"));
    }
    match sink.result {
        None => Err(SerializationError::new("SpawnResponse: missing oneof result")),
        Some(SpawnResultSink::Success(x)) => {
            let actor_id = require_actor_id(x.actor_id, "SpawnSuccess.actor_id")?;
            Ok(SpawnResponse::Success { request_id: x.request_id, actor_id })
        },
        Some(SpawnResultSink::Failure(x)) => Ok(SpawnResponse::Failure { request_id: x.request_id, error: x.error }),
    }
}

/// A spawn response comes back unchanged from its encoding, within the size
/// limit, when a success names an actor on a non-empty node id.
pub proof fn law_spawn_response_roundtrip(v: SpawnResponseView)
    requires
        v matches SpawnResponseView::Success { actor_id, .. } ==> actor_id.node.len() > 0,
        spawn_response_bytes(v).len() <= MAX_SYSTEM_MSG_SIZE,
    ensures
        spawn_response_decoding(spawn_response_bytes(v)) == Ok::<SpawnResponseView, Seq<char>>(v),
{
    match v {
        SpawnResponseView::Success { request_id, actor_id } => {
            let ea = actor_id_bytes(actor_id.node, actor_id.local);
            let f1 = text_field_bytes(1, request_id);
            let f2 = bytes_field_bytes(2, ea);
            let inner = f1 + f2;
            assert(encode_utf8(actor_id.node).len() <= u64::MAX) by {
                assert(ea.len() >= encode_utf8(actor_id.node).len());
            }
            lemma_actor_id_roundtrip(actor_id.node, actor_id.local);
            lemma_field_text_encoded(request_id);
            let s0 = spawn_success_start();
            let s1 = SpawnSuccessState { request_id, ..s0 };
            assert(inner =~= f1 + (f2 + Seq::<u8>::empty()));
            lemma_text_field_decode::<SpawnSuccessSink>(1, request_id, f2 + Seq::<u8>::empty(), s0);
            if request_id.len() == 0 {
                assert(request_id =~= Seq::<char>::empty());
                assert(s0 == s1);
            }
            lemma_present_field_decode::<SpawnSuccessSink>(2, ea, Seq::empty(), s1);
            let s2 = SpawnSuccessState { actor_id: Some(actor_id), ..s1 };
            lemma_sink_decode_empty::<SpawnSuccessSink>(s2);
            assert(sink_decode::<SpawnSuccessSink>(inner, s0) == Some(s2));
            lemma_present_field_decode::<SpawnResponseSink>(1, inner, Seq::empty(), None);
            lemma_sink_decode_empty::<SpawnResponseSink>(Some(SpawnResultState::Success(s2)));
            assert(spawn_response_bytes(v) =~= bytes_field_bytes(1, inner) + Seq::<u8>::empty());
        },
        SpawnResponseView::Failure { request_id, error } => {
            let f1 = text_field_bytes(1, request_id);
            let f2 = text_field_bytes(2, error);
            let inner = f1 + f2;
            lemma_field_text_encoded(request_id);
            lemma_field_text_encoded(error);
            let s0 = spawn_failure_start();
            let s1 = SpawnFailureState { request_id, ..s0 };
            let s2 = SpawnFailureState { error, ..s1 };
            assert(inner =~= f1 + (f2 + Seq::<u8>::empty()));
            lemma_text_field_decode::<SpawnFailureSink>(1, request_id, f2 + Seq::<u8>::empty(), s0);
            if request_id.len() == 0 {
                assert(request_id =~= Seq::<char>::empty());
                assert(s0 == s1);
            }
            lemma_text_field_decode::<SpawnFailureSink>(2, error, Seq::empty(), s1);
            if error.len() == 0 {
                assert(error =~= Seq::<char>::empty());
                assert(s1 == s2);
            }
            lemma_sink_decode_empty::<SpawnFailureSink>(s2);
            assert(sink_decode::<SpawnFailureSink>(inner, s0) == Some(s2));
            lemma_present_field_decode::<SpawnResponseSink>(2, inner, Seq::empty(), None);
            lemma_sink_decode_empty::<SpawnResponseSink>(Some(SpawnResultState::Failure(s2)));
            assert(spawn_response_bytes(v) =~= bytes_field_bytes(2, inner) + Seq::<u8>::empty());
        },
    }
}

// ---------------------------------------------------------------------------
// CancelResponse
// ---------------------------------------------------------------------------

/// Absorbs the fields of an acknowledgement: it has none of its own.
pub struct NoFieldsSink {}

impl View for NoFieldsSink {
    type V = ();

    open spec fn view(&self) -> () {
        ()
    }
}

impl FieldSink for NoFieldsSink {
    open spec fn accept(st: (), f: WireField) -> Option<()> {
        Some(st)
    }

    fn take_field(&mut self, f: &RawField, bytes: &[u8]) -> (ok: bool) {
        true
    }
}

/// Absorbs the fields of a not-found answer: reason (1, text).
pub struct ReasonSink {
    pub reason: String,
}

impl View for ReasonSink {
    type V = Seq<char>;

    open spec fn view(&self) -> Seq<char> {
        self.reason@
    }
}

impl FieldSink for ReasonSink {
    open spec fn accept(st: Seq<char>, f: WireField) -> Option<Seq<char>> {
        if f.tag == 1 {
            field_text(f.value)
        } else {
            Some(st)
        }
    }

    fn take_field(&mut self, f: &RawField, bytes: &[u8]) -> (ok: bool) {
        if f.tag == 1 {
            match raw_text(f, bytes) {
                Some(t) => {
                    self.reason = t;
                    true
                },
                None => false,
            }
        } else {
            true
        }
    }
}

/// A cancel response as plain values: `None` is an acknowledgement,
/// `Some(reason)` a not-found answer.
pub open spec fn cancel_response_view(r: CancelResponse) -> Option<Seq<char>> {
    match r {
        CancelResponse::Acknowledged => None,
        CancelResponse::NotFound { reason } => Some(reason@),
    }
}

/// Absorbs the fields of a cancel response: acknowledged (1) or not found
/// (2). The variant read last wins; a variant read again is merged into the
/// earlier one.
pub struct CancelResponseSink {
    pub result: Option<Option<String>>,
}

impl View for CancelResponseSink {
    type V = Option<Option<Seq<char>>>;

    open spec fn view(&self) -> Option<Option<Seq<char>>> {
        match self.result {
            Some(Some(r)) => Some(Some(r@)),
            Some(None) => Some(None),
            None => None,
        }
    }
}

impl FieldSink for CancelResponseSink {
    open spec fn accept(st: Option<Option<Seq<char>>>, f: WireField) -> Option<Option<Option<Seq<char>>>> {
        if f.tag == 1 {
            match f.value {
                WireValue::Bytes(b) => match sink_decode::<NoFieldsSink>(b, ()) {
                    Some(_) => Some(Some(None)),
                    None => None,
                },
                _ => None,
            }
        } else if f.tag == 2 {
            match f.value {
                WireValue::Bytes(b) => match sink_decode::<ReasonSink>(b, match st {
                    Some(Some(r)) => r,
                    _ => Seq::empty(),
                }) {
                    Some(r) => Some(Some(Some(r))),
                    None => None,
                },
                _ => None,
            }
        } else {
            Some(st)
        }
    }

    fn take_field(&mut self, f: &RawField, bytes: &[u8]) -> (ok: bool) {
        if f.tag == 1 {
            if f.wire_type != 2 {
                return false;
            }
            let sub = slice_subrange(bytes, f.start, f.end);
            let mut inner = NoFieldsSink {};
            if !decode_into(sub, &mut inner) {
                return false;
            }
            self.result = Some(None);
            true
        } else if f.tag == 2 {
            if f.wire_type != 2 {
                return false;
            }
            let sub = slice_subrange(bytes, f.start, f.end);
            let mut prev: Option<Option<String>> = None;
            std::mem::swap(&mut prev, &mut self.result);
            let mut inner = match prev {
                Some(Some(r)) => ReasonSink { reason: r },
                _ => ReasonSink { reason: String::new() },
            };
            if !decode_into(sub, &mut inner) {
                return false;
            }
            self.result = Some(Some(inner.reason));
            true
        } else {
            true
        }
    }
}

/// Encoding of a cancel response.
pub open spec fn cancel_response_bytes(v: Option<Seq<char>>) -> Seq<u8> {
    match v {
        None => bytes_field_bytes(1, Seq::empty()),
        Some(reason) => bytes_field_bytes(2, text_field_bytes(1, reason)),
    }
}

/// Outcome of decoding a cancel response.
pub open spec fn cancel_response_decoding(b: Seq<u8>) -> Result<Option<Seq<char>>, Seq<char>> {
    if b.len() > MAX_SYSTEM_MSG_SIZE {
        Err(too_large_text("CancelResponse"@, b.len(), MAX_SYSTEM_MSG_SIZE as nat))
    } else {
        match sink_decode::<CancelResponseSink>(b, None) {
            None => Err(malformed_text("CancelResponse"@)),
            Some(None) => Err("CancelResponse: missing oneof result"@),
            Some(Some(v)) => Ok(v),
        }
    }
}

/// Encode a cancel response.
pub fn encode_cancel_response(resp: CancelResponse) -> (b: Vec<u8>)
    ensures
        b@ == cancel_response_bytes(cancel_response_view(resp)),
{
    let ghost v = cancel_response_view(resp);
    let mut buf: Vec<u8> = Vec::new();
    match resp {
        CancelResponse::Acknowledged => {
            let empty: Vec<u8> = Vec::new();
            put_bytes_field(&mut buf, 1, empty.as_slice());
        },
        CancelResponse::NotFound { reason } => {
            let mut inner: Vec<u8> = Vec::new();
            put_text_field(&mut inner, 1, reason.as_str());
            put_bytes_field(&mut buf, 2, inner.as_slice());
        },
    }
    assert(buf@ =~= cancel_response_bytes(v));
    buf
}

/// Decode a cancel response.
pub fn decode_cancel_response(bytes: &[u8]) -> (r: Result<CancelResponse, SerializationError>)
    ensures
        cancel_response_decoding(bytes@) matches Ok(v) ==> (r matches Ok(resp) && cancel_response_view(resp) == v),
        cancel_response_decoding(bytes@) matches Err(t) ==> (r matches Err(e) && e.message@ == t),
{
    check_size(bytes, MAX_SYSTEM_MSG_SIZE, "CancelResponse")?;
    let mut sink = CancelResponseSink { result: None };
    if !decode_into(bytes, &mut sink) {
        return Err(malformed("CancelResponse"));
    }
    match sink.result {
        None => Err(SerializationError::new("CancelResponse: missing oneof result")),
        Some(None) => Ok(CancelResponse::Acknowledged),
        Some(Some(reason)) => Ok(CancelResponse::NotFound { reason }),
    }
}

/// A cancel response comes back unchanged from its encoding, within the
/// size limit.
pub proof fn law_cancel_response_roundtrip(v: Option<Seq<char>>)
    requires
        cancel_response_bytes(v).len() <= MAX_SYSTEM_MSG_SIZE,
    ensures
        cancel_response_decoding(cancel_response_bytes(v)) == Ok::<Option<Seq<char>>, Seq<char>>(v),
{
    match v {
        None => {
            lemma_sink_decode_empty::<NoFieldsSink>(());
            lemma_present_field_decode::<CancelResponseSink>(1, Seq::empty(), Seq::empty(), None);
            lemma_sink_decode_empty::<CancelResponseSink>(Some(None));
            assert(cancel_response_bytes(v) =~= bytes_field_bytes(1, Seq::empty()) + Seq::<u8>::empty());
        },
        Some(reason) => {
            let inner = text_field_bytes(1, reason);
            lemma_field_text_encoded(reason);
            assert(inner =~= inner + Seq::<u8>::empty());
            lemma_text_field_decode::<ReasonSink>(1, reason, Seq::empty(), Seq::empty());
            lemma_sink_decode_empty::<ReasonSink>(reason);
            lemma_sink_decode_empty::<ReasonSink>(Seq::<char>::empty());
            if reason.len() == 0 {
                assert(reason =~= Seq::<char>::empty());
            }
            assert(sink_decode::<ReasonSink>(inner, Seq::empty()) == Some(reason));
            lemma_present_field_decode::<CancelResponseSink>(2, inner, Seq::empty(), None);
            lemma_sink_decode_empty::<CancelResponseSink>(Some(Some(reason)));
            assert(cancel_response_bytes(v) =~= bytes_field_bytes(2, inner) + Seq::<u8>::empty());
        },
    }
}


// ---------------------------------------------------------------------------
// UUID text
// ---------------------------------------------------------------------------

/// Lowercase hexadecimal digit of a number below 16.
pub open spec fn hex_digit(d: nat) -> char {
    if d < 10 {
        (48 + d) as char
    } else {
        (87 + d) as char
    }
}

/// The `n` lowest hexadecimal digits of `v`, most significant first.
pub open spec fn hex_text(v: nat, n: nat) -> Seq<char>
    decreases n,
{
    if n == 0 {
        Seq::empty()
    } else {
        hex_text(v / 16, (n - 1) as nat).push(hex_digit(v % 16))
    }
}

/// Hyphenated lowercase text of a UUID's 128-bit value: 32 hexadecimal
/// digits grouped 8-4-4-4-12.
pub open spec fn uuid_hyphenated(v: u128) -> Seq<char> {
    let h = hex_text(v as nat, 32);
    h.subrange(0, 8) + seq!['-'] + h.subrange(8, 12) + seq!['-'] + h.subrange(12, 16) + seq!['-'] + h.subrange(16, 20)
        + seq!['-'] + h.subrange(20, 32)
}

/// What `uuid::Uuid::parse_str` makes of a text: the UUID's 128-bit value,
/// or the text of the error with which it refuses the text.
pub uninterp spec fn uuid_parse_result(s: Seq<char>) -> Result<u128, Seq<char>>;

/// Hyphenated text of a UUID (`uuid::Uuid::from_u128` then `to_string`).
///
/// The uuid crate displays a UUID as 32 lowercase hexadecimal digits of its
/// big-endian bytes, grouped 8-4-4-4-12 with hyphens.
#[verifier::external_body]
fn uuid_text(v: u128) -> (s: String)
    ensures
        s@ == uuid_hyphenated(v),
{
    uuid::Uuid::from_u128(v).to_string()
}

/// Parses UUID text (`uuid::Uuid::parse_str`, then `as_u128`; a refusal
/// as the `Display` text of the uuid error).
///
/// Which texts the uuid crate accepts (simple, hyphenated, URN, braced) and
/// how it words a refusal is left to the name `uuid_parse_result`; what is
/// stated is that the hyphenated text of a value parses back to that value.
#[verifier::external_body]
fn uuid_parse(s: &str) -> (r: Result<u128, String>)
    ensures
        r matches Ok(v) ==> (uuid_parse_result(s@) matches Ok(w) && w == v),
        r matches Err(e) ==> (uuid_parse_result(s@) matches Err(m) && m == e@),
        forall|v: u128| s@ == uuid_hyphenated(v) ==> r is Ok && r->Ok_0 == v,
{
    match uuid::Uuid::parse_str(s) {
        Ok(u) => Ok(u.as_u128()),
        Err(e) => Err(e.to_string()),
    }
}

// ---------------------------------------------------------------------------
// SendMode numbers
// ---------------------------------------------------------------------------

/// Wire number of a send mode.
pub open spec fn send_mode_number(m: SendMode) -> i32 {
    match m {
        SendMode::Tell => 0,
        SendMode::Ask => 1,
        SendMode::Stream => 2,
        SendMode::Feed => 3,
    }
}

/// Send mode of a wire number.
pub open spec fn send_mode_of(v: i32) -> Option<SendMode> {
    if v == 0 {
        Some(SendMode::Tell)
    } else if v == 1 {
        Some(SendMode::Ask)
    } else if v == 2 {
        Some(SendMode::Stream)
    } else if v == 3 {
        Some(SendMode::Feed)
    } else {
        None
    }
}

/// Signed decimal text of an integer.
pub open spec fn signed_text(v: int) -> Seq<char> {
    if v < 0 {
        "-"@ + decimal_text((-v) as nat)
    } else {
        decimal_text(v as nat)
    }
}

fn send_mode_to_number(m: SendMode) -> (v: i32)
    ensures
        v == send_mode_number(m),
{
    match m {
        SendMode::Tell => 0,
        SendMode::Ask => 1,
        SendMode::Stream => 2,
        SendMode::Feed => 3,
    }
}

fn send_mode_from_number(v: i32) -> (r: Result<SendMode, SerializationError>)
    ensures
        send_mode_of(v) matches Some(m) ==> r == Ok::<SendMode, SerializationError>(m),
        send_mode_of(v) is None ==> (r matches Err(e) && e.message@ == "unknown SendMode value: "@ + signed_text(v as int)),
{
    if v == 0 {
        Ok(SendMode::Tell)
    } else if v == 1 {
        Ok(SendMode::Ask)
    } else if v == 2 {
        Ok(SendMode::Stream)
    } else if v == 3 {
        Ok(SendMode::Feed)
    } else {
        let mut s = String::from_str("unknown SendMode value: ");
        if v < 0 {
            s.append("-");
            let magnitude: i64 = -(v as i64);
            let d = u64_to_decimal(magnitude as u64);
            s.append(d.as_str());
        } else {
            let d = u64_to_decimal(v as u64);
            s.append(d.as_str());
        }
        Err(SerializationError { message: s })
    }
}

// ---------------------------------------------------------------------------
// WireEnvelope
// ---------------------------------------------------------------------------

/// Absorbs the fields of a header entry: name (1, text), value (2, bytes).
pub struct HeaderEntrySink {
    pub name: String,
    pub value: Vec<u8>,
}

impl View for HeaderEntrySink {
    type V = (Seq<char>, Seq<u8>);

    open spec fn view(&self) -> (Seq<char>, Seq<u8>) {
        (self.name@, self.value@)
    }
}

impl FieldSink for HeaderEntrySink {
    open spec fn accept(st: (Seq<char>, Seq<u8>), f: WireField) -> Option<(Seq<char>, Seq<u8>)> {
        if f.tag == 1 {
            match field_text(f.value) {
                Some(t) => Some((t, st.1)),
                None => None,
            }
        } else if f.tag == 2 {
            match field_data(f.value) {
                Some(d) => Some((st.0, d)),
                None => None,
            }
        } else {
            Some(st)
        }
    }

    fn take_field(&mut self, f: &RawField, bytes: &[u8]) -> (ok: bool) {
        if f.tag == 1 {
            match raw_text(f, bytes) {
                Some(t) => {
                    self.name = t;
                    true
                },
                None => false,
            }
        } else if f.tag == 2 {
            match raw_data(f, bytes) {
                Some(d) => {
                    self.value = d;
                    true
                },
                None => false,
            }
        } else {
            true
        }
    }
}

/// The header entry an embedded message carries, when well formed.
pub open spec fn header_entry_decode(b: Seq<u8>) -> Option<(Seq<char>, Seq<u8>)> {
    sink_decode::<HeaderEntrySink>(b, (Seq::empty(), Seq::empty()))
}

/// Decoded state of a wire envelope.
pub struct EnvelopeState {
    pub target: Option<ActorIdState>,
    pub target_name: Seq<char>,
    pub message_type: Seq<char>,
    pub send_mode: i32,
    pub headers: Map<Seq<char>, Seq<u8>>,
    pub body: Seq<u8>,
    pub request_id: Option<Seq<char>>,
    pub version: Option<u32>,
}

/// Absorbs the fields of a wire envelope: target (1, actor id), target
/// name (2, text), message type (3, text), send mode (4, varint), header
/// entries (5, repeated), body (6, bytes), request id (7, optional text),
/// version (8, optional varint).
pub struct EnvelopeSink {
    pub target: Option<ActorIdSink>,
    pub target_name: String,
    pub message_type: String,
    pub send_mode: i32,
    pub headers: WireHeaders,
    pub body: Vec<u8>,
    pub request_id: Option<String>,
    pub version: Option<u32>,
}

impl View for EnvelopeSink {
    type V = EnvelopeState;

    open spec fn view(&self) -> EnvelopeState {
        EnvelopeState {
            target: actor_slot(self.target),
            target_name: self.target_name@,
            message_type: self.message_type@,
            send_mode: self.send_mode,
            headers: self.headers.map(),
            body: self.body@,
            request_id: opt_text(self.request_id),
            version: self.version,
        }
    }
}

/// An envelope before any field.
pub open spec fn envelope_start() -> EnvelopeState {
    EnvelopeState {
        target: None,
        target_name: Seq::empty(),
        message_type: Seq::empty(),
        send_mode: 0,
        headers: Map::empty(),
        body: Seq::empty(),
        request_id: None,
        version: None,
    }
}

impl FieldSink for EnvelopeSink {
    open spec fn accept(st: EnvelopeState, f: WireField) -> Option<EnvelopeState> {
        if f.tag == 1 {
            match field_actor_id(st.target, f.value) {
                Some(a) => Some(EnvelopeState { target: Some(a), ..st }),
                None => None,
            }
        } else if f.tag == 2 {
            match field_text(f.value) {
                Some(t) => Some(EnvelopeState { target_name: t, ..st }),
                None => None,
            }
        } else if f.tag == 3 {
            match field_text(f.value) {
                Some(t) => Some(EnvelopeState { message_type: t, ..st }),
                None => None,
            }
        } else if f.tag == 4 {
            match f.value {
                WireValue::Varint(n) => Some(EnvelopeState { send_mode: n as i32, ..st }),
                _ => None,
            }
        } else if f.tag == 5 {
            match f.value {
                WireValue::Bytes(b) => match header_entry_decode(b) {
                    Some(e) => Some(EnvelopeState { headers: st.headers.insert(e.0, e.1), ..st }),
                    None => None,
                },
                _ => None,
            }
        } else if f.tag == 6 {
            match field_data(f.value) {
                Some(d) => Some(EnvelopeState { body: d, ..st }),
                None => None,
            }
        } else if f.tag == 7 {
            match field_text(f.value) {
                Some(t) => Some(EnvelopeState { request_id: Some(t), ..st }),
                None => None,
            }
        } else if f.tag == 8 {
            match f.value {
                WireValue::Varint(n) => Some(EnvelopeState { version: Some(n as u32), ..st }),
                _ => None,
            }
        } else {
            Some(st)
        }
    }

    fn take_field(&mut self, f: &RawField, bytes: &[u8]) -> (ok: bool) {
        if f.tag == 1 {
            let mut prev: Option<ActorIdSink> = None;
            std::mem::swap(&mut prev, &mut self.target);
            match raw_actor_id(prev, f, bytes) {
                Some(a) => {
                    self.target = Some(a);
                    true
                },
                None => false,
            }
        } else if f.tag == 2 {
            match raw_text(f, bytes) {
                Some(t) => {
                    self.target_name = t;
                    true
                },
                None => false,
            }
        } else if f.tag == 3 {
            match raw_text(f, bytes) {
                Some(t) => {
                    self.message_type = t;
                    true
                },
                None => false,
            }
        } else if f.tag == 4 {
            if f.wire_type != 0 {
                return false;
            }
            self.send_mode = f.value as i32;
            true
        } else if f.tag == 5 {
            if f.wire_type != 2 {
                return false;
            }
            let sub = slice_subrange(bytes, f.start, f.end);
            let mut entry = HeaderEntrySink { name: String::new(), value: Vec::new() };
            assert(entry@ =~= (Seq::<char>::empty(), Seq::<u8>::empty()));
            if !decode_into(sub, &mut entry) {
                return false;
            }
            self.headers.insert(entry.name, entry.value);
            true
        } else if f.tag == 6 {
            match raw_data(f, bytes) {
                Some(d) => {
                    self.body = d;
                    true
                },
                None => false,
            }
        } else if f.tag == 7 {
            match raw_text(f, bytes) {
                Some(t) => {
                    self.request_id = Some(t);
                    true
                },
                None => false,
            }
        } else if f.tag == 8 {
            if f.wire_type != 0 {
                return false;
            }
            self.version = Some(f.value as u32);
            true
        } else {
            true
        }
    }
}

/// A wire envelope as plain values.
pub struct EnvelopeView {
    pub target: ActorIdState,
    pub target_name: Seq<char>,
    pub message_type: Seq<char>,
    pub send_mode: SendMode,
    pub headers: Map<Seq<char>, Seq<u8>>,
    pub body: Seq<u8>,
    pub request_id: Option<u128>,
    pub version: Option<u32>,
}

/// The plain values of a wire envelope.
pub open spec fn envelope_view(e: WireEnvelope) -> EnvelopeView {
    EnvelopeView {
        target: actor_state(e.target),
        target_name: e.target_name@,
        message_type: e.message_type@,
        send_mode: e.send_mode,
        headers: e.headers.map(),
        body: e.body@,
        request_id: e.request_id,
        version: e.version,
    }
}

/// Encoding of one header entry (field 5).
pub open spec fn header_entry_bytes(p: (Seq<char>, Seq<u8>)) -> Seq<u8> {
    bytes_field_bytes(5, text_field_bytes(1, p.0) + data_field_bytes(2, p.1))
}

/// Encoding of a list of header entries, in order.
pub open spec fn header_entries_bytes(s: Seq<(Seq<char>, Seq<u8>)>) -> Seq<u8>
    decreases s.len(),
{
    if s.len() == 0 {
        Seq::empty()
    } else {
        header_entry_bytes(s[0]) + header_entries_bytes(s.drop_first())
    }
}

/// Encoding of a wire envelope whose headers are stored as `pairs`.
pub open spec fn envelope_bytes(e: EnvelopeView, pairs: Seq<(Seq<char>, Seq<u8>)>) -> Seq<u8> {
    bytes_field_bytes(1, actor_id_bytes(e.target.node, e.target.local))
        + text_field_bytes(2, e.target_name)
        + text_field_bytes(3, e.message_type)
        + num_field_bytes(4, send_mode_number(e.send_mode) as u64)
        + header_entries_bytes(pairs)
        + data_field_bytes(6, e.body)
        + opt_text_field_bytes(7, match e.request_id { Some(u) => Some(uuid_hyphenated(u)), None => None })
        + (match e.version { Some(v) => varint_field_bytes(8, v as nat), None => Seq::empty() })
}

/// Outcome of decoding a wire envelope.
pub open spec fn envelope_decoding(b: Seq<u8>) -> Result<EnvelopeView, Seq<char>> {
    if b.len() > MAX_WIRE_ENVELOPE_SIZE {
        Err(too_large_text("WireEnvelope"@, b.len(), MAX_WIRE_ENVELOPE_SIZE as nat))
    } else {
        match sink_decode::<EnvelopeSink>(b, envelope_start()) {
            None => Err(malformed_text("WireEnvelope"@)),
            Some(st) => match required_actor_id(st.target, "WireEnvelope.target"@) {
                Err(t) => Err(t),
                Ok(a) => match send_mode_of(st.send_mode) {
                    None => Err("unknown SendMode value: "@ + signed_text(st.send_mode as int)),
                    Some(m) => {
                        let view = EnvelopeView {
                            target: a,
                            target_name: st.target_name,
                            message_type: st.message_type,
                            send_mode: m,
                            headers: st.headers,
                            body: st.body,
                            request_id: None,
                            version: st.version,
                        };
                        match st.request_id {
                            None => Ok(view),
                            Some(t) => match uuid_parse_result(t) {
                                Err(msg) => Err("invalid request_id UUID: "@ + msg),
                                Ok(u) => Ok(EnvelopeView { request_id: Some(u), ..view }),
                            },
                        }
                    },
                },
            },
        }
    }
}

/// Encode a wire envelope for transport framing.
pub fn encode_wire_envelope(env: &WireEnvelope) -> (b: Vec<u8>)
    ensures
        b@ == envelope_bytes(envelope_view(*env), env.headers.pairs()),
        pairs_distinct(env.headers.pairs()),
        pairs_map(env.headers.pairs()) == env.headers.map(),
{
    let mut buf: Vec<u8> = Vec::new();
    let ghost v = envelope_view(*env);
    put_actor_id_field(&mut buf, 1, &env.target);
    put_text_field(&mut buf, 2, env.target_name.as_str());
    put_text_field(&mut buf, 3, env.message_type.as_str());
    let mode = send_mode_to_number(env.send_mode);
    let ghost before_mode = buf@;
    if mode != 0 {
        put_varint_field(&mut buf, 4, mode as u64);
    }
    assert(buf@ =~= before_mode + num_field_bytes(4, send_mode_number(env.send_mode) as u64));
    let entries = env.headers.entry_list();
    let ghost before_headers = buf@;
    let mut i: usize = 0;
    while i < entries.len()
        invariant
            i <= entries@.len(),
            buf@ == before_headers + header_entries_bytes(plain_pairs(entries@).take(i as int)),
        decreases entries@.len() - i,
    {
        let mut inner: Vec<u8> = Vec::new();
        put_text_field(&mut inner, 1, entries[i].0.as_str());
        put_data_field(&mut inner, 2, entries[i].1.as_slice());
        put_bytes_field(&mut buf, 5, inner.as_slice());
        proof {
            let ps = plain_pairs(entries@);
            lemma_header_entries_push(ps.take(i as int), ps[i as int]);
            assert(ps.take(i as int).push(ps[i as int]) =~= ps.take(i + 1));
        }
        i += 1;
    }
    assert(plain_pairs(entries@).take(entries@.len() as int) =~= plain_pairs(entries@));
    put_data_field(&mut buf, 6, env.body.as_slice());
    let ghost before_rid = buf@;
    match env.request_id {
        Some(u) => {
            let t = uuid_text(u);
            put_bytes_field(&mut buf, 7, t.as_str().as_bytes());
        },
        None => {},
    }
    let ghost before_version = buf@;
    match env.version {
        Some(ver) => put_varint_field(&mut buf, 8, ver as u64),
        None => {},
    }
    assert(buf@ =~= envelope_bytes(v, env.headers.pairs()));
    buf
}

/// Encoding one more header entry appends its bytes.
pub proof fn lemma_header_entries_push(s: Seq<(Seq<char>, Seq<u8>)>, p: (Seq<char>, Seq<u8>))
    ensures
        header_entries_bytes(s.push(p)) == header_entries_bytes(s) + header_entry_bytes(p),
    decreases s.len(),
{
    if s.len() == 0 {
        assert(s.push(p).drop_first() =~= Seq::<(Seq<char>, Seq<u8>)>::empty());
        assert(s.push(p)[0] == p);
        assert(header_entries_bytes(Seq::<(Seq<char>, Seq<u8>)>::empty()) == Seq::<u8>::empty());
        assert(header_entries_bytes(s) == Seq::<u8>::empty());
        assert(header_entries_bytes(s.push(p)) =~= header_entry_bytes(p));
    } else {
        lemma_header_entries_push(s.drop_first(), p);
        assert(s.push(p).drop_first() =~= s.drop_first().push(p));
        assert(header_entries_bytes(s.push(p)) =~= header_entries_bytes(s) + header_entry_bytes(p));
    }
}

/// Decode a wire envelope from protobuf bytes.
pub fn decode_wire_envelope(bytes: &[u8]) -> (r: Result<WireEnvelope, SerializationError>)
    ensures
        envelope_decoding(bytes@) matches Ok(v) ==> (r matches Ok(env) && envelope_view(env) == v),
        envelope_decoding(bytes@) matches Err(t) ==> (r matches Err(e) && e.message@ == t),
{
    check_size(bytes, MAX_WIRE_ENVELOPE_SIZE, "WireEnvelope")?;
    let mut sink = EnvelopeSink {
        target: None,
        target_name: String::new(),
        message_type: String::new(),
        send_mode: 0,
        headers: WireHeaders::new(),
        body: Vec::new(),
        request_id: None,
        version: None,
    };
    assert(sink@ =~= envelope_start());
    if !decode_into(bytes, &mut sink) {
        return Err(malformed("WireEnvelope"));
    }
    let target = require_actor_id(sink.target, "WireEnvelope.target")?;
    let send_mode = send_mode_from_number(sink.send_mode)?;
    let request_id = match sink.request_id {
        None => None,
        Some(t) => match uuid_parse(t.as_str()) {
            Ok(u) => Some(u),
            Err(msg) => {
                let mut s = String::from_str("invalid request_id UUID: ");
                s.append(msg.as_str());
                return Err(SerializationError { message: s });
            },
        },
    };
    Ok(WireEnvelope {
        target,
        target_name: sink.target_name,
        message_type: sink.message_type,
        send_mode,
        headers: sink.headers,
        body: sink.body,
        request_id,
        version: sink.version,
    })
}


/// The map after inserting the pairs of `s` into `m`, first to last.
pub open spec fn insert_pairs(m: Map<Seq<char>, Seq<u8>>, s: Seq<(Seq<char>, Seq<u8>)>) -> Map<Seq<char>, Seq<u8>>
    decreases s.len(),
{
    if s.len() == 0 {
        m
    } else {
        insert_pairs(m.insert(s[0].0, s[0].1), s.drop_first())
    }
}

/// Inserting one more pair at the end.
pub proof fn lemma_insert_pairs_push(m: Map<Seq<char>, Seq<u8>>, s: Seq<(Seq<char>, Seq<u8>)>, p: (Seq<char>, Seq<u8>))
    ensures
        insert_pairs(m, s.push(p)) == insert_pairs(m, s).insert(p.0, p.1),
    decreases s.len(),
{
    if s.len() == 0 {
        assert(s.push(p).drop_first() =~= Seq::<(Seq<char>, Seq<u8>)>::empty());
        assert(s.push(p)[0] == p);
        assert(insert_pairs(m.insert(p.0, p.1), Seq::<(Seq<char>, Seq<u8>)>::empty()) == m.insert(p.0, p.1));
        assert(insert_pairs(m, s) == m);
    } else {
        lemma_insert_pairs_push(m.insert(s[0].0, s[0].1), s.drop_first(), p);
        assert(s.push(p).drop_first() =~= s.drop_first().push(p));
        assert(s.push(p)[0] == s[0]);
    }
}

/// Inserting all pairs into the empty map gives the map the pairs denote.
pub proof fn lemma_insert_pairs_map(s: Seq<(Seq<char>, Seq<u8>)>)
    ensures
        insert_pairs(Map::empty(), s) == pairs_map(s),
    decreases s.len(),
{
    if s.len() > 0 {
        lemma_insert_pairs_map(s.drop_last());
        lemma_insert_pairs_push(Map::empty(), s.drop_last(), s.last());
        assert(s.drop_last().push(s.last()) =~= s);
    }
}

/// Reading back one encoded header entry.
pub proof fn lemma_header_entry_roundtrip(p: (Seq<char>, Seq<u8>))
    requires
        encode_utf8(p.0).len() <= u64::MAX,
        p.1.len() <= u64::MAX,
    ensures
        header_entry_decode(text_field_bytes(1, p.0) + data_field_bytes(2, p.1)) == Some(p),
{
    let st0 = (Seq::<char>::empty(), Seq::<u8>::empty());
    let f2 = data_field_bytes(2, p.1);
    lemma_field_text_encoded(p.0);
    assert(f2 =~= f2 + Seq::<u8>::empty());
    lemma_text_field_decode::<HeaderEntrySink>(1, p.0, f2, st0);
    let st1 = (p.0, st0.1);
    if p.0.len() == 0 {
        assert(p.0 =~= Seq::<char>::empty());
        assert(st0 == st1);
    }
    lemma_data_field_decode::<HeaderEntrySink>(2, p.1, Seq::empty(), st1);
    if p.1.len() == 0 {
        assert(p.1 =~= Seq::<u8>::empty());
    }
    lemma_sink_decode_empty::<HeaderEntrySink>(st1);
    lemma_sink_decode_empty::<HeaderEntrySink>(p);
}

/// Reading back encoded header entries inserts them in order.
pub proof fn lemma_header_entries_decode(s: Seq<(Seq<char>, Seq<u8>)>, rest: Seq<u8>, st: EnvelopeState)
    requires
        header_entries_bytes(s).len() <= u64::MAX,
    ensures
        sink_decode::<EnvelopeSink>(header_entries_bytes(s) + rest, st)
            == sink_decode::<EnvelopeSink>(rest, EnvelopeState { headers: insert_pairs(st.headers, s), ..st }),
    decreases s.len(),
{
    if s.len() == 0 {
        assert(header_entries_bytes(s) + rest =~= rest);
        assert(EnvelopeState { headers: insert_pairs(st.headers, s), ..st } == st);
    } else {
        let p = s[0];
        let inner = text_field_bytes(1, p.0) + data_field_bytes(2, p.1);
        let e = header_entry_bytes(p);
        let tail = header_entries_bytes(s.drop_first());
        assert(header_entries_bytes(s) == e + tail);
        assert(inner.len() <= e.len());
        assert(encode_utf8(p.0).len() <= u64::MAX) by {
            if p.0.len() > 0 {
                assert(inner.len() >= encode_utf8(p.0).len());
            } else {
                lemma_encode_utf8_empty(p.0);
            }
        }
        assert(p.1.len() <= u64::MAX) by {
            if p.1.len() > 0 {
                assert(inner.len() >= p.1.len());
            }
        }
        lemma_header_entry_roundtrip(p);
        lemma_present_field_decode::<EnvelopeSink>(5, inner, tail + rest, st);
        assert(e + (tail + rest) =~= header_entries_bytes(s) + rest);
        let st2 = EnvelopeState { headers: st.headers.insert(p.0, p.1), ..st };
        lemma_header_entries_decode(s.drop_first(), rest, st2);
    }
}

/// Reading back the fields after the headers: body, request id, version.
proof fn lemma_envelope_tail(e: EnvelopeView, st: EnvelopeState)
    requires
        e.body.len() <= u64::MAX,
        match e.request_id { Some(u) => encode_utf8(uuid_hyphenated(u)).len() <= u64::MAX, None => true },
        st.body.len() == 0,
        st.request_id is None,
        st.version is None,
    ensures
        sink_decode::<EnvelopeSink>(
            data_field_bytes(6, e.body)
                + (opt_text_field_bytes(7, match e.request_id { Some(u) => Some(uuid_hyphenated(u)), None => None })
                + ((match e.version { Some(v) => varint_field_bytes(8, v as nat), None => Seq::<u8>::empty() }) + Seq::<u8>::empty())),
            st,
        ) == Some(EnvelopeState {
            body: e.body,
            request_id: match e.request_id { Some(u) => Some(uuid_hyphenated(u)), None => None },
            version: e.version,
            ..st
        }),
{
    let rid = match e.request_id { Some(u) => Some(uuid_hyphenated(u)), None => None };
    let f7 = opt_text_field_bytes(7, rid);
    let f8 = match e.version { Some(v) => varint_field_bytes(8, v as nat), None => Seq::<u8>::empty() };
    let r8 = f8 + Seq::<u8>::empty();
    let r7 = f7 + r8;
    let s6 = EnvelopeState { body: e.body, ..st };
    let s7 = EnvelopeState { request_id: rid, ..s6 };
    let s8 = EnvelopeState { version: e.version, ..s7 };
    lemma_data_field_decode::<EnvelopeSink>(6, e.body, r7, st);
    if e.body.len() == 0 {
        assert(e.body =~= Seq::<u8>::empty());
        assert(st.body =~= Seq::<u8>::empty());
        assert(st == s6);
    }
    match rid {
        Some(t) => {
            lemma_field_text_encoded(t);
            lemma_present_field_decode::<EnvelopeSink>(7, encode_utf8(t), r8, s6);
        },
        None => {
            assert(r7 =~= r8);
            assert(s6 == s7);
        },
    }
    match e.version {
        Some(v) => {
            crate::wire::lemma_varint_field_roundtrip(8, v as u64, Seq::empty());
            crate::wire::lemma_varint_bytes_len(64);
            lemma_sink_decode_prefix::<EnvelopeSink>(f8, Seq::empty(), s7, WireField { tag: 8, value: WireValue::Varint(v as nat) });
            assert(r8 =~= f8);
        },
        None => {
            assert(r8 =~= Seq::<u8>::empty());
            assert(s7 == s8);
        },
    }
    lemma_sink_decode_empty::<EnvelopeSink>(s8);
}

/// Reading back the fields before the headers: target, names, send mode.
proof fn lemma_envelope_head(e: EnvelopeView, rest: Seq<u8>)
    requires
        e.target.node.len() > 0,
        bytes_field_bytes(1, actor_id_bytes(e.target.node, e.target.local)).len() <= u64::MAX,
        encode_utf8(e.target_name).len() <= u64::MAX,
        encode_utf8(e.message_type).len() <= u64::MAX,
    ensures
        sink_decode::<EnvelopeSink>(
            bytes_field_bytes(1, actor_id_bytes(e.target.node, e.target.local))
                + (text_field_bytes(2, e.target_name)
                + (text_field_bytes(3, e.message_type)
                + (num_field_bytes(4, send_mode_number(e.send_mode) as u64) + rest))),
            envelope_start(),
        ) == sink_decode::<EnvelopeSink>(rest, EnvelopeState {
            target: Some(e.target),
            target_name: e.target_name,
            message_type: e.message_type,
            send_mode: send_mode_number(e.send_mode),
            ..envelope_start()
        }),
{
    let ea = actor_id_bytes(e.target.node, e.target.local);
    let mode = send_mode_number(e.send_mode) as u64;
    let r4 = num_field_bytes(4, mode) + rest;
    let r3 = text_field_bytes(3, e.message_type) + r4;
    let r2 = text_field_bytes(2, e.target_name) + r3;
    assert(encode_utf8(e.target.node).len() <= u64::MAX) by {
        assert(ea.len() >= encode_utf8(e.target.node).len());
    }
    lemma_actor_id_roundtrip(e.target.node, e.target.local);
    lemma_field_text_encoded(e.target_name);
    lemma_field_text_encoded(e.message_type);
    let s0 = envelope_start();
    let s1 = EnvelopeState { target: Some(e.target), ..s0 };
    let s2 = EnvelopeState { target_name: e.target_name, ..s1 };
    let s3 = EnvelopeState { message_type: e.message_type, ..s2 };
    let s4 = EnvelopeState { send_mode: send_mode_number(e.send_mode), ..s3 };
    lemma_present_field_decode::<EnvelopeSink>(1, ea, r2, s0);
    lemma_text_field_decode::<EnvelopeSink>(2, e.target_name, r3, s1);
    if e.target_name.len() == 0 {
        assert(e.target_name =~= Seq::<char>::empty());
        assert(s1 == s2);
    }
    lemma_text_field_decode::<EnvelopeSink>(3, e.message_type, r4, s2);
    if e.message_type.len() == 0 {
        assert(e.message_type =~= Seq::<char>::empty());
        assert(s2 == s3);
    }
    lemma_num_field_decode::<EnvelopeSink>(4, mode, rest, s3);
    assert(mode as nat as i32 == send_mode_number(e.send_mode));
    if mode == 0 {
        assert(s3 == s4);
    }
}

/// Regrouping the eight parts of an envelope's encoding to the right.
proof fn lemma_regroup8(a: Seq<u8>, b: Seq<u8>, c: Seq<u8>, d: Seq<u8>, h: Seq<u8>, x: Seq<u8>, y: Seq<u8>, z: Seq<u8>)
    ensures
        a + b + c + d + h + x + y + z == a + (b + (c + (d + (h + (x + (y + (z + Seq::<u8>::empty()))))))),
{
    assert(a + b + c + d + h + x + y + z =~= a + (b + (c + (d + (h + (x + (y + (z + Seq::<u8>::empty()))))))));
}

/// Each part of an envelope's encoding is within 64-bit lengths.
proof fn lemma_envelope_part_bounds(e: EnvelopeView, pairs: Seq<(Seq<char>, Seq<u8>)>)
    requires
        envelope_bytes(e, pairs).len() <= MAX_WIRE_ENVELOPE_SIZE,
    ensures
        bytes_field_bytes(1, actor_id_bytes(e.target.node, e.target.local)).len() <= u64::MAX,
        encode_utf8(e.target_name).len() <= u64::MAX,
        encode_utf8(e.message_type).len() <= u64::MAX,
        header_entries_bytes(pairs).len() <= u64::MAX,
        e.body.len() <= u64::MAX,
        match e.request_id { Some(u) => encode_utf8(uuid_hyphenated(u)).len() <= u64::MAX, None => true },
{
    let f2 = text_field_bytes(2, e.target_name);
    let f3 = text_field_bytes(3, e.message_type);
    let f6 = data_field_bytes(6, e.body);
    let rid = match e.request_id { Some(u) => Some(uuid_hyphenated(u)), None => None };
    let f7 = opt_text_field_bytes(7, rid);
    lemma_encode_utf8_empty(e.target_name);
    lemma_encode_utf8_empty(e.message_type);
    if e.target_name.len() > 0 {
        assert(f2.len() >= encode_utf8(e.target_name).len());
    }
    if e.message_type.len() > 0 {
        assert(f3.len() >= encode_utf8(e.message_type).len());
    }
    if e.body.len() > 0 {
        assert(f6.len() >= e.body.len());
    }
    if let Some(u) = e.request_id {
        assert(f7.len() >= encode_utf8(uuid_hyphenated(u)).len());
    }
}

/// A wire envelope whose target has a non-empty node id comes back
/// unchanged from its encoding, within the size limit: headers, body,
/// send mode, optional version and request id included. For the request id
/// this rests on the uuid crate reading back the text it wrote.
pub proof fn law_wire_envelope_roundtrip(e: EnvelopeView, pairs: Seq<(Seq<char>, Seq<u8>)>)
    requires
        e.target.node.len() > 0,
        e.headers == pairs_map(pairs),
        envelope_bytes(e, pairs).len() <= MAX_WIRE_ENVELOPE_SIZE,
        e.request_id matches Some(u) ==> uuid_parse_result(uuid_hyphenated(u)) == Ok::<u128, Seq<char>>(u),
    ensures
        envelope_decoding(envelope_bytes(e, pairs)) == Ok::<EnvelopeView, Seq<char>>(e),
{
    let f1 = bytes_field_bytes(1, actor_id_bytes(e.target.node, e.target.local));
    let f2 = text_field_bytes(2, e.target_name);
    let f3 = text_field_bytes(3, e.message_type);
    let f4 = num_field_bytes(4, send_mode_number(e.send_mode) as u64);
    let h = header_entries_bytes(pairs);
    let f6 = data_field_bytes(6, e.body);
    let rid = match e.request_id { Some(u) => Some(uuid_hyphenated(u)), None => None };
    let f7 = opt_text_field_bytes(7, rid);
    let f8 = match e.version { Some(v) => varint_field_bytes(8, v as nat), None => Seq::<u8>::empty() };
    let tail = f6 + (f7 + (f8 + Seq::<u8>::empty()));
    lemma_regroup8(f1, f2, f3, f4, h, f6, f7, f8);
    lemma_envelope_part_bounds(e, pairs);
    lemma_envelope_head(e, h + tail);
    let s4 = EnvelopeState {
        target: Some(e.target),
        target_name: e.target_name,
        message_type: e.message_type,
        send_mode: send_mode_number(e.send_mode),
        ..envelope_start()
    };
    lemma_header_entries_decode(pairs, tail, s4);
    lemma_insert_pairs_map(pairs);
    let s5 = EnvelopeState { headers: pairs_map(pairs), ..s4 };
    lemma_envelope_tail(e, s5);
}

} // verus!
