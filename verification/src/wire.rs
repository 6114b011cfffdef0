//! Protobuf wire primitives: LEB128 varints and field framing.
//!
//! A message on the wire is a sequence of fields. Each field starts with a
//! key, the varint `tag * 8 + wire_type`, followed by its payload: a varint
//! (wire type 0), eight bytes (1), a varint length and that many bytes (2), or
//! four bytes (5). Group wire types (3, 4) are not accepted.

use vstd::prelude::*;
use vstd::slice::*;

verus! {

/// LEB128 encoding of `v`: seven bits per byte, least significant first,
/// the high bit set on every byte but the last.
pub open spec fn varint_bytes(v: nat) -> Seq<u8>
    decreases v,
{
    if v < 128 {
        seq![v as u8]
    } else {
        seq![(v % 128 + 128) as u8] + varint_bytes(v / 128)
    }
}

/// Reading a varint whose first `k` bytes were already read: the value and
/// length of the rest. At most ten bytes are read, and a tenth byte may only
/// carry the one bit left of a 64-bit value.
pub open spec fn varint_scan(s: Seq<u8>, k: nat) -> Option<(nat, nat)>
    decreases 10 - k,
{
    if k >= 10 || s.len() == 0 {
        None
    } else if s[0] < 128 {
        if k == 9 && s[0] >= 2 {
            None
        } else {
            Some((s[0] as nat, 1))
        }
    } else {
        match varint_scan(s.drop_first(), k + 1) {
            Some((v, n)) => Some(((s[0] - 128) as nat + 128 * v, n + 1)),
            None => None,
        }
    }
}

/// The varint at the front of `s`: its value and its length in bytes.
pub open spec fn varint_parse(s: Seq<u8>) -> Option<(nat, nat)> {
    varint_scan(s, 0)
}

/// Bound of the value still to be read after `k` bytes of a varint.
pub open spec fn varint_bound(k: nat) -> nat
    decreases 9 - k,
{
    if k >= 9 {
        2
    } else {
        128 * varint_bound(k + 1)
    }
}

/// The bound before any byte is read is 2^64.
pub proof fn lemma_varint_bound_start()
    ensures
        varint_bound(0) == 0x1_0000_0000_0000_0000,
{
    reveal_with_fuel(varint_bound, 10);
}

/// The bound is at least two.
pub proof fn lemma_varint_bound_pos(k: nat)
    ensures
        varint_bound(k) >= 2,
        k < 9 ==> varint_bound(k) >= 256,
    decreases 9 - k,
{
    if k < 9 {
        lemma_varint_bound_pos(k + 1);
    }
}

/// A varint that is read stays below the bound, and is at least one byte.
pub proof fn lemma_varint_scan_bound(s: Seq<u8>, k: nat)
    requires
        k <= 9,
    ensures
        varint_scan(s, k) matches Some((v, n)) ==> v < varint_bound(k) && 1 <= n <= s.len() && n <= 10 - k,
    decreases 10 - k,
{
    lemma_varint_bound_pos(k);
    if s.len() > 0 && s[0] >= 128 && k < 9 {
        lemma_varint_scan_bound(s.drop_first(), k + 1);
        if let Some((v2, n2)) = varint_scan(s.drop_first(), k + 1) {
            assert(varint_bound(k) == 128 * varint_bound(k + 1));
            assert(v2 + 1 <= varint_bound(k + 1));
            assert(128 * (v2 + 1) <= 128 * varint_bound(k + 1)) by (nonlinear_arith)
                requires v2 + 1 <= varint_bound(k + 1);
            assert(varint_scan(s, k) == Some(((s[0] - 128) as nat + 128 * v2, n2 + 1)));
        }
    }
}

/// A value read as a varint fits in 64 bits.
pub proof fn lemma_varint_parse_bound(s: Seq<u8>)
    ensures
        varint_parse(s) matches Some((v, n)) ==> v <= u64::MAX && 1 <= n <= s.len() && n <= 10,
{
    lemma_varint_scan_bound(s, 0);
    lemma_varint_bound_start();
}

/// Reading back the encoding of a value below the bound gives the value.
pub proof fn lemma_varint_scan_bytes(v: nat, rest: Seq<u8>, k: nat)
    requires
        k <= 9,
        v < varint_bound(k),
    ensures
        varint_scan(varint_bytes(v) + rest, k) == Some((v, varint_bytes(v).len())),
    decreases v,
{
    let b = varint_bytes(v);
    let s = b + rest;
    if v < 128 {
        assert(s[0] == v as u8);
    } else {
        if k == 9 {
            assert(false);
        }
        assert(v / 128 < varint_bound(k + 1));
        lemma_varint_scan_bytes(v / 128, rest, k + 1);
        assert(s[0] == (v % 128 + 128) as u8);
        assert(s.drop_first() =~= varint_bytes(v / 128) + rest);
    }
}

/// Reading back the encoding of a 64-bit value gives the value.
pub proof fn lemma_varint_roundtrip(v: u64, rest: Seq<u8>)
    ensures
        varint_parse(varint_bytes(v as nat) + rest) == Some((v as nat, varint_bytes(v as nat).len())),
        1 <= varint_bytes(v as nat).len() <= 10,
{
    lemma_varint_bound_start();
    lemma_varint_scan_bytes(v as nat, rest, 0);
    lemma_varint_parse_bound(varint_bytes(v as nat) + rest);
}

/// The encoding of a value is never empty.
pub proof fn lemma_varint_bytes_len(v: nat)
    ensures
        varint_bytes(v).len() >= 1,
        v < 128 ==> varint_bytes(v).len() == 1,
    decreases v,
{
    if v >= 128 {
        lemma_varint_bytes_len(v / 128);
    }
}

/// Appends the varint encoding of `v` (prost::encoding::encode_varint).
///
/// prost writes the LEB128 encoding of the value, seven bits per byte, least
/// significant group first, with the high bit set on all bytes but the last.
#[verifier::external_body]
pub(crate) fn put_varint(buf: &mut Vec<u8>, v: u64)
    ensures
        final(buf)@ == old(buf)@ + varint_bytes(v as nat),
{
    prost::encoding::encode_varint(v, buf);
}

/// Reads a varint from the front of `bytes` (prost::encoding::decode_varint).
///
/// prost reads bytes until one below 0x80, at most ten, and rejects a tenth
/// byte of 2 or more; on success the slice has advanced past the varint.
#[verifier::external_body]
pub(crate) fn read_varint(bytes: &[u8]) -> (r: Option<(u64, &[u8])>)
    ensures
        r is Some <==> varint_parse(bytes@) is Some,
        r matches Some((x, rest)) ==> rest@.len() <= bytes@.len()
            && varint_parse(bytes@) == Some((x as nat, (bytes@.len() - rest@.len()) as nat))
            && rest@ == bytes@.skip(bytes@.len() - rest@.len()),
{
    let mut b = bytes;
    match prost::encoding::decode_varint(&mut b) {
        Ok(v) => Some((v, b)),
        Err(_) => None,
    }
}

/// What a field carries.
pub enum WireValue {
    /// A varint (wire type 0).
    Varint(nat),
    /// Eight fixed bytes (wire type 1).
    Fixed64,
    /// Length-delimited bytes (wire type 2).
    Bytes(Seq<u8>),
    /// Four fixed bytes (wire type 5).
    Fixed32,
}

/// One field of a message: its tag and what it carries.
pub struct WireField {
    pub tag: nat,
    pub value: WireValue,
}

/// The field at the front of `s`, and the number of bytes it takes.
pub open spec fn field_parse(s: Seq<u8>) -> Option<(WireField, nat)> {
    match varint_parse(s) {
        None => None,
        Some((key, kl)) => {
            let tag = key / 8;
            let wt = key % 8;
            let rest = s.skip(kl as int);
            if key > u32::MAX || tag == 0 {
                None
            } else if wt == 0 {
                match varint_parse(rest) {
                    Some((v, vl)) => Some((WireField { tag, value: WireValue::Varint(v) }, kl + vl)),
                    None => None,
                }
            } else if wt == 2 {
                match varint_parse(rest) {
                    Some((len, ll)) => if ll + len <= rest.len() {
                        Some((WireField { tag, value: WireValue::Bytes(rest.subrange(ll as int, (ll + len) as int)) }, kl + ll + len))
                    } else {
                        None
                    },
                    None => None,
                }
            } else if wt == 1 {
                if rest.len() >= 8 {
                    Some((WireField { tag, value: WireValue::Fixed64 }, kl + 8))
                } else {
                    None
                }
            } else if wt == 5 {
                if rest.len() >= 4 {
                    Some((WireField { tag, value: WireValue::Fixed32 }, kl + 4))
                } else {
                    None
                }
            } else {
                None
            }
        },
    }
}

/// All fields of `s`, in order, if `s` is a well-formed sequence of fields.
pub open spec fn fields_parse(s: Seq<u8>) -> Option<Seq<WireField>>
    decreases s.len(),
{
    if s.len() == 0 {
        Some(Seq::empty())
    } else {
        match field_parse(s) {
            Some((f, n)) => if 1 <= n <= s.len() {
                match fields_parse(s.skip(n as int)) {
                    Some(fs) => Some(seq![f] + fs),
                    None => None,
                }
            } else {
                None
            },
            None => None,
        }
    }
}

/// A field parse consumes between one byte and the whole input.
pub proof fn lemma_field_parse_len(s: Seq<u8>)
    ensures
        field_parse(s) matches Some((f, n)) ==> 1 <= n <= s.len(),
{
    lemma_varint_parse_bound(s);
    if let Some((key, kl)) = varint_parse(s) {
        lemma_varint_parse_bound(s.skip(kl as int));
    }
}

/// Key of a field with the given tag and wire type.
pub open spec fn key_bytes(tag: nat, wt: nat) -> Seq<u8> {
    varint_bytes(tag * 8 + wt)
}

/// Encoding of a varint field.
pub open spec fn varint_field_bytes(tag: nat, v: nat) -> Seq<u8> {
    key_bytes(tag, 0) + varint_bytes(v)
}

/// Encoding of a length-delimited field.
pub open spec fn bytes_field_bytes(tag: nat, data: Seq<u8>) -> Seq<u8> {
    key_bytes(tag, 2) + varint_bytes(data.len()) + data
}

/// Reading back an encoded varint field.
pub proof fn lemma_varint_field_roundtrip(tag: u32, v: u64, rest: Seq<u8>)
    requires
        1 <= tag < 0x2000_0000,
    ensures
        field_parse(varint_field_bytes(tag as nat, v as nat) + rest)
            == Some((WireField { tag: tag as nat, value: WireValue::Varint(v as nat) }, varint_field_bytes(tag as nat, v as nat).len())),
{
    let key = tag as nat * 8;
    let kb = varint_bytes(key);
    let vb = varint_bytes(v as nat);
    let s = varint_field_bytes(tag as nat, v as nat) + rest;
    assert(s =~= kb + (vb + rest));
    lemma_varint_roundtrip(key as u64, vb + rest);
    assert(s.skip(kb.len() as int) =~= vb + rest);
    lemma_varint_roundtrip(v, rest);
    assert(key / 8 == tag as nat);
    assert(key % 8 == 0);
}

/// Reading back an encoded length-delimited field.
pub proof fn lemma_bytes_field_roundtrip(tag: u32, data: Seq<u8>, rest: Seq<u8>)
    requires
        1 <= tag < 0x2000_0000,
        data.len() <= u64::MAX,
    ensures
        field_parse(bytes_field_bytes(tag as nat, data) + rest)
            == Some((WireField { tag: tag as nat, value: WireValue::Bytes(data) }, bytes_field_bytes(tag as nat, data).len())),
{
    let key = tag as nat * 8 + 2;
    let kb = varint_bytes(key);
    let lb = varint_bytes(data.len());
    let s = bytes_field_bytes(tag as nat, data) + rest;
    assert(s =~= kb + (lb + (data + rest)));
    lemma_varint_roundtrip(key as u64, lb + (data + rest));
    let r1 = s.skip(kb.len() as int);
    assert(r1 =~= lb + (data + rest));
    lemma_varint_roundtrip(data.len() as u64, data + rest);
    assert(key / 8 == tag as nat);
    assert(key % 8 == 2);
    assert(r1.subrange(lb.len() as int, (lb.len() + data.len()) as int) =~= data);
}

/// Reading a sequence of fields that starts with a whole field.
pub proof fn lemma_fields_parse_cons(s: Seq<u8>, f: WireField, n: nat)
    requires
        field_parse(s) == Some((f, n)),
        s.len() > 0,
    ensures
        fields_parse(s) == (match fields_parse(s.skip(n as int)) {
            Some(fs) => Some(seq![f] + fs),
            None => None::<Seq<WireField>>,
        }),
{
    lemma_field_parse_len(s);
}

/// A field as read from a buffer: tag, wire type and payload.
///
/// For wire type 0 `value` is the varint; for wire type 2 the payload is
/// `bytes[start..end]` of the buffer read; fixed-width payloads are skipped.
pub struct RawField {
    pub tag: u32,
    pub wire_type: u8,
    pub value: u64,
    pub start: usize,
    pub end: usize,
}

/// The field a raw field stands for, within buffer `s`.
pub open spec fn raw_field_view(r: RawField, s: Seq<u8>) -> WireField {
    WireField {
        tag: r.tag as nat,
        value: if r.wire_type == 0 {
            WireValue::Varint(r.value as nat)
        } else if r.wire_type == 2 {
            WireValue::Bytes(s.subrange(r.start as int, r.end as int))
        } else if r.wire_type == 1 {
            WireValue::Fixed64
        } else {
            WireValue::Fixed32
        },
    }
}

/// Reads the field starting at `pos`; returns it and the position after it.
pub fn read_field(bytes: &[u8], pos: usize) -> (r: Option<(RawField, usize)>)
    requires
        pos < bytes@.len(),
    ensures
        field_parse(bytes@.skip(pos as int)) is None ==> r is None,
        field_parse(bytes@.skip(pos as int)) matches Some((f, n)) ==> (r matches Some((raw, next)) && {
            &&& raw_field_view(raw, bytes@) == f
            &&& next == pos + n
            &&& next <= bytes@.len()
            &&& (raw.wire_type == 2 ==> raw.start <= raw.end <= bytes@.len())
            &&& (raw.wire_type == 0 || raw.wire_type == 1 || raw.wire_type == 2 || raw.wire_type == 5)
        }),
{
    let ghost s = bytes@.skip(pos as int);
    let sub = slice_subrange(bytes, pos, bytes.len());
    assert(sub@ =~= s);
    proof {
        lemma_varint_parse_bound(s);
        lemma_field_parse_len(s);
    }
    let (key, rest) = match read_varint(sub) {
        Some(x) => x,
        None => return None,
    };
    let kl = sub.len() - rest.len();
    if key > 4294967295u64 || key / 8 == 0 {
        return None;
    }
    let tag = (key / 8) as u32;
    let wt = key % 8;
    let after_key = pos + kl;
    assert(rest@ =~= bytes@.skip(after_key as int));
    proof {
        lemma_varint_parse_bound(rest@);
    }
    if wt == 0 {
        match read_varint(rest) {
            Some((v, rest2)) => {
                let vl = rest.len() - rest2.len();
                Some((RawField { tag, wire_type: 0, value: v, start: 0, end: 0 }, after_key + vl))
            },
            None => None,
        }
    } else if wt == 2 {
        match read_varint(rest) {
            Some((len, rest2)) => {
                let ll = rest.len() - rest2.len();
                if len > rest2.len() as u64 {
                    return None;
                }
                let start = after_key + ll;
                let end = start + len as usize;
                assert(s.skip(kl as int).subrange(ll as int, (ll + len) as int) =~= bytes@.subrange(start as int, end as int));
                Some((RawField { tag, wire_type: 2, value: 0, start, end }, end))
            },
            None => None,
        }
    } else if wt == 1 {
        if rest.len() >= 8 {
            Some((RawField { tag, wire_type: 1, value: 0, start: 0, end: 0 }, after_key + 8))
        } else {
            None
        }
    } else if wt == 5 {
        if rest.len() >= 4 {
            Some((RawField { tag, wire_type: 5, value: 0, start: 0, end: 0 }, after_key + 4))
        } else {
            None
        }
    } else {
        None
    }
}

/// Appends a varint field.
pub fn put_varint_field(buf: &mut Vec<u8>, tag: u32, v: u64)
    requires
        1 <= tag < 0x2000_0000,
    ensures
        final(buf)@ == old(buf)@ + varint_field_bytes(tag as nat, v as nat),
{
    put_varint(buf, tag as u64 * 8);
    put_varint(buf, v);
    assert(final(buf)@ =~= old(buf)@ + varint_field_bytes(tag as nat, v as nat));
}

/// Appends a length-delimited field.
pub fn put_bytes_field(buf: &mut Vec<u8>, tag: u32, data: &[u8])
    requires
        1 <= tag < 0x2000_0000,
    ensures
        final(buf)@ == old(buf)@ + bytes_field_bytes(tag as nat, data@),
{
    put_varint(buf, tag as u64 * 8 + 2);
    put_varint(buf, data.len() as u64);
    let ghost mid = buf@;
    buf.extend_from_slice(data);
    assert(buf@ =~= mid + data@);
    assert(final(buf)@ =~= old(buf)@ + bytes_field_bytes(tag as nat, data@));
}

} // verus!
