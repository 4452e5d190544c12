//! Protocol Buffers wire format, as far as the Douyin live-comment frames
//! need it: base-128 varints, length-delimited fields, and skipping of the
//! other wire types.
use vstd::prelude::*;
use vstd::utf8::*;
use crate::text::{decimal, trim, chars_of, eq_str, trim_str, push_decimal, extend_str};
use crate::outside::{string_from_chars, utf8_to_string, gunzip, gzip_decompress};


verus! {

// ---------------------------------------------------------------------------
// Varints
// ---------------------------------------------------------------------------
/// 128 to the power `k`.
pub open spec fn weight(k: nat) -> nat
    decreases k,
{
    if k == 0 {
        1
    } else {
        128 * weight((k - 1) as nat)
    }
}

/// The number that base-128 digits stand for, least significant first;
/// the high bit of each byte is ignored.
pub open spec fn varint_value(bytes: Seq<u8>) -> nat
    decreases bytes.len(),
{
    if bytes.len() == 0 {
        0
    } else {
        (bytes[0] % 128) as nat + 128 * varint_value(bytes.drop_first())
    }
}

/// Where a varint that starts at `pos` ends: after its first byte below
/// 0x80 (`Done` with its length), or not at all because the data runs out
/// first, or because ten bytes pass without one.
pub enum VarintEnd {
    Done(int),
    TooLong,
    Incomplete,
}

pub open spec fn varint_scan(data: Seq<u8>, pos: int, k: int) -> VarintEnd
    decreases 10 - k,
{
    if k >= 10 {
        VarintEnd::TooLong
    } else if pos < 0 || pos + k >= data.len() {
        VarintEnd::Incomplete
    } else if data[pos + k] < 128 {
        VarintEnd::Done(k + 1)
    } else if k == 9 {
        VarintEnd::TooLong
    } else {
        varint_scan(data, pos, k + 1)
    }
}

pub open spec fn msg_varint_too_long() -> Seq<char> {
    "protobuf varint 过长"@
}

pub open spec fn msg_varint_incomplete() -> Seq<char> {
    "protobuf varint 不完整"@
}

pub open spec fn msg_bytes_incomplete() -> Seq<char> {
    "protobuf bytes 不完整"@
}

pub open spec fn msg_fixed64_incomplete() -> Seq<char> {
    "protobuf fixed64 不完整"@
}

pub open spec fn msg_fixed32_incomplete() -> Seq<char> {
    "protobuf fixed32 不完整"@
}

pub open spec fn msg_unsupported_wire(wire: u64) -> Seq<char> {
    "不支持的 protobuf wire type: "@ + decimal(wire as nat)
}

pub open spec fn two_to_64() -> nat {
    0x1_0000_0000_0000_0000
}

/// The varint at `pos`: its value (kept to 64 bits) and the position after it.
pub open spec fn read_varint(data: Seq<u8>, pos: int) -> Result<(u64, int), Seq<char>> {
    match varint_scan(data, pos, 0) {
        VarintEnd::Done(n) => Ok(
            (
                (varint_value(data.subrange(pos, pos + n)) % two_to_64()) as u64,
                pos + n,
            ),
        ),
        VarintEnd::TooLong => Err(msg_varint_too_long()),
        VarintEnd::Incomplete => Err(msg_varint_incomplete()),
    }
}

/// The bytes that `write_proto_varint` appends for `v`.
pub open spec fn varint_encode(v: nat) -> Seq<u8>
    decreases v,
{
    if v < 128 {
        seq![v as u8]
    } else {
        seq![(v % 128 + 128) as u8] + varint_encode(v / 128)
    }
}

pub proof fn lemma_varint_value_push(s: Seq<u8>, b: u8)
    ensures
        varint_value(s.push(b)) == varint_value(s) + (b % 128) as nat * weight(s.len()),
    decreases s.len(),
{
    if s.len() == 0 {
        assert(s.push(b).drop_first() =~= Seq::<u8>::empty());
        assert(varint_value(Seq::<u8>::empty()) == 0);
        assert(s.push(b)[0] == b);
        assert(weight(0) == 1);
        assert(varint_value(s) == 0);
    } else {
        lemma_varint_value_push(s.drop_first(), b);
        assert(s.push(b).drop_first() =~= s.drop_first().push(b));
        assert(s.push(b)[0] == s[0]);
        let w = weight((s.len() - 1) as nat);
        assert(weight(s.len()) == 128 * w);
        let x = (b % 128) as nat;
        let r = varint_value(s.drop_first());
        assert(128 * (r + x * w) == 128 * r + x * (128 * w)) by (nonlinear_arith);
        assert(varint_value(s.push(b)) == (s[0] % 128) as nat + 128 * varint_value(
            s.push(b).drop_first(),
        ));
        assert(varint_value(s) == (s[0] % 128) as nat + 128 * r);
    }
}

pub proof fn lemma_weight_values()
    ensures
        weight(8) == 0x100_0000_0000_0000,
        weight(9) == 0x8000_0000_0000_0000,
        weight(10) == 0x40_0000_0000_0000_0000,
{
    assert(weight(0) == 1);
    assert(weight(1) == 0x80);
    assert(weight(2) == 0x4000);
    assert(weight(3) == 0x20_0000);
    assert(weight(4) == 0x1000_0000);
    assert(weight(5) == 0x8_0000_0000);
    assert(weight(6) == 0x400_0000_0000);
    assert(weight(7) == 0x2_0000_0000_0000);
    assert(weight(8) == 0x100_0000_0000_0000);
    assert(weight(9) == 0x8000_0000_0000_0000);
    assert(weight(10) == 0x40_0000_0000_0000_0000);
}

pub proof fn lemma_weight_mono(a: nat, b: nat)
    requires
        a <= b,
    ensures
        weight(a) <= weight(b),
    decreases b,
{
    if a < b {
        lemma_weight_mono(a, (b - 1) as nat);
    }
}

pub proof fn lemma_varint_scan_step(data: Seq<u8>, pos: int, k: int)
    requires
        0 <= k < 9,
        0 <= pos,
        pos + k < data.len(),
        data[pos + k] >= 128,
    ensures
        varint_scan(data, pos, k) == varint_scan(data, pos, k + 1),
{
}

/// Reads a varint at `*cursor` and moves the cursor past the bytes read.
pub fn read_proto_varint(data: &[u8], cursor: &mut usize) -> (r: Result<u64, String>)
    ensures
        match read_varint(data@, *old(cursor) as int) {
            Ok((v, next)) => r == Ok::<u64, String>(v) && *final(cursor) == next,
            Err(e) => r is Err && r->Err_0@ == e,
        },
        varint_scan(data@, *old(cursor) as int, 0) is TooLong ==> *final(cursor) == *old(cursor)
            + 10,
        varint_scan(data@, *old(cursor) as int, 0) is Incomplete ==> *final(cursor) == if *old(
            cursor,
        ) <= data@.len() {
            data@.len() as usize
        } else {
            *old(cursor)
        },
{
    let ghost pos = *cursor as int;
    let mut result: u64 = 0;
    let mut scale: u64 = 1;
    let mut k: usize = 0;
    proof {
        reveal_with_fuel(weight, 1);
        if pos <= data@.len() {
            assert(data@.subrange(pos, pos) =~= Seq::<u8>::empty());
        }
    }
    while *cursor < data.len()
        invariant
            *cursor == pos + k,
            0 <= k <= 9,
            k == 0 || pos + k <= data@.len(),
            scale == weight(k as nat),
            varint_scan(data@, pos, 0) == varint_scan(data@, pos, k as int),
            pos <= data@.len() ==> result == varint_value(data@.subrange(pos, pos + k)),
            result < scale,
            pos == *old(cursor),
        decreases data.len() - *cursor,
    {
        let byte = data[*cursor];
        *cursor = *cursor + 1;
        let low = (byte % 128) as u64;
        let ghost prefix = data@.subrange(pos, pos + k);
        proof {
            assert(data@.subrange(pos, pos + k + 1) =~= prefix.push(byte));
            lemma_varint_value_push(prefix, byte);
            lemma_weight_values();
            lemma_weight_mono(k as nat, 9);
        }
        if k < 9 {
            proof {
                lemma_weight_mono((k + 1) as nat, 9);
                assert(result + low * scale < 128 * scale) by (nonlinear_arith)
                    requires
                        result < scale,
                        low < 128,
                ;
            }
            result = result + low * scale;
        } else {
            proof {
                assert(scale == 0x8000_0000_0000_0000);
                assert((result + low * scale) % (two_to_64() as int) == result + (low % 2) * scale)
                    by (nonlinear_arith)
                    requires
                        scale == 0x8000_0000_0000_0000,
                        result < scale,
                        low < 128,
                ;
            }
            result = result + (low % 2) * scale;
        }
        if byte < 128 {
            proof {
                assert(varint_scan(data@, pos, k as int) == VarintEnd::Done(k + 1));
                let v = varint_value(data@.subrange(pos, pos + k + 1));
                if k < 9 {
                    assert(v < two_to_64());
                    assert(v % two_to_64() == v);
                }
                assert(result == v % two_to_64());
            }
            return Ok(result);
        }
        if k == 9 {
            return Err(String::from_str("protobuf varint 过长"));
        }
        proof {
            lemma_varint_scan_step(data@, pos, k as int);
        }
        scale = scale * 128;
        k = k + 1;
    }
    Err(String::from_str("protobuf varint 不完整"))
}

/// Appends the varint encoding of `value`.
pub fn write_proto_varint(value: u64, output: &mut Vec<u8>)
    ensures
        final(output)@ == old(output)@ + varint_encode(value as nat),
{
    let mut value = value;
    let ghost start = old(output)@ + varint_encode(value as nat);
    while value >= 0x80
        invariant
            start == output@ + varint_encode(value as nat),
        decreases value,
    {
        let ghost before = output@;
        output.push((value % 128 + 128) as u8);
        value = value / 128;
        proof {
            assert(before + (seq![(output@.last())] + varint_encode(value as nat)) =~= output@
                + varint_encode(value as nat));
        }
    }
    let ghost before = output@;
    output.push(value as u8);
    proof {
        assert(before + seq![value as u8] =~= output@);
    }
}

// ---------------------------------------------------------------------------
// The law: a varint reads back as the value that was written
// ---------------------------------------------------------------------------
pub proof fn lemma_varint_encode_value(v: nat)
    ensures
        varint_value(varint_encode(v)) == v,
    decreases v,
{
    if v >= 128 {
        lemma_varint_encode_value(v / 128);
        let e = varint_encode(v);
        assert(e.drop_first() =~= varint_encode(v / 128));
        assert(e[0] % 128 == v % 128);
        assert(varint_value(e) == (e[0] % 128) as nat + 128 * varint_value(e.drop_first()));
        assert(v == v % 128 + 128 * (v / 128));
    } else {
        let e = varint_encode(v);
        assert(e.drop_first() =~= Seq::<u8>::empty());
        assert(varint_value(Seq::<u8>::empty()) == 0);
        assert(e[0] == v as u8);
        assert(varint_value(e) == (e[0] % 128) as nat + 128 * varint_value(e.drop_first()));
    }
}

pub proof fn lemma_varint_encode_len(v: nat, m: nat)
    requires
        v < weight(m),
    ensures
        1 <= varint_encode(v).len() <= if m == 0 {
            1
        } else {
            m
        },
    decreases v,
{
    if v >= 128 {
        assert(m >= 2) by {
            if m == 0 {
            } else if m == 1 {
                reveal_with_fuel(weight, 2);
            }
        }
        assert(v / 128 < weight((m - 1) as nat)) by {
            assert(weight(m) == 128 * weight((m - 1) as nat));
        }
        lemma_varint_encode_len(v / 128, (m - 1) as nat);
    }
}

pub proof fn lemma_varint_scan_encoded(data: Seq<u8>, pos: int, k: int, v: nat)
    requires
        0 <= pos,
        0 <= k < 10,
        v < weight((10 - k) as nat),
        pos + k + varint_encode(v).len() <= data.len(),
        data.subrange(pos + k, pos + k + varint_encode(v).len()) == varint_encode(v),
    ensures
        varint_scan(data, pos, k) == VarintEnd::Done(k + varint_encode(v).len()),
    decreases v,
{
    let e = varint_encode(v);
    assert(data[pos + k] == e[0]) by {
        assert(data.subrange(pos + k, pos + k + e.len())[0] == data[pos + k]);
    }
    if v >= 128 {
        assert(10 - k >= 2) by {
            if 10 - k == 1 {
                reveal_with_fuel(weight, 2);
            }
        }
        assert(weight((10 - k) as nat) == 128 * weight((10 - k - 1) as nat));
        let rest = varint_encode(v / 128);
        assert(e =~= seq![e[0]] + rest);
        assert(data.subrange(pos + k + 1, pos + k + 1 + rest.len()) =~= rest) by {
            assert forall|i: int| 0 <= i < rest.len() implies data.subrange(
                pos + k + 1,
                pos + k + 1 + rest.len(),
            )[i] == rest[i] by {
                assert(data.subrange(pos + k, pos + k + e.len())[i + 1] == e[i + 1]);
            }
        }
        lemma_varint_scan_encoded(data, pos, k + 1, v / 128);
    }
}

/// Reading a varint at the start of `varint_encode(v) + rest` gives back
/// `v` and stops right after the encoding, whatever follows it.
pub proof fn lemma_varint_roundtrip(v: u64, rest: Seq<u8>)
    ensures
        read_varint(varint_encode(v as nat) + rest, 0) == Ok::<(u64, int), Seq<char>>(
            (v, varint_encode(v as nat).len() as int),
        ),
{
    let e = varint_encode(v as nat);
    let data = e + rest;
    lemma_weight_values();
    assert(data.subrange(0, e.len() as int) =~= e);
    lemma_varint_scan_encoded(data, 0, 0, v as nat);
    lemma_varint_encode_value(v as nat);
}


pub proof fn lemma_varint_scan_bounds(data: Seq<u8>, pos: int, k: int)
    requires
        0 <= k < 10,
    ensures
        varint_scan(data, pos, k) matches VarintEnd::Done(n) ==> k < n <= 10 && 0 <= pos && pos
            + n <= data.len(),
    decreases 10 - k,
{
    if k < 9 && 0 <= pos && pos + k < data.len() && data[pos + k] >= 128 {
        lemma_varint_scan_bounds(data, pos, k + 1);
    }
}

pub proof fn lemma_read_varint_advances(data: Seq<u8>, pos: int)
    ensures
        read_varint(data, pos) matches Ok((_, next)) ==> 0 <= pos < next <= data.len(),
{
    lemma_varint_scan_bounds(data, pos, 0);
}

// ---------------------------------------------------------------------------
// Length-delimited fields and skipping
// ---------------------------------------------------------------------------
/// The length-delimited bytes at `pos` and the position after them.
pub open spec fn read_bytes(data: Seq<u8>, pos: int) -> Result<(Seq<u8>, int), Seq<char>> {
    match read_varint(data, pos) {
        Err(e) => Err(e),
        Ok((len, p)) => if p + len > data.len() {
            Err(msg_bytes_incomplete())
        } else {
            Ok((data.subrange(p, p + len), p + len))
        },
    }
}

/// The position after a field value of the given wire type.
pub open spec fn skip_field(data: Seq<u8>, pos: int, wire: u64) -> Result<int, Seq<char>> {
    if wire == 0 {
        match read_varint(data, pos) {
            Err(e) => Err(e),
            Ok((_, p)) => Ok(p),
        }
    } else if wire == 1 {
        if pos + 8 > data.len() {
            Err(msg_fixed64_incomplete())
        } else {
            Ok(pos + 8)
        }
    } else if wire == 2 {
        match read_bytes(data, pos) {
            Err(e) => Err(e),
            Ok((_, p)) => Ok(p),
        }
    } else if wire == 5 {
        if pos + 4 > data.len() {
            Err(msg_fixed32_incomplete())
        } else {
            Ok(pos + 4)
        }
    } else {
        Err(msg_unsupported_wire(wire))
    }
}

/// Reads a length-delimited field value at `*cursor`.
pub fn read_proto_bytes<'a>(data: &'a [u8], cursor: &mut usize) -> (r: Result<&'a [u8], String>)
    ensures
        match read_bytes(data@, *old(cursor) as int) {
            Ok((b, next)) => r is Ok && r->Ok_0@ == b && *final(cursor) == next,
            Err(e) => r is Err && r->Err_0@ == e,
        },
{
    proof {
        lemma_read_varint_advances(data@, *old(cursor) as int);
    }
    let length = match read_proto_varint(data, cursor) {
        Ok(length) => length,
        Err(e) => return Err(e),
    };
    if length > (data.len() - *cursor) as u64 {
        return Err(String::from_str("protobuf bytes 不完整"));
    }
    let l = length as usize;
    let bytes = &data[*cursor..*cursor + l];
    *cursor = *cursor + l;
    Ok(bytes)
}

/// Moves the cursor past a field value of the given wire type.
pub fn skip_proto_field(data: &[u8], cursor: &mut usize, wire_type: u64) -> (r: Result<(), String>)
    ensures
        match skip_field(data@, *old(cursor) as int, wire_type) {
            Ok(next) => r is Ok && *final(cursor) == next,
            Err(e) => r is Err && r->Err_0@ == e,
        },
{
    if wire_type == 0 {
        match read_proto_varint(data, cursor) {
            Ok(_) => Ok(()),
            Err(e) => Err(e),
        }
    } else if wire_type == 1 {
        if *cursor > data.len() || data.len() - *cursor < 8 {
            return Err(String::from_str("protobuf fixed64 不完整"));
        }
        *cursor = *cursor + 8;
        Ok(())
    } else if wire_type == 2 {
        match read_proto_bytes(data, cursor) {
            Ok(_) => Ok(()),
            Err(e) => Err(e),
        }
    } else if wire_type == 5 {
        if *cursor > data.len() || data.len() - *cursor < 4 {
            return Err(String::from_str("protobuf fixed32 不完整"));
        }
        *cursor = *cursor + 4;
        Ok(())
    } else {
        let mut message: Vec<char> = Vec::new();
        extend_str(&mut message, "不支持的 protobuf wire type: ");
        push_decimal(&mut message, wire_type);
        Err(string_from_chars(message.as_slice()))
    }
}

/// UTF-8 text of the bytes, or the empty text when they are not UTF-8.
pub open spec fn utf8_or_empty(bytes: Seq<u8>) -> Seq<char> {
    if valid_utf8(bytes) {
        decode_utf8(bytes)
    } else {
        Seq::empty()
    }
}

/// Text of a string field; invalid UTF-8 gives the empty text.
pub fn decode_proto_string(bytes: &[u8]) -> (s: String)
    ensures
        s@ == utf8_or_empty(bytes@),
{
    match utf8_to_string(bytes) {
        Some(s) => s,
        None => String::new(),
    }
}

// ---------------------------------------------------------------------------
// Fields
// ---------------------------------------------------------------------------
/// What a field holds: a varint, length-delimited bytes, or a fixed-width
/// value that is only skipped.
pub enum FieldValue {
    Varint(u64),
    Bytes(Seq<u8>),
    Skipped,
}

pub struct ProtoField {
    pub number: u64,
    pub wire: u64,
    pub value: FieldValue,
}

/// The field that starts at `pos` and the position after it.
pub open spec fn next_field(data: Seq<u8>, pos: int) -> Result<(ProtoField, int), Seq<char>> {
    match read_varint(data, pos) {
        Err(e) => Err(e),
        Ok((key, p)) => {
            let number = key / 8;
            let wire = key % 8;
            if wire == 0 {
                match read_varint(data, p) {
                    Err(e) => Err(e),
                    Ok((v, q)) => Ok(
                        (ProtoField { number, wire, value: FieldValue::Varint(v) }, q),
                    ),
                }
            } else if wire == 2 {
                match read_bytes(data, p) {
                    Err(e) => Err(e),
                    Ok((b, q)) => Ok((ProtoField { number, wire, value: FieldValue::Bytes(b) }, q)),
                }
            } else {
                match skip_field(data, p, wire) {
                    Err(e) => Err(e),
                    Ok(q) => Ok((ProtoField { number, wire, value: FieldValue::Skipped }, q)),
                }
            }
        },
    }
}

pub proof fn lemma_next_field_advances(data: Seq<u8>, pos: int)
    ensures
        next_field(data, pos) matches Ok((_, next)) ==> pos < next <= data.len(),
{
    lemma_read_varint_advances(data, pos);
    if let Ok((key, p)) = read_varint(data, pos) {
        lemma_read_varint_advances(data, p);
    }
}

pub proof fn lemma_key_split(key: u64)
    ensures
        key >> 3 == key / 8,
        key & 7 == key % 8,
{
    assert(key >> 3 == key / 8) by (bit_vector);
    assert(key & 7 == key % 8) by (bit_vector);
}

/// The varint value of a field known to hold one.
pub open spec fn field_varint(f: ProtoField) -> u64 {
    match f.value {
        FieldValue::Varint(v) => v,
        _ => 0,
    }
}

/// The bytes of a field known to hold them.
pub open spec fn field_bytes(f: ProtoField) -> Seq<u8> {
    match f.value {
        FieldValue::Bytes(b) => b,
        _ => Seq::empty(),
    }
}

// ---------------------------------------------------------------------------
// Douyin frames
// ---------------------------------------------------------------------------
/// The outer push frame from `pos` on: the last varint field 3 is the log
/// id and the last bytes field 8 the payload.
pub open spec fn outer_frame_from(data: Seq<u8>, pos: int, log_id: u64, payload: Seq<u8>) -> Result<
    (u64, Seq<u8>),
    Seq<char>,
>
    decreases data.len() - pos,
    via outer_frame_from_decreases
{
    if pos < 0 || pos >= data.len() {
        Ok((log_id, payload))
    } else {
        match next_field(data, pos) {
            Err(e) => Err(e),
            Ok((f, q)) => outer_frame_from(
                data,
                q,
                if f.number == 3 && f.wire == 0 {
                    field_varint(f)
                } else {
                    log_id
                },
                if f.number == 8 && f.wire == 2 {
                    field_bytes(f)
                } else {
                    payload
                },
            ),
        }
    }
}

#[via_fn]
proof fn outer_frame_from_decreases(data: Seq<u8>, pos: int, log_id: u64, payload: Seq<u8>) {
    lemma_next_field_advances(data, pos);
}

/// One step of a field loop: what the executable code computes for the
/// field at `*cursor` equals what `next_field` says.
proof fn lemma_field_step(data: Seq<u8>, pos: int, key: u64, p: int)
    requires
        read_varint(data, pos) == Ok::<(u64, int), Seq<char>>((key, p)),
    ensures
        (key % 8 == 0) ==> match read_varint(data, p) {
            Err(e) => next_field(data, pos) == Err::<(ProtoField, int), Seq<char>>(e),
            Ok((v, q)) => next_field(data, pos) == Ok::<(ProtoField, int), Seq<char>>(
                (ProtoField { number: key / 8, wire: 0, value: FieldValue::Varint(v) }, q),
            ),
        },
        (key % 8 == 2) ==> match read_bytes(data, p) {
            Err(e) => next_field(data, pos) == Err::<(ProtoField, int), Seq<char>>(e),
            Ok((b, q)) => next_field(data, pos) == Ok::<(ProtoField, int), Seq<char>>(
                (ProtoField { number: key / 8, wire: 2, value: FieldValue::Bytes(b) }, q),
            ),
        },
        match skip_field(data, p, key % 8) {
            Err(e) => next_field(data, pos) is Err && next_field(data, pos)->Err_0 == e,
            Ok(q) => next_field(data, pos) is Ok && next_field(data, pos)->Ok_0.1 == q
                && next_field(data, pos)->Ok_0.0.number == key / 8 && next_field(data, pos)->Ok_0.0.wire
                == key % 8,
        },
{
}

/// Decodes the outer push frame: its log id and its payload.
pub fn decode_douyin_outer_frame(data: &[u8]) -> (r: Result<(u64, Vec<u8>), String>)
    ensures
        match outer_frame_from(data@, 0, 0, Seq::empty()) {
            Ok((log_id, payload)) => r is Ok && r->Ok_0.0 == log_id && r->Ok_0.1@ == payload,
            Err(e) => r is Err && r->Err_0@ == e,
        },
{
    let mut cursor: usize = 0;
    let mut log_id: u64 = 0;
    let mut payload: Vec<u8> = Vec::new();
    while cursor < data.len()
        invariant
            cursor <= data@.len(),
            outer_frame_from(data@, 0, 0, Seq::empty()) == outer_frame_from(
                data@,
                cursor as int,
                log_id,
                payload@,
            ),
        decreases data.len() - cursor,
    {
        let ghost pos = cursor as int;
        proof {
            lemma_next_field_advances(data@, pos);
            lemma_read_varint_advances(data@, pos);
        }
        let key = match read_proto_varint(data, &mut cursor) {
            Ok(key) => key,
            Err(e) => return Err(e),
        };
        let ghost p = cursor as int;
        proof {
            lemma_key_split(key);
            lemma_field_step(data@, pos, key, p);
        }
        let field = key >> 3;
        let wire_type = key & 0x07;
        if field == 3 && wire_type == 0 {
            match read_proto_varint(data, &mut cursor) {
                Ok(v) => log_id = v,
                Err(e) => return Err(e),
            }
        } else if field == 8 && wire_type == 2 {
            match read_proto_bytes(data, &mut cursor) {
                Ok(b) => payload = vstd::slice::slice_to_vec(b),
                Err(e) => return Err(e),
            }
        } else {
            match skip_proto_field(data, &mut cursor, wire_type) {
                Ok(()) => {},
                Err(e) => return Err(e),
            }
        }
    }
    Ok((log_id, payload))
}


/// A `Message` from `pos` on: the last bytes field 1 is the method name
/// and the last bytes field 2 the payload.
pub open spec fn message_from(data: Seq<u8>, pos: int, method: Seq<char>, payload: Seq<u8>) -> Result<
    (Seq<char>, Seq<u8>),
    Seq<char>,
>
    decreases data.len() - pos,
    via message_from_decreases
{
    if pos < 0 || pos >= data.len() {
        Ok((method, payload))
    } else {
        match next_field(data, pos) {
            Err(e) => Err(e),
            Ok((f, q)) => message_from(
                data,
                q,
                if f.number == 1 && f.wire == 2 {
                    utf8_or_empty(field_bytes(f))
                } else {
                    method
                },
                if f.number == 2 && f.wire == 2 {
                    field_bytes(f)
                } else {
                    payload
                },
            ),
        }
    }
}

#[via_fn]
proof fn message_from_decreases(data: Seq<u8>, pos: int, method: Seq<char>, payload: Seq<u8>) {
    lemma_next_field_advances(data, pos);
}

/// Decodes a `Message`: its method name and its payload.
pub fn decode_douyin_message(data: &[u8]) -> (r: Result<(String, Vec<u8>), String>)
    ensures
        match message_from(data@, 0, Seq::empty(), Seq::empty()) {
            Ok((method, payload)) => r is Ok && r->Ok_0.0@ == method && r->Ok_0.1@ == payload,
            Err(e) => r is Err && r->Err_0@ == e,
        },
{
    let mut cursor: usize = 0;
    let mut method = String::new();
    let mut payload: Vec<u8> = Vec::new();
    while cursor < data.len()
        invariant
            cursor <= data@.len(),
            message_from(data@, 0, Seq::empty(), Seq::empty()) == message_from(
                data@,
                cursor as int,
                method@,
                payload@,
            ),
        decreases data.len() - cursor,
    {
        let ghost pos = cursor as int;
        proof {
            lemma_next_field_advances(data@, pos);
            lemma_read_varint_advances(data@, pos);
        }
        let key = match read_proto_varint(data, &mut cursor) {
            Ok(key) => key,
            Err(e) => return Err(e),
        };
        let ghost p = cursor as int;
        proof {
            lemma_key_split(key);
            lemma_field_step(data@, pos, key, p);
        }
        let field = key >> 3;
        let wire_type = key & 0x07;
        if field == 1 && wire_type == 2 {
            match read_proto_bytes(data, &mut cursor) {
                Ok(b) => method = decode_proto_string(b),
                Err(e) => return Err(e),
            }
        } else if field == 2 && wire_type == 2 {
            match read_proto_bytes(data, &mut cursor) {
                Ok(b) => payload = vstd::slice::slice_to_vec(b),
                Err(e) => return Err(e),
            }
        } else {
            match skip_proto_field(data, &mut cursor, wire_type) {
                Ok(()) => {},
                Err(e) => return Err(e),
            }
        }
    }
    Ok((method, payload))
}

/// A `ChatMessage` from `pos` on: the text of the first bytes field 3, or
/// the empty text when there is none. Fields after it are not read.
pub open spec fn chat_content_from(data: Seq<u8>, pos: int) -> Result<Seq<char>, Seq<char>>
    decreases data.len() - pos,
    via chat_content_from_decreases
{
    if pos < 0 || pos >= data.len() {
        Ok(Seq::empty())
    } else {
        match next_field(data, pos) {
            Err(e) => Err(e),
            Ok((f, q)) => if f.number == 3 && f.wire == 2 {
                Ok(utf8_or_empty(field_bytes(f)))
            } else {
                chat_content_from(data, q)
            },
        }
    }
}

#[via_fn]
proof fn chat_content_from_decreases(data: Seq<u8>, pos: int) {
    lemma_next_field_advances(data, pos);
}

/// Decodes the comment text of a `ChatMessage`.
pub fn decode_douyin_chat_content(data: &[u8]) -> (r: Result<String, String>)
    ensures
        match chat_content_from(data@, 0) {
            Ok(text) => r is Ok && r->Ok_0@ == text,
            Err(e) => r is Err && r->Err_0@ == e,
        },
{
    let mut cursor: usize = 0;
    while cursor < data.len()
        invariant
            cursor <= data@.len(),
            chat_content_from(data@, 0) == chat_content_from(data@, cursor as int),
        decreases data.len() - cursor,
    {
        let ghost pos = cursor as int;
        proof {
            lemma_next_field_advances(data@, pos);
            lemma_read_varint_advances(data@, pos);
        }
        let key = match read_proto_varint(data, &mut cursor) {
            Ok(key) => key,
            Err(e) => return Err(e),
        };
        let ghost p = cursor as int;
        proof {
            lemma_key_split(key);
            lemma_field_step(data@, pos, key, p);
        }
        let field = key >> 3;
        let wire_type = key & 0x07;
        if field == 3 && wire_type == 2 {
            match read_proto_bytes(data, &mut cursor) {
                Ok(b) => return Ok(decode_proto_string(b)),
                Err(e) => return Err(e),
            }
        } else {
            match skip_proto_field(data, &mut cursor, wire_type) {
                Ok(()) => {},
                Err(e) => return Err(e),
            }
        }
    }
    Ok(String::new())
}

/// The method name of chat messages.
pub open spec fn chat_method() -> Seq<char> {
    "WebcastChatMessage"@
}

/// What a `Response` yields so far: the comments, the internal extension
/// text and whether an acknowledgement is asked for.
pub struct ResponseState {
    pub comments: Seq<Seq<char>>,
    pub internal_ext: Seq<char>,
    pub need_ack: bool,
}

/// The comments a message adds: the trimmed text of a chat message when it
/// is not empty.
pub open spec fn message_comment(m: Seq<u8>) -> Result<Seq<Seq<char>>, Seq<char>> {
    match message_from(m, 0, Seq::empty(), Seq::empty()) {
        Err(e) => Err(e),
        Ok((method, payload)) => if method == chat_method() {
            match chat_content_from(payload, 0) {
                Err(e) => Err(e),
                Ok(text) => if trim(text).len() > 0 {
                    Ok(seq![trim(text)])
                } else {
                    Ok(Seq::empty())
                },
            }
        } else {
            Ok(Seq::empty())
        },
    }
}

/// A `Response` from `pos` on: bytes fields 1 are messages, bytes field 5
/// the internal extension and varint field 9 the acknowledgement flag.
pub open spec fn response_from(data: Seq<u8>, pos: int, st: ResponseState) -> Result<
    ResponseState,
    Seq<char>,
>
    decreases data.len() - pos,
    via response_from_decreases
{
    if pos < 0 || pos >= data.len() {
        Ok(st)
    } else {
        match next_field(data, pos) {
            Err(e) => Err(e),
            Ok((f, q)) => if f.number == 1 && f.wire == 2 {
                match message_comment(field_bytes(f)) {
                    Err(e) => Err(e),
                    Ok(added) => response_from(
                        data,
                        q,
                        ResponseState { comments: st.comments + added, ..st },
                    ),
                }
            } else if f.number == 5 && f.wire == 2 {
                response_from(
                    data,
                    q,
                    ResponseState { internal_ext: utf8_or_empty(field_bytes(f)), ..st },
                )
            } else if f.number == 9 && f.wire == 0 {
                response_from(data, q, ResponseState { need_ack: field_varint(f) != 0, ..st })
            } else {
                response_from(data, q, st)
            },
        }
    }
}

#[via_fn]
proof fn response_from_decreases(data: Seq<u8>, pos: int, st: ResponseState) {
    lemma_next_field_advances(data, pos);
}

/// A decoded batch of live comments.
pub struct DouyinDanmakuBatch {
    pub comments: Vec<String>,
    pub need_ack: bool,
    pub ack_payload: Vec<u8>,
    pub log_id: u64,
}

impl DouyinDanmakuBatch {
    /// The batch with no comments, no acknowledgement and log id 0.
    pub fn empty() -> (b: DouyinDanmakuBatch)
        ensures
            b.comments@.len() == 0,
            !b.need_ack,
            b.ack_payload@.len() == 0,
            b.log_id == 0,
    {
        DouyinDanmakuBatch {
            comments: Vec::new(),
            need_ack: false,
            ack_payload: Vec::new(),
            log_id: 0,
        }
    }
}

pub open spec fn string_views(v: Seq<String>) -> Seq<Seq<char>> {
    v.map_values(|s: String| s@)
}

pub open spec fn empty_response() -> ResponseState {
    ResponseState { comments: Seq::empty(), internal_ext: Seq::empty(), need_ack: false }
}

/// Decodes a `Response`; its acknowledgement payload is the UTF-8 of the
/// internal extension.
pub fn decode_douyin_response(data: &[u8], log_id: u64) -> (r: Result<DouyinDanmakuBatch, String>)
    ensures
        match response_from(data@, 0, empty_response()) {
            Ok(st) => r is Ok && string_views(r->Ok_0.comments@) == st.comments && r->Ok_0.need_ack
                == st.need_ack && r->Ok_0.ack_payload@ == encode_utf8(st.internal_ext)
                && r->Ok_0.log_id == log_id,
            Err(e) => r is Err && r->Err_0@ == e,
        },
{
    let mut cursor: usize = 0;
    let mut comments: Vec<String> = Vec::new();
    let mut internal_ext = String::new();
    let mut need_ack = false;
    proof {
        assert(string_views(comments@) =~= Seq::<Seq<char>>::empty());
    }
    while cursor < data.len()
        invariant
            cursor <= data@.len(),
            response_from(data@, 0, empty_response()) == response_from(
                data@,
                cursor as int,
                ResponseState {
                    comments: string_views(comments@),
                    internal_ext: internal_ext@,
                    need_ack,
                },
            ),
        decreases data.len() - cursor,
    {
        let ghost pos = cursor as int;
        proof {
            lemma_next_field_advances(data@, pos);
            lemma_read_varint_advances(data@, pos);
        }
        let key = match read_proto_varint(data, &mut cursor) {
            Ok(key) => key,
            Err(e) => return Err(e),
        };
        let ghost p = cursor as int;
        proof {
            lemma_key_split(key);
            lemma_field_step(data@, pos, key, p);
        }
        let field = key >> 3;
        let wire_type = key & 0x07;
        if field == 1 && wire_type == 2 {
            let message = match read_proto_bytes(data, &mut cursor) {
                Ok(b) => b,
                Err(e) => return Err(e),
            };
            let (method, payload) = match decode_douyin_message(message) {
                Ok(pair) => pair,
                Err(e) => return Err(e),
            };
            let method_chars = chars_of(method.as_str());
            if eq_str(method_chars.as_slice(), "WebcastChatMessage") {
                let content = match decode_douyin_chat_content(payload.as_slice()) {
                    Ok(text) => text,
                    Err(e) => return Err(e),
                };
                let trimmed = trim_str(content.as_str());
                if trimmed.len() > 0 {
                    let text = string_from_chars(trimmed.as_slice());
                    let ghost before = comments@;
                    comments.push(text);
                    proof {
                        assert(string_views(comments@) =~= string_views(before) + seq![
                            trimmed@,
                        ]);
                    }
                } else {
                    proof {
                        assert(string_views(comments@) =~= string_views(comments@)
                            + Seq::<Seq<char>>::empty());
                    }
                }
            } else {
                proof {
                    assert(string_views(comments@) =~= string_views(comments@) + Seq::<
                        Seq<char>,
                    >::empty());
                }
            }
        } else if field == 5 && wire_type == 2 {
            match read_proto_bytes(data, &mut cursor) {
                Ok(b) => internal_ext = decode_proto_string(b),
                Err(e) => return Err(e),
            }
        } else if field == 9 && wire_type == 0 {
            match read_proto_varint(data, &mut cursor) {
                Ok(v) => need_ack = v != 0,
                Err(e) => return Err(e),
            }
        } else {
            match skip_proto_field(data, &mut cursor, wire_type) {
                Ok(()) => {},
                Err(e) => return Err(e),
            }
        }
    }
    let ack_payload = vstd::slice::slice_to_vec(internal_ext.as_str().as_bytes());
    Ok(DouyinDanmakuBatch { comments, need_ack, ack_payload, log_id })
}

/// What a binary live-comment frame decodes to: the outer frame gives the
/// log id and payload; a gzip payload is inflated, any other is used as it
/// is; an empty payload gives the empty batch.
pub open spec fn danmaku_payload(payload: Seq<u8>) -> Seq<u8> {
    match gzip_decompress(payload) {
        Some(d) => d,
        None => payload,
    }
}

/// Decodes one binary frame of the Douyin live-comment socket.
pub fn decode_douyin_danmaku_batch(data: &[u8]) -> (r: Result<DouyinDanmakuBatch, String>)
    ensures
        match outer_frame_from(data@, 0, 0, Seq::empty()) {
            Err(e) => r is Err && r->Err_0@ == e,
            Ok((log_id, payload)) => if payload.len() == 0 {
                r is Ok && r->Ok_0.comments@.len() == 0 && !r->Ok_0.need_ack
                    && r->Ok_0.ack_payload@.len() == 0 && r->Ok_0.log_id == 0
            } else {
                match response_from(danmaku_payload(payload), 0, empty_response()) {
                    Ok(st) => r is Ok && string_views(r->Ok_0.comments@) == st.comments
                        && r->Ok_0.need_ack == st.need_ack && r->Ok_0.ack_payload@ == encode_utf8(
                        st.internal_ext,
                    ) && r->Ok_0.log_id == log_id,
                    Err(e) => r is Err && r->Err_0@ == e,
                }
            },
        },
{
    let (log_id, payload) = match decode_douyin_outer_frame(data) {
        Ok(pair) => pair,
        Err(e) => return Err(e),
    };
    if payload.len() == 0 {
        return Ok(DouyinDanmakuBatch::empty());
    }
    let decoded = match gunzip(payload.as_slice()) {
        Some(d) => d,
        None => payload,
    };
    decode_douyin_response(decoded.as_slice(), log_id)
}


// ---------------------------------------------------------------------------
// Writing frames
// ---------------------------------------------------------------------------
/// The key of a field: its number shifted left by three bits (within 64
/// bits) with the wire type in the low bits.
pub open spec fn field_key(field: u64, wire: u64) -> nat {
    (((field as nat * 8) % two_to_64()) + wire) as nat
}

/// A bytes field: key, length, then the bytes.
pub open spec fn bytes_field(field: u64, bytes: Seq<u8>) -> Seq<u8> {
    varint_encode(field_key(field, 2)) + varint_encode(bytes.len()) + bytes
}

/// A varint field: key, then the value.
pub open spec fn varint_field(field: u64, value: u64) -> Seq<u8> {
    varint_encode(field_key(field, 0)) + varint_encode(value as nat)
}

proof fn lemma_key_value(field: u64, wire: u64)
    requires
        wire < 8,
    ensures
        ((field << 3) | wire) as nat == field_key(field, wire),
{
    assert((field << 3) | wire == (field << 3) + wire) by (bit_vector)
        requires
            wire < 8,
    ;
    assert((field << 3) as nat == (field as nat * 8) % two_to_64()) by (bit_vector);
}

/// Appends a bytes field.
pub fn write_proto_bytes_field(field: u64, bytes: &[u8], output: &mut Vec<u8>)
    ensures
        final(output)@ == old(output)@ + bytes_field(field, bytes@),
{
    proof {
        lemma_key_value(field, 2);
    }
    write_proto_varint((field << 3) | 2, output);
    write_proto_varint(bytes.len() as u64, output);
    let ghost before = output@;
    output.extend_from_slice(bytes);
    proof {
        assert(output@ =~= before + bytes@);
    }
}

/// Appends a bytes field holding the UTF-8 of a string.
pub fn write_proto_string_field(field: u64, value: &str, output: &mut Vec<u8>)
    ensures
        final(output)@ == old(output)@ + bytes_field(field, encode_utf8(value@)),
{
    write_proto_bytes_field(field, value.as_bytes(), output);
}

/// Appends a varint field.
pub fn write_proto_varint_field(field: u64, value: u64, output: &mut Vec<u8>)
    ensures
        final(output)@ == old(output)@ + varint_field(field, value),
{
    proof {
        lemma_key_value(field, 0);
        assert(((field << 3) | 0) == field << 3) by (bit_vector);
    }
    write_proto_varint(field << 3, output);
    write_proto_varint(value, output);
}

/// The push frame sent to the socket: log id as field 2 when it is not
/// zero, payload type as field 7, payload as field 8 when it is not empty.
pub open spec fn push_frame(payload_type: Seq<char>, log_id: u64, payload: Seq<u8>) -> Seq<u8> {
    (if log_id > 0 {
        varint_field(2, log_id)
    } else {
        Seq::empty()
    }) + bytes_field(7, encode_utf8(payload_type)) + (if payload.len() > 0 {
        bytes_field(8, payload)
    } else {
        Seq::empty()
    })
}

/// Encodes a push frame (a heartbeat or an acknowledgement).
pub fn encode_douyin_push_frame(payload_type: &str, log_id: u64, payload: &[u8]) -> (out: Vec<u8>)
    ensures
        out@ == push_frame(payload_type@, log_id, payload@),
{
    let mut output: Vec<u8> = Vec::new();
    if log_id > 0 {
        write_proto_varint_field(2, log_id, &mut output);
    }
    write_proto_string_field(7, payload_type, &mut output);
    if payload.len() > 0 {
        write_proto_bytes_field(8, payload, &mut output);
    }
    proof {
        assert(output@ =~= push_frame(payload_type@, log_id, payload@));
    }
    output
}


// ---------------------------------------------------------------------------
// The law: a written push frame reads back through the outer-frame decoder
// ---------------------------------------------------------------------------
proof fn lemma_read_varint_at(data: Seq<u8>, pos: int, v: u64)
    requires
        0 <= pos,
        pos + varint_encode(v as nat).len() <= data.len(),
        data.subrange(pos, pos + varint_encode(v as nat).len()) == varint_encode(v as nat),
    ensures
        read_varint(data, pos) == Ok::<(u64, int), Seq<char>>(
            (v, pos + varint_encode(v as nat).len()),
        ),
{
    lemma_weight_values();
    lemma_varint_scan_encoded(data, pos, 0, v as nat);
    lemma_varint_encode_value(v as nat);
}

proof fn lemma_subrange_concat3(a: Seq<u8>, b: Seq<u8>, c: Seq<u8>, d: Seq<u8>, pos: int)
    requires
        0 <= pos,
        pos + a.len() + b.len() + c.len() <= d.len(),
        d.subrange(pos, pos + a.len() + b.len() + c.len()) == a + b + c,
    ensures
        d.subrange(pos, pos + a.len()) == a,
        d.subrange(pos + a.len(), pos + a.len() + b.len()) == b,
        d.subrange(pos + a.len() + b.len(), pos + a.len() + b.len() + c.len()) == c,
{
    let la = a.len() as int;
    let lb = b.len() as int;
    let lc = c.len() as int;
    let w = d.subrange(pos, pos + la + lb + lc);
    assert(d.subrange(pos, pos + la) =~= w.subrange(0, la));
    assert((a + b + c).subrange(0, la) =~= a);
    assert(d.subrange(pos + la, pos + la + lb) =~= w.subrange(la, la + lb));
    assert((a + b + c).subrange(la, la + lb) =~= b);
    assert(d.subrange(pos + la + lb, pos + la + lb + lc) =~= w.subrange(la + lb, la + lb + lc));
    assert((a + b + c).subrange(la + lb, la + lb + lc) =~= c);
}

proof fn lemma_key_parts(field: u64, wire: u64)
    requires
        field < 0x2000_0000_0000_0000,
        wire < 8,
    ensures
        field_key(field, wire) < two_to_64(),
        (field_key(field, wire) as u64) / 8 == field,
        (field_key(field, wire) as u64) % 8 == wire,
{
    assert((field as nat * 8) % two_to_64() == field as nat * 8);
}

proof fn lemma_next_field_varint(data: Seq<u8>, pos: int, field: u64, v: u64)
    requires
        0 <= pos,
        field < 0x2000_0000_0000_0000,
        pos + varint_field(field, v).len() <= data.len(),
        data.subrange(pos, pos + varint_field(field, v).len()) == varint_field(field, v),
    ensures
        next_field(data, pos) == Ok::<(ProtoField, int), Seq<char>>(
            (
                ProtoField { number: field, wire: 0, value: FieldValue::Varint(v) },
                pos + varint_field(field, v).len(),
            ),
        ),
{
    lemma_key_parts(field, 0);
    let key = field_key(field, 0) as u64;
    let a = varint_encode(key as nat);
    let b = varint_encode(v as nat);
    lemma_subrange_concat3(a, b, Seq::empty(), data, pos);
    lemma_read_varint_at(data, pos, key);
    lemma_read_varint_at(data, pos + a.len(), v);
}

proof fn lemma_next_field_bytes(data: Seq<u8>, pos: int, field: u64, bytes: Seq<u8>)
    requires
        0 <= pos,
        field < 0x2000_0000_0000_0000,
        bytes.len() < two_to_64(),
        pos + bytes_field(field, bytes).len() <= data.len(),
        data.subrange(pos, pos + bytes_field(field, bytes).len()) == bytes_field(field, bytes),
    ensures
        next_field(data, pos) == Ok::<(ProtoField, int), Seq<char>>(
            (
                ProtoField { number: field, wire: 2, value: FieldValue::Bytes(bytes) },
                pos + bytes_field(field, bytes).len(),
            ),
        ),
{
    lemma_key_parts(field, 2);
    let key = field_key(field, 2) as u64;
    let n = bytes.len() as u64;
    let a = varint_encode(key as nat);
    let b = varint_encode(n as nat);
    lemma_subrange_concat3(a, b, bytes, data, pos);
    lemma_read_varint_at(data, pos, key);
    lemma_read_varint_at(data, pos + a.len(), n);
}

proof fn lemma_outer_frame_at_end(data: Seq<u8>, log_id: u64, payload: Seq<u8>)
    ensures
        outer_frame_from(data, data.len() as int, log_id, payload) == Ok::<
            (u64, Seq<u8>),
            Seq<char>,
        >((log_id, payload)),
{
}

/// Decoding a written push frame as an outer frame gives back its payload;
/// the log id comes back as 0, because the push frame carries it in field 2
/// while the outer decoder takes the log id from field 3.
pub proof fn lemma_push_frame_payload_roundtrip(
    payload_type: Seq<char>,
    log_id: u64,
    payload: Seq<u8>,
)
    requires
        encode_utf8(payload_type).len() < two_to_64(),
        payload.len() < two_to_64(),
    ensures
        outer_frame_from(push_frame(payload_type, log_id, payload), 0, 0, Seq::empty()) == Ok::<
            (u64, Seq<u8>),
            Seq<char>,
        >((0, payload)),
{
    let a: Seq<u8> = if log_id > 0 {
        varint_field(2, log_id)
    } else {
        Seq::empty()
    };
    let t = encode_utf8(payload_type);
    let b = bytes_field(7, t);
    let c: Seq<u8> = if payload.len() > 0 {
        bytes_field(8, payload)
    } else {
        Seq::empty()
    };
    let data = push_frame(payload_type, log_id, payload);
    assert(data =~= a + b + c);
    assert(data.subrange(0, data.len() as int) =~= a + b + c);
    lemma_subrange_concat3(a, b, c, data, 0);
    let p1 = a.len() as int;
    let p2 = p1 + b.len();
    let p3 = p2 + c.len();
    lemma_outer_frame_at_end(data, 0, payload);
    if payload.len() > 0 {
        lemma_next_field_bytes(data, p2, 8, payload);
        assert(outer_frame_from(data, p2, 0, Seq::empty()) == outer_frame_from(
            data,
            p3,
            0,
            payload,
        ));
    } else {
        assert(p3 == p2);
        assert(payload =~= Seq::<u8>::empty());
    }
    lemma_next_field_bytes(data, p1, 7, t);
    assert(outer_frame_from(data, p1, 0, Seq::empty()) == outer_frame_from(
        data,
        p2,
        0,
        Seq::empty(),
    ));
    if log_id > 0 {
        lemma_next_field_varint(data, 0, 2, log_id);
        assert(outer_frame_from(data, 0, 0, Seq::empty()) == outer_frame_from(
            data,
            p1,
            0,
            Seq::empty(),
        ));
    }
}

// ---------------------------------------------------------------------------
// The law: every chat message of a response gives its comment, in order
// ---------------------------------------------------------------------------
/// A `Message` that carries a chat comment: the chat method name as field 1
/// and, as field 2, a `ChatMessage` whose field 3 is the text.
pub open spec fn chat_message_bytes(text: Seq<char>) -> Seq<u8> {
    bytes_field(1, encode_utf8(chat_method())) + bytes_field(2, bytes_field(3, encode_utf8(text)))
}

/// A `Response` made of one message field per text, in order.
pub open spec fn chat_fields(texts: Seq<Seq<char>>) -> Seq<u8>
    decreases texts.len(),
{
    if texts.len() == 0 {
        Seq::empty()
    } else {
        bytes_field(1, chat_message_bytes(texts[0])) + chat_fields(texts.drop_first())
    }
}

/// The texts are chat comments that a response can carry: none is blank,
/// and each fits the length of a field (below 2^32 bytes).
pub open spec fn sendable_comments(texts: Seq<Seq<char>>) -> bool {
    forall|i: int|
        0 <= i < texts.len() ==> trim(#[trigger] texts[i]).len() > 0 && encode_utf8(texts[i]).len()
            < 0x1_0000_0000
}

proof fn lemma_varint_len_bound(v: nat)
    ensures
        1 <= varint_encode(v).len() <= v + 1,
    decreases v,
{
    if v >= 128 {
        lemma_varint_len_bound(v / 128);
    }
}

proof fn lemma_bytes_field_len(field: u64, b: Seq<u8>)
    ensures
        1 <= bytes_field(field, b).len() <= field_key(field, 2) + 2 + 2 * b.len(),
{
    lemma_varint_len_bound(field_key(field, 2));
    lemma_varint_len_bound(b.len());
}

proof fn lemma_chat_method_bytes()
    ensures
        encode_utf8(chat_method()).len() == 18,
{
    reveal_strlit("WebcastChatMessage");
    let m = chat_method();
    assert(m.len() == 18);
    assert(is_ascii_chars(m)) by {
        assert forall|i: int| 0 <= i < m.len() implies '\0' <= #[trigger] m[i] <= '\u{7f}' by {}
    }
    is_ascii_chars_encode_utf8(m);
}

/// The comment a chat message gives is its trimmed text.
proof fn lemma_chat_message_comment(t: Seq<char>)
    requires
        trim(t).len() > 0,
        encode_utf8(t).len() < 0x1_0000_0000,
    ensures
        message_comment(chat_message_bytes(t)) == Ok::<Seq<Seq<char>>, Seq<char>>(seq![trim(t)]),
        chat_message_bytes(t).len() < 0x1_0000_0000_0000,
{
    let e = encode_utf8(chat_method());
    let tb = encode_utf8(t);
    let p = bytes_field(3, tb);
    let a = bytes_field(1, e);
    let b = bytes_field(2, p);
    let m = chat_message_bytes(t);
    lemma_chat_method_bytes();
    lemma_bytes_field_len(1, e);
    lemma_bytes_field_len(2, p);
    lemma_bytes_field_len(3, tb);
    assert(field_key(1, 2) == 10);
    assert(field_key(2, 2) == 18);
    assert(field_key(3, 2) == 26);
    assert(m =~= a + b);
    // the method name
    assert(m.subrange(0, a.len() as int) =~= a);
    lemma_next_field_bytes(m, 0, 1, e);
    encode_utf8_valid_utf8(chat_method());
    encode_utf8_decode_utf8(chat_method());
    assert(utf8_or_empty(e) == chat_method());
    assert(message_from(m, 0, Seq::empty(), Seq::empty()) == message_from(
        m,
        a.len() as int,
        chat_method(),
        Seq::empty(),
    ));
    // the payload
    assert(m.subrange(a.len() as int, (a.len() + b.len()) as int) =~= b);
    lemma_next_field_bytes(m, a.len() as int, 2, p);
    assert(message_from(m, a.len() as int, chat_method(), Seq::empty()) == message_from(
        m,
        m.len() as int,
        chat_method(),
        p,
    ));
    // the text of the chat message
    assert(p.subrange(0, p.len() as int) =~= p);
    lemma_next_field_bytes(p, 0, 3, tb);
    encode_utf8_valid_utf8(t);
    encode_utf8_decode_utf8(t);
    assert(utf8_or_empty(tb) == t);
    assert(chat_content_from(p, 0) == Ok::<Seq<char>, Seq<char>>(t));
}

/// Reading message fields that carry chat texts appends their trimmed
/// texts, in order, to the comments read so far, and changes nothing else.
pub proof fn lemma_chat_fields_append_comments(
    data: Seq<u8>,
    pos: int,
    texts: Seq<Seq<char>>,
    st: ResponseState,
)
    requires
        0 <= pos <= data.len(),
        data.subrange(pos, data.len() as int) == chat_fields(texts),
        sendable_comments(texts),
    ensures
        response_from(data, pos, st) == Ok::<ResponseState, Seq<char>>(
            ResponseState {
                comments: st.comments + texts.map_values(|t: Seq<char>| trim(t)),
                internal_ext: st.internal_ext,
                need_ack: st.need_ack,
            },
        ),
    decreases texts.len(),
{
    if texts.len() == 0 {
        assert(data.subrange(pos, data.len() as int).len() == 0);
        assert(st.comments + texts.map_values(|t: Seq<char>| trim(t)) =~= st.comments);
    } else {
        let t = texts[0];
        let rest = texts.drop_first();
        let msg = chat_message_bytes(t);
        let f = bytes_field(1, msg);
        lemma_chat_message_comment(t);
        lemma_bytes_field_len(1, msg);
        let w = data.subrange(pos, data.len() as int);
        assert(w =~= f + chat_fields(rest));
        assert(data.subrange(pos, pos + f.len()) =~= w.subrange(0, f.len() as int));
        assert(w.subrange(0, f.len() as int) =~= f);
        let q = pos + f.len();
        assert(data.subrange(q, data.len() as int) =~= w.subrange(f.len() as int, w.len() as int));
        assert(w.subrange(f.len() as int, w.len() as int) =~= chat_fields(rest));
        lemma_next_field_bytes(data, pos, 1, msg);
        let st1 = ResponseState { comments: st.comments + seq![trim(t)], ..st };
        assert(response_from(data, pos, st) == response_from(data, q, st1));
        assert forall|i: int| 0 <= i < rest.len() implies trim(#[trigger] rest[i]).len() > 0
            && encode_utf8(rest[i]).len() < 0x1_0000_0000 by {
            assert(rest[i] == texts[i + 1]);
        }
        lemma_chat_fields_append_comments(data, q, rest, st1);
        assert(st1.comments + rest.map_values(|t: Seq<char>| trim(t)) =~= st.comments
            + texts.map_values(|t: Seq<char>| trim(t)));
    }
}

/// A response made of chat messages decodes to their trimmed texts, every
/// one of them, in the order they came, with no acknowledgement asked for.
pub proof fn lemma_chat_comments_in_order(texts: Seq<Seq<char>>)
    requires
        sendable_comments(texts),
    ensures
        response_from(chat_fields(texts), 0, empty_response()) == Ok::<ResponseState, Seq<char>>(
            ResponseState {
                comments: texts.map_values(|t: Seq<char>| trim(t)),
                internal_ext: Seq::empty(),
                need_ack: false,
            },
        ),
{
    let data = chat_fields(texts);
    assert(data.subrange(0, data.len() as int) =~= data);
    lemma_chat_fields_append_comments(data, 0, texts, empty_response());
    assert(Seq::<Seq<char>>::empty() + texts.map_values(|t: Seq<char>| trim(t)) =~= texts.map_values(
        |t: Seq<char>| trim(t),
    ));
}

proof fn lemma_chat_fields_concat(a: Seq<Seq<char>>, b: Seq<Seq<char>>)
    ensures
        chat_fields(a + b) == chat_fields(a) + chat_fields(b),
    decreases a.len(),
{
    if a.len() == 0 {
        assert(a + b =~= b);
        assert(Seq::<u8>::empty() + chat_fields(b) =~= chat_fields(b));
    } else {
        lemma_chat_fields_concat(a.drop_first(), b);
        assert((a + b).drop_first() =~= a.drop_first() + b);
        assert((a + b)[0] == a[0]);
        assert(chat_fields(a + b) =~= chat_fields(a) + chat_fields(b));
    }
}

/// Comments only grow: a response that is one response of chat messages
/// followed by another decodes to the comments of the first, then those of
/// the second.
pub proof fn lemma_chat_comments_concatenate(a: Seq<Seq<char>>, b: Seq<Seq<char>>)
    requires
        sendable_comments(a),
        sendable_comments(b),
    ensures
        response_from(chat_fields(a) + chat_fields(b), 0, empty_response()) matches Ok(st)
            && response_from(chat_fields(a), 0, empty_response()) matches Ok(sa)
            && response_from(chat_fields(b), 0, empty_response()) matches Ok(sb)
            && st.comments == sa.comments + sb.comments,
{
    lemma_chat_fields_concat(a, b);
    assert forall|i: int| 0 <= i < (a + b).len() implies trim(#[trigger] (a + b)[i]).len() > 0
        && encode_utf8((a + b)[i]).len() < 0x1_0000_0000 by {
        if i < a.len() {
            assert((a + b)[i] == a[i]);
        } else {
            assert((a + b)[i] == b[i - a.len()]);
        }
    }
    lemma_chat_comments_in_order(a + b);
    lemma_chat_comments_in_order(a);
    lemma_chat_comments_in_order(b);
    let f = |t: Seq<char>| trim(t);
    assert((a + b).map_values(f) =~= a.map_values(f) + b.map_values(f));
}

} // verus!
