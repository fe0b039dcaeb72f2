//! Protocol Buffers wire encoding (proto3) of the fields that the records
//! of this crate carry: fields are written in field-number order and a field
//! that holds its default value (zero, empty) is left out.
use crate::block::Timestamp;
use vstd::prelude::*;
use vstd::utf8::encode_utf8;

verus! {

/// Base-128 varint: seven bits per byte, least significant group first, the
/// high bit set on every byte but the last.
pub open spec fn varint(n: nat) -> Seq<u8>
    decreases n,
{
    if n < 128 {
        seq![n as u8]
    } else {
        seq![(n % 128 + 128) as u8] + varint(n / 128)
    }
}

/// Field key: field number and wire type.
pub open spec fn tag(field: nat, wire: nat) -> Seq<u8> {
    varint(field * 8 + wire)
}

/// An unsigned integer field (`uint32`, `uint64`).
pub open spec fn uint_field(field: nat, v: nat) -> Seq<u8> {
    if v == 0 {
        Seq::empty()
    } else {
        tag(field, 0) + varint(v)
    }
}

/// A signed integer field (`int32`, `int64`): the value as a 64-bit two's
/// complement varint.
pub open spec fn int_field(field: nat, v: int) -> Seq<u8> {
    if v == 0 {
        Seq::empty()
    } else {
        tag(field, 0) + varint((v as u64) as nat)
    }
}

/// A `bytes` field.
pub open spec fn bytes_field(field: nat, b: Seq<u8>) -> Seq<u8> {
    if b.len() == 0 {
        Seq::empty()
    } else {
        tag(field, 2) + varint(b.len()) + b
    }
}

/// A `string` field: its UTF-8 bytes.
pub open spec fn string_field(field: nat, s: Seq<char>) -> Seq<u8> {
    bytes_field(field, encode_utf8(s))
}

/// A present embedded message field, written even when its body is empty.
pub open spec fn message_field(field: nat, body: Seq<u8>) -> Seq<u8> {
    tag(field, 2) + varint(body.len()) + body
}

/// A `google.protobuf.Timestamp` message body.
pub open spec fn timestamp_message(t: Timestamp) -> Seq<u8> {
    int_field(1, t.seconds as int) + int_field(2, t.nanos as int)
}

/// A varint followed by anything determines its number and what follows:
/// the last byte of a varint is the only one below 128.
pub proof fn lemma_varint_prefix(a: nat, b: nat, x: Seq<u8>, y: Seq<u8>)
    requires
        varint(a) + x == varint(b) + y,
    ensures
        a == b,
        x == y,
    decreases a,
{
    let l = varint(a) + x;
    let r = varint(b) + y;
    assert(l[0] == r[0]);
    if a < 128 {
        assert(l[0] == a as u8);
        if b >= 128 {
            assert(r[0] == (b % 128 + 128) as u8);
        }
        assert(b < 128);
        assert(x =~= l.drop_first());
        assert(y =~= r.drop_first());
    } else {
        assert(l[0] == (a % 128 + 128) as u8);
        if b < 128 {
            assert(r[0] == b as u8);
        }
        assert(b >= 128);
        assert(r[0] == (b % 128 + 128) as u8);
        assert(l.drop_first() =~= varint(a / 128) + x);
        assert(r.drop_first() =~= varint(b / 128) + y);
        lemma_varint_prefix(a / 128, b / 128, x, y);
    }
}

/// The key of a field below 16 is one byte, `8 * field + wire`.
pub proof fn lemma_tag_byte(field: nat, wire: nat)
    requires
        field < 16,
        wire < 8,
    ensures
        tag(field, wire) == seq![(field * 8 + wire) as u8],
{
}

/// `s` is empty or starts with the key of a field numbered `field` or more.
pub open spec fn fields_from(s: Seq<u8>, field: nat) -> bool {
    s.len() == 0 || s[0] >= 8 * field
}

/// A field that is empty or starts with the one-byte key of field `field`,
/// followed by fields numbered above it, starts at field `field`; and two
/// such concatenations are equal only if their parts are.
proof fn lemma_keyed_split(
    field: nat,
    wire: nat,
    fa: Seq<u8>,
    fb: Seq<u8>,
    pa: Seq<u8>,
    pb: Seq<u8>,
    x: Seq<u8>,
    y: Seq<u8>,
)
    requires
        1 <= field < 16,
        wire < 8,
        fa.len() == 0 || fa == seq![(field * 8 + wire) as u8] + pa,
        fb.len() == 0 || fb == seq![(field * 8 + wire) as u8] + pb,
        fields_from(x, field + 1),
        fields_from(y, field + 1),
        fa + x == fb + y,
    ensures
        fa.len() == 0 <==> fb.len() == 0,
        fa.len() > 0 ==> pa + x == pb + y,
        fa.len() == 0 ==> x == y,
{
    let l = fa + x;
    let r = fb + y;
    if fa.len() == 0 && fb.len() > 0 {
        assert(l =~= x);
        assert(r[0] == (field * 8 + wire) as u8);
    } else if fa.len() > 0 && fb.len() == 0 {
        assert(r =~= y);
        assert(l[0] == (field * 8 + wire) as u8);
    } else if fa.len() > 0 {
        assert(l.drop_first() =~= pa + x);
        assert(r.drop_first() =~= pb + y);
    } else {
        assert(l =~= x);
        assert(r =~= y);
    }
}

/// A keyed field followed by higher fields starts at its own number.
proof fn lemma_keyed_from(field: nat, wire: nat, f: Seq<u8>, p: Seq<u8>, x: Seq<u8>)
    requires
        field < 16,
        wire < 8,
        f.len() == 0 || f == seq![(field * 8 + wire) as u8] + p,
        fields_from(x, field + 1),
    ensures
        fields_from(f + x, field),
{
    if f.len() == 0 {
        assert(f + x =~= x);
    } else {
        assert((f + x)[0] == (field * 8 + wire) as u8);
    }
}

/// Two `bytes` fields followed by higher fields split apart.
pub proof fn lemma_bytes_field_split(field: nat, a: Seq<u8>, b: Seq<u8>, x: Seq<u8>, y: Seq<u8>)
    requires
        1 <= field < 16,
        fields_from(x, field + 1),
        fields_from(y, field + 1),
        bytes_field(field, a) + x == bytes_field(field, b) + y,
    ensures
        a == b,
        x == y,
{
    lemma_tag_byte(field, 2);
    let pa = varint(a.len()) + a;
    let pb = varint(b.len()) + b;
    assert(a.len() > 0 ==> bytes_field(field, a) =~= seq![(field * 8 + 2) as u8] + pa);
    assert(b.len() > 0 ==> bytes_field(field, b) =~= seq![(field * 8 + 2) as u8] + pb);
    lemma_keyed_split(field, 2, bytes_field(field, a), bytes_field(field, b), pa, pb, x, y);
    if a.len() > 0 {
        assert(pa + x =~= varint(a.len()) + (a + x));
        assert(pb + y =~= varint(b.len()) + (b + y));
        lemma_varint_prefix(a.len(), b.len(), a + x, b + y);
        assert(a =~= (a + x).subrange(0, a.len() as int));
        assert(b =~= (b + y).subrange(0, b.len() as int));
        assert(x =~= (a + x).subrange(a.len() as int, (a + x).len() as int));
        assert(y =~= (b + y).subrange(b.len() as int, (b + y).len() as int));
    } else {
        assert(bytes_field(field, b).len() == 0);
    }
}

/// A `bytes` field followed by higher fields starts at its own number.
pub proof fn lemma_bytes_field_from(field: nat, a: Seq<u8>, x: Seq<u8>)
    requires
        field < 16,
        fields_from(x, field + 1),
    ensures
        fields_from(bytes_field(field, a) + x, field),
{
    lemma_tag_byte(field, 2);
    let pa = varint(a.len()) + a;
    assert(a.len() > 0 ==> bytes_field(field, a) =~= seq![(field * 8 + 2) as u8] + pa);
    lemma_keyed_from(field, 2, bytes_field(field, a), pa, x);
}

/// Two unsigned integer fields followed by higher fields split apart.
pub proof fn lemma_uint_field_split(field: nat, a: nat, b: nat, x: Seq<u8>, y: Seq<u8>)
    requires
        1 <= field < 16,
        fields_from(x, field + 1),
        fields_from(y, field + 1),
        uint_field(field, a) + x == uint_field(field, b) + y,
    ensures
        a == b,
        x == y,
{
    lemma_tag_byte(field, 0);
    assert(a != 0 ==> uint_field(field, a) =~= seq![(field * 8) as u8] + varint(a));
    assert(b != 0 ==> uint_field(field, b) =~= seq![(field * 8) as u8] + varint(b));
    assert(a != 0 ==> uint_field(field, a).len() > 0);
    assert(b != 0 ==> uint_field(field, b).len() > 0);
    lemma_keyed_split(field, 0, uint_field(field, a), uint_field(field, b), varint(a), varint(b), x, y);
    if a != 0 {
        lemma_varint_prefix(a, b, x, y);
    }
}

/// An unsigned integer field followed by higher fields starts at its own
/// number.
pub proof fn lemma_uint_field_from(field: nat, a: nat, x: Seq<u8>)
    requires
        field < 16,
        fields_from(x, field + 1),
    ensures
        fields_from(uint_field(field, a) + x, field),
{
    lemma_tag_byte(field, 0);
    assert(a != 0 ==> uint_field(field, a) =~= seq![(field * 8) as u8] + varint(a));
    lemma_keyed_from(field, 0, uint_field(field, a), varint(a), x);
}

/// Two `string` fields followed by higher fields split apart.
pub proof fn lemma_string_field_split(field: nat, a: Seq<char>, b: Seq<char>, x: Seq<u8>, y: Seq<u8>)
    requires
        1 <= field < 16,
        fields_from(x, field + 1),
        fields_from(y, field + 1),
        string_field(field, a) + x == string_field(field, b) + y,
    ensures
        a == b,
        x == y,
{
    lemma_bytes_field_split(field, encode_utf8(a), encode_utf8(b), x, y);
    vstd::utf8::encode_utf8_decode_utf8(a);
    vstd::utf8::encode_utf8_decode_utf8(b);
}

/// A `string` field followed by higher fields starts at its own number.
pub proof fn lemma_string_field_from(field: nat, a: Seq<char>, x: Seq<u8>)
    requires
        field < 16,
        fields_from(x, field + 1),
    ensures
        fields_from(string_field(field, a) + x, field),
{
    lemma_bytes_field_from(field, encode_utf8(a), x);
}

/// Two embedded message fields followed by higher fields split apart.
pub proof fn lemma_message_field_split(field: nat, a: Seq<u8>, b: Seq<u8>, x: Seq<u8>, y: Seq<u8>)
    requires
        1 <= field < 16,
        message_field(field, a) + x == message_field(field, b) + y,
    ensures
        a == b,
        x == y,
{
    lemma_tag_byte(field, 2);
    let l = message_field(field, a) + x;
    let r = message_field(field, b) + y;
    assert(l.drop_first() =~= varint(a.len()) + (a + x));
    assert(r.drop_first() =~= varint(b.len()) + (b + y));
    lemma_varint_prefix(a.len(), b.len(), a + x, b + y);
    assert(a =~= (a + x).subrange(0, a.len() as int));
    assert(b =~= (b + y).subrange(0, b.len() as int));
    assert(x =~= (a + x).subrange(a.len() as int, (a + x).len() as int));
    assert(y =~= (b + y).subrange(b.len() as int, (b + y).len() as int));
}

/// An embedded message field followed by higher fields starts at its own
/// number.
pub proof fn lemma_message_field_from(field: nat, a: Seq<u8>, x: Seq<u8>)
    requires
        field < 16,
    ensures
        fields_from(message_field(field, a) + x, field),
{
    lemma_tag_byte(field, 2);
    assert((message_field(field, a) + x)[0] == (field * 8 + 2) as u8);
}

proof fn lemma_i64_as_u64_injective(a: i64, b: i64)
    requires
        (a as int) as u64 == (b as int) as u64,
    ensures
        a == b,
{
    assert((a as int) as u64 == a as u64);
    assert((b as int) as u64 == b as u64);
    assert(a as u64 == b as u64 ==> a == b) by (bit_vector);
}

/// Two signed integer fields followed by higher fields split apart.
pub proof fn lemma_int_field_split(field: nat, a: i64, b: i64, x: Seq<u8>, y: Seq<u8>)
    requires
        1 <= field < 16,
        fields_from(x, field + 1),
        fields_from(y, field + 1),
        int_field(field, a as int) + x == int_field(field, b as int) + y,
    ensures
        a == b,
        x == y,
{
    lemma_tag_byte(field, 0);
    let va = ((a as int) as u64) as nat;
    let vb = ((b as int) as u64) as nat;
    assert(a != 0 ==> int_field(field, a as int) =~= seq![(field * 8) as u8] + varint(va));
    assert(b != 0 ==> int_field(field, b as int) =~= seq![(field * 8) as u8] + varint(vb));
    assert(a != 0 ==> int_field(field, a as int).len() > 0);
    assert(b != 0 ==> int_field(field, b as int).len() > 0);
    lemma_keyed_split(
        field,
        0,
        int_field(field, a as int),
        int_field(field, b as int),
        varint(va),
        varint(vb),
        x,
        y,
    );
    if a != 0 {
        lemma_varint_prefix(va, vb, x, y);
        lemma_i64_as_u64_injective(a, b);
    }
}

/// A signed integer field followed by higher fields starts at its own
/// number.
pub proof fn lemma_int_field_from(field: nat, a: int, x: Seq<u8>)
    requires
        field < 16,
        fields_from(x, field + 1),
    ensures
        fields_from(int_field(field, a) + x, field),
{
    lemma_tag_byte(field, 0);
    let va = (a as u64) as nat;
    assert(a != 0 ==> int_field(field, a) =~= seq![(field * 8) as u8] + varint(va));
    lemma_keyed_from(field, 0, int_field(field, a), varint(va), x);
}

/// The encoding of a timestamp determines it.
pub proof fn lemma_timestamp_message_injective(a: Timestamp, b: Timestamp)
    requires
        timestamp_message(a) == timestamp_message(b),
    ensures
        a == b,
{
    let e = Seq::<u8>::empty();
    lemma_int_field_from(2, a.nanos as int, e);
    lemma_int_field_from(2, b.nanos as int, e);
    assert(int_field(2, a.nanos as int) + e =~= int_field(2, a.nanos as int));
    assert(int_field(2, b.nanos as int) + e =~= int_field(2, b.nanos as int));
    lemma_int_field_split(1, a.seconds, b.seconds, int_field(2, a.nanos as int), int_field(2, b.nanos as int));
    lemma_int_field_split(2, a.nanos as i64, b.nanos as i64, e, e);
}

/// Appends the varint of `v`.
pub fn put_varint(buf: &mut Vec<u8>, v: u64)
    ensures
        final(buf)@ == old(buf)@ + varint(v as nat),
{
    let ghost start = buf@;
    let mut x: u64 = v;
    while x >= 128
        invariant
            start + varint(v as nat) == buf@ + varint(x as nat),
        decreases x,
    {
        let ghost before = buf@;
        let b: u8 = (x % 128 + 128) as u8;
        buf.push(b);
        assert(varint(x as nat) == seq![b] + varint((x / 128) as nat));
        assert(before + varint(x as nat) =~= buf@ + varint((x / 128) as nat));
        x = x / 128;
    }
    buf.push(x as u8);
    assert(varint(x as nat) == seq![x as u8]);
    assert(start + varint(v as nat) =~= buf@);
}

/// Appends the bytes of `b`.
pub fn put_bytes(buf: &mut Vec<u8>, b: &[u8])
    ensures
        final(buf)@ == old(buf)@ + b@,
{
    let ghost start = buf@;
    let mut i: usize = 0;
    while i < b.len()
        invariant
            i <= b@.len(),
            buf@ == start + b@.subrange(0, i as int),
        decreases b@.len() - i,
    {
        buf.push(b[i]);
        assert(b@.subrange(0, i + 1) =~= b@.subrange(0, i as int).push(b@[i as int]));
        i = i + 1;
    }
    assert(b@.subrange(0, b@.len() as int) =~= b@);
}

/// Appends a field key.
pub fn put_tag(buf: &mut Vec<u8>, field: u64, wire: u64)
    requires
        field < 64,
        wire < 8,
    ensures
        final(buf)@ == old(buf)@ + tag(field as nat, wire as nat),
{
    put_varint(buf, field * 8 + wire);
}

/// Appends an unsigned integer field.
pub fn put_uint_field(buf: &mut Vec<u8>, field: u64, v: u64)
    requires
        field < 64,
    ensures
        final(buf)@ == old(buf)@ + uint_field(field as nat, v as nat),
{
    if v != 0 {
        let ghost start = buf@;
        put_tag(buf, field, 0);
        put_varint(buf, v);
        assert(buf@ =~= start + uint_field(field as nat, v as nat));
    } else {
        assert(buf@ =~= old(buf)@ + uint_field(field as nat, v as nat));
    }
}

/// Appends an `int64` field.
pub fn put_int64_field(buf: &mut Vec<u8>, field: u64, v: i64)
    requires
        field < 64,
    ensures
        final(buf)@ == old(buf)@ + int_field(field as nat, v as int),
{
    if v != 0 {
        let ghost start = buf@;
        put_tag(buf, field, 0);
        put_varint(buf, v as u64);
        assert(buf@ =~= start + int_field(field as nat, v as int));
    } else {
        assert(buf@ =~= old(buf)@ + int_field(field as nat, v as int));
    }
}

/// Appends an `int32` field.
pub fn put_int32_field(buf: &mut Vec<u8>, field: u64, v: i32)
    requires
        field < 64,
    ensures
        final(buf)@ == old(buf)@ + int_field(field as nat, v as int),
{
    if v != 0 {
        let ghost start = buf@;
        put_tag(buf, field, 0);
        let w: i64 = v as i64;
        put_varint(buf, w as u64);
        assert(buf@ =~= start + int_field(field as nat, v as int));
    } else {
        assert(buf@ =~= old(buf)@ + int_field(field as nat, v as int));
    }
}

/// Appends a `bytes` field.
pub fn put_bytes_field(buf: &mut Vec<u8>, field: u64, b: &[u8])
    requires
        field < 64,
    ensures
        final(buf)@ == old(buf)@ + bytes_field(field as nat, b@),
{
    if b.len() != 0 {
        let ghost start = buf@;
        put_tag(buf, field, 2);
        put_varint(buf, b.len() as u64);
        put_bytes(buf, b);
        assert(buf@ =~= start + bytes_field(field as nat, b@));
    } else {
        assert(buf@ =~= old(buf)@ + bytes_field(field as nat, b@));
    }
}

/// Appends a `string` field.
pub fn put_string_field(buf: &mut Vec<u8>, field: u64, s: &String)
    requires
        field < 64,
    ensures
        final(buf)@ == old(buf)@ + string_field(field as nat, s@),
{
    let b = s.as_str().as_bytes();
    put_bytes_field(buf, field, b);
}

/// Appends an embedded message field with the given body.
pub fn put_message_field(buf: &mut Vec<u8>, field: u64, body: &Vec<u8>)
    requires
        field < 64,
    ensures
        final(buf)@ == old(buf)@ + message_field(field as nat, body@),
{
    let ghost start = buf@;
    put_tag(buf, field, 2);
    put_varint(buf, body.len() as u64);
    put_bytes(buf, body.as_slice());
    assert(buf@ =~= start + message_field(field as nat, body@));
}

/// Encodes a `google.protobuf.Timestamp` message body.
pub fn encode_timestamp(t: Timestamp) -> (r: Vec<u8>)
    ensures
        r@ == timestamp_message(t),
{
    let mut buf: Vec<u8> = Vec::new();
    put_int64_field(&mut buf, 1, t.seconds);
    put_int32_field(&mut buf, 2, t.nanos);
    assert(buf@ =~= timestamp_message(t));
    buf
}

} // verus!
