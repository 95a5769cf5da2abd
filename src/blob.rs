use vstd::prelude::*;
use vstd::string::StringExecFns;
use vstd::utf8::{decode_utf8, encode_utf8, encode_utf8_decode_utf8, encode_utf8_valid_utf8, valid_utf8};

use crate::error::DbError;
use crate::value::{Timestamp, Value, ValueModel};

verus! {

/// The four bytes of `x`, least significant first.
pub open spec fn u32_le(x: u32) -> Seq<u8> {
    seq![(x & 0xff) as u8, ((x >> 8u32) & 0xff) as u8, ((x >> 16u32) & 0xff) as u8, ((x >> 24u32) & 0xff) as u8]
}

/// The eight bytes of `x`, least significant first.
pub open spec fn u64_le(x: u64) -> Seq<u8> {
    seq![
        (x & 0xff) as u8,
        ((x >> 8u64) & 0xff) as u8,
        ((x >> 16u64) & 0xff) as u8,
        ((x >> 24u64) & 0xff) as u8,
        ((x >> 32u64) & 0xff) as u8,
        ((x >> 40u64) & 0xff) as u8,
        ((x >> 48u64) & 0xff) as u8,
        ((x >> 56u64) & 0xff) as u8,
    ]
}

/// The number whose four bytes, least significant first, start at `at`.
pub open spec fn u32_at(b: Seq<u8>, at: int) -> u32 {
    (b[at] as u32) | ((b[at + 1] as u32) << 8u32) | ((b[at + 2] as u32) << 16u32) | ((b[at + 3] as u32)
        << 24u32)
}

/// The number whose eight bytes, least significant first, start at `at`.
pub open spec fn u64_at(b: Seq<u8>, at: int) -> u64 {
    (b[at] as u64) | ((b[at + 1] as u64) << 8u64) | ((b[at + 2] as u64) << 16u64) | ((b[at + 3] as u64)
        << 24u64) | ((b[at + 4] as u64) << 32u64) | ((b[at + 5] as u64) << 40u64) | ((b[at + 6] as u64)
        << 48u64) | ((b[at + 7] as u64) << 56u64)
}

/// The self-describing encoding of one element: a tag byte, then the payload.
/// Integers are little-endian; text and bytes carry an eight-byte length first.
pub open spec fn enc_item(v: ValueModel) -> Seq<u8> {
    match v {
        ValueModel::Null => seq![0u8],
        ValueModel::Boolean(b) => seq![1u8, if b { 1u8 } else { 0u8 }],
        ValueModel::Byte(x) => seq![2u8, x],
        ValueModel::Int(n) => seq![3u8] + u32_le(n as u32),
        ValueModel::Bigint(n) => seq![4u8] + u64_le(n as u64),
        ValueModel::Float(x) => seq![5u8] + u32_le(x),
        ValueModel::Double(x) => seq![6u8] + u64_le(x),
        ValueModel::Text(s) => seq![7u8] + u64_le(encode_utf8(s).len() as u64) + encode_utf8(s),
        ValueModel::Varchar(s) => seq![8u8] + u64_le(encode_utf8(s).len() as u64) + encode_utf8(s),
        ValueModel::Bytes(b) => seq![9u8] + u64_le(b.len() as u64) + b,
        ValueModel::DateTime(t) => seq![10u8] + u64_le(t.seconds as u64) + u32_le(t.nanos),
        ValueModel::Table(_) => Seq::empty(),
    }
}

/// Whether an element can stand in a sequence blob: any value but a table.
pub open spec fn encodable(v: ValueModel) -> bool {
    match v {
        ValueModel::Table(_) => false,
        ValueModel::Text(s) => encode_utf8(s).len() <= u64::MAX,
        ValueModel::Varchar(s) => encode_utf8(s).len() <= u64::MAX,
        ValueModel::Bytes(b) => b.len() <= u64::MAX,
        _ => true,
    }
}

/// The blob of a sequence: its elements' encodings one after another.
pub open spec fn enc_seq(items: Seq<ValueModel>) -> Seq<u8>
    decreases items.len(),
{
    if items.len() == 0 {
        Seq::empty()
    } else {
        enc_item(items[0]) + enc_seq(items.drop_first())
    }
}

/// The element at the front of `b` and the number of bytes it takes.
pub open spec fn dec_item(b: Seq<u8>) -> Option<(ValueModel, int)> {
    if b.len() == 0 {
        None
    } else if b[0] == 0 {
        Some((ValueModel::Null, 1))
    } else if b[0] == 1 || b[0] == 2 {
        if b.len() >= 2 {
            if b[0] == 1 {
                Some((ValueModel::Boolean(b[1] != 0), 2))
            } else {
                Some((ValueModel::Byte(b[1]), 2))
            }
        } else {
            None
        }
    } else if b[0] == 3 || b[0] == 5 {
        if b.len() >= 5 {
            if b[0] == 3 {
                Some((ValueModel::Int(u32_at(b, 1) as i32), 5))
            } else {
                Some((ValueModel::Float(u32_at(b, 1)), 5))
            }
        } else {
            None
        }
    } else if b[0] == 4 || b[0] == 6 {
        if b.len() >= 9 {
            if b[0] == 4 {
                Some((ValueModel::Bigint(u64_at(b, 1) as i64), 9))
            } else {
                Some((ValueModel::Double(u64_at(b, 1)), 9))
            }
        } else {
            None
        }
    } else if b[0] == 7 || b[0] == 8 || b[0] == 9 {
        if b.len() >= 9 && b.len() - 9 >= u64_at(b, 1) {
            let n = u64_at(b, 1) as int;
            let payload = b.subrange(9, 9 + n);
            if b[0] == 9 {
                Some((ValueModel::Bytes(payload), 9 + n))
            } else if valid_utf8(payload) {
                if b[0] == 7 {
                    Some((ValueModel::Text(decode_utf8(payload)), 9 + n))
                } else {
                    Some((ValueModel::Varchar(decode_utf8(payload)), 9 + n))
                }
            } else {
                None
            }
        } else {
            None
        }
    } else if b[0] == 10 {
        if b.len() >= 13 {
            Some(
                (
                    ValueModel::DateTime(
                        Timestamp { seconds: u64_at(b, 1) as i64, nanos: u32_at(b, 9) },
                    ),
                    13,
                ),
            )
        } else {
            None
        }
    } else {
        None
    }
}

/// The elements that a blob holds, or `None` when it is malformed.
pub open spec fn dec_seq(b: Seq<u8>) -> Option<Seq<ValueModel>>
    decreases b.len(),
{
    if b.len() == 0 {
        Some(Seq::empty())
    } else {
        match dec_item(b) {
            None => None,
            Some(p) => if 0 < p.1 <= b.len() {
                match dec_seq(b.subrange(p.1, b.len() as int)) {
                    None => None,
                    Some(rest) => Some(seq![p.0] + rest),
                }
            } else {
                None
            },
        }
    }
}

proof fn lemma_u32_round_trip(x: u32, b: Seq<u8>, at: int)
    requires
        0 <= at,
        at + 4 <= b.len(),
        b.subrange(at, at + 4) == u32_le(x),
    ensures
        u32_at(b, at) == x,
{
    assert(b[at] == u32_le(x)[0]);
    assert(b[at + 1] == u32_le(x)[1]);
    assert(b[at + 2] == u32_le(x)[2]);
    assert(b[at + 3] == u32_le(x)[3]);
    assert(((x & 0xff) as u8) as u32 | ((((x >> 8u32) & 0xff) as u8) as u32) << 8u32 | ((((x
        >> 16u32) & 0xff) as u8) as u32) << 16u32 | ((((x >> 24u32) & 0xff) as u8) as u32) << 24u32
        == x) by (bit_vector);
}

proof fn lemma_u64_round_trip(x: u64, b: Seq<u8>, at: int)
    requires
        0 <= at,
        at + 8 <= b.len(),
        b.subrange(at, at + 8) == u64_le(x),
    ensures
        u64_at(b, at) == x,
{
    assert(b[at] == u64_le(x)[0]);
    assert(b[at + 1] == u64_le(x)[1]);
    assert(b[at + 2] == u64_le(x)[2]);
    assert(b[at + 3] == u64_le(x)[3]);
    assert(b[at + 4] == u64_le(x)[4]);
    assert(b[at + 5] == u64_le(x)[5]);
    assert(b[at + 6] == u64_le(x)[6]);
    assert(b[at + 7] == u64_le(x)[7]);
    assert(((x & 0xff) as u8) as u64 | ((((x >> 8u64) & 0xff) as u8) as u64) << 8u64 | ((((x
        >> 16u64) & 0xff) as u8) as u64) << 16u64 | ((((x >> 24u64) & 0xff) as u8) as u64) << 24u64
        | ((((x >> 32u64) & 0xff) as u8) as u64) << 32u64 | ((((x >> 40u64) & 0xff) as u8) as u64)
        << 40u64 | ((((x >> 48u64) & 0xff) as u8) as u64) << 48u64 | ((((x >> 56u64) & 0xff) as u8)
        as u64) << 56u64 == x) by (bit_vector);
}

proof fn lemma_i32_cast(n: i32)
    ensures
        ((n as u32) as i32) == n,
{
    assert(((n as u32) as i32) == n) by (bit_vector);
}

proof fn lemma_i64_cast(n: i64)
    ensures
        ((n as u64) as i64) == n,
{
    assert(((n as u64) as i64) == n) by (bit_vector);
}

/// An element's encoding, followed by anything, decodes to that element.
proof fn lemma_item_round_trip(v: ValueModel, rest: Seq<u8>)
    requires
        encodable(v),
    ensures
        dec_item(enc_item(v) + rest) == Some((v, enc_item(v).len() as int)),
{
    let b = enc_item(v) + rest;
    match v {
        ValueModel::Int(n) => {
            assert(b.subrange(1, 5) =~= u32_le(n as u32));
            lemma_u32_round_trip(n as u32, b, 1);
            lemma_i32_cast(n);
        },
        ValueModel::Float(x) => {
            assert(b.subrange(1, 5) =~= u32_le(x));
            lemma_u32_round_trip(x, b, 1);
        },
        ValueModel::Bigint(n) => {
            assert(b.subrange(1, 9) =~= u64_le(n as u64));
            lemma_u64_round_trip(n as u64, b, 1);
            lemma_i64_cast(n);
        },
        ValueModel::Double(x) => {
            assert(b.subrange(1, 9) =~= u64_le(x));
            lemma_u64_round_trip(x, b, 1);
        },
        ValueModel::DateTime(t) => {
            assert(b.subrange(1, 9) =~= u64_le(t.seconds as u64));
            lemma_u64_round_trip(t.seconds as u64, b, 1);
            lemma_i64_cast(t.seconds);
            assert(b.subrange(9, 13) =~= u32_le(t.nanos));
            lemma_u32_round_trip(t.nanos, b, 9);
        },
        ValueModel::Text(s) => {
            let e = encode_utf8(s);
            assert(b.subrange(1, 9) =~= u64_le(e.len() as u64));
            lemma_u64_round_trip(e.len() as u64, b, 1);
            assert(b.subrange(9, 9 + e.len() as int) =~= e);
            encode_utf8_valid_utf8(s);
            encode_utf8_decode_utf8(s);
        },
        ValueModel::Varchar(s) => {
            let e = encode_utf8(s);
            assert(b.subrange(1, 9) =~= u64_le(e.len() as u64));
            lemma_u64_round_trip(e.len() as u64, b, 1);
            assert(b.subrange(9, 9 + e.len() as int) =~= e);
            encode_utf8_valid_utf8(s);
            encode_utf8_decode_utf8(s);
        },
        ValueModel::Bytes(p) => {
            assert(b.subrange(1, 9) =~= u64_le(p.len() as u64));
            lemma_u64_round_trip(p.len() as u64, b, 1);
            assert(b.subrange(9, 9 + p.len() as int) =~= p);
        },
        _ => {},
    }
}

/// Sequence round trip: the blob of any sequence of encodable elements
/// decodes to the same elements, in the same order.
pub proof fn lemma_sequence_round_trip(items: Seq<ValueModel>)
    requires
        forall|i: int| 0 <= i < items.len() ==> encodable(#[trigger] items[i]),
    ensures
        dec_seq(enc_seq(items)) == Some(items),
    decreases items.len(),
{
    if items.len() > 0 {
        let tail = items.drop_first();
        assert forall|i: int| 0 <= i < tail.len() implies encodable(#[trigger] tail[i]) by {
            assert(tail[i] == items[i + 1]);
        }
        lemma_sequence_round_trip(tail);
        let e = enc_item(items[0]);
        let b = enc_seq(items);
        lemma_item_round_trip(items[0], enc_seq(tail));
        assert(e.len() > 0);
        assert(b.subrange(e.len() as int, b.len() as int) =~= enc_seq(tail));
        assert(seq![items[0]] + tail =~= items);
    } else {
        assert(enc_seq(items) =~= Seq::<u8>::empty());
    }
}

/// Appending an element appends its encoding to the blob.
proof fn lemma_enc_seq_push(items: Seq<ValueModel>, v: ValueModel)
    ensures
        enc_seq(items.push(v)) == enc_seq(items) + enc_item(v),
    decreases items.len(),
{
    if items.len() == 0 {
        assert(items.push(v).drop_first() =~= Seq::<ValueModel>::empty());
        assert(enc_seq(Seq::<ValueModel>::empty()) =~= Seq::<u8>::empty());
        assert(enc_seq(items.push(v)) =~= enc_item(v) + enc_seq(Seq::<ValueModel>::empty()));
        assert(enc_seq(items.push(v)) =~= enc_item(v));
        assert(enc_seq(items) + enc_item(v) =~= enc_item(v));
    } else {
        lemma_enc_seq_push(items.drop_first(), v);
        assert(items.push(v).drop_first() =~= items.drop_first().push(v));
        assert(enc_seq(items.push(v)) =~= enc_item(items[0]) + (enc_seq(items.drop_first()) + enc_item(v)));
    }
}

/// The model of each element, in order.
pub open spec fn models(v: Seq<Value>) -> Seq<ValueModel> {
    v.map_values(|x: Value| x@)
}

pub open spec fn prepend(front: Seq<ValueModel>, o: Option<Seq<ValueModel>>) -> Option<Seq<ValueModel>> {
    match o {
        None => None,
        Some(x) => Some(front + x),
    }
}

proof fn lemma_dec_item_bounds(b: Seq<u8>)
    ensures
        dec_item(b) is Some ==> 0 < dec_item(b)->Some_0.1 <= b.len(),
{
}

fn push_u32(out: &mut Vec<u8>, x: u32)
    ensures
        final(out)@ == old(out)@ + u32_le(x),
{
    out.push((x & 0xff) as u8);
    out.push(((x >> 8u32) & 0xff) as u8);
    out.push(((x >> 16u32) & 0xff) as u8);
    out.push(((x >> 24u32) & 0xff) as u8);
    assert(final(out)@ =~= old(out)@ + u32_le(x));
}

fn push_u64(out: &mut Vec<u8>, x: u64)
    ensures
        final(out)@ == old(out)@ + u64_le(x),
{
    out.push((x & 0xff) as u8);
    out.push(((x >> 8u64) & 0xff) as u8);
    out.push(((x >> 16u64) & 0xff) as u8);
    out.push(((x >> 24u64) & 0xff) as u8);
    out.push(((x >> 32u64) & 0xff) as u8);
    out.push(((x >> 40u64) & 0xff) as u8);
    out.push(((x >> 48u64) & 0xff) as u8);
    out.push(((x >> 56u64) & 0xff) as u8);
    assert(final(out)@ =~= old(out)@ + u64_le(x));
}

fn push_all(out: &mut Vec<u8>, b: &[u8])
    ensures
        final(out)@ == old(out)@ + b@,
{
    let mut i: usize = 0;
    while i < b.len()
        invariant
            i <= b@.len(),
            out@ == old(out)@ + b@.take(i as int),
        decreases b@.len() - i,
    {
        out.push(b[i]);
        i = i + 1;
        assert(out@ =~= old(out)@ + b@.take(i as int));
    }
    assert(b@.take(b@.len() as int) =~= b@);
}

fn read_u32(b: &Vec<u8>, at: usize) -> (r: u32)
    requires
        at + 4 <= b@.len(),
    ensures
        r == u32_at(b@, at as int),
{
    let _len = b.len();
    (b[at] as u32) | ((b[at + 1] as u32) << 8u32) | ((b[at + 2] as u32) << 16u32) | ((b[at + 3] as u32)
        << 24u32)
}

fn read_u64(b: &Vec<u8>, at: usize) -> (r: u64)
    requires
        at + 8 <= b@.len(),
    ensures
        r == u64_at(b@, at as int),
{
    let _len = b.len();
    (b[at] as u64) | ((b[at + 1] as u64) << 8u64) | ((b[at + 2] as u64) << 16u64) | ((b[at + 3] as u64)
        << 24u64) | ((b[at + 4] as u64) << 32u64) | ((b[at + 5] as u64) << 40u64) | ((b[at + 6] as u64)
        << 48u64) | ((b[at + 7] as u64) << 56u64)
}

/// Relies on `String::from_utf8`: it succeeds exactly on valid UTF-8, and the
/// string then holds the characters that the bytes encode.
#[verifier::external_body]
fn string_from_utf8(bytes: Vec<u8>) -> (r: Option<String>)
    ensures
        r is Some <==> valid_utf8(bytes@),
        r is Some ==> r->Some_0@ == decode_utf8(bytes@),
{
    String::from_utf8(bytes).ok()
}

/// Appends the element's encoding; returns false, for a table, instead.
fn encode_value(v: &Value, out: &mut Vec<u8>) -> (ok: bool)
    ensures
        ok == !(v@ is Table),
        ok ==> encodable(v@),
        ok ==> final(out)@ == old(out)@ + enc_item(v@),
{
    match v {
        Value::Table(_) => false,
        Value::Null => {
            out.push(0u8);
            true
        },
        Value::Boolean(b) => {
            out.push(1u8);
            out.push(if *b { 1u8 } else { 0u8 });
            assert(final(out)@ =~= old(out)@ + enc_item(v@));
            true
        },
        Value::Byte(x) => {
            out.push(2u8);
            out.push(*x);
            assert(final(out)@ =~= old(out)@ + enc_item(v@));
            true
        },
        Value::Int(n) => {
            out.push(3u8);
            push_u32(out, *n as u32);
            assert(final(out)@ =~= old(out)@ + enc_item(v@));
            true
        },
        Value::Bigint(n) => {
            out.push(4u8);
            push_u64(out, *n as u64);
            assert(final(out)@ =~= old(out)@ + enc_item(v@));
            true
        },
        Value::Float(x) => {
            out.push(5u8);
            push_u32(out, *x);
            assert(final(out)@ =~= old(out)@ + enc_item(v@));
            true
        },
        Value::Double(x) => {
            out.push(6u8);
            push_u64(out, *x);
            assert(final(out)@ =~= old(out)@ + enc_item(v@));
            true
        },
        Value::Text(s) => {
            let bytes = s.as_str().as_bytes();
            out.push(7u8);
            push_u64(out, bytes.len() as u64);
            push_all(out, bytes);
            assert(final(out)@ =~= old(out)@ + enc_item(v@));
            true
        },
        Value::Varchar(s) => {
            let bytes = s.as_str().as_bytes();
            out.push(8u8);
            push_u64(out, bytes.len() as u64);
            push_all(out, bytes);
            assert(final(out)@ =~= old(out)@ + enc_item(v@));
            true
        },
        Value::Bytes(b) => {
            out.push(9u8);
            push_u64(out, b.len() as u64);
            push_all(out, b.as_slice());
            assert(final(out)@ =~= old(out)@ + enc_item(v@));
            true
        },
        Value::DateTime(t) => {
            out.push(10u8);
            push_u64(out, t.seconds as u64);
            push_u32(out, t.nanos);
            assert(final(out)@ =~= old(out)@ + enc_item(v@));
            true
        },
    }
}

/// The element that starts at `pos` and the position just after it.
fn decode_at(b: &Vec<u8>, pos: usize) -> (r: Option<(Value, usize)>)
    requires
        pos < b@.len(),
    ensures
        dec_item(b@.subrange(pos as int, b@.len() as int)) is None ==> r is None,
        dec_item(b@.subrange(pos as int, b@.len() as int)) matches Some(p) ==> {
            &&& r is Some
            &&& r->Some_0.0@ == p.0
            &&& r->Some_0.1 == pos + p.1
        },
{
    let ghost sub = b@.subrange(pos as int, b@.len() as int);
    let rem = b.len() - pos;
    let tag = b[pos];
    assert(sub[0] == tag);
    if tag == 0 {
        Some((Value::Null, pos + 1))
    } else if tag == 1 || tag == 2 {
        if rem >= 2 {
            assert(sub[1] == b@[pos + 1]);
            if tag == 1 {
                Some((Value::Boolean(b[pos + 1] != 0), pos + 2))
            } else {
                Some((Value::Byte(b[pos + 1]), pos + 2))
            }
        } else {
            None
        }
    } else if tag == 3 || tag == 5 {
        if rem >= 5 {
            let x = read_u32(b, pos + 1);
            assert(u32_at(sub, 1) == x);
            if tag == 3 {
                Some((Value::Int(#[verifier::truncate] (x as i32)), pos + 5))
            } else {
                Some((Value::Float(x), pos + 5))
            }
        } else {
            None
        }
    } else if tag == 4 || tag == 6 {
        if rem >= 9 {
            let x = read_u64(b, pos + 1);
            assert(u64_at(sub, 1) == x);
            if tag == 4 {
                Some((Value::Bigint(#[verifier::truncate] (x as i64)), pos + 9))
            } else {
                Some((Value::Double(x), pos + 9))
            }
        } else {
            None
        }
    } else if tag == 7 || tag == 8 || tag == 9 {
        if rem >= 9 {
            let n = read_u64(b, pos + 1);
            assert(u64_at(sub, 1) == n);
            if n <= (rem - 9) as u64 {
                let n = n as usize;
                let total = b.len();
                let mut payload: Vec<u8> = Vec::new();
                let mut i: usize = 0;
                while i < n
                    invariant
                        i <= n,
                        pos + 9 + n <= b@.len(),
                        total == b@.len(),
                        payload@ == b@.subrange(pos + 9, pos + 9 + i),
                    decreases n - i,
                {
                    payload.push(b[pos + 9 + i]);
                    i = i + 1;
                    assert(payload@ =~= b@.subrange(pos + 9, pos + 9 + i));
                }
                assert(payload@ =~= sub.subrange(9, 9 + n as int));
                if tag == 9 {
                    Some((Value::Bytes(payload), pos + 9 + n))
                } else {
                    match string_from_utf8(payload) {
                        None => None,
                        Some(s) => {
                            if tag == 7 {
                                Some((Value::Text(s), pos + 9 + n))
                            } else {
                                Some((Value::Varchar(s), pos + 9 + n))
                            }
                        },
                    }
                }
            } else {
                None
            }
        } else {
            None
        }
    } else if tag == 10 {
        if rem >= 13 {
            let secs = read_u64(b, pos + 1);
            let nanos = read_u32(b, pos + 9);
            assert(u64_at(sub, 1) == secs);
            assert(u32_at(sub, 9) == nanos);
            Some((Value::DateTime(Timestamp { seconds: #[verifier::truncate] (secs as i64), nanos }), pos + 13))
        } else {
            None
        }
    } else {
        None
    }
}

/// Encodes a sequence of values as one `Bytes` value: each element's tag and
/// payload in order. Fails with a conversion error when an element is a table.
/// The layout is this library's own: blobs written in another layout, such as
/// bincode's, do not decode.
pub fn encode_sequence(items: &Vec<Value>) -> (r: Result<Value, DbError>)
    ensures
        r is Ok <==> (forall|i: int| 0 <= i < items@.len() ==> !(#[trigger] items@[i]@ is Table)),
        r is Ok ==> forall|i: int| 0 <= i < items@.len() ==> encodable(#[trigger] items@[i]@),
        r is Ok ==> r->Ok_0@ == ValueModel::Bytes(enc_seq(models(items@))),
        r is Err ==> r->Err_0 is ConversionError,
{
    let mut out: Vec<u8> = Vec::new();
    let mut i: usize = 0;
    while i < items.len()
        invariant
            i <= items@.len(),
            forall|j: int| 0 <= j < i ==> encodable(#[trigger] items@[j]@),
            forall|j: int| 0 <= j < i ==> !(#[trigger] items@[j]@ is Table),
            out@ == enc_seq(models(items@).take(i as int)),
        decreases items@.len() - i,
    {
        let ok = encode_value(&items[i], &mut out);
        if !ok {
            return Err(DbError::ConversionError(String::from_str("a table cannot be an element of a sequence")));
        }
        proof {
            lemma_enc_seq_push(models(items@).take(i as int), items@[i as int]@);
            assert(models(items@).take(i as int).push(items@[i as int]@) =~= models(items@).take(i + 1));
        }
        i = i + 1;
    }
    assert(models(items@).take(items@.len() as int) =~= models(items@));
    Ok(Value::Bytes(out))
}

/// Decodes the elements of a sequence blob. Fails with a conversion error when
/// the value is not `Bytes` or the bytes are not a well-formed blob.
pub fn decode_sequence(v: Value) -> (r: Result<Vec<Value>, DbError>)
    ensures
        !(v is Bytes) ==> r is Err,
        v is Bytes ==> (r is Ok <==> dec_seq(v->Bytes_0@) is Some),
        r is Ok ==> Some(models(r->Ok_0@)) == dec_seq(v->Bytes_0@),
        r is Err ==> r->Err_0 is ConversionError,
{
    match v {
        Value::Bytes(b) => {
            let mut out: Vec<Value> = Vec::new();
            let mut pos: usize = 0;
            assert(b@.subrange(0, b@.len() as int) =~= b@);
            while pos < b.len()
                invariant
                    v == Value::Bytes(b),
                    pos <= b@.len(),
                    dec_seq(b@) == prepend(models(out@), dec_seq(b@.subrange(pos as int, b@.len() as int))),
                decreases b@.len() - pos,
            {
                let ghost sub = b@.subrange(pos as int, b@.len() as int);
                proof {
                    lemma_dec_item_bounds(sub);
                }
                match decode_at(&b, pos) {
                    None => {
                        assert(dec_item(sub) is None);
                        assert(dec_seq(sub) is None);
                        assert(dec_seq(b@) is None);
                        assert(v == Value::Bytes(b));
                        return Err(DbError::ConversionError(String::from_str("malformed sequence blob")));
                    },
                    Some((item, next)) => {
                        let ghost k = next - pos;
                        assert(sub.subrange(k, sub.len() as int) =~= b@.subrange(next as int, b@.len() as int));
                        let ghost before = models(out@);
                        out.push(item);
                        assert(models(out@) =~= before + seq![item@]);
                        proof {
                            match dec_seq(b@.subrange(next as int, b@.len() as int)) {
                                None => {},
                                Some(rest) => {
                                    assert(before + (seq![item@] + rest) =~= (before + seq![item@]) + rest);
                                },
                            }
                        }
                        pos = next;
                    },
                }
            }
            assert(b@.subrange(pos as int, b@.len() as int) =~= Seq::<u8>::empty());
            assert(models(out@) + Seq::<ValueModel>::empty() =~= models(out@));
            Ok(out)
        },
        _ => Err(DbError::ConversionError(String::from_str("Expected Value::Bytes for sequence"))),
    }
}

} // verus!
