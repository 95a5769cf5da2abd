use vstd::prelude::*;
use vstd::string::StringExecFns;

use crate::blob::{dec_seq, decode_sequence, enc_seq, encodable, encode_sequence, lemma_sequence_round_trip, models};
use crate::error::DbError;
use crate::value::{kind_name_of, Timestamp, Value, ValueModel};

verus! {

/// A record type that the data-access layer stores in one table.
///
/// `to_value` pushes the record's fields, in declared order, into a
/// [`TableWriter`]; `from_value` pulls them back by position from a
/// [`TableReader`], with the decoders of this module for each field.
pub trait Entity: Sized {
    // The three spec functions below tie the executable methods to the value
    // tree. Verified code treats them as unknown for a generic entity; the
    // bodies given here are only what a type that does not state its own
    // gets, and nothing verified is derived from them.

    /// The primary-key column, as `primary_key_column` returns it.
    open spec fn key_column() -> Seq<char> {
        Seq::empty()
    }

    /// The value that the record encodes to.
    open spec fn encoded(&self) -> ValueModel {
        ValueModel::Null
    }

    /// The encoding of the record that `v` decodes to, or `None` when `v`
    /// does not decode.
    open spec fn decoded(v: ValueModel) -> Option<ValueModel> {
        None
    }

    /// The table that holds the records.
    fn table_name() -> String;

    /// The primary-key column.
    fn primary_key_column() -> (r: String)
        ensures
            r@ == Self::key_column(),
    ;

    /// The record as a `Table` value, its fields in declared order.
    fn to_value(&self) -> (r: Value)
        ensures
            r@ == self.encoded(),
    ;

    /// The record that a `Table` value holds, or a conversion error.
    fn from_value(v: Value) -> (r: Result<Self, DbError>)
        ensures
            r is Ok <==> Self::decoded(v@) is Some,
            r is Ok ==> Some(r->Ok_0.encoded()) == Self::decoded(v@),
            r is Err ==> r->Err_0 is ConversionError,
    ;
}

/// The message of a conversion error that names the expected and the found kind.
pub open spec fn expected_message(what: Seq<char>, found: ValueModel) -> Seq<char> {
    "Expected "@ + what + " value, found "@ + kind_name_of(found)
}

/// The conversion error that names the expected kind of value and the kind found.
pub(crate) fn expected(what: &str, found: &Value) -> (r: DbError)
    ensures
        r is ConversionError,
        r->ConversionError_0@ == expected_message(what@, found@),
{
    DbError::ConversionError(
        String::from_str("Expected ").concat(what).concat(" value, found ").concat(found.kind_name()),
    )
}

/// The boolean a `Boolean` value holds.
pub fn decode_bool(v: Value) -> (r: Result<bool, DbError>)
    ensures
        r is Ok <==> v is Boolean,
        r is Ok ==> r->Ok_0 == v->Boolean_0,
        r is Err ==> r->Err_0 is ConversionError && r->Err_0->ConversionError_0@ == expected_message(
            "boolean"@,
            v@,
        ),
{
    match v {
        Value::Boolean(b) => Ok(b),
        other => Err(expected("boolean", &other)),
    }
}

/// The number an `Int` value holds.
pub fn decode_i32(v: Value) -> (r: Result<i32, DbError>)
    ensures
        r is Ok <==> v is Int,
        r is Ok ==> r->Ok_0 == v->Int_0,
        r is Err ==> r->Err_0 is ConversionError && r->Err_0->ConversionError_0@ == expected_message(
            "i32"@,
            v@,
        ),
{
    match v {
        Value::Int(n) => Ok(n),
        other => Err(expected("i32", &other)),
    }
}

/// The number a `Bigint` value holds.
pub fn decode_i64(v: Value) -> (r: Result<i64, DbError>)
    ensures
        r is Ok <==> v is Bigint,
        r is Ok ==> r->Ok_0 == v->Bigint_0,
        r is Err ==> r->Err_0 is ConversionError && r->Err_0->ConversionError_0@ == expected_message(
            "i64"@,
            v@,
        ),
{
    match v {
        Value::Bigint(n) => Ok(n),
        other => Err(expected("i64", &other)),
    }
}

/// The byte a `Byte` value holds.
pub fn decode_u8(v: Value) -> (r: Result<u8, DbError>)
    ensures
        r is Ok <==> v is Byte,
        r is Ok ==> r->Ok_0 == v->Byte_0,
        r is Err ==> r->Err_0 is ConversionError && r->Err_0->ConversionError_0@ == expected_message(
            "u8"@,
            v@,
        ),
{
    match v {
        Value::Byte(n) => Ok(n),
        other => Err(expected("u8", &other)),
    }
}

/// The bit pattern of the single-precision number a `Float` value holds.
pub fn decode_f32_bits(v: Value) -> (r: Result<u32, DbError>)
    ensures
        r is Ok <==> v is Float,
        r is Ok ==> r->Ok_0 == v->Float_0,
        r is Err ==> r->Err_0 is ConversionError && r->Err_0->ConversionError_0@ == expected_message(
            "f32"@,
            v@,
        ),
{
    match v {
        Value::Float(n) => Ok(n),
        other => Err(expected("f32", &other)),
    }
}

/// The bit pattern of the double-precision number a `Double` value holds.
pub fn decode_f64_bits(v: Value) -> (r: Result<u64, DbError>)
    ensures
        r is Ok <==> v is Double,
        r is Ok ==> r->Ok_0 == v->Double_0,
        r is Err ==> r->Err_0 is ConversionError && r->Err_0->ConversionError_0@ == expected_message(
            "f64"@,
            v@,
        ),
{
    match v {
        Value::Double(n) => Ok(n),
        other => Err(expected("f64", &other)),
    }
}

/// The string a `Text` value holds.
pub fn decode_string(v: Value) -> (r: Result<String, DbError>)
    ensures
        r is Ok <==> v is Text,
        r is Ok ==> r->Ok_0 == v->Text_0,
        r is Err ==> r->Err_0 is ConversionError && r->Err_0->ConversionError_0@ == expected_message(
            "string"@,
            v@,
        ),
{
    match v {
        Value::Text(s) => Ok(s),
        other => Err(expected("string", &other)),
    }
}

/// The bytes a `Bytes` value holds.
pub fn decode_bytes(v: Value) -> (r: Result<Vec<u8>, DbError>)
    ensures
        r is Ok <==> v is Bytes,
        r is Ok ==> r->Ok_0 == v->Bytes_0,
        r is Err ==> r->Err_0 is ConversionError && r->Err_0->ConversionError_0@ == expected_message(
            "bytes"@,
            v@,
        ),
{
    match v {
        Value::Bytes(b) => Ok(b),
        other => Err(expected("bytes", &other)),
    }
}

/// The point in time a `DateTime` value holds.
pub fn decode_timestamp(v: Value) -> (r: Result<Timestamp, DbError>)
    ensures
        r is Ok <==> v is DateTime,
        r is Ok ==> r->Ok_0 == v->DateTime_0,
        r is Err ==> r->Err_0 is ConversionError && r->Err_0->ConversionError_0@ == expected_message(
            "datetime"@,
            v@,
        ),
{
    match v {
        Value::DateTime(t) => Ok(t),
        other => Err(expected("datetime", &other)),
    }
}

/// An optional field: `Null` stands for an absent value.
pub fn is_absent(v: &Value) -> (r: bool)
    ensures
        r == v is Null,
{
    match v {
        Value::Null => true,
        _ => false,
    }
}

/// The value that stands for an optional field: `Null` for `None`, the inner
/// value itself for `Some`.
pub open spec fn optional_value(o: Option<Value>) -> Value {
    match o {
        None => Value::Null,
        Some(v) => v,
    }
}

/// The optional field that a value stands for: `None` for `Null`, `Some` of
/// any other value.
pub open spec fn optional_of(v: Value) -> Option<Value> {
    if v is Null {
        None
    } else {
        Some(v)
    }
}

/// Encodes an optional field of any shape.
pub fn encode_optional(o: Option<Value>) -> (r: Value)
    ensures
        r == optional_value(o),
{
    match o {
        None => Value::Null,
        Some(v) => v,
    }
}

/// Decodes an optional field of any shape; the inner value is decoded by the
/// caller with the decoder of its own shape.
pub fn decode_optional(v: Value) -> (r: Option<Value>)
    ensures
        r == optional_of(v),
{
    match v {
        Value::Null => None,
        other => Some(other),
    }
}

/// Optional round trip: decoding the encoding of an optional field gives it
/// back, for every inner value that is not itself `Null`.
pub proof fn lemma_optional_round_trip(o: Option<Value>)
    requires
        !(o matches Some(Value::Null)),
    ensures
        optional_of(optional_value(o)) == o,
{
}

/// An optional string: `Null` is `None`, a `Text` value is `Some`.
pub fn decode_optional_string(v: Value) -> (r: Result<Option<String>, DbError>)
    ensures
        r is Ok <==> (v is Null || v is Text),
        r is Ok && v is Null ==> r->Ok_0 is None,
        r is Ok && v is Text ==> r->Ok_0 == Some(v->Text_0),
        r is Err ==> r->Err_0 is ConversionError && r->Err_0->ConversionError_0@ == expected_message(
            "optional string"@,
            v@,
        ),
{
    match v {
        Value::Null => Ok(None),
        Value::Text(s) => Ok(Some(s)),
        other => Err(expected("optional string", &other)),
    }
}

/// An optional 32-bit number: `Null` is `None`, an `Int` value is `Some`.
pub fn decode_optional_i32(v: Value) -> (r: Result<Option<i32>, DbError>)
    ensures
        r is Ok <==> (v is Null || v is Int),
        r is Ok && v is Null ==> r->Ok_0 is None,
        r is Ok && v is Int ==> r->Ok_0 == Some(v->Int_0),
        r is Err ==> r->Err_0 is ConversionError && r->Err_0->ConversionError_0@ == expected_message(
            "optional i32"@,
            v@,
        ),
{
    match v {
        Value::Null => Ok(None),
        Value::Int(n) => Ok(Some(n)),
        other => Err(expected("optional i32", &other)),
    }
}

/// An optional string as a value: `None` is `Null`.
pub fn encode_optional_string(o: Option<String>) -> (r: Value)
    ensures
        o is None ==> r is Null,
        o is Some ==> r == Value::Text(o->Some_0),
{
    match o {
        None => Value::Null,
        Some(s) => Value::Text(s),
    }
}

/// An optional 32-bit number as a value: `None` is `Null`.
pub fn encode_optional_i32(o: Option<i32>) -> (r: Value)
    ensures
        o is None ==> r is Null,
        o is Some ==> r == Value::Int(o->Some_0),
{
    match o {
        None => Value::Null,
        Some(n) => Value::Int(n),
    }
}

/// `Text` elements holding the given strings, in order.
pub open spec fn texts(ss: Seq<Seq<char>>) -> Seq<ValueModel> {
    ss.map_values(|s: Seq<char>| ValueModel::Text(s))
}

pub open spec fn text_models(v: Seq<String>) -> Seq<ValueModel> {
    texts(v.map_values(|s: String| s@))
}

/// A list of strings as one `Bytes` value: the sequence blob of its `Text` elements.
pub fn encode_strings(items: &Vec<String>) -> (r: Value)
    ensures
        r@ == ValueModel::Bytes(enc_seq(text_models(items@))),
{
    let mut vals: Vec<Value> = Vec::new();
    let mut i: usize = 0;
    while i < items.len()
        invariant
            i <= items@.len(),
            models(vals@) == text_models(items@).take(i as int),
        decreases items@.len() - i,
    {
        let t = Value::Text(items[i].clone());
        assert(t@ == ValueModel::Text(items@[i as int]@));
        let ghost before = models(vals@);
        vals.push(t);
        assert(models(vals@) =~= before.push(t@));
        i = i + 1;
        assert(models(vals@) =~= text_models(items@).take(i as int));
    }
    assert(text_models(items@).take(items@.len() as int) =~= text_models(items@));
    proof {
        assert forall|j: int| 0 <= j < vals@.len() implies !(#[trigger] vals@[j]@ is Table) by {
            assert(models(vals@)[j] == vals@[j]@);
        }
    }
    match encode_sequence(&vals) {
        Ok(v) => v,
        Err(_) => Value::Null,
    }
}

/// Whether a blob decoded and every element is `Text`.
pub open spec fn all_texts(o: Option<Seq<ValueModel>>) -> bool {
    &&& o is Some
    &&& forall|i: int| 0 <= i < o->Some_0.len() ==> #[trigger] o->Some_0[i] is Text
}

/// The strings that a sequence blob of `Text` elements holds. Fails with a
/// conversion error when the value is not `Bytes`, the blob is malformed, or an
/// element is not `Text`.
pub fn decode_strings(v: Value) -> (r: Result<Vec<String>, DbError>)
    ensures
        r is Ok <==> (v is Bytes && all_texts(dec_seq(v->Bytes_0@))),
        r is Ok ==> Some(text_models(r->Ok_0@)) == dec_seq(v->Bytes_0@),
        r is Err ==> r->Err_0 is ConversionError,
{
    let ghost bytes = v->Bytes_0@;
    let items = match decode_sequence(v) {
        Ok(items) => items,
        Err(e) => {
            return Err(e);
        },
    };
    let ghost ms = models(items@);
    let total = items.len();
    let mut out: Vec<String> = Vec::new();
    let mut rest = items;
    let mut i: usize = 0;
    while rest.len() > 0
        invariant
            v is Bytes,
            bytes == v->Bytes_0@,
            ms.len() == total,
            dec_seq(bytes) == Some(ms),
            i + rest@.len() == ms.len(),
            models(rest@) == ms.skip(i as int),
            text_models(out@) == ms.take(i as int),
            forall|j: int| 0 <= j < i ==> #[trigger] ms[j] is Text,
        decreases rest@.len(),
    {
        let ghost before = rest@;
        let item = rest.remove(0);
        assert(models(before)[0] == item@);
        assert(models(rest@) =~= models(before).drop_first());
        match item {
            Value::Text(s) => {
                let ghost prev = out@;
                out.push(s);
                assert(text_models(out@) =~= text_models(prev).push(ms[i as int]));
                assert(ms.take(i + 1) =~= ms.take(i as int).push(ms[i as int]));
            },
            other => {
                assert(!(ms[i as int] is Text));
                assert(!all_texts(dec_seq(bytes)));
                return Err(expected("string", &other));
            },
        }
        i = i + 1;
        assert(ms.skip(i as int) =~= ms.skip(i - 1).drop_first());
    }
    assert(ms.take(i as int) =~= ms);
    Ok(out)
}

/// Builds a `Table` value one named field at a time, in declared order.
pub struct TableWriter {
    pub fields: Vec<(String, Value)>,
}

impl TableWriter {
    pub fn new() -> (r: TableWriter)
        ensures
            r.fields@.len() == 0,
    {
        TableWriter { fields: Vec::new() }
    }

    /// Appends the field `name` with its value.
    pub fn field(&mut self, name: &str, value: Value)
        ensures
            final(self).fields@.len() == old(self).fields@.len() + 1,
            final(self).fields@.drop_last() == old(self).fields@,
            final(self).fields@.last().0@ == name@,
            final(self).fields@.last().1 == value,
    {
        self.fields.push((String::from_str(name), value));
        assert(self.fields@.drop_last() =~= old(self).fields@);
    }

    /// The table of the fields written so far.
    pub fn finish(self) -> (r: Value)
        ensures
            r == Value::Table(self.fields),
    {
        Value::Table(self.fields)
    }
}

/// What reading the next field from `remaining` gives: its value and the fields
/// after it, or `None` when no field is left.
pub open spec fn read_next(remaining: Seq<(String, Value)>) -> Option<(Value, Seq<(String, Value)>)> {
    if remaining.len() == 0 {
        None
    } else {
        Some((remaining[0].1, remaining.drop_first()))
    }
}

/// The values of `n` successive reads, and what is left after them.
pub open spec fn read_many(remaining: Seq<(String, Value)>, n: nat) -> Option<(Seq<Value>, Seq<(String, Value)>)>
    decreases n,
{
    if n == 0 {
        Some((Seq::empty(), remaining))
    } else {
        match read_next(remaining) {
            None => None,
            Some(p) => match read_many(p.1, (n - 1) as nat) {
                None => None,
                Some(q) => Some((seq![p.0] + q.0, q.1)),
            },
        }
    }
}

/// Reads the fields of a `Table` value by position, in declared order.
pub struct TableReader {
    pub remaining: Vec<(String, Value)>,
}

impl TableReader {
    /// A reader over a table's fields. Fails with a conversion error when the
    /// value is not a table.
    pub fn open(v: Value) -> (r: Result<TableReader, DbError>)
        ensures
            r is Ok <==> v is Table,
            r is Ok ==> r->Ok_0.remaining == v->Table_0,
            r is Err ==> r->Err_0 is ConversionError && r->Err_0->ConversionError_0@ == expected_message(
            "struct"@,
            v@,
        ),
    {
        match v {
            Value::Table(fs) => Ok(TableReader { remaining: fs }),
            other => Err(expected("struct", &other)),
        }
    }

    /// The value of the next field. Fails with a conversion error, reading
    /// nothing, when every field has been read.
    pub fn next_value(&mut self) -> (r: Result<Value, DbError>)
        ensures
            read_next(old(self).remaining@) is None ==> r is Err && final(self).remaining@ == old(
                self,
            ).remaining@,
            read_next(old(self).remaining@) matches Some(p) ==> r == Ok::<Value, DbError>(p.0)
                && final(self).remaining@ == p.1,
            r is Err ==> r->Err_0 is ConversionError,
    {
        if self.remaining.len() == 0 {
            Err(DbError::ConversionError(String::from_str("the table has fewer fields than the record")))
        } else {
            let (_name, v) = self.remaining.remove(0);
            assert(self.remaining@ =~= old(self).remaining@.drop_first());
            Ok(v)
        }
    }

    /// Succeeds when every field has been read; else a conversion error, since
    /// the table has more fields than the record.
    pub fn finish(&self) -> (r: Result<(), DbError>)
        ensures
            r is Ok <==> self.remaining@.len() == 0,
            r is Err ==> r->Err_0 is ConversionError,
    {
        if self.remaining.len() == 0 {
            Ok(())
        } else {
            Err(DbError::ConversionError(String::from_str("the table has more fields than the record")))
        }
    }
}

pub open spec fn field_values(fs: Seq<(String, Value)>) -> Seq<Value> {
    fs.map_values(|p: (String, Value)| p.1)
}

/// Record round trip: reading back, by position, as many fields as were
/// written gives each written value in order and leaves no field over.
pub proof fn lemma_record_round_trip(fields: Seq<(String, Value)>)
    ensures
        read_many(fields, fields.len()) == Some((field_values(fields), Seq::<(String, Value)>::empty())),
    decreases fields.len(),
{
    if fields.len() == 0 {
        assert(field_values(fields) =~= Seq::<Value>::empty());
        assert(fields =~= Seq::<(String, Value)>::empty());
    } else {
        lemma_record_round_trip(fields.drop_first());
        assert(seq![fields[0].1] + field_values(fields.drop_first()) =~= field_values(fields));
    }
}

/// List round trip: the blob of a list of strings decodes to `Text` elements
/// holding the same strings, in the same order.
pub proof fn lemma_strings_round_trip(ss: Seq<Seq<char>>)
    requires
        forall|i: int| 0 <= i < ss.len() ==> vstd::utf8::encode_utf8(#[trigger] ss[i]).len() <= u64::MAX,
    ensures
        dec_seq(enc_seq(texts(ss))) == Some(texts(ss)),
{
    assert forall|i: int| 0 <= i < texts(ss).len() implies encodable(#[trigger] texts(ss)[i]) by {
        assert(texts(ss)[i] == ValueModel::Text(ss[i]));
    }
    lemma_sequence_round_trip(texts(ss));
}

} // verus!
