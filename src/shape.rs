use vstd::prelude::*;
use vstd::string::StringExecFns;

use crate::blob::{dec_seq, decode_sequence, models};
use crate::error::DbError;
use crate::marshal::expected_message;
use crate::value::{fields_model, lemma_table_model, Value, ValueModel};

verus! {

broadcast use vstd::std_specs::vec::axiom_vec_index_decreases;

/// What a target field expects to find: a scalar kind, an optional value, a
/// sequence blob of elements of one shape, or a record of fields by position.
#[derive(Debug)]
pub enum Shape {
    Boolean,
    Int,
    Bigint,
    Byte,
    Float,
    Double,
    Text,
    Varchar,
    Bytes,
    DateTime,
    Optional(Box<Shape>),
    Sequence(Box<Shape>),
    Record(Vec<Shape>),
}

/// Whether a value has the shape: scalars by variant, `Null` or the inner shape
/// for an optional, a well-formed blob whose elements all have the element
/// shape for a sequence, and a table with one field per shape, position by
/// position, for a record.
pub open spec fn conforms(shape: Shape, v: ValueModel) -> bool
    decreases shape,
{
    match shape {
        Shape::Boolean => v is Boolean,
        Shape::Int => v is Int,
        Shape::Bigint => v is Bigint,
        Shape::Byte => v is Byte,
        Shape::Float => v is Float,
        Shape::Double => v is Double,
        Shape::Text => v is Text,
        Shape::Varchar => v is Varchar,
        Shape::Bytes => v is Bytes,
        Shape::DateTime => v is DateTime,
        Shape::Optional(inner) => v is Null || conforms(*inner, v),
        Shape::Sequence(elem) => {
            &&& v is Bytes
            &&& dec_seq(v->Bytes_0) is Some
            &&& forall|i: int|
                0 <= i < dec_seq(v->Bytes_0)->Some_0.len() ==> conforms(
                    *elem,
                    #[trigger] dec_seq(v->Bytes_0)->Some_0[i],
                )
        },
        Shape::Record(shapes) => {
            &&& v is Table
            &&& v->Table_0.len() == shapes@.len()
            &&& forall|i: int|
                0 <= i < shapes@.len() ==> conforms(#[trigger] shapes@[i], v->Table_0[i].1)
        },
    }
}

/// The name of a shape, as used in conversion messages.
pub open spec fn shape_name(shape: Shape) -> Seq<char> {
    match shape {
        Shape::Boolean => "boolean"@,
        Shape::Int => "i32"@,
        Shape::Bigint => "i64"@,
        Shape::Byte => "u8"@,
        Shape::Float => "f32"@,
        Shape::Double => "f64"@,
        Shape::Text => "string"@,
        Shape::Varchar => "varchar"@,
        Shape::Bytes => "bytes"@,
        Shape::DateTime => "datetime"@,
        Shape::Optional(_) => "optional"@,
        Shape::Sequence(_) => "sequence"@,
        Shape::Record(_) => "struct"@,
    }
}

/// Whether the shape is a single kind of value, with no inner shape.
pub open spec fn is_scalar(shape: Shape) -> bool {
    !(shape is Optional) && !(shape is Sequence) && !(shape is Record)
}

impl Shape {
    /// The name of the shape, as used in conversion messages.
    pub fn name(&self) -> (r: &'static str)
        ensures
            r@ == shape_name(*self),
    {
        match self {
            Shape::Boolean => "boolean",
            Shape::Int => "i32",
            Shape::Bigint => "i64",
            Shape::Byte => "u8",
            Shape::Float => "f32",
            Shape::Double => "f64",
            Shape::Text => "string",
            Shape::Varchar => "varchar",
            Shape::Bytes => "bytes",
            Shape::DateTime => "datetime",
            Shape::Optional(_) => "optional",
            Shape::Sequence(_) => "sequence",
            Shape::Record(_) => "struct",
        }
    }

    /// Checks a value against the shape. Fails with a conversion error naming
    /// the expected and the found kind where they differ, or where a record's
    /// field count or a sequence blob is wrong.
    pub fn check(&self, v: &Value) -> (r: Result<(), DbError>)
        ensures
            r is Ok <==> conforms(*self, v@),
            r is Err ==> r->Err_0 is ConversionError,
            r is Err && (is_scalar(*self) || (*self is Record && !(v@ is Table)))
                ==> r->Err_0->ConversionError_0@ == expected_message(shape_name(*self), v@),
        decreases self,
    {
        let scalar: Option<bool> = match (self, v) {
            (Shape::Boolean, Value::Boolean(_)) => Some(true),
            (Shape::Int, Value::Int(_)) => Some(true),
            (Shape::Bigint, Value::Bigint(_)) => Some(true),
            (Shape::Byte, Value::Byte(_)) => Some(true),
            (Shape::Float, Value::Float(_)) => Some(true),
            (Shape::Double, Value::Double(_)) => Some(true),
            (Shape::Text, Value::Text(_)) => Some(true),
            (Shape::Varchar, Value::Varchar(_)) => Some(true),
            (Shape::Bytes, Value::Bytes(_)) => Some(true),
            (Shape::DateTime, Value::DateTime(_)) => Some(true),
            (Shape::Optional(_), _) => None,
            (Shape::Sequence(_), _) => None,
            (Shape::Record(_), _) => None,
            _ => Some(false),
        };
        match scalar {
            Some(true) => {
                return Ok(());
            },
            Some(false) => {
                return Err(mismatch(self, v));
            },
            None => {},
        }
        match self {
            Shape::Optional(inner) => {
                if let Value::Null = v {
                    Ok(())
                } else {
                    inner.check(v)
                }
            },
            Shape::Sequence(elem) => {
                let items = match decode_sequence(v.duplicate()) {
                    Ok(items) => items,
                    Err(e) => {
                        return Err(e);
                    },
                };
                let ghost ms = models(items@);
                let mut i: usize = 0;
                while i < items.len()
                    invariant
                        *self == Shape::Sequence(*elem),
                        v@ is Bytes,
                        dec_seq(v@->Bytes_0) == Some(ms),
                        ms == models(items@),
                        i <= items@.len(),
                        forall|j: int| 0 <= j < i ==> conforms(**elem, #[trigger] ms[j]),
                    decreases items@.len() - i,
                {
                    proof {
                        assert(decreases_to!(*self => self->Sequence_0));
                    }
                    assert(ms[i as int] == items@[i as int]@);
                    match elem.check(&items[i]) {
                        Ok(()) => {},
                        Err(e) => {
                            assert(dec_seq(v@->Bytes_0)->Some_0[i as int] == ms[i as int]);
                            assert(!conforms(*self, v@));
                            return Err(e);
                        },
                    }
                    i = i + 1;
                }
                Ok(())
            },
            Shape::Record(shapes) => {
                let fields = match v {
                    Value::Table(fs) => fs,
                    _ => {
                        return Err(mismatch(self, v));
                    },
                };
                proof {
                    lemma_table_model(*fields);
                }
                if fields.len() != shapes.len() {
                    return Err(DbError::ConversionError(
                        String::from_str("the table's field count differs from the record's"),
                    ));
                }
                let mut i: usize = 0;
                while i < shapes.len()
                    invariant
                        *self == Shape::Record(*shapes),
                        *v == Value::Table(*fields),
                        v@ == ValueModel::Table(fields_model(fields@)),
                        fields@.len() == shapes@.len(),
                        i <= shapes@.len(),
                        forall|j: int| 0 <= j < i ==> conforms(#[trigger] shapes@[j], v@->Table_0[j].1),
                    decreases shapes@.len() - i,
                {
                    proof {
                        assert(decreases_to!(*self => self->Record_0));
                        assert(decreases_to!(shapes => shapes[i as int]));
                    }
                    assert(v@->Table_0[i as int].1 == fields@[i as int].1@);
                    match shapes[i].check(&fields[i].1) {
                        Ok(()) => {},
                        Err(e) => {
                            return Err(e);
                        },
                    }
                    i = i + 1;
                }
                Ok(())
            },
            _ => Ok(()),
        }
    }
}

/// The conversion error for a value of the wrong kind.
fn mismatch(shape: &Shape, found: &Value) -> (r: DbError)
    ensures
        r is ConversionError,
        r->ConversionError_0@ == expected_message(shape_name(*shape), found@),
{
    DbError::ConversionError(
        String::from_str("Expected ").concat(shape.name()).concat(" value, found ").concat(
            found.kind_name(),
        ),
    )
}

} // verus!
