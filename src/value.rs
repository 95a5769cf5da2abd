use vstd::prelude::*;

verus! {

broadcast use vstd::std_specs::vec::axiom_vec_index_decreases;

/// A point in time, UTC: whole seconds since the Unix epoch, and the
/// nanoseconds past that second (below one billion for a normalised time).
#[derive(Clone, Copy, Debug, PartialEq, Eq, Structural)]
pub struct Timestamp {
    pub seconds: i64,
    pub nanos: u32,
}

/// A dialect-neutral column or field value.
///
/// `Float` and `Double` carry the IEEE-754 bit pattern of the number, so that
/// equality is exact and no floating-point arithmetic is involved.
#[derive(Debug)]
pub enum Value {
    Null,
    Table(Vec<(String, Value)>),
    Int(i32),
    Bigint(i64),
    Float(u32),
    Double(u64),
    Text(String),
    Varchar(String),
    Boolean(bool),
    Byte(u8),
    Bytes(Vec<u8>),
    DateTime(Timestamp),
}

/// The mathematical content of a `Value`.
pub enum ValueModel {
    Null,
    Table(Seq<(Seq<char>, ValueModel)>),
    Int(i32),
    Bigint(i64),
    Float(u32),
    Double(u64),
    Text(Seq<char>),
    Varchar(Seq<char>),
    Boolean(bool),
    Byte(u8),
    Bytes(Seq<u8>),
    DateTime(Timestamp),
}

pub open spec fn field_model(p: (String, Value)) -> (Seq<char>, ValueModel) {
    (p.0@, p.1@)
}

/// The model of a value, field by field.
pub open spec fn model_of(v: Value) -> ValueModel
    decreases v,
{
    match v {
        Value::Null => ValueModel::Null,
        Value::Table(fs) => ValueModel::Table(
            Seq::new(
                fs@.len(),
                |i: int|
                    (
                        fs@[i].0@,
                        if 0 <= i < fs@.len() {
                            model_of(fs@[i].1)
                        } else {
                            ValueModel::Null
                        },
                    ),
            ),
        ),
        Value::Int(n) => ValueModel::Int(n),
        Value::Bigint(n) => ValueModel::Bigint(n),
        Value::Float(b) => ValueModel::Float(b),
        Value::Double(b) => ValueModel::Double(b),
        Value::Text(s) => ValueModel::Text(s@),
        Value::Varchar(s) => ValueModel::Varchar(s@),
        Value::Boolean(b) => ValueModel::Boolean(b),
        Value::Byte(b) => ValueModel::Byte(b),
        Value::Bytes(b) => ValueModel::Bytes(b@),
        Value::DateTime(t) => ValueModel::DateTime(t),
    }
}

impl View for Value {
    type V = ValueModel;

    open spec fn view(&self) -> ValueModel {
        model_of(*self)
    }
}

/// The model of a list of named fields.
pub open spec fn fields_model(fs: Seq<(String, Value)>) -> Seq<(Seq<char>, ValueModel)> {
    Seq::new(fs.len(), |i: int| (fs[i].0@, fs[i].1@))
}

pub proof fn lemma_table_model(fs: Vec<(String, Value)>)
    ensures
        Value::Table(fs)@ == ValueModel::Table(fields_model(fs@)),
{
    assert(Value::Table(fs)@->Table_0 =~= fields_model(fs@));
}

impl Value {
    /// A copy of this value with the same content.
    pub fn duplicate(&self) -> (r: Value)
        ensures
            r@ == self@,
        decreases self,
    {
        match self {
            Value::Null => Value::Null,
            Value::Int(n) => Value::Int(*n),
            Value::Bigint(n) => Value::Bigint(*n),
            Value::Float(b) => Value::Float(*b),
            Value::Double(b) => Value::Double(*b),
            Value::Text(s) => Value::Text(s.clone()),
            Value::Varchar(s) => Value::Varchar(s.clone()),
            Value::Boolean(b) => Value::Boolean(*b),
            Value::Byte(b) => Value::Byte(*b),
            Value::Bytes(b) => Value::Bytes(b.clone()),
            Value::DateTime(t) => Value::DateTime(*t),
            Value::Table(fs) => {
                let mut out: Vec<(String, Value)> = Vec::new();
                let mut i: usize = 0;
                while i < fs.len()
                    invariant
                        i <= fs@.len(),
                        *self == Value::Table(*fs),
                        out@.len() == i,
                        forall|j: int|
                            0 <= j < i ==> #[trigger] field_model(out@[j]) == field_model(fs@[j]),
                    decreases fs@.len() - i,
                {
                    proof {
                        assert(decreases_to!(*self => self->Table_0));
                        assert(decreases_to!(fs => fs[i as int]));
                        assert(decreases_to!(fs[i as int] => fs[i as int].1));
                    }
                    let name = fs[i].0.clone();
                    let v = fs[i].1.duplicate();
                    out.push((name, v));
                    proof {
                        assert(field_model(out@[i as int]) == field_model(fs@[i as int]));
                    }
                    i = i + 1;
                }
                proof {
                    lemma_table_model(out);
                    lemma_table_model(*fs);
                    assert(fields_model(out@) =~= fields_model(fs@)) by {
                        assert forall|j: int| 0 <= j < out@.len() implies fields_model(out@)[j]
                            == fields_model(fs@)[j] by {
                            assert(field_model(out@[j]) == field_model(fs@[j]));
                        }
                    }
                }
                Value::Table(out)
            },
        }
    }

    /// The name of the variant, as used in conversion messages.
    pub fn kind_name(&self) -> (r: &'static str)
        ensures
            r@ == kind_name_of(self@),
    {
        match self {
            Value::Null => "null",
            Value::Table(_) => "table",
            Value::Int(_) => "i32",
            Value::Bigint(_) => "i64",
            Value::Float(_) => "f32",
            Value::Double(_) => "f64",
            Value::Text(_) => "string",
            Value::Varchar(_) => "varchar",
            Value::Boolean(_) => "boolean",
            Value::Byte(_) => "u8",
            Value::Bytes(_) => "bytes",
            Value::DateTime(_) => "datetime",
        }
    }
}

pub open spec fn kind_name_of(v: ValueModel) -> Seq<char> {
    match v {
        ValueModel::Null => "null"@,
        ValueModel::Table(_) => "table"@,
        ValueModel::Int(_) => "i32"@,
        ValueModel::Bigint(_) => "i64"@,
        ValueModel::Float(_) => "f32"@,
        ValueModel::Double(_) => "f64"@,
        ValueModel::Text(_) => "string"@,
        ValueModel::Varchar(_) => "varchar"@,
        ValueModel::Boolean(_) => "boolean"@,
        ValueModel::Byte(_) => "u8"@,
        ValueModel::Bytes(_) => "bytes"@,
        ValueModel::DateTime(_) => "datetime"@,
    }
}

impl Value {
    /// Whether two values have the same content.
    pub fn same(&self, other: &Value) -> (r: bool)
        ensures
            r == (self@ == other@),
        decreases self,
    {
        match (self, other) {
            (Value::Null, Value::Null) => true,
            (Value::Int(a), Value::Int(b)) => *a == *b,
            (Value::Bigint(a), Value::Bigint(b)) => *a == *b,
            (Value::Float(a), Value::Float(b)) => *a == *b,
            (Value::Double(a), Value::Double(b)) => *a == *b,
            (Value::Text(a), Value::Text(b)) => *a == *b,
            (Value::Varchar(a), Value::Varchar(b)) => *a == *b,
            (Value::Boolean(a), Value::Boolean(b)) => *a == *b,
            (Value::Byte(a), Value::Byte(b)) => *a == *b,
            (Value::DateTime(a), Value::DateTime(b)) => *a == *b,
            (Value::Bytes(a), Value::Bytes(b)) => {
                if a.len() != b.len() {
                    assert(self@->Bytes_0.len() != other@->Bytes_0.len());
                    return false;
                }
                let mut i: usize = 0;
                while i < a.len()
                    invariant
                        *self == Value::Bytes(*a),
                        *other == Value::Bytes(*b),
                        i <= a@.len(),
                        a@.len() == b@.len(),
                        forall|j: int| 0 <= j < i ==> a@[j] == b@[j],
                    decreases a@.len() - i,
                {
                    if a[i] != b[i] {
                        assert(a@[i as int] != b@[i as int]);
                        assert(a@ != b@);
                        return false;
                    }
                    i = i + 1;
                }
                assert(a@ =~= b@);
                true
            },
            (Value::Table(a), Value::Table(b)) => {
                proof {
                    lemma_table_model(*a);
                    lemma_table_model(*b);
                }
                if a.len() != b.len() {
                    assert(fields_model(a@).len() != fields_model(b@).len());
                    return false;
                }
                let mut i: usize = 0;
                while i < a.len()
                    invariant
                        *self == Value::Table(*a),
                        *other == Value::Table(*b),
                        self@ == ValueModel::Table(fields_model(a@)),
                        other@ == ValueModel::Table(fields_model(b@)),
                        i <= a@.len(),
                        a@.len() == b@.len(),
                        forall|j: int| 0 <= j < i ==> #[trigger] field_model(a@[j]) == field_model(b@[j]),
                    decreases a@.len() - i,
                {
                    proof {
                        assert(decreases_to!(*self => self->Table_0));
                        assert(decreases_to!(a => a[i as int]));
                        assert(decreases_to!(a[i as int] => a[i as int].1));
                    }
                    let same_name = a[i].0 == b[i].0;
                    if !same_name {
                        assert(fields_model(a@)[i as int] != fields_model(b@)[i as int]);
                        return false;
                    }
                    let same_value = a[i].1.same(&b[i].1);
                    if !same_value {
                        assert(fields_model(a@)[i as int] != fields_model(b@)[i as int]);
                        return false;
                    }
                    i = i + 1;
                }
                assert(fields_model(a@) =~= fields_model(b@)) by {
                    assert forall|j: int| 0 <= j < a@.len() implies fields_model(a@)[j] == fields_model(b@)[j] by {
                        assert(field_model(a@[j]) == field_model(b@[j]));
                    }
                }
                true
            },
            _ => false,
        }
    }
}

impl Clone for Value {
    fn clone(&self) -> (r: Value)
        ensures
            r@ == self@,
    {
        self.duplicate()
    }
}

impl PartialEq for Value {
    fn eq(&self, other: &Value) -> (r: bool) {
        self.same(other)
    }
}

impl vstd::std_specs::cmp::PartialEqSpecImpl for Value {
    open spec fn obeys_eq_spec() -> bool {
        true
    }

    open spec fn eq_spec(&self, other: &Value) -> bool {
        self@ == other@
    }
}

/// A result row: column names and the values in the same positions.
#[derive(Debug)]
pub struct Row {
    pub columns: Vec<String>,
    pub values: Vec<Value>,
}

/// The fields of the table that pairs each column with the value at its position.
pub open spec fn zip_row(columns: Seq<Seq<char>>, values: Seq<ValueModel>) -> Seq<(Seq<char>, ValueModel)> {
    Seq::new(columns.len(), |i: int| (columns[i], values[i]))
}

/// The column names and values of a table's fields, in order.
pub open spec fn split_table(fields: Seq<(Seq<char>, ValueModel)>) -> (Seq<Seq<char>>, Seq<ValueModel>) {
    (fields.map_values(|p: (Seq<char>, ValueModel)| p.0), fields.map_values(|p: (Seq<char>, ValueModel)| p.1))
}

impl Row {
    pub open spec fn wf(&self) -> bool {
        self.columns@.len() == self.values@.len()
    }

    pub open spec fn column_names(&self) -> Seq<Seq<char>> {
        self.columns@.map_values(|s: String| s@)
    }

    pub open spec fn value_models(&self) -> Seq<ValueModel> {
        self.values@.map_values(|v: Value| v@)
    }

    /// The row as a single `Table` value, column `i` paired with value `i`.
    pub fn to_table(&self) -> (r: Value)
        requires
            self.wf(),
        ensures
            r@ == ValueModel::Table(zip_row(self.column_names(), self.value_models())),
    {
        let mut fields: Vec<(String, Value)> = Vec::new();
        let mut i: usize = 0;
        while i < self.columns.len()
            invariant
                self.wf(),
                i <= self.columns@.len(),
                fields@.len() == i,
                forall|j: int|
                    0 <= j < i ==> #[trigger] field_model(fields@[j]) == (
                        self.columns@[j]@,
                        self.values@[j]@,
                    ),
            decreases self.columns@.len() - i,
        {
            fields.push((self.columns[i].clone(), self.values[i].duplicate()));
            i = i + 1;
        }
        proof {
            lemma_table_model(fields);
            assert(fields_model(fields@) =~= zip_row(self.column_names(), self.value_models())) by {
                assert forall|j: int| 0 <= j < fields@.len() implies fields_model(fields@)[j]
                    == zip_row(self.column_names(), self.value_models())[j] by {
                    assert(field_model(fields@[j]) == (self.columns@[j]@, self.values@[j]@));
                }
            }
        }
        Value::Table(fields)
    }

    /// The row whose columns and values are a table's field names and values, in order.
    pub fn from_fields(fields: &Vec<(String, Value)>) -> (r: Row)
        ensures
            r.wf(),
            (r.column_names(), r.value_models()) == split_table(fields_model(fields@)),
    {
        let mut columns: Vec<String> = Vec::new();
        let mut values: Vec<Value> = Vec::new();
        let mut i: usize = 0;
        while i < fields.len()
            invariant
                i <= fields@.len(),
                columns@.len() == i,
                values@.len() == i,
                forall|j: int| 0 <= j < i ==> #[trigger] columns@[j]@ == fields@[j].0@,
                forall|j: int| 0 <= j < i ==> #[trigger] values@[j]@ == fields@[j].1@,
            decreases fields@.len() - i,
        {
            columns.push(fields[i].0.clone());
            values.push(fields[i].1.duplicate());
            i = i + 1;
        }
        let r = Row { columns, values };
        assert(r.column_names() =~= split_table(fields_model(fields@)).0);
        assert(r.value_models() =~= split_table(fields_model(fields@)).1);
        r
    }
}

/// Row fidelity: turning a row into a table and the table back into a row
/// gives the same column names and values, in the same order.
pub proof fn lemma_row_fidelity(columns: Seq<Seq<char>>, values: Seq<ValueModel>)
    requires
        columns.len() == values.len(),
    ensures
        split_table(zip_row(columns, values)) == (columns, values),
{
    assert(split_table(zip_row(columns, values)).0 =~= columns);
    assert(split_table(zip_row(columns, values)).1 =~= values);
}

} // verus!
