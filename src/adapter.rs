use vstd::prelude::*;
use vstd::string::StringExecFns;

use crate::error::DbError;
use crate::marshal::Entity;
use crate::placeholder::PlaceholderStyle;
use crate::statement::{
    delete_statement, has_column, lemma_key_value_none, table_fields, find_all_statement, find_by_condition_statement,
    find_by_id_statement, insert_statement, insert_without_statement, update_statement,
};
use crate::value::{lemma_table_model, zip_row, Row, Value, ValueModel};

verus! {

/// A handle on one database, implemented once per product: it runs statements
/// on a pooled connection, or on the reserved one while a transaction is open.
pub trait RelationalDatabase {
    /// How the product writes statement parameters.
    fn placeholder_style(&self) -> PlaceholderStyle;

    fn begin_transaction(&self) -> Result<(), DbError>;

    fn commit(&self) -> Result<(), DbError>;

    fn rollback(&self) -> Result<(), DbError>;

    /// Runs a statement and returns the number of affected rows.
    fn execute(&self, query: &str, params: Vec<Value>) -> Result<u64, DbError>;

    /// Runs a query and returns every row.
    fn query(&self, query: &str, params: Vec<Value>) -> Result<Vec<Row>, DbError>;

    /// Runs a query and returns one of its rows, if it has any (which one is
    /// up to the product's handle).
    fn query_one(&self, query: &str, params: Vec<Value>) -> Result<Option<Row>, DbError>;
}

/// The table value that a row stands for: column `i` paired with value `i`.
pub open spec fn row_table(row: Row) -> ValueModel {
    ValueModel::Table(zip_row(row.column_names(), row.value_models()))
}

/// Whether a row is well-formed and its table decodes to an entity.
pub open spec fn row_decodes<T: Entity>(row: Row) -> bool {
    row.wf() && T::decoded(row_table(row)) is Some
}

/// The entity that a result row holds. Fails with a conversion error when the
/// row has a different number of columns and values, or the entity rejects it.
pub fn row_to_entity<T: Entity>(row: Row) -> (r: Result<T, DbError>)
    ensures
        r is Ok <==> row_decodes::<T>(row),
        r is Ok ==> Some(r->Ok_0.encoded()) == T::decoded(row_table(row)),
        r is Err ==> r->Err_0 is ConversionError,
{
    if row.columns.len() != row.values.len() {
        return Err(DbError::ConversionError(String::from_str("a row has as many values as columns")));
    }
    T::from_value(row.to_table())
}

/// Whether every row is well-formed and decodes.
pub open spec fn all_rows_decode<T: Entity>(rows: Seq<Row>) -> bool {
    forall|i: int| 0 <= i < rows.len() ==> row_decodes::<T>(#[trigger] rows[i])
}

/// Whether each entity is the decoding of the row at its position.
pub open spec fn decodings_of<T: Entity>(rows: Seq<Row>, es: Seq<T>) -> bool {
    &&& es.len() == rows.len()
    &&& forall|i: int|
        0 <= i < rows.len() ==> Some((#[trigger] es[i]).encoded()) == T::decoded(row_table(rows[i]))
}

/// The entities that result rows hold, in order. Succeeds exactly when every
/// row is well-formed and decodes, so a partial list is never returned; the
/// first failure is a conversion error. No rows give an empty list.
pub fn rows_to_entities<T: Entity>(rows: Vec<Row>) -> (r: Result<Vec<T>, DbError>)
    ensures
        r is Ok <==> all_rows_decode::<T>(rows@),
        r is Ok ==> decodings_of(rows@, r->Ok_0@),
        r is Err ==> r->Err_0 is ConversionError,
{
    let n = rows.len();
    let ghost all = rows@;
    let mut rest = rows;
    let mut out: Vec<T> = Vec::new();
    while rest.len() > 0
        invariant
            out@.len() + rest@.len() == n,
            all.len() == n,
            all == rows@,
            rest@ == all.skip(out@.len() as int),
            forall|j: int| 0 <= j < out@.len() ==> row_decodes::<T>(#[trigger] all[j]),
            forall|j: int|
                0 <= j < out@.len() ==> Some((#[trigger] out@[j]).encoded()) == T::decoded(
                    row_table(all[j]),
                ),
        decreases rest@.len(),
    {
        let ghost k = out@.len() as int;
        let ghost before = rest@;
        let row = rest.remove(0);
        assert(all[k] == before[0]);
        match row_to_entity(row) {
            Ok(e) => out.push(e),
            Err(e) => {
                assert(!row_decodes::<T>(all[k]));
                return Err(e);
            },
        }
        assert(rest@ =~= all.skip(out@.len() as int));
    }
    Ok(out)
}

/// What decoding a query's answer gives: a failed query's error unchanged,
/// and otherwise the entities of its rows as `rows_to_entities` states them.
pub open spec fn entities_outcome<T: Entity>(res: Result<Vec<Row>, DbError>, r: Result<Vec<T>, DbError>) -> bool {
    match res {
        Err(e) => r == Err::<Vec<T>, DbError>(e),
        Ok(rows) => {
            &&& r is Ok <==> all_rows_decode::<T>(rows@)
            &&& r is Ok ==> decodings_of(rows@, r->Ok_0@)
            &&& r is Err ==> r->Err_0 is ConversionError
        },
    }
}

/// What decoding a single-row query's answer gives: a failed query's error
/// unchanged, no row as `None`, and otherwise the row's entity.
pub open spec fn entity_outcome<T: Entity>(res: Result<Option<Row>, DbError>, r: Result<Option<T>, DbError>) -> bool {
    match res {
        Err(e) => r == Err::<Option<T>, DbError>(e),
        Ok(None) => r matches Ok(None),
        Ok(Some(row)) => {
            &&& r is Ok <==> row_decodes::<T>(row)
            &&& r is Ok ==> r->Ok_0 is Some && Some(r->Ok_0->Some_0.encoded()) == T::decoded(row_table(row))
            &&& r is Err ==> r->Err_0 is ConversionError
        },
    }
}

/// The entities of a query's answer.
pub fn entities_of<T: Entity>(res: Result<Vec<Row>, DbError>) -> (r: Result<Vec<T>, DbError>)
    ensures
        entities_outcome(res, r),
{
    match res {
        Err(e) => Err(e),
        Ok(rows) => rows_to_entities(rows),
    }
}

/// The entity of a single-row query's answer.
pub fn entity_of<T: Entity>(res: Result<Option<Row>, DbError>) -> (r: Result<Option<T>, DbError>)
    ensures
        entity_outcome(res, r),
{
    match res {
        Err(e) => Err(e),
        Ok(None) => Ok(None),
        Ok(Some(row)) => match row_to_entity(row) {
            Ok(e) => Ok(Some(e)),
            Err(e) => Err(e),
        },
    }
}

/// The error for a record with more fields than a statement can number.
fn too_many_fields() -> (r: DbError)
    ensures
        r is ConversionError,
{
    DbError::ConversionError(String::from_str("the record has too many fields"))
}

/// Entity-shaped CRUD over one database handle: each operation renders its
/// statement with the handle's placeholder style and hands it to the handle.
pub trait Dao<T: Entity> {
    type Database: RelationalDatabase;

    fn database(&self) -> &Self::Database;

    /// `INSERT INTO table VALUES (...)` with the entity's fields in declared
    /// order. An entity that does not encode to a table is a conversion error,
    /// and the handle is not asked.
    fn create(&self, entity: &T) -> (r: Result<u64, DbError>)
        ensures
            !(entity.encoded() is Table) ==> r is Err && r->Err_0 is ConversionError,
    {
        let fields = match table_fields(entity.to_value()) {
            Ok(fs) => fs,
            Err(e) => {
                return Err(e);
            },
        };
        if fields.len() >= usize::MAX - 1 {
            return Err(too_many_fields());
        }
        let style = self.database().placeholder_style();
        let st = insert_statement(T::table_name().as_str(), fields, style);
        self.database().execute(st.sql.as_str(), st.params)
    }

    /// `INSERT INTO table (names) VALUES (...)` without the excluded fields. An
    /// entity that does not encode to a table is a conversion error.
    fn create_without(&self, entity: &T, exclude_fields: Vec<&str>) -> (r: Result<u64, DbError>)
        ensures
            !(entity.encoded() is Table) ==> r is Err && r->Err_0 is ConversionError,
    {
        let fields = match table_fields(entity.to_value()) {
            Ok(fs) => fs,
            Err(e) => {
                return Err(e);
            },
        };
        if fields.len() >= usize::MAX - 1 {
            return Err(too_many_fields());
        }
        let style = self.database().placeholder_style();
        let st = insert_without_statement(T::table_name().as_str(), fields, exclude_fields, style);
        self.database().execute(st.sql.as_str(), st.params)
    }

    /// The entity whose primary key is `id`, if a row has it.
    fn find_by_id(&self, id: Value) -> (r: Result<Option<T>, DbError>)
        ensures
            exists|res: Result<Option<Row>, DbError>| entity_outcome(res, r),
    {
        let style = self.database().placeholder_style();
        let st = find_by_id_statement(T::table_name().as_str(), T::primary_key_column().as_str(), id, style);
        let res = self.database().query_one(st.sql.as_str(), st.params);
        let ghost answer = res;
        let r = entity_of(res);
        assert(entity_outcome(answer, r));
        r
    }

    /// Every entity of the table.
    fn find_all(&self) -> (r: Result<Vec<T>, DbError>)
        ensures
            exists|res: Result<Vec<Row>, DbError>| entities_outcome(res, r),
    {
        let st = find_all_statement(T::table_name().as_str());
        let res = self.database().query(st.sql.as_str(), st.params);
        let ghost answer = res;
        let r = entities_of(res);
        assert(entities_outcome(answer, r));
        r
    }

    /// `UPDATE table SET ... WHERE key = ...` from the entity's fields. An
    /// entity that does not encode to a table with a field named after the
    /// primary-key column is a conversion error, and the handle is not asked.
    fn update(&self, entity: &T) -> (r: Result<u64, DbError>)
        ensures
            !has_column(entity.encoded(), T::key_column()) ==> r is Err && r->Err_0 is ConversionError,
    {
        let v = entity.to_value();
        let ghost vm = v@;
        let fields = match table_fields(v) {
            Ok(fs) => fs,
            Err(e) => {
                return Err(e);
            },
        };
        proof {
            lemma_table_model(fields);
            lemma_key_value_none(fields@, T::key_column());
            if !has_column(vm, T::key_column()) {
                assert forall|i: int| 0 <= i < fields@.len() implies (#[trigger] fields@[i]).0@ != T::key_column() by {
                    assert(vm->Table_0[i].0 == fields@[i].0@);
                }
            }
        }
        if fields.len() >= usize::MAX - 2 {
            return Err(too_many_fields());
        }
        let style = self.database().placeholder_style();
        let key = T::primary_key_column();
        let st = update_statement(T::table_name().as_str(), key.as_str(), fields, style);
        match st {
            Err(e) => Err(e),
            Ok(st) => self.database().execute(st.sql.as_str(), st.params),
        }
    }

    /// `DELETE FROM table WHERE key = ...`.
    fn delete(&self, id: Value) -> Result<u64, DbError> {
        let style = self.database().placeholder_style();
        let st = delete_statement(T::table_name().as_str(), T::primary_key_column().as_str(), id, style);
        self.database().execute(st.sql.as_str(), st.params)
    }

    /// The entities matching every condition fragment, each with its parameter.
    fn find_by_condition(&self, condition: Vec<&str>, params: Vec<Value>) -> (r: Result<Vec<T>, DbError>)
        ensures
            exists|res: Result<Vec<Row>, DbError>| entities_outcome(res, r),
            condition@.len() >= usize::MAX - 1 ==> r is Err && r->Err_0 is ConversionError,
    {
        if condition.len() >= usize::MAX - 1 {
            let r = Err(too_many_fields());
            assert(entities_outcome(Err::<Vec<Row>, DbError>(r->Err_0), r));
            return r;
        }
        let style = self.database().placeholder_style();
        let st = find_by_condition_statement(T::table_name().as_str(), condition, params, style);
        let res = self.database().query(st.sql.as_str(), st.params);
        let ghost answer = res;
        let r = entities_of(res);
        assert(entities_outcome(answer, r));
        r
    }

    fn begin_transaction(&self) -> Result<(), DbError> {
        self.database().begin_transaction()
    }

    fn commit(&self) -> Result<(), DbError> {
        self.database().commit()
    }

    fn rollback(&self) -> Result<(), DbError> {
        self.database().rollback()
    }
}

} // verus!
