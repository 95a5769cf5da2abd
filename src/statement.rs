use vstd::prelude::*;
use vstd::string::StringExecFns;

use crate::builder::{set_clauses_of, with_tokens};
use crate::error::DbError;
use crate::marshal::{expected, expected_message};
use crate::placeholder::{placeholder_run, placeholder_token, strings_model, token, PlaceholderCounter, PlaceholderStyle};
use crate::text::{join, join_spec, str_views, string_views, to_strings};
use crate::value::{Value, ValueModel};

verus! {

/// SQL text and the values of its parameters, in order.
pub struct Statement {
    pub sql: String,
    pub params: Vec<Value>,
}

pub open spec fn names_of(fs: Seq<(String, Value)>) -> Seq<Seq<char>> {
    fs.map_values(|p: (String, Value)| p.0@)
}

pub open spec fn values_of(fs: Seq<(String, Value)>) -> Seq<Value> {
    fs.map_values(|p: (String, Value)| p.1)
}

/// The fields whose name is not the key column, in order.
pub open spec fn non_key_fields(fs: Seq<(String, Value)>, key: Seq<char>) -> Seq<(String, Value)>
    decreases fs.len(),
{
    if fs.len() == 0 {
        Seq::empty()
    } else if fs.last().0@ == key {
        non_key_fields(fs.drop_last(), key)
    } else {
        non_key_fields(fs.drop_last(), key).push(fs.last())
    }
}

/// The value of the last field named `key`, if there is one.
pub open spec fn key_value(fs: Seq<(String, Value)>, key: Seq<char>) -> Option<Value>
    decreases fs.len(),
{
    if fs.len() == 0 {
        None
    } else if fs.last().0@ == key {
        Some(fs.last().1)
    } else {
        key_value(fs.drop_last(), key)
    }
}

/// The fields whose name is not among `excluded`, in order.
pub open spec fn kept_fields(fs: Seq<(String, Value)>, excluded: Seq<Seq<char>>) -> Seq<(String, Value)>
    decreases fs.len(),
{
    if fs.len() == 0 {
        Seq::empty()
    } else if excluded.contains(fs.last().0@) {
        kept_fields(fs.drop_last(), excluded)
    } else {
        kept_fields(fs.drop_last(), excluded).push(fs.last())
    }
}

pub open spec fn insert_sql(table: Seq<char>, n: nat, style: PlaceholderStyle) -> Seq<char> {
    "INSERT INTO "@ + table + " VALUES ("@ + join_spec(placeholder_run(style, 1, n), ", "@) + ")"@
}

pub open spec fn insert_columns_sql(
    table: Seq<char>,
    names: Seq<Seq<char>>,
    style: PlaceholderStyle,
) -> Seq<char> {
    "INSERT INTO "@ + table + " ("@ + join_spec(names, ", "@) + ") VALUES ("@ + join_spec(
        placeholder_run(style, 1, names.len()),
        ", "@,
    ) + ")"@
}

pub open spec fn key_sql(prefix: Seq<char>, table: Seq<char>, key: Seq<char>, style: PlaceholderStyle) -> Seq<char> {
    prefix + table + " WHERE "@ + key + " = "@ + placeholder_token(style, 1)
}

pub open spec fn update_sql(
    table: Seq<char>,
    key: Seq<char>,
    set_names: Seq<Seq<char>>,
    style: PlaceholderStyle,
) -> Seq<char> {
    "UPDATE "@ + table + " SET "@ + join_spec(set_clauses_of(set_names, style), ", "@) + " WHERE "@
        + key + " = "@ + placeholder_token(style, set_names.len() + 1)
}

pub open spec fn condition_sql(table: Seq<char>, conds: Seq<Seq<char>>, style: PlaceholderStyle) -> Seq<char> {
    "SELECT * FROM "@ + table + " WHERE "@ + join_spec(with_tokens(conds, style, 1), " AND "@)
}

/// The fields of an encoded record. Fails with a conversion error, naming
/// the kind found, when the value is not a table.
pub fn table_fields(v: Value) -> (r: Result<Vec<(String, Value)>, DbError>)
    ensures
        r is Ok <==> v is Table,
        r is Ok ==> r->Ok_0 == v->Table_0,
        r is Err ==> r->Err_0 is ConversionError && r->Err_0->ConversionError_0@ == expected_message(
            "struct"@,
            v@,
        ),
{
    match v {
        Value::Table(fs) => Ok(fs),
        other => Err(expected("struct", &other)),
    }
}

/// Whether a value is a table with a field named `key`.
pub open spec fn has_column(v: ValueModel, key: Seq<char>) -> bool {
    &&& v is Table
    &&& exists|i: int| 0 <= i < v->Table_0.len() && (#[trigger] v->Table_0[i]).0 == key
}

/// No field is named `key` exactly when the fields have no key value.
pub proof fn lemma_key_value_none(fs: Seq<(String, Value)>, key: Seq<char>)
    ensures
        key_value(fs, key) is None <==> !(exists|i: int| 0 <= i < fs.len() && (#[trigger] fs[i]).0@ == key),
    decreases fs.len(),
{
    if fs.len() > 0 {
        let prev = fs.drop_last();
        lemma_key_value_none(prev, key);
        if key_value(fs, key) is None {
            assert forall|i: int| 0 <= i < fs.len() implies (#[trigger] fs[i]).0@ != key by {
                if i < fs.len() - 1 {
                    assert(prev[i] == fs[i]);
                }
            }
        } else if fs.last().0@ != key {
            let i = choose|i: int| 0 <= i < prev.len() && (#[trigger] prev[i]).0@ == key;
            assert(fs[i] == prev[i]);
        }
    }
}

/// The tokens for `n` parameters from position one, joined with `", "`.
fn token_list(style: PlaceholderStyle, n: usize) -> (r: String)
    requires
        n + 1 <= u64::MAX,
    ensures
        r@ == join_spec(placeholder_run(style, 1, n as nat), ", "@),
{
    let mut counter = PlaceholderCounter::new(style);
    let tokens = counter.take(n);
    assert(string_views(tokens@) == strings_model(tokens@));
    join(&tokens, ", ")
}

/// `INSERT INTO table VALUES (tokens)`, one parameter for each field, the
/// field values in order.
pub fn insert_statement(table: &str, fields: Vec<(String, Value)>, style: PlaceholderStyle) -> (r: Statement)
    requires
        fields@.len() + 1 <= u64::MAX,
    ensures
        r.sql@ == insert_sql(table@, fields@.len(), style),
        r.params@ == values_of(fields@),
{
    let n = fields.len();
    let ghost all = fields@;
    let mut rest = fields;
    let mut params: Vec<Value> = Vec::new();
    while rest.len() > 0
        invariant
            all.len() == n,
            params@.len() + rest@.len() == n,
            rest@ == all.skip(params@.len() as int),
            params@ == values_of(all.take(params@.len() as int)),
        decreases rest@.len(),
    {
        let ghost k = params@.len() as int;
        let (_name, v) = rest.remove(0);
        params.push(v);
        assert(values_of(all.take(k + 1)) =~= values_of(all.take(k)).push(all[k].1));
        assert(rest@ =~= all.skip(k + 1));
    }
    assert(all.take(n as int) =~= all);
    let toks = token_list(style, n);
    let sql = String::from_str("INSERT INTO ").concat(table).concat(" VALUES (").concat(
        toks.as_str(),
    ).concat(")");
    Statement { sql, params }
}

/// Whether `name` is among `list`.
fn contains_name(list: &Vec<String>, name: &String) -> (r: bool)
    ensures
        r == string_views(list@).contains(name@),
{
    let mut j: usize = 0;
    while j < list.len()
        invariant
            j <= list@.len(),
            forall|k: int| 0 <= k < j ==> #[trigger] list@[k]@ != name@,
        decreases list@.len() - j,
    {
        if list[j] == *name {
            assert(string_views(list@)[j as int] == name@);
            return true;
        }
        j = j + 1;
    }
    assert forall|k: int| 0 <= k < string_views(list@).len() implies string_views(list@)[k] != name@ by {
        assert(list@[k]@ != name@);
    }
    false
}

/// `INSERT INTO table (names) VALUES (tokens)` for the fields whose name is not
/// excluded, their values in order.
pub fn insert_without_statement(
    table: &str,
    fields: Vec<(String, Value)>,
    exclude_fields: Vec<&str>,
    style: PlaceholderStyle,
) -> (r: Statement)
    requires
        fields@.len() + 1 <= u64::MAX,
    ensures
        r.sql@ == insert_columns_sql(
            table@,
            names_of(kept_fields(fields@, str_views(exclude_fields@))),
            style,
        ),
        r.params@ == values_of(kept_fields(fields@, str_views(exclude_fields@))),
{
    let excluded = to_strings(exclude_fields.as_slice());
    let ghost ex = str_views(exclude_fields@);
    let ghost all = fields@;
    let total = fields.len();
    let mut rest = fields;
    let mut names: Vec<String> = Vec::new();
    let mut params: Vec<Value> = Vec::new();
    let mut i: usize = 0;
    while rest.len() > 0
        invariant
            i <= all.len(),
            all.len() + 1 <= u64::MAX,
            rest@ == all.skip(i as int),
            i + rest@.len() == all.len(),
            all.len() == total,
            string_views(excluded@) == ex,
            names@.len() == params@.len(),
            names@.len() <= i,
            string_views(names@) == names_of(kept_fields(all.take(i as int), ex)),
            params@ == values_of(kept_fields(all.take(i as int), ex)),
        decreases rest@.len(),
    {
        let ghost before = rest@;
        let (name, v) = rest.remove(0);
        assert(all.take(i + 1).drop_last() =~= all.take(i as int));
        assert(all[i as int] == before[0]);
        assert(all.take(i + 1).last() == (name, v));
        let found = contains_name(&excluded, &name);
        assert(kept_fields(all.take(i + 1), ex) == if found {
            kept_fields(all.take(i as int), ex)
        } else {
            kept_fields(all.take(i as int), ex).push((name, v))
        });
        if !found {
            let ghost old_names = names@;
            names.push(name);
            params.push(v);
            assert(names_of(kept_fields(all.take(i as int), ex).push((name, v))) =~= names_of(kept_fields(all.take(i as int), ex)).push(name@));
            assert(values_of(kept_fields(all.take(i as int), ex).push((name, v))) =~= values_of(kept_fields(all.take(i as int), ex)).push(v));
            assert(string_views(names@) =~= string_views(names@.drop_last()).push(name@));
            assert(names@.drop_last() =~= old_names);
            assert(string_views(names@) =~= names_of(kept_fields(all.take(i + 1), ex)));
            assert(params@ =~= values_of(kept_fields(all.take(i + 1), ex)));
        }
        i = i + 1;
        assert(rest@ =~= all.skip(i as int));
    }
    assert(all.take(i as int) =~= all);
    let cols = join(&names, ", ");
    let toks = token_list(style, names.len());
    let sql = String::from_str("INSERT INTO ").concat(table).concat(" (").concat(cols.as_str()).concat(
        ") VALUES (",
    ).concat(toks.as_str()).concat(")");
    Statement { sql, params }
}

fn key_statement(prefix: &str, table: &str, key: &str, id: Value, style: PlaceholderStyle) -> (r: Statement)
    ensures
        r.sql@ == key_sql(prefix@, table@, key@, style),
        r.params@ == seq![id],
{
    let ph = token(style, 1);
    let sql = String::from_str(prefix).concat(table).concat(" WHERE ").concat(key).concat(" = ").concat(
        ph.as_str(),
    );
    let mut params: Vec<Value> = Vec::new();
    params.push(id);
    assert(params@ =~= seq![id]);
    Statement { sql, params }
}

/// `SELECT * FROM table WHERE key = token`, with the id as the one parameter.
pub fn find_by_id_statement(table: &str, key: &str, id: Value, style: PlaceholderStyle) -> (r: Statement)
    ensures
        r.sql@ == key_sql("SELECT * FROM "@, table@, key@, style),
        r.params@ == seq![id],
{
    proof {
        reveal_strlit("SELECT * FROM ");
    }
    key_statement("SELECT * FROM ", table, key, id, style)
}

/// `DELETE FROM table WHERE key = token`, with the id as the one parameter.
pub fn delete_statement(table: &str, key: &str, id: Value, style: PlaceholderStyle) -> (r: Statement)
    ensures
        r.sql@ == key_sql("DELETE FROM "@, table@, key@, style),
        r.params@ == seq![id],
{
    proof {
        reveal_strlit("DELETE FROM ");
    }
    key_statement("DELETE FROM ", table, key, id, style)
}

/// `SELECT * FROM table`, without parameters.
pub fn find_all_statement(table: &str) -> (r: Statement)
    ensures
        r.sql@ == "SELECT * FROM "@ + table@,
        r.params@.len() == 0,
{
    let sql = String::from_str("SELECT * FROM ").concat(table);
    Statement { sql, params: Vec::new() }
}

/// `SELECT * FROM table WHERE c1 t1 AND c2 t2 ...`: each condition fragment
/// followed by its parameter's token, numbered from one; the values as given.
pub fn find_by_condition_statement(
    table: &str,
    condition: Vec<&str>,
    params: Vec<Value>,
    style: PlaceholderStyle,
) -> (r: Statement)
    requires
        condition@.len() + 1 <= u64::MAX,
    ensures
        r.sql@ == condition_sql(table@, str_views(condition@), style),
        r.params == params,
{
    let conds = to_strings(condition.as_slice());
    let mut counter = PlaceholderCounter::new(style);
    let tokens = counter.take(conds.len());
    let mut parts: Vec<String> = Vec::new();
    let mut i: usize = 0;
    while i < conds.len()
        invariant
            i <= conds@.len(),
            conds@.len() == condition@.len(),
            forall|j: int| 0 <= j < conds@.len() ==> #[trigger] conds@[j]@ == condition@[j]@,
            tokens@.len() == conds@.len(),
            strings_model(tokens@) == placeholder_run(style, 1, conds@.len() as nat),
            parts@.len() == i,
            forall|j: int|
                0 <= j < i ==> #[trigger] parts@[j]@ == condition@[j]@ + " "@ + placeholder_token(
                    style,
                    (1 + j) as nat,
                ),
        decreases conds@.len() - i,
    {
        proof {
            assert(strings_model(tokens@)[i as int] == tokens@[i as int]@);
        }
        parts.push(conds[i].clone().concat(" ").concat(tokens[i].as_str()));
        i = i + 1;
    }
    assert(string_views(parts@) =~= with_tokens(str_views(condition@), style, 1));
    let clause = join(&parts, " AND ");
    let sql = String::from_str("SELECT * FROM ").concat(table).concat(" WHERE ").concat(
        clause.as_str(),
    );
    Statement { sql, params }
}

/// `UPDATE table SET c1 = t1, ... WHERE key = t`: every field but the key in a
/// SET clause, numbered from one in order, and the key's token last. The values
/// are the non-key values in order, then the key's value. Fails with a
/// conversion error when no field is named after the key column.
pub fn update_statement(
    table: &str,
    key: &str,
    fields: Vec<(String, Value)>,
    style: PlaceholderStyle,
) -> (r: Result<Statement, DbError>)
    requires
        fields@.len() + 2 <= u64::MAX,
    ensures
        key_value(fields@, key@) is None <==> r is Err,
        r is Err ==> r->Err_0 is ConversionError,
        r is Ok ==> {
            &&& r->Ok_0.sql@ == update_sql(
                table@,
                key@,
                names_of(non_key_fields(fields@, key@)),
                style,
            )
            &&& r->Ok_0.params@ == values_of(non_key_fields(fields@, key@)).push(
                key_value(fields@, key@)->Some_0,
            )
        },
{
    let key_name = String::from_str(key);
    let ghost all = fields@;
    let total = fields.len();
    let mut rest = fields;
    let mut names: Vec<String> = Vec::new();
    let mut params: Vec<Value> = Vec::new();
    let mut key_val: Option<Value> = None;
    let mut i: usize = 0;
    while rest.len() > 0
        invariant
            i <= all.len(),
            all.len() + 2 <= u64::MAX,
            key_name@ == key@,
            rest@ == all.skip(i as int),
            i + rest@.len() == all.len(),
            all.len() == total,
            names@.len() == params@.len(),
            names@.len() <= i,
            string_views(names@) == names_of(non_key_fields(all.take(i as int), key@)),
            params@ == values_of(non_key_fields(all.take(i as int), key@)),
            key_val == key_value(all.take(i as int), key@),
        decreases rest@.len(),
    {
        let ghost before = rest@;
        let (name, v) = rest.remove(0);
        assert(all.take(i + 1).drop_last() =~= all.take(i as int));
        assert(all[i as int] == before[0]);
        assert(all.take(i + 1).last() == (name, v));
        assert(non_key_fields(all.take(i + 1), key@) == if name@ == key@ {
            non_key_fields(all.take(i as int), key@)
        } else {
            non_key_fields(all.take(i as int), key@).push((name, v))
        });
        if name == key_name {
            key_val = Some(v);
        } else {
            let ghost old_names = names@;
            names.push(name);
            params.push(v);
            assert(names_of(non_key_fields(all.take(i as int), key@).push((name, v))) =~= names_of(non_key_fields(all.take(i as int), key@)).push(name@));
            assert(values_of(non_key_fields(all.take(i as int), key@).push((name, v))) =~= values_of(non_key_fields(all.take(i as int), key@)).push(v));
            assert(string_views(names@) =~= string_views(names@.drop_last()).push(name@));
            assert(names@.drop_last() =~= old_names);
            assert(string_views(names@) =~= names_of(non_key_fields(all.take(i + 1), key@)));
            assert(params@ =~= values_of(non_key_fields(all.take(i + 1), key@)));
        }
        i = i + 1;
        assert(rest@ =~= all.skip(i as int));
    }
    assert(all.take(i as int) =~= all);
    match key_val {
        None => Err(DbError::ConversionError(String::from_str("primary key column is missing"))),
        Some(kv) => {
            let mut counter = PlaceholderCounter::new(style);
            let tokens = counter.take(names.len());
            let mut sets: Vec<String> = Vec::new();
            let mut j: usize = 0;
            while j < names.len()
                invariant
                    j <= names@.len(),
                    tokens@.len() == names@.len(),
                    strings_model(tokens@) == placeholder_run(style, 1, names@.len() as nat),
                    sets@.len() == j,
                    forall|m: int|
                        0 <= m < j ==> #[trigger] sets@[m]@ == names@[m]@ + " = "@
                            + placeholder_token(style, (1 + m) as nat),
                decreases names@.len() - j,
            {
                proof {
                    assert(strings_model(tokens@)[j as int] == tokens@[j as int]@);
                }
                sets.push(names[j].clone().concat(" = ").concat(tokens[j].as_str()));
                j = j + 1;
            }
            assert(string_views(sets@) =~= set_clauses_of(string_views(names@), style));
            let set_text = join(&sets, ", ");
            let last = token(style, names.len() as u64 + 1);
            let sql = String::from_str("UPDATE ").concat(table).concat(" SET ").concat(
                set_text.as_str(),
            ).concat(" WHERE ").concat(key).concat(" = ").concat(last.as_str());
            params.push(kv);
            Ok(Statement { sql, params })
        },
    }
}

/// The SET list of an update never names the key column.
pub proof fn lemma_non_key_excludes_key(fields: Seq<(String, Value)>, key: Seq<char>)
    ensures
        forall|i: int|
            0 <= i < non_key_fields(fields, key).len() ==> #[trigger] non_key_fields(fields, key)[i].0@
                != key,
    decreases fields.len(),
{
    if fields.len() > 0 {
        let prev = fields.drop_last();
        lemma_non_key_excludes_key(prev, key);
        let nk = non_key_fields(fields, key);
        assert forall|i: int| 0 <= i < nk.len() implies #[trigger] nk[i].0@ != key by {
            if fields.last().0@ != key && i == nk.len() - 1 {
                assert(nk[i] == fields.last());
            } else {
                assert(nk[i] == non_key_fields(prev, key)[i]);
            }
        }
    }
}

/// Every field that is not the key column stands in the SET list, in order.
pub proof fn lemma_non_key_keeps_others(fields: Seq<(String, Value)>, key: Seq<char>)
    ensures
        forall|i: int|
            0 <= i < fields.len() && fields[i].0@ != key ==> non_key_fields(fields, key).contains(
                #[trigger] fields[i],
            ),
    decreases fields.len(),
{
    if fields.len() > 0 {
        let prev = fields.drop_last();
        lemma_non_key_keeps_others(prev, key);
        assert forall|i: int|
            0 <= i < fields.len() && fields[i].0@ != key implies non_key_fields(fields, key).contains(
                #[trigger] fields[i],
            ) by {
            if i < fields.len() - 1 {
                assert(prev[i] == fields[i]);
                let j = choose|j: int| 0 <= j < non_key_fields(prev, key).len() && non_key_fields(prev, key)[j] == prev[i];
                assert(non_key_fields(fields, key)[j] == fields[i]);
            } else {
                assert(non_key_fields(fields, key).last() == fields[i]);
            }
        }
    }
}

/// An update targets exactly the key's row: the WHERE clause's token is the
/// last parameter, and that parameter is the key's value; the SET clauses take
/// the parameters before it, one per non-key field, in order, and none of them
/// is the key column.
pub proof fn lemma_update_targets_key(fields: Seq<(String, Value)>, key: Seq<char>)
    requires
        key_value(fields, key) is Some,
    ensures
        ({
            let set = non_key_fields(fields, key);
            let params = values_of(set).push(key_value(fields, key)->Some_0);
            &&& params.len() == set.len() + 1
            &&& params[set.len() as int] == key_value(fields, key)->Some_0
            &&& forall|i: int| 0 <= i < set.len() ==> #[trigger] params[i] == set[i].1
            &&& forall|i: int| 0 <= i < set.len() ==> #[trigger] set[i].0@ != key
        }),
{
    lemma_non_key_excludes_key(fields, key);
}

} // verus!
