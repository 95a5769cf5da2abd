use vstd::prelude::*;
use vstd::string::StringExecFns;

use crate::placeholder::{decimal, decimal_digits, placeholder_run, placeholder_token, PlaceholderCounter, PlaceholderStyle, strings_model};
use crate::text::{join, join_spec, str_views, string_views, to_strings};
use crate::adapter::{entities_of, entities_outcome, RelationalDatabase};
use crate::value::Row;
use crate::error::DbError;
use crate::marshal::Entity;
use crate::value::Value;

verus! {

/// The statement that a builder renders.
#[derive(Clone, Copy, Debug, PartialEq, Eq, Structural)]
pub enum StatementKind {
    Select,
    Insert,
    Update,
    Delete,
}

/// Each condition followed by a space and the token of its parameter;
/// the parameters take the positions `start`, `start + 1`, ...
pub open spec fn with_tokens(conds: Seq<Seq<char>>, style: PlaceholderStyle, start: nat) -> Seq<Seq<char>> {
    Seq::new(conds.len(), |i: int| conds[i] + " "@ + placeholder_token(style, (start + i) as nat))
}

/// `column = token` for each column, positions counted from one.
pub open spec fn set_clauses_of(columns: Seq<Seq<char>>, style: PlaceholderStyle) -> Seq<Seq<char>> {
    Seq::new(columns.len(), |i: int| columns[i] + " = "@ + placeholder_token(style, (1 + i) as nat))
}

/// `prefix` followed by the parts joined with `sep`, or nothing when there are no parts.
pub open spec fn clause(prefix: Seq<char>, parts: Seq<Seq<char>>, sep: Seq<char>) -> Seq<char> {
    if parts.len() == 0 {
        Seq::empty()
    } else {
        prefix + join_spec(parts, sep)
    }
}

/// `prefix` followed by the number's digits, or nothing when there is none.
pub open spec fn number_clause(prefix: Seq<char>, n: Option<u32>) -> Seq<char> {
    match n {
        Some(v) => prefix + decimal_digits(v as nat),
        None => Seq::empty(),
    }
}

/// Pairs each condition with the next parameter token of `counter`.
fn attach_tokens(conds: &Vec<String>, counter: &mut PlaceholderCounter) -> (r: Vec<String>)
    requires
        old(counter).next + conds@.len() <= u64::MAX,
    ensures
        string_views(r@) == with_tokens(string_views(conds@), old(counter).style, old(counter).next as nat),
        final(counter).style == old(counter).style,
        final(counter).next == old(counter).next + conds@.len(),
{
    let ghost start = counter.next as nat;
    let tokens = counter.take(conds.len());
    let mut out: Vec<String> = Vec::new();
    let mut i: usize = 0;
    while i < conds.len()
        invariant
            i <= conds@.len(),
            tokens@.len() == conds@.len(),
            strings_model(tokens@) == placeholder_run(counter.style, start, conds@.len() as nat),
            out@.len() == i,
            forall|j: int|
                0 <= j < i ==> #[trigger] out@[j]@ == conds@[j]@ + " "@ + placeholder_token(
                    counter.style,
                    (start + j) as nat,
                ),
        decreases conds@.len() - i,
    {
        proof {
            reveal_strlit(" ");
            assert(strings_model(tokens@)[i as int] == tokens@[i as int]@);
        }
        let c = conds[i].clone().concat(" ").concat(tokens[i].as_str());
        out.push(c);
        i = i + 1;
    }
    assert(string_views(out@) =~= with_tokens(string_views(conds@), counter.style, start));
    out
}

/// Appends `prefix` and the joined parts, or nothing when there are no parts.
fn push_clause(out: &mut String, prefix: &str, parts: &Vec<String>, sep: &str)
    ensures
        final(out)@ == old(out)@ + clause(prefix@, string_views(parts@), sep@),
{
    if parts.len() > 0 {
        let joined = join(parts, sep);
        out.append(prefix);
        out.append(joined.as_str());
    } else {
        assert(old(out)@ + Seq::<char>::empty() =~= old(out)@);
    }
}

/// Appends `prefix` and the number, or nothing when there is none.
fn push_number(out: &mut String, prefix: &str, n: Option<u32>)
    ensures
        final(out)@ == old(out)@ + number_clause(prefix@, n),
{
    match n {
        Some(v) => {
            let digits = decimal(v as u64);
            out.append(prefix);
            out.append(digits.as_str());
        },
        None => {
            assert(old(out)@ + Seq::<char>::empty() =~= old(out)@);
        },
    }
}

/// The error for running a builder on which no statement was chosen.
fn no_statement() -> (r: DbError)
    ensures
        r is QueryError,
{
    DbError::QueryError(
        crate::error::QueryErrorKind::SyntaxError(
            String::from_str("no SELECT, INSERT, UPDATE or DELETE was chosen"),
        ),
    )
}

/// Accumulates the clauses of one statement and renders it.
///
/// Conditions are literal SQL fragments such as `"age >"`; the builder appends
/// the parameter token. Parameters are numbered in the order SET, WHERE, HAVING,
/// and the values handed to `values` must list them in that order.
pub struct SqlExecutor {
    pub style: PlaceholderStyle,
    pub query_type: Option<StatementKind>,
    pub table: String,
    pub columns: Vec<String>,
    pub set_clauses: Vec<String>,
    pub values: Vec<Value>,
    pub where_clauses: Vec<String>,
    pub order_by: Vec<String>,
    pub group_by: Vec<String>,
    pub having: Vec<String>,
    pub joins: Vec<String>,
    pub limit: Option<u32>,
    pub offset: Option<u32>,
}

impl SqlExecutor {
    /// The text that `to_sql` renders.
    pub open spec fn sql_spec(&self) -> Seq<char> {
        let where_part = clause(" WHERE "@, string_views(self.where_clauses@), " AND "@);
        match self.query_type {
            Some(StatementKind::Select) => "SELECT "@ + join_spec(string_views(self.columns@), ", "@)
                + " FROM "@ + self.table@ + clause(" "@, string_views(self.joins@), " "@) + where_part
                + clause(" GROUP BY "@, string_views(self.group_by@), ", "@) + clause(
                " HAVING "@,
                string_views(self.having@),
                " AND "@,
            ) + clause(" ORDER BY "@, string_views(self.order_by@), ", "@) + number_clause(
                " LIMIT "@,
                self.limit,
            ) + number_clause(" OFFSET "@, self.offset),
            Some(StatementKind::Insert) => "INSERT INTO "@ + self.table@ + " ("@ + join_spec(
                string_views(self.columns@),
                ", "@,
            ) + ") VALUES ("@ + join_spec(
                placeholder_run(self.style, 1, self.columns@.len()),
                ", "@,
            ) + ")"@,
            Some(StatementKind::Update) => "UPDATE "@ + self.table@ + " SET "@ + join_spec(
                string_views(self.set_clauses@),
                ", "@,
            ) + where_part,
            Some(StatementKind::Delete) => "DELETE FROM "@ + self.table@ + where_part,
            None => Seq::empty(),
        }
    }

    /// A builder on `tablename` for a dialect with the given placeholder style.
    pub fn new(style: PlaceholderStyle, tablename: String) -> (r: SqlExecutor)
        ensures
            r.style == style,
            r.query_type is None,
            r.table@ == tablename@,
            r.columns@.len() == 0,
            r.set_clauses@.len() == 0,
            r.values@.len() == 0,
            r.where_clauses@.len() == 0,
            r.order_by@.len() == 0,
            r.group_by@.len() == 0,
            r.having@.len() == 0,
            r.joins@.len() == 0,
            r.limit is None,
            r.offset is None,
    {
        SqlExecutor {
            style,
            query_type: None,
            table: tablename,
            columns: Vec::new(),
            set_clauses: Vec::new(),
            values: Vec::new(),
            where_clauses: Vec::new(),
            order_by: Vec::new(),
            group_by: Vec::new(),
            having: Vec::new(),
            joins: Vec::new(),
            limit: None,
            offset: None,
        }
    }

    /// A SELECT of every column.
    pub fn find(self) -> (r: SqlExecutor)
        ensures
            r == (SqlExecutor { query_type: Some(StatementKind::Select), columns: r.columns, ..self }),
            string_views(r.columns@) == seq!["*"@],
    {
        let mut s = self;
        s.query_type = Some(StatementKind::Select);
        let mut cols: Vec<String> = Vec::new();
        cols.push(String::from_str("*"));
        s.columns = cols;
        proof {
            reveal_strlit("*");
            assert(string_views(s.columns@) =~= seq!["*"@]);
        }
        s
    }

    /// A SELECT of the given columns.
    pub fn select(self, columns: &[&str]) -> (r: SqlExecutor)
        ensures
            r == (SqlExecutor { query_type: Some(StatementKind::Select), columns: r.columns, ..self }),
            string_views(r.columns@) == str_views(columns@),
    {
        let mut s = self;
        s.query_type = Some(StatementKind::Select);
        s.columns = to_strings(columns);
        s
    }

    /// The table that the statement reads or changes.
    pub fn from(self, table: &str) -> (r: SqlExecutor)
        ensures
            r == (SqlExecutor { table: r.table, ..self }),
            r.table@ == table@,
    {
        let mut s = self;
        s.table = String::from_str(table);
        s
    }

    /// The WHERE conditions, each followed by its parameter's token. In an
    /// UPDATE they are numbered after the SET clauses, otherwise from one.
    pub fn where_clauses(self, condition: Vec<&str>) -> (r: SqlExecutor)
        requires
            self.set_clauses@.len() + condition@.len() + 1 <= u64::MAX,
        ensures
            r == (SqlExecutor { where_clauses: r.where_clauses, ..self }),
            string_views(r.where_clauses@) == with_tokens(
                str_views(condition@),
                self.style,
                if self.query_type == Some(StatementKind::Update) {
                    self.set_clauses@.len() + 1
                } else {
                    1
                } as nat,
            ),
    {
        let mut s = self;
        let conds = to_strings(condition.as_slice());
        let mut counter = PlaceholderCounter::new(s.style);
        if s.query_type == Some(StatementKind::Update) {
            counter.next = counter.next + s.set_clauses.len() as u64;
        }
        s.where_clauses = attach_tokens(&conds, &mut counter);
        s
    }

    /// The ORDER BY terms.
    pub fn order_by(self, conditions: Vec<&str>) -> (r: SqlExecutor)
        ensures
            r == (SqlExecutor { order_by: r.order_by, ..self }),
            string_views(r.order_by@) == str_views(conditions@),
    {
        let mut s = self;
        s.order_by = to_strings(conditions.as_slice());
        s
    }

    /// The GROUP BY columns.
    pub fn group_by(self, columns: Vec<&str>) -> (r: SqlExecutor)
        ensures
            r == (SqlExecutor { group_by: r.group_by, ..self }),
            string_views(r.group_by@) == str_views(columns@),
    {
        let mut s = self;
        s.group_by = to_strings(columns.as_slice());
        s
    }

    /// The HAVING conditions, numbered after the WHERE conditions declared so far.
    pub fn having(self, conditions: Vec<&str>) -> (r: SqlExecutor)
        requires
            self.where_clauses@.len() + conditions@.len() + 1 <= u64::MAX,
        ensures
            r == (SqlExecutor { having: r.having, ..self }),
            string_views(r.having@) == with_tokens(
                str_views(conditions@),
                self.style,
                (self.where_clauses@.len() + 1) as nat,
            ),
    {
        let mut s = self;
        let conds = to_strings(conditions.as_slice());
        let mut counter = PlaceholderCounter::new(s.style);
        counter.next = counter.next + s.where_clauses.len() as u64;
        s.having = attach_tokens(&conds, &mut counter);
        s
    }

    /// Adds `JOIN table ON condition`.
    pub fn join(self, table: &str, on_condition: &str) -> (r: SqlExecutor)
        ensures
            r == (SqlExecutor { joins: r.joins, ..self }),
            string_views(r.joins@) == string_views(self.joins@).push(
                "JOIN "@ + table@ + " ON "@ + on_condition@,
            ),
    {
        let mut s = self;
        let j = String::from_str("JOIN ").concat(table).concat(" ON ").concat(on_condition);
        s.joins.push(j);
        assert(string_views(s.joins@) =~= string_views(self.joins@).push(j@));
        s
    }

    /// Adds `LEFT JOIN table ON condition`.
    pub fn left_join(self, table: &str, on_condition: &str) -> (r: SqlExecutor)
        ensures
            r == (SqlExecutor { joins: r.joins, ..self }),
            string_views(r.joins@) == string_views(self.joins@).push(
                "LEFT JOIN "@ + table@ + " ON "@ + on_condition@,
            ),
    {
        let mut s = self;
        let j = String::from_str("LEFT JOIN ").concat(table).concat(" ON ").concat(on_condition);
        s.joins.push(j);
        assert(string_views(s.joins@) =~= string_views(self.joins@).push(j@));
        s
    }

    /// Adds `CROSS JOIN table `.
    pub fn cross_join(self, table: &str) -> (r: SqlExecutor)
        ensures
            r == (SqlExecutor { joins: r.joins, ..self }),
            string_views(r.joins@) == string_views(self.joins@).push("CROSS JOIN "@ + table@ + " "@),
    {
        let mut s = self;
        let j = String::from_str("CROSS JOIN ").concat(table).concat(" ");
        s.joins.push(j);
        assert(string_views(s.joins@) =~= string_views(self.joins@).push(j@));
        s
    }

    /// Adds `NATURAL JOIN table `.
    pub fn natural_join(self, table: &str) -> (r: SqlExecutor)
        ensures
            r == (SqlExecutor { joins: r.joins, ..self }),
            string_views(r.joins@) == string_views(self.joins@).push("NATURAL JOIN "@ + table@ + " "@),
    {
        let mut s = self;
        let j = String::from_str("NATURAL JOIN ").concat(table).concat(" ");
        s.joins.push(j);
        assert(string_views(s.joins@) =~= string_views(self.joins@).push(j@));
        s
    }

    pub fn limit(self, limit: u32) -> (r: SqlExecutor)
        ensures
            r == (SqlExecutor { limit: Some(limit), ..self }),
    {
        let mut s = self;
        s.limit = Some(limit);
        s
    }

    pub fn offset(self, offset: u32) -> (r: SqlExecutor)
        ensures
            r == (SqlExecutor { offset: Some(offset), ..self }),
    {
        let mut s = self;
        s.offset = Some(offset);
        s
    }

    /// An INSERT into the given columns.
    pub fn insert(self, columns: &[&str]) -> (r: SqlExecutor)
        ensures
            r == (SqlExecutor { query_type: Some(StatementKind::Insert), columns: r.columns, ..self }),
            string_views(r.columns@) == str_views(columns@),
    {
        let mut s = self;
        s.query_type = Some(StatementKind::Insert);
        s.columns = to_strings(columns);
        s
    }

    /// An INSERT into the given columns of `table`.
    pub fn insert_into(self, table: &str, columns: &[&str]) -> (r: SqlExecutor)
        ensures
            r == (SqlExecutor {
                query_type: Some(StatementKind::Insert),
                table: r.table,
                columns: r.columns,
                ..self
            }),
            r.table@ == table@,
            string_views(r.columns@) == str_views(columns@),
    {
        self.from(table).insert(columns)
    }

    /// An UPDATE of `table`, keeping the SET clauses declared so far.
    pub fn update_to(self, table: &str) -> (r: SqlExecutor)
        ensures
            r == (SqlExecutor { query_type: Some(StatementKind::Update), table: r.table, ..self }),
            r.table@ == table@,
    {
        let mut s = self.from(table);
        s.query_type = Some(StatementKind::Update);
        s
    }

    /// A DELETE from `table`.
    pub fn delete_from(self, table: &str) -> (r: SqlExecutor)
        ensures
            r == (SqlExecutor { query_type: Some(StatementKind::Delete), table: r.table, ..self }),
            r.table@ == table@,
    {
        self.from(table).delete()
    }

    /// The parameter values, in the order SET, WHERE, HAVING.
    pub fn values(self, values: Vec<Value>) -> (r: SqlExecutor)
        ensures
            r == (SqlExecutor { values: values, ..self }),
    {
        let mut s = self;
        s.values = values;
        s
    }

    /// An UPDATE of the given columns: `column = token`, numbered from one.
    pub fn update(self, columns: &[&str]) -> (r: SqlExecutor)
        requires
            columns@.len() + 1 <= u64::MAX,
        ensures
            r == (SqlExecutor {
                query_type: Some(StatementKind::Update),
                set_clauses: r.set_clauses,
                ..self
            }),
            string_views(r.set_clauses@) == set_clauses_of(str_views(columns@), self.style),
    {
        let mut s = self;
        s.query_type = Some(StatementKind::Update);
        let cols = to_strings(columns);
        let mut counter = PlaceholderCounter::new(s.style);
        let tokens = counter.take(cols.len());
        let mut out: Vec<String> = Vec::new();
        let mut i: usize = 0;
        while i < cols.len()
            invariant
                i <= cols@.len(),
                tokens@.len() == cols@.len(),
                strings_model(tokens@) == placeholder_run(s.style, 1, cols@.len() as nat),
                string_views(cols@) == str_views(columns@),
                out@.len() == i,
                forall|j: int|
                    0 <= j < i ==> #[trigger] out@[j]@ == cols@[j]@ + " = "@ + placeholder_token(
                        s.style,
                        (1 + j) as nat,
                    ),
            decreases cols@.len() - i,
        {
            proof {
                assert(strings_model(tokens@)[i as int] == tokens@[i as int]@);
            }
            out.push(cols[i].clone().concat(" = ").concat(tokens[i].as_str()));
            i = i + 1;
        }
        proof {
            assert forall|j: int| 0 <= j < cols@.len() implies #[trigger] cols@[j]@ == columns@[j]@ by {
                assert(string_views(cols@)[j] == str_views(columns@)[j]);
            }
        }
        assert(string_views(out@) =~= set_clauses_of(str_views(columns@), s.style));
        s.set_clauses = out;
        s
    }

    /// A DELETE.
    pub fn delete(self) -> (r: SqlExecutor)
        ensures
            r == (SqlExecutor { query_type: Some(StatementKind::Delete), ..self }),
    {
        let mut s = self;
        s.query_type = Some(StatementKind::Delete);
        s
    }

    /// The statement's text: its clauses in SQL's order, each only where it has content.
    pub fn to_sql(&self) -> (r: String)
        requires
            self.columns@.len() + 1 <= u64::MAX,
        ensures
            r@ == self.sql_spec(),
    {
        let mut sql = String::new();
        match self.query_type {
            Some(StatementKind::Select) => {
                sql.append("SELECT ");
                let cols = join(&self.columns, ", ");
                sql.append(cols.as_str());
                sql.append(" FROM ");
                sql.append(self.table.as_str());
                push_clause(&mut sql, " ", &self.joins, " ");
                push_clause(&mut sql, " WHERE ", &self.where_clauses, " AND ");
                push_clause(&mut sql, " GROUP BY ", &self.group_by, ", ");
                push_clause(&mut sql, " HAVING ", &self.having, " AND ");
                push_clause(&mut sql, " ORDER BY ", &self.order_by, ", ");
                push_number(&mut sql, " LIMIT ", self.limit);
                push_number(&mut sql, " OFFSET ", self.offset);
            },
            Some(StatementKind::Insert) => {
                sql.append("INSERT INTO ");
                sql.append(self.table.as_str());
                sql.append(" (");
                let cols = join(&self.columns, ", ");
                sql.append(cols.as_str());
                sql.append(") VALUES (");
                let mut counter = PlaceholderCounter::new(self.style);
                let tokens = counter.take(self.columns.len());
                assert(string_views(tokens@) == strings_model(tokens@));
                let toks = join(&tokens, ", ");
                sql.append(toks.as_str());
                sql.append(")");
            },
            Some(StatementKind::Update) => {
                sql.append("UPDATE ");
                sql.append(self.table.as_str());
                sql.append(" SET ");
                let sets = join(&self.set_clauses, ", ");
                sql.append(sets.as_str());
                push_clause(&mut sql, " WHERE ", &self.where_clauses, " AND ");
            },
            Some(StatementKind::Delete) => {
                sql.append("DELETE FROM ");
                sql.append(self.table.as_str());
                push_clause(&mut sql, " WHERE ", &self.where_clauses, " AND ");
            },
            None => {},
        }
        proof {
            assert(Seq::<char>::empty() + self.sql_spec() =~= self.sql_spec());
        }
        sql
    }

    /// The rendered text and the parameter values, ready for the database handle.
    pub fn into_statement(self) -> (r: (String, Vec<Value>))
        requires
            self.columns@.len() + 1 <= u64::MAX,
        ensures
            r.0@ == self.sql_spec(),
            r.1 == self.values,
    {
        let sql = self.to_sql();
        (sql, self.values)
    }

    /// Fails with a syntax error when no statement was chosen. Otherwise
    /// renders the statement, runs it as a query on `db` with the accumulated
    /// values, and decodes every returned row.
    pub fn query<D: RelationalDatabase, T: Entity>(self, db: &D) -> (r: Result<Vec<T>, DbError>)
        requires
            self.columns@.len() + 1 <= u64::MAX,
        ensures
            self.query_type is None ==> r is Err && r->Err_0 is QueryError,
            exists|res: Result<Vec<Row>, DbError>| entities_outcome(res, r),
    {
        if self.query_type.is_none() {
            let r = Err(no_statement());
            assert(entities_outcome(Err::<Vec<Row>, DbError>(r->Err_0), r));
            return r;
        }
        let (sql, values) = self.into_statement();
        let res = db.query(sql.as_str(), values);
        let ghost answer = res;
        let r = entities_of(res);
        assert(entities_outcome(answer, r));
        r
    }

    /// Fails with a syntax error when no statement was chosen. Otherwise
    /// renders the statement and runs it on `db` with the accumulated values;
    /// returns the number of affected rows.
    pub fn execute<D: RelationalDatabase>(self, db: &D) -> (r: Result<u64, DbError>)
        requires
            self.columns@.len() + 1 <= u64::MAX,
        ensures
            self.query_type is None ==> r is Err && r->Err_0 is QueryError,
    {
        if self.query_type.is_none() {
            return Err(no_statement());
        }
        let (sql, values) = self.into_statement();
        db.execute(sql.as_str(), values)
    }
}

} // verus!
