use std::cell::RefCell;

use bootrust::adapter::{entities_of, entity_of, rows_to_entities, Dao, RelationalDatabase};
use bootrust::marshal::{decode_i32, decode_string, Entity, TableReader, TableWriter};
use bootrust::transaction::{completion, TransactionSlot};
use bootrust::{DbError, PlaceholderStyle, Row, Value};

#[derive(Debug, PartialEq, Clone)]
struct Product {
    id: i32,
    name: String,
    stock: i32,
}

impl Entity for Product {
    fn table_name() -> String {
        "products".to_string()
    }

    fn primary_key_column() -> String {
        "id".to_string()
    }

    fn to_value(&self) -> Value {
        let mut w = TableWriter::new();
        w.field("id", Value::Int(self.id));
        w.field("name", Value::Text(self.name.clone()));
        w.field("stock", Value::Int(self.stock));
        w.finish()
    }

    fn from_value(v: Value) -> Result<Self, DbError> {
        let mut r = TableReader::open(v)?;
        let id = decode_i32(r.next_value()?)?;
        let name = decode_string(r.next_value()?)?;
        let stock = decode_i32(r.next_value()?)?;
        r.finish()?;
        Ok(Product { id, name, stock })
    }
}

/// A single-table stand-in for a database product: it understands exactly the
/// statements that the adapter renders for `products`.
struct MemoryDatabase {
    committed: RefCell<Vec<Vec<Value>>>,
    slot: RefCell<TransactionSlot<Vec<Vec<Value>>>>,
    log: RefCell<Vec<String>>,
}

impl MemoryDatabase {
    fn new() -> Self {
        MemoryDatabase {
            committed: RefCell::new(vec![]),
            slot: RefCell::new(TransactionSlot::new()),
            log: RefCell::new(vec![]),
        }
    }

    fn with_rows<R>(&self, f: impl FnOnce(&mut Vec<Vec<Value>>) -> R) -> R {
        let mut slot = self.slot.borrow_mut();
        match slot.connection() {
            Some(rows) => f(rows),
            None => f(&mut self.committed.borrow_mut()),
        }
    }

    fn row(values: &[Value]) -> Row {
        Row {
            columns: vec!["id".to_string(), "name".to_string(), "stock".to_string()],
            values: values.to_vec(),
        }
    }
}

impl RelationalDatabase for MemoryDatabase {
    fn placeholder_style(&self) -> PlaceholderStyle {
        PlaceholderStyle::Numbered
    }

    fn begin_transaction(&self) -> Result<(), DbError> {
        let copy = self.committed.borrow().clone();
        self.slot.borrow_mut().begin(copy)
    }

    fn commit(&self) -> Result<(), DbError> {
        let taken = self.slot.borrow_mut().take();
        let ran = taken.map(|rows| {
            *self.committed.borrow_mut() = rows;
            Ok(())
        });
        completion(ran)
    }

    fn rollback(&self) -> Result<(), DbError> {
        let taken = self.slot.borrow_mut().take();
        completion(taken.map(|_| Ok(())))
    }

    fn execute(&self, query: &str, params: Vec<Value>) -> Result<u64, DbError> {
        self.log.borrow_mut().push(query.to_string());
        if query == "INSERT INTO products VALUES ($1, $2, $3)" {
            return self.with_rows(|rows| {
                if rows.iter().any(|r| r[0] == params[0]) {
                    return Err(DbError::QueryError(bootrust::QueryErrorKind::UniqueViolation("id".to_string())));
                }
                rows.push(params);
                Ok(1)
            });
        }
        if query == "UPDATE products SET name = $1, stock = $2 WHERE id = $3" {
            return self.with_rows(|rows| {
                let mut n = 0;
                for r in rows.iter_mut().filter(|r| r[0] == params[2]) {
                    r[1] = params[0].clone();
                    r[2] = params[1].clone();
                    n += 1;
                }
                Ok(n)
            });
        }
        if query == "DELETE FROM products WHERE id = $1" {
            return self.with_rows(|rows| {
                let before = rows.len();
                rows.retain(|r| r[0] != params[0]);
                Ok((before - rows.len()) as u64)
            });
        }
        Err(DbError::QueryError(bootrust::QueryErrorKind::SyntaxError(query.to_string())))
    }

    fn query(&self, query: &str, params: Vec<Value>) -> Result<Vec<Row>, DbError> {
        self.log.borrow_mut().push(query.to_string());
        if query == "SELECT * FROM products" {
            return self.with_rows(|rows| Ok(rows.iter().map(|r| Self::row(r)).collect()));
        }
        if query == "SELECT * FROM products WHERE stock > $1" {
            return self.with_rows(|rows| {
                let limit = match params[0] {
                    Value::Int(n) => n,
                    _ => return Err(DbError::ConversionError("stock".to_string())),
                };
                Ok(rows
                    .iter()
                    .filter(|r| matches!(r[2], Value::Int(s) if s > limit))
                    .map(|r| Self::row(r))
                    .collect())
            });
        }
        Err(DbError::QueryError(bootrust::QueryErrorKind::SyntaxError(query.to_string())))
    }

    fn query_one(&self, query: &str, params: Vec<Value>) -> Result<Option<Row>, DbError> {
        self.log.borrow_mut().push(query.to_string());
        if query == "SELECT * FROM products WHERE id = $1" {
            return self.with_rows(|rows| Ok(rows.iter().find(|r| r[0] == params[0]).map(|r| Self::row(r))));
        }
        Err(DbError::QueryError(bootrust::QueryErrorKind::SyntaxError(query.to_string())))
    }
}

struct ProductDao {
    db: MemoryDatabase,
}

impl Dao<Product> for ProductDao {
    type Database = MemoryDatabase;

    fn database(&self) -> &MemoryDatabase {
        &self.db
    }
}

fn widget(stock: i32) -> Product {
    Product { id: 1, name: "Widget".to_string(), stock }
}

fn dao() -> ProductDao {
    ProductDao { db: MemoryDatabase::new() }
}

#[test]
fn product_crud_scenario() {
    let d = dao();
    assert_eq!(d.create(&widget(100)), Ok(1));
    assert_eq!(d.find_by_id(Value::Int(1)), Ok(Some(widget(100))));
    assert_eq!(d.update(&widget(50)), Ok(1));
    assert_eq!(d.find_by_id(Value::Int(1)).unwrap().unwrap().stock, 50);
    assert_eq!(d.delete(Value::Int(1)), Ok(1));
    assert_eq!(d.find_by_id(Value::Int(1)), Ok(None));
}

#[test]
fn read_after_create_returns_the_entity() {
    let d = dao();
    let p = Product { id: 9, name: "Gadget".to_string(), stock: 3 };
    d.create(&p).unwrap();
    assert_eq!(d.find_by_id(Value::Int(9)).unwrap(), Some(p.clone()));
    assert_eq!(d.find_all().unwrap(), vec![p]);
}

#[test]
fn update_keeps_key_and_changes_other_fields() {
    let d = dao();
    d.create(&widget(100)).unwrap();
    let changed = Product { id: 1, name: "Sprocket".to_string(), stock: 7 };
    d.update(&changed).unwrap();
    assert_eq!(d.find_by_id(Value::Int(1)).unwrap(), Some(changed));
}

#[test]
fn rollback_discards_and_commit_keeps() {
    let d = dao();
    d.begin_transaction().unwrap();
    d.create(&widget(1)).unwrap();
    assert!(d.find_by_id(Value::Int(1)).unwrap().is_some());
    d.rollback().unwrap();
    assert_eq!(d.find_by_id(Value::Int(1)).unwrap(), None);

    d.begin_transaction().unwrap();
    d.create(&widget(1)).unwrap();
    d.commit().unwrap();
    assert_eq!(d.find_by_id(Value::Int(1)).unwrap(), Some(widget(1)));
}

#[test]
fn second_begin_fails_and_keeps_the_transaction() {
    let d = dao();
    d.begin_transaction().unwrap();
    d.create(&widget(5)).unwrap();
    assert!(matches!(d.begin_transaction(), Err(DbError::TransactionError(_))));
    assert!(d.find_by_id(Value::Int(1)).unwrap().is_some());
    d.rollback().unwrap();
    assert_eq!(d.find_by_id(Value::Int(1)).unwrap(), None);
}

#[test]
fn find_by_condition_numbers_its_tokens() {
    let d = dao();
    d.create(&widget(100)).unwrap();
    d.create(&Product { id: 2, name: "Nut".to_string(), stock: 1 }).unwrap();
    let found = d.find_by_condition(vec!["stock >"], vec![Value::Int(10)]).unwrap();
    assert_eq!(found, vec![widget(100)]);
    assert_eq!(d.db.log.borrow().last().unwrap(), "SELECT * FROM products WHERE stock > $1");
}

#[test]
fn handle_placeholders_follow_the_style() {
    let d = dao();
    let keys = vec!["a".to_string(), "b".to_string()];
    assert_eq!(bootrust::placeholder::placeholders(d.db.placeholder_style(), &keys), vec!["$1".to_string(), "$2".to_string()]);
}

#[test]
fn mismatched_row_is_a_conversion_error() {
    let row = Row { columns: vec!["id".to_string()], values: vec![] };
    let r: Result<Product, DbError> = bootrust::adapter::row_to_entity(row);
    assert!(matches!(r, Err(DbError::ConversionError(_))));
}

#[test]
fn builder_runs_through_the_handle() {
    let d = dao();
    d.create(&widget(100)).unwrap();
    let all: Vec<Product> = bootrust::SqlExecutor::new(PlaceholderStyle::Numbered, "products".to_string())
        .find()
        .query(&d.db)
        .unwrap();
    assert_eq!(all, vec![widget(100)]);
    let n = bootrust::SqlExecutor::new(PlaceholderStyle::Numbered, "products".to_string())
        .update(&["name", "stock"])
        .where_clauses(vec!["id ="])
        .values(vec![Value::Text("Widget".to_string()), Value::Int(42), Value::Int(1)])
        .execute(&d.db)
        .unwrap();
    assert_eq!(n, 1);
    assert_eq!(d.find_by_id(Value::Int(1)).unwrap(), Some(widget(42)));
}

#[test]
fn decoding_answers_of_the_handle() {
    let none: Result<Vec<Product>, DbError> = rows_to_entities(vec![]);
    assert_eq!(none, Ok(vec![]));
    let failed: Result<Vec<Product>, DbError> = entities_of(Err(DbError::PoolError("busy".to_string())));
    assert_eq!(failed, Err(DbError::PoolError("busy".to_string())));
    let row = MemoryDatabase::row(&[Value::Int(1), Value::Text("Widget".to_string()), Value::Int(3)]);
    let one: Result<Vec<Product>, DbError> = entities_of(Ok(vec![row]));
    assert_eq!(one, Ok(vec![widget(3)]));
    let bad = Row { columns: vec!["id".to_string()], values: vec![] };
    let good = MemoryDatabase::row(&[Value::Int(1), Value::Text("Widget".to_string()), Value::Int(3)]);
    let mixed: Result<Vec<Product>, DbError> = entities_of(Ok(vec![good, bad]));
    assert!(matches!(mixed, Err(DbError::ConversionError(_))));
    let missing: Result<Option<Product>, DbError> = entity_of(Ok(None));
    assert_eq!(missing, Ok(None));
    let lost: Result<Option<Product>, DbError> = entity_of(Err(DbError::ConnectionError("down".to_string())));
    assert_eq!(lost, Err(DbError::ConnectionError("down".to_string())));
}

struct Loose;

impl Entity for Loose {
    fn table_name() -> String {
        "products".to_string()
    }

    fn primary_key_column() -> String {
        "id".to_string()
    }

    fn to_value(&self) -> Value {
        Value::Int(1)
    }

    fn from_value(_v: Value) -> Result<Self, DbError> {
        Ok(Loose)
    }
}

struct LooseDao {
    db: MemoryDatabase,
}

impl Dao<Loose> for LooseDao {
    type Database = MemoryDatabase;

    fn database(&self) -> &MemoryDatabase {
        &self.db
    }
}

#[test]
fn a_record_that_is_not_a_table_is_refused_before_the_handle() {
    let d = LooseDao { db: MemoryDatabase::new() };
    assert!(matches!(d.create(&Loose), Err(DbError::ConversionError(_))));
    assert!(matches!(d.update(&Loose), Err(DbError::ConversionError(_))));
    assert!(d.db.log.borrow().is_empty());
}

#[test]
fn update_without_the_key_column_is_refused_before_the_handle() {
    struct NoKey;
    impl Entity for NoKey {
        fn table_name() -> String {
            "products".to_string()
        }
        fn primary_key_column() -> String {
            "id".to_string()
        }
        fn to_value(&self) -> Value {
            Value::Table(vec![("name".to_string(), Value::Text("x".to_string()))])
        }
        fn from_value(_v: Value) -> Result<Self, DbError> {
            Ok(NoKey)
        }
    }
    struct NoKeyDao {
        db: MemoryDatabase,
    }
    impl Dao<NoKey> for NoKeyDao {
        type Database = MemoryDatabase;
        fn database(&self) -> &MemoryDatabase {
            &self.db
        }
    }
    let d = NoKeyDao { db: MemoryDatabase::new() };
    assert!(matches!(d.update(&NoKey), Err(DbError::ConversionError(_))));
    assert!(d.db.log.borrow().is_empty());
}

#[test]
fn running_a_builder_without_a_statement_fails() {
    let d = dao();
    let r = bootrust::SqlExecutor::new(PlaceholderStyle::Numbered, "products".to_string()).execute(&d.db);
    assert!(matches!(r, Err(DbError::QueryError(_))));
    let q: Result<Vec<Product>, DbError> =
        bootrust::SqlExecutor::new(PlaceholderStyle::Numbered, "products".to_string()).query(&d.db);
    assert!(matches!(q, Err(DbError::QueryError(_))));
    assert!(d.db.log.borrow().is_empty());
}
