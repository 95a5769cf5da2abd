use bootrust::builder::StatementKind;
use bootrust::{PlaceholderStyle, SqlExecutor, Value};

fn numbered(table: &str) -> SqlExecutor {
    SqlExecutor::new(PlaceholderStyle::Numbered, table.to_string())
}

fn positional(table: &str) -> SqlExecutor {
    SqlExecutor::new(PlaceholderStyle::Positional, table.to_string())
}

#[test]
fn new_builder_renders_nothing() {
    let b = numbered("users");
    assert_eq!(b.query_type, None);
    assert_eq!(b.to_sql(), "");
}

#[test]
fn find_selects_every_column() {
    assert_eq!(numbered("users").find().to_sql(), "SELECT * FROM users");
}

#[test]
fn select_with_every_clause_in_grammar_order() {
    let sql = numbered("orders")
        .select(&["user_id", "COUNT(*)"])
        .join("users", "users.id = orders.user_id")
        .left_join("items", "items.order_id = orders.id")
        .cross_join("regions")
        .natural_join("zones")
        .where_clauses(vec!["orders.total >", "users.age <"])
        .group_by(vec!["user_id"])
        .having(vec!["COUNT(*) >"])
        .order_by(vec!["user_id DESC"])
        .limit(10)
        .offset(20)
        .to_sql();
    assert_eq!(
        sql,
        "SELECT user_id, COUNT(*) FROM orders JOIN users ON users.id = orders.user_id \
         LEFT JOIN items ON items.order_id = orders.id CROSS JOIN regions  NATURAL JOIN zones  \
         WHERE orders.total > $1 AND users.age < $2 GROUP BY user_id HAVING COUNT(*) > $3 \
         ORDER BY user_id DESC LIMIT 10 OFFSET 20"
    );
}

#[test]
fn positional_style_repeats_the_token() {
    let sql = positional("t").find().where_clauses(vec!["a =", "b ="]).having(vec!["c >"]).to_sql();
    assert_eq!(sql, "SELECT * FROM t WHERE a = ? AND b = ? HAVING c > ?");
}

#[test]
fn update_numbers_set_before_where() {
    let b = numbered("products")
        .update(&["name", "stock"])
        .where_clauses(vec!["id ="])
        .values(vec![Value::Text("Widget".to_string()), Value::Int(50), Value::Int(1)]);
    assert_eq!(b.query_type, Some(StatementKind::Update));
    let (sql, values) = b.into_statement();
    assert_eq!(sql, "UPDATE products SET name = $1, stock = $2 WHERE id = $3");
    assert_eq!(values.len(), 3);
}

#[test]
fn update_with_more_conditions_than_set_clauses() {
    let sql = numbered("p").update(&["a"]).where_clauses(vec!["b =", "c ="]).to_sql();
    assert_eq!(sql, "UPDATE p SET a = $1 WHERE b = $2 AND c = $3");
}

#[test]
fn insert_renders_columns_and_tokens() {
    let sql = numbered("users").insert(&["name", "age"]).to_sql();
    assert_eq!(sql, "INSERT INTO users (name, age) VALUES ($1, $2)");
    let sql = positional("users").insert(&["name", "age"]).to_sql();
    assert_eq!(sql, "INSERT INTO users (name, age) VALUES (?, ?)");
}

#[test]
fn delete_with_and_without_conditions() {
    assert_eq!(numbered("users").delete().to_sql(), "DELETE FROM users");
    assert_eq!(
        numbered("users").delete().where_clauses(vec!["id ="]).to_sql(),
        "DELETE FROM users WHERE id = $1"
    );
}

#[test]
fn from_changes_the_table() {
    assert_eq!(numbered("a").from("b").find().to_sql(), "SELECT * FROM b");
}

#[test]
fn having_without_where_starts_at_one() {
    let sql = numbered("t").select(&["x"]).group_by(vec!["x"]).having(vec!["SUM(y) >"]).to_sql();
    assert_eq!(sql, "SELECT x FROM t GROUP BY x HAVING SUM(y) > $1");
}

#[test]
fn limit_and_offset_extremes() {
    let sql = numbered("t").find().limit(0).offset(u32::MAX).to_sql();
    assert_eq!(sql, "SELECT * FROM t LIMIT 0 OFFSET 4294967295");
}

#[test]
fn table_naming_shortcuts() {
    assert_eq!(
        numbered("x").insert_into("users", &["name"]).to_sql(),
        "INSERT INTO users (name) VALUES ($1)"
    );
    assert_eq!(numbered("x").delete_from("users").to_sql(), "DELETE FROM users");
    assert_eq!(
        numbered("x").update(&["name"]).update_to("users").where_clauses(vec!["id ="]).to_sql(),
        "UPDATE users SET name = $1 WHERE id = $2"
    );
}
