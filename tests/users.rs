use bootrust::{DbError, Entity, Value, Repository, UserEntity, UserError, UserRepository, UserService};

fn service() -> UserService {
    UserService::new(UserRepository::new())
}

#[test]
fn create_assigns_increasing_ids() {
    let mut s = service();
    let a = s.create_user("ann".to_string(), "a@x".to_string(), 30).unwrap();
    let b = s.create_user("bob".to_string(), "b@x".to_string(), 40).unwrap();
    assert_eq!(a.id, Some(1));
    assert_eq!(b.id, Some(2));
    assert_eq!(s.get_user(2).unwrap().username, "bob");
    assert_eq!(s.get_all_users().unwrap().len(), 2);
}

#[test]
fn create_validates_input() {
    let mut s = service();
    assert_eq!(
        s.create_user("".to_string(), "a@x".to_string(), 3),
        Err(UserError::InvalidInput("Username cannot be empty".to_string()))
    );
    assert_eq!(
        s.create_user("a".to_string(), "".to_string(), 3),
        Err(UserError::InvalidInput("Email cannot be empty".to_string()))
    );
    assert_eq!(
        s.create_user("a".to_string(), "a@x".to_string(), 0),
        Err(UserError::InvalidInput("Age must be positive".to_string()))
    );
    assert!(s.get_all_users().unwrap().is_empty());
}

#[test]
fn update_and_delete() {
    let mut s = service();
    s.create_user("ann".to_string(), "a@x".to_string(), 30).unwrap();
    let u = s.update_user(1, "anne".to_string(), "e@x".to_string(), 31).unwrap();
    assert_eq!(u, UserEntity { id: Some(1), username: "anne".to_string(), email: "e@x".to_string(), age: 31 });
    assert_eq!(s.get_user(1).unwrap(), u);
    assert_eq!(s.update_user(5, "x".to_string(), "y".to_string(), 1), Err(UserError::NotFound));
    assert_eq!(s.delete_user(1), Ok(()));
    assert_eq!(s.get_user(1), Err(UserError::NotFound));
    assert_eq!(s.delete_user(1), Err(UserError::NotFound));
}

#[test]
fn repository_trait_delegates() {
    let mut r = UserRepository::new();
    let u = Repository::create(&mut r, UserEntity::new("z".to_string(), "z@x".to_string(), 9)).unwrap();
    assert_eq!(Repository::find_by_id(&r, 1).unwrap(), u);
    assert_eq!(Repository::find_all(&r).unwrap(), vec![u]);
    assert_eq!(Repository::delete(&mut r, 1), Ok(()));
    assert_eq!(Repository::find_by_id(&r, 1), Err(UserError::NotFound));
}

#[test]
fn ids_run_out_at_the_top() {
    let mut r = UserRepository { users: vec![], next_id: u32::MAX };
    assert!(matches!(
        r.create(UserEntity::new("a".to_string(), "b".to_string(), 1)),
        Err(UserError::InvalidInput(_))
    ));
}

#[test]
fn user_entity_round_trips_through_a_row() {
    let u = UserEntity { id: Some(7), username: "ann".to_string(), email: "a@x".to_string(), age: 30 };
    let v = u.to_value();
    assert_eq!(
        v,
        Value::Table(vec![
            ("id".to_string(), Value::Bigint(7)),
            ("username".to_string(), Value::Text("ann".to_string())),
            ("email".to_string(), Value::Text("a@x".to_string())),
            ("age".to_string(), Value::Byte(30)),
        ])
    );
    assert_eq!(UserEntity::from_value(v).unwrap(), u);
    let anonymous = UserEntity::new("b".to_string(), "b@x".to_string(), 2);
    assert_eq!(UserEntity::from_value(anonymous.to_value()).unwrap(), anonymous);
    assert_eq!(UserEntity::primary_key_column(), "id");
    assert_eq!(UserEntity::table_name(), "users");
}

#[test]
fn user_entity_rejects_bad_tables() {
    assert!(matches!(UserEntity::from_value(Value::Int(1)), Err(DbError::ConversionError(_))));
    let negative = Value::Table(vec![
        ("id".to_string(), Value::Bigint(-1)),
        ("username".to_string(), Value::Text("a".to_string())),
        ("email".to_string(), Value::Text("b".to_string())),
        ("age".to_string(), Value::Byte(1)),
    ]);
    assert!(matches!(UserEntity::from_value(negative), Err(DbError::ConversionError(_))));
    let short = Value::Table(vec![("id".to_string(), Value::Null)]);
    assert!(matches!(UserEntity::from_value(short), Err(DbError::ConversionError(_))));
}
