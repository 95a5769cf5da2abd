use vstd::prelude::*;
use vstd::string::StringExecFns;

use crate::error::DbError;
use crate::marshal::Entity;
use crate::value::{lemma_table_model, Value, ValueModel};

verus! {

/// A user record kept by the in-memory repository.
#[derive(Clone, Debug, PartialEq, Eq)]
pub struct UserEntity {
    pub id: Option<u32>,
    pub username: String,
    pub email: String,
    pub age: u8,
}

impl UserEntity {
    /// A user that has no id yet.
    pub fn new(username: String, email: String, age: u8) -> (r: UserEntity)
        ensures
            r == (UserEntity { id: None, username, email, age }),
    {
        UserEntity { id: None, username, email, age }
    }

    /// A copy with the same id, names and age.
    pub fn copy(&self) -> (r: UserEntity)
        ensures
            r == *self,
    {
        UserEntity { id: self.id, username: self.username.clone(), email: self.email.clone(), age: self.age }
    }
}

/// The value that a user's id is stored as: `Null` for none, else a `Bigint`.
pub open spec fn id_model(id: Option<u32>) -> ValueModel {
    match id {
        None => ValueModel::Null,
        Some(n) => ValueModel::Bigint(n as i64),
    }
}

/// Whether a value can be a stored id: `Null`, or a `Bigint` in `u32`'s range.
pub open spec fn is_id(v: ValueModel) -> bool {
    v is Null || (v is Bigint && 0 <= v->Bigint_0 <= u32::MAX)
}

/// The table of a user's fields, in declared order.
pub open spec fn user_table(id: ValueModel, username: Seq<char>, email: Seq<char>, age: u8) -> ValueModel {
    ValueModel::Table(
        seq![
            ("id"@, id),
            ("username"@, ValueModel::Text(username)),
            ("email"@, ValueModel::Text(email)),
            ("age"@, ValueModel::Byte(age)),
        ],
    )
}

impl Entity for UserEntity {
    open spec fn key_column() -> Seq<char> {
        "id"@
    }

    open spec fn encoded(&self) -> ValueModel {
        user_table(id_model(self.id), self.username@, self.email@, self.age)
    }

    /// A table of four fields, read by position: an id, two texts and a byte.
    open spec fn decoded(v: ValueModel) -> Option<ValueModel> {
        if v is Table && v->Table_0.len() == 4 && is_id(v->Table_0[0].1) && v->Table_0[1].1 is Text
            && v->Table_0[2].1 is Text && v->Table_0[3].1 is Byte {
            Some(
                user_table(
                    v->Table_0[0].1,
                    v->Table_0[1].1->Text_0,
                    v->Table_0[2].1->Text_0,
                    v->Table_0[3].1->Byte_0,
                ),
            )
        } else {
            None
        }
    }

    fn table_name() -> (r: String) {
        String::from_str("users")
    }

    fn primary_key_column() -> (r: String) {
        proof {
            reveal_strlit("id");
        }
        String::from_str("id")
    }

    fn to_value(&self) -> (r: Value) {
        proof {
            reveal_strlit("id");
            reveal_strlit("username");
            reveal_strlit("email");
            reveal_strlit("age");
        }
        let id = match self.id {
            None => Value::Null,
            Some(n) => Value::Bigint(n as i64),
        };
        let mut fields: Vec<(String, Value)> = Vec::new();
        fields.push((String::from_str("id"), id));
        fields.push((String::from_str("username"), Value::Text(self.username.clone())));
        fields.push((String::from_str("email"), Value::Text(self.email.clone())));
        fields.push((String::from_str("age"), Value::Byte(self.age)));
        proof {
            lemma_table_model(fields);
            assert(crate::value::fields_model(fields@) =~= self.encoded()->Table_0);
        }
        Value::Table(fields)
    }

    fn from_value(v: Value) -> (r: Result<UserEntity, DbError>) {
        proof {
            reveal_strlit("id");
            reveal_strlit("username");
            reveal_strlit("email");
            reveal_strlit("age");
        }
        let fs = match v {
            Value::Table(fs) => fs,
            _ => {
                return Err(DbError::ConversionError(String::from_str("a user is a table")));
            },
        };
        proof {
            lemma_table_model(fs);
        }
        if fs.len() != 4 {
            return Err(DbError::ConversionError(String::from_str("a user has four fields")));
        }
        let id = match &fs[0].1 {
            Value::Null => None,
            Value::Bigint(n) => {
                if *n < 0 || *n > u32::MAX as i64 {
                    return Err(DbError::ConversionError(String::from_str("a user id is a u32")));
                }
                Some(*n as u32)
            },
            _ => {
                return Err(DbError::ConversionError(String::from_str("Expected id value")));
            },
        };
        let username = match &fs[1].1 {
            Value::Text(s) => s.clone(),
            _ => {
                return Err(DbError::ConversionError(String::from_str("Expected string value")));
            },
        };
        let email = match &fs[2].1 {
            Value::Text(s) => s.clone(),
            _ => {
                return Err(DbError::ConversionError(String::from_str("Expected string value")));
            },
        };
        let age = match &fs[3].1 {
            Value::Byte(b) => *b,
            _ => {
                return Err(DbError::ConversionError(String::from_str("Expected u8 value")));
            },
        };
        let u = UserEntity { id, username, email, age };
        assert(u.encoded() =~~= UserEntity::decoded(v@)->Some_0);
        Ok(u)
    }
}

/// User round trip: a user's encoding decodes, and to the same encoding, so
/// decoding gives back a user with the same id, names and age.
pub proof fn lemma_user_round_trip(u: UserEntity)
    ensures
        UserEntity::decoded(u.encoded()) == Some(u.encoded()),
{
    assert(user_table(id_model(u.id), u.username@, u.email@, u.age)->Table_0[0].1 == id_model(u.id));
}

/// Two users with the same encoding have the same id, names and age.
pub proof fn lemma_user_encoding_injective(a: UserEntity, b: UserEntity)
    requires
        a.encoded() == b.encoded(),
    ensures
        a.id == b.id,
        a.username@ == b.username@,
        a.email@ == b.email@,
        a.age == b.age,
{
    let ta = a.encoded()->Table_0;
    let tb = b.encoded()->Table_0;
    assert(ta[0].1 == tb[0].1);
    assert(ta[1].1 == tb[1].1);
    assert(ta[2].1 == tb[2].1);
    assert(ta[3].1 == tb[3].1);
    if a.id is Some && b.id is Some {
        assert((a.id->Some_0 as i64) == (b.id->Some_0 as i64));
    }
}

#[derive(Clone, Debug, PartialEq, Eq)]
pub enum UserError {
    NotFound,
    InvalidInput(String),
}

/// Users by id, in the order of their ids, and the id that the next user gets.
pub struct UserRepository {
    pub users: Vec<UserEntity>,
    pub next_id: u32,
}

/// The user with the given id among `users`, if there is one.
pub open spec fn user_with_id(users: Seq<UserEntity>, id: u32) -> Option<UserEntity> {
    if exists|i: int| 0 <= i < users.len() && users[i].id == Some(id) {
        Some(users[choose|i: int| 0 <= i < users.len() && users[i].id == Some(id)])
    } else {
        None
    }
}

impl UserRepository {
    /// Every user has an id below `next_id`, and ids increase along the list.
    pub open spec fn wf(&self) -> bool {
        &&& self.next_id >= 1
        &&& forall|i: int| 0 <= i < self.users@.len() ==> (#[trigger] self.users@[i]).id is Some
        &&& forall|i: int|
            0 <= i < self.users@.len() ==> (#[trigger] self.users@[i]).id->Some_0 < self.next_id
        &&& forall|i: int, j: int|
            0 <= i < j < self.users@.len() ==> (#[trigger] self.users@[i]).id->Some_0
                < (#[trigger] self.users@[j]).id->Some_0
    }

    pub open spec fn lookup(&self, id: u32) -> Option<UserEntity> {
        user_with_id(self.users@, id)
    }

    /// An empty repository whose first user gets id one.
    pub fn new() -> (r: UserRepository)
        ensures
            r.wf(),
            r.users@.len() == 0,
            r.next_id == 1,
    {
        UserRepository { users: Vec::new(), next_id: 1 }
    }

    fn position(&self, id: u32) -> (r: Option<usize>)
        requires
            self.wf(),
        ensures
            r is None <==> self.lookup(id) is None,
            r is Some ==> r->Some_0 < self.users@.len() && self.users@[r->Some_0 as int].id
                == Some(id) && self.lookup(id) == Some(self.users@[r->Some_0 as int]),
    {
        let mut i: usize = 0;
        while i < self.users.len()
            invariant
                i <= self.users@.len(),
                self.wf(),
                forall|k: int| 0 <= k < i ==> (#[trigger] self.users@[k]).id != Some(id),
            decreases self.users@.len() - i,
        {
            if self.users[i].id == Some(id) {
                proof {
                    let c = choose|k: int| 0 <= k < self.users@.len() && self.users@[k].id == Some(id);
                    if c != i {
                        if c < i {
                            assert(self.users@[c].id != Some(id));
                        } else {
                            assert(self.users@[i as int].id->Some_0 < self.users@[c].id->Some_0);
                        }
                    }
                }
                return Some(i);
            }
            i = i + 1;
        }
        None
    }

    /// Stores the user under the next id and returns it with that id. Fails
    /// with an invalid-input error, storing nothing, when no id is left.
    pub fn create(&mut self, user: UserEntity) -> (r: Result<UserEntity, UserError>)
        requires
            old(self).wf(),
        ensures
            final(self).wf(),
            old(self).next_id == u32::MAX ==> r is Err && *final(self) == *old(self),
            old(self).next_id < u32::MAX ==> {
                &&& r == Ok::<UserEntity, UserError>(UserEntity { id: Some(old(self).next_id), ..user })
                &&& final(self).users@ == old(self).users@.push(r->Ok_0)
                &&& final(self).next_id == old(self).next_id + 1
            },
    {
        if self.next_id == u32::MAX {
            return Err(UserError::InvalidInput(String::from_str("no user id is left")));
        }
        let mut user = user;
        user.id = Some(self.next_id);
        self.users.push(user.copy());
        self.next_id = self.next_id + 1;
        Ok(user)
    }

    /// The user with the given id, or `NotFound`.
    pub fn find_by_id(&self, id: u32) -> (r: Result<UserEntity, UserError>)
        requires
            self.wf(),
        ensures
            self.lookup(id) matches Some(u) ==> r == Ok::<UserEntity, UserError>(u),
            self.lookup(id) is None ==> r matches Err(UserError::NotFound),
    {
        match self.position(id) {
            Some(i) => Ok(self.users[i].copy()),
            None => Err(UserError::NotFound),
        }
    }

    /// Every user, in the order of their ids.
    pub fn find_all(&self) -> (r: Result<Vec<UserEntity>, UserError>)
        requires
            self.wf(),
        ensures
            r is Ok,
            r->Ok_0@ == self.users@,
    {
        let mut out: Vec<UserEntity> = Vec::new();
        let mut i: usize = 0;
        while i < self.users.len()
            invariant
                i <= self.users@.len(),
                out@ == self.users@.take(i as int),
            decreases self.users@.len() - i,
        {
            out.push(self.users[i].copy());
            i = i + 1;
            assert(out@ =~= self.users@.take(i as int));
        }
        assert(self.users@.take(self.users@.len() as int) =~= self.users@);
        Ok(out)
    }

    /// Replaces the name, email and age of the user with the given id and
    /// returns the updated user, or fails with `NotFound`.
    pub fn update(&mut self, id: u32, user: UserEntity) -> (r: Result<UserEntity, UserError>)
        requires
            old(self).wf(),
        ensures
            final(self).wf(),
            final(self).next_id == old(self).next_id,
            old(self).lookup(id) is None ==> (r matches Err(UserError::NotFound)) && *final(self)
                == *old(self),
            old(self).lookup(id) matches Some(u) ==> {
                &&& r == Ok::<UserEntity, UserError>(
                    UserEntity { username: user.username, email: user.email, age: user.age, ..u },
                )
                &&& final(self).lookup(id) == Some(r->Ok_0)
                &&& final(self).users@.len() == old(self).users@.len()
                &&& forall|k: u32| k != id ==> #[trigger] final(self).lookup(k) == old(self).lookup(k)
            },
    {
        match self.position(id) {
            None => Err(UserError::NotFound),
            Some(i) => {
                let existing = self.users[i].copy();
                let updated = UserEntity {
                    id: existing.id,
                    username: user.username,
                    email: user.email,
                    age: user.age,
                };
                let ghost before = self.users@;
                self.users.set(i, updated.copy());
                proof {
                    assert(self.users@ == before.update(i as int, updated));
                    assert(self.users@[i as int] == updated);
                    assert forall|k: u32| k != id implies #[trigger] self.lookup(k) == old(self).lookup(k) by {
                        assert forall|m: int| 0 <= m < before.len() implies (#[trigger] self.users@[m]).id
                            == before[m].id by {}
                        if exists|m: int| 0 <= m < before.len() && before[m].id == Some(k) {
                            let m = choose|m: int| 0 <= m < before.len() && before[m].id == Some(k);
                            assert(m != i);
                            assert(self.users@[m] == before[m]);
                            let m2 = choose|m2: int| 0 <= m2 < self.users@.len() && self.users@[m2].id == Some(k);
                            if m2 != m {
                                if m2 < m {
                                    assert(self.users@[m2].id->Some_0 < self.users@[m].id->Some_0);
                                } else {
                                    assert(self.users@[m].id->Some_0 < self.users@[m2].id->Some_0);
                                }
                            }
                        } else {
                            assert forall|m: int| 0 <= m < self.users@.len() implies self.users@[m].id != Some(k) by {
                                if m != i {
                                    assert(self.users@[m] == before[m]);
                                }
                            }
                        }
                    }
                    let c = choose|m: int| 0 <= m < self.users@.len() && self.users@[m].id == Some(id);
                    if c != i {
                        if c < i {
                            assert(self.users@[c].id->Some_0 < self.users@[i as int].id->Some_0);
                        } else {
                            assert(self.users@[i as int].id->Some_0 < self.users@[c].id->Some_0);
                        }
                    }
                }
                Ok(updated)
            },
        }
    }

    /// Removes the user with the given id, or fails with `NotFound`.
    pub fn delete(&mut self, id: u32) -> (r: Result<(), UserError>)
        requires
            old(self).wf(),
        ensures
            final(self).wf(),
            final(self).next_id == old(self).next_id,
            old(self).lookup(id) is None ==> (r matches Err(UserError::NotFound)) && *final(self)
                == *old(self),
            old(self).lookup(id) is Some ==> {
                &&& r is Ok
                &&& final(self).lookup(id) is None
                &&& final(self).users@.len() + 1 == old(self).users@.len()
                &&& forall|k: u32| k != id ==> #[trigger] final(self).lookup(k) == old(self).lookup(k)
            },
    {
        match self.position(id) {
            None => Err(UserError::NotFound),
            Some(i) => {
                let ghost before = self.users@;
                let _removed = self.users.remove(i);
                proof {
                    assert(self.users@ == before.remove(i as int));
                    assert forall|m: int| 0 <= m < self.users@.len() implies self.users@[m].id != Some(id) by {
                        if m < i {
                            assert(self.users@[m] == before[m]);
                            assert(before[m].id->Some_0 < before[i as int].id->Some_0);
                        } else {
                            assert(self.users@[m] == before[m + 1]);
                            assert(before[i as int].id->Some_0 < before[m + 1].id->Some_0);
                        }
                    }
                    assert forall|a: int, b: int| 0 <= a < b < self.users@.len() implies (#[trigger] self.users@[a]).id->Some_0
                        < (#[trigger] self.users@[b]).id->Some_0 by {
                        let a0 = if a < i { a } else { a + 1 };
                        let b0 = if b < i { b } else { b + 1 };
                        assert(self.users@[a] == before[a0]);
                        assert(self.users@[b] == before[b0]);
                        assert(before[a0].id->Some_0 < before[b0].id->Some_0);
                    }
                    assert forall|m: int| 0 <= m < self.users@.len() implies (#[trigger] self.users@[m]).id is Some
                        && self.users@[m].id->Some_0 < self.next_id by {
                        let m0 = if m < i { m } else { m + 1 };
                        assert(self.users@[m] == before[m0]);
                    }
                    assert forall|k: u32| k != id implies #[trigger] self.lookup(k) == old(self).lookup(k) by {
                        if exists|m: int| 0 <= m < before.len() && before[m].id == Some(k) {
                            let m = choose|m: int| 0 <= m < before.len() && before[m].id == Some(k);
                            assert(m != i);
                            let m1 = if m < i { m } else { m - 1 };
                            assert(self.users@[m1] == before[m]);
                            let m2 = choose|m2: int| 0 <= m2 < self.users@.len() && self.users@[m2].id == Some(k);
                            if m2 != m1 {
                                if m2 < m1 {
                                    assert(self.users@[m2].id->Some_0 < self.users@[m1].id->Some_0);
                                } else {
                                    assert(self.users@[m1].id->Some_0 < self.users@[m2].id->Some_0);
                                }
                            }
                        } else {
                            assert forall|m: int| 0 <= m < self.users@.len() implies self.users@[m].id != Some(k) by {
                                let m0 = if m < i { m } else { m + 1 };
                                assert(self.users@[m] == before[m0]);
                            }
                        }
                    }
                }
                Ok(())
            },
        }
    }
}

/// The CRUD operations of a store of domain objects keyed by a numeric id.
pub trait Repository {
    type DomainObject;
    type Error;

    /// The store's internal invariant.
    spec fn valid(&self) -> bool;

    fn create(&mut self, object: Self::DomainObject) -> (r: Result<Self::DomainObject, Self::Error>)
        requires
            old(self).valid(),
        ensures
            final(self).valid(),
    ;

    fn find_by_id(&self, id: u32) -> (r: Result<Self::DomainObject, Self::Error>)
        requires
            self.valid(),
    ;

    fn find_all(&self) -> (r: Result<Vec<Self::DomainObject>, Self::Error>)
        requires
            self.valid(),
    ;

    fn update(&mut self, id: u32, object: Self::DomainObject) -> (r: Result<Self::DomainObject, Self::Error>)
        requires
            old(self).valid(),
        ensures
            final(self).valid(),
    ;

    fn delete(&mut self, id: u32) -> (r: Result<(), Self::Error>)
        requires
            old(self).valid(),
        ensures
            final(self).valid(),
    ;
}

impl Repository for UserRepository {
    type DomainObject = UserEntity;
    type Error = UserError;

    open spec fn valid(&self) -> bool {
        self.wf()
    }

    fn create(&mut self, object: UserEntity) -> (r: Result<UserEntity, UserError>) {
        UserRepository::create(self, object)
    }

    fn find_by_id(&self, id: u32) -> (r: Result<UserEntity, UserError>) {
        UserRepository::find_by_id(self, id)
    }

    fn find_all(&self) -> (r: Result<Vec<UserEntity>, UserError>) {
        UserRepository::find_all(self)
    }

    fn update(&mut self, id: u32, object: UserEntity) -> (r: Result<UserEntity, UserError>) {
        UserRepository::update(self, id, object)
    }

    fn delete(&mut self, id: u32) -> (r: Result<(), UserError>) {
        UserRepository::delete(self, id)
    }
}

/// Validation in front of a user repository.
pub struct UserService {
    pub repository: UserRepository,
}

/// The validation failure for the given input, if any: an empty user name, an
/// empty email, then an age of zero, checked in that order.
pub open spec fn invalid_reason(username: Seq<char>, email: Seq<char>, age: u8) -> Option<Seq<char>> {
    if username.len() == 0 {
        Some("Username cannot be empty"@)
    } else if email.len() == 0 {
        Some("Email cannot be empty"@)
    } else if age < 1 {
        Some("Age must be positive"@)
    } else {
        None
    }
}

impl UserService {
    pub fn new(repository: UserRepository) -> (r: UserService)
        ensures
            r.repository == repository,
    {
        UserService { repository }
    }

    /// Creates a user after checking that the name and email are not empty and
    /// the age is positive; a failed check stores nothing.
    pub fn create_user(&mut self, username: String, email: String, age: u8) -> (r: Result<UserEntity, UserError>)
        requires
            old(self).repository.wf(),
        ensures
            final(self).repository.wf(),
            invalid_reason(username@, email@, age) matches Some(m) ==> *final(self) == *old(self) && (r matches Err(UserError::InvalidInput(e)) && e@ == m),
            invalid_reason(username@, email@, age) is None && old(self).repository.next_id < u32::MAX ==> {
                &&& r == Ok::<UserEntity, UserError>(
                    UserEntity { id: Some(old(self).repository.next_id), username, email, age },
                )
                &&& final(self).repository.users@ == old(self).repository.users@.push(r->Ok_0)
                &&& final(self).repository.next_id == old(self).repository.next_id + 1
            },
            invalid_reason(username@, email@, age) is None && old(self).repository.next_id == u32::MAX
                ==> r is Err && *final(self) == *old(self),
    {
        if username.as_str().is_empty() {
            return Err(UserError::InvalidInput(String::from_str("Username cannot be empty")));
        }
        if email.as_str().is_empty() {
            return Err(UserError::InvalidInput(String::from_str("Email cannot be empty")));
        }
        if age < 1 {
            return Err(UserError::InvalidInput(String::from_str("Age must be positive")));
        }
        let user = UserEntity::new(username, email, age);
        self.repository.create(user)
    }

    /// The user with the given id, or `NotFound`.
    pub fn get_user(&self, id: u32) -> (r: Result<UserEntity, UserError>)
        requires
            self.repository.wf(),
        ensures
            self.repository.lookup(id) matches Some(u) ==> r == Ok::<UserEntity, UserError>(u),
            self.repository.lookup(id) is None ==> r matches Err(UserError::NotFound),
    {
        self.repository.find_by_id(id)
    }

    /// Every user, in the order of their ids.
    pub fn get_all_users(&self) -> (r: Result<Vec<UserEntity>, UserError>)
        requires
            self.repository.wf(),
        ensures
            r is Ok,
            r->Ok_0@ == self.repository.users@,
    {
        self.repository.find_all()
    }

    /// Replaces the name, email and age of the user with the given id.
    pub fn update_user(&mut self, id: u32, username: String, email: String, age: u8) -> (r: Result<UserEntity, UserError>)
        requires
            old(self).repository.wf(),
        ensures
            final(self).repository.wf(),
            old(self).repository.lookup(id) is None ==> (r matches Err(UserError::NotFound))
                && *final(self) == *old(self),
            old(self).repository.lookup(id) matches Some(u) ==> {
                &&& r == Ok::<UserEntity, UserError>(UserEntity { username, email, age, ..u })
                &&& final(self).repository.lookup(id) == Some(r->Ok_0)
                &&& forall|k: u32|
                    k != id ==> #[trigger] final(self).repository.lookup(k) == old(
                        self,
                    ).repository.lookup(k)
            },
    {
        let user = UserEntity::new(username, email, age);
        self.repository.update(id, user)
    }

    /// Removes the user with the given id, or fails with `NotFound`.
    pub fn delete_user(&mut self, id: u32) -> (r: Result<(), UserError>)
        requires
            old(self).repository.wf(),
        ensures
            final(self).repository.wf(),
            old(self).repository.lookup(id) is None ==> (r matches Err(UserError::NotFound))
                && *final(self) == *old(self),
            old(self).repository.lookup(id) is Some ==> r is Ok && final(self).repository.lookup(
                id,
            ) is None,
            old(self).repository.lookup(id) is Some ==> forall|k: u32|
                k != id ==> #[trigger] final(self).repository.lookup(k) == old(self).repository.lookup(k),
    {
        self.repository.delete(id)
    }
}

} // verus!
