use vstd::prelude::*;
use vstd::string::StringExecFns;

verus! {

/// Where and how to connect, and the largest number of pooled connections.
#[derive(Clone, Debug)]
pub struct DatabaseConfig {
    pub host: String,
    pub port: u16,
    pub username: String,
    pub password: String,
    pub database_name: String,
    pub max_size: u32,
}

impl DatabaseConfig {
    /// The settings used where the environment gives none.
    pub fn defaults() -> (r: DatabaseConfig)
        ensures
            r.host@ == "localhost"@,
            r.port == 3306,
            r.username@ == "root"@,
            r.password@ == "password"@,
            r.database_name@ == "bootrust_default_db"@,
            r.max_size == 20,
    {
        DatabaseConfig {
            host: String::from_str("localhost"),
            port: 3306,
            username: String::from_str("root"),
            password: String::from_str("password"),
            database_name: String::from_str("bootrust_default_db"),
            max_size: 20,
        }
    }
}

/// The database products that the layer speaks to.
#[derive(Clone, Copy, Debug, PartialEq, Eq, Structural)]
pub enum DatabaseType {
    Postgres,
    MySQL,
    SQLite,
}

/// The product that a lower-case name stands for.
pub open spec fn type_of_name(name: Seq<char>) -> Option<DatabaseType> {
    if name == "postgres"@ {
        Some(DatabaseType::Postgres)
    } else if name == "mysql"@ {
        Some(DatabaseType::MySQL)
    } else if name == "sqlite"@ {
        Some(DatabaseType::SQLite)
    } else {
        None
    }
}

/// What `str::to_lowercase` makes of a string.
pub uninterp spec fn lower_of(s: Seq<char>) -> Seq<char>;

/// Relies on `str::to_lowercase`: the lower-case form of the string, which
/// depends on its characters alone.
#[verifier::external_body]
fn lowercase(s: &str) -> (r: String)
    ensures
        r@ == lower_of(s@),
{
    s.to_lowercase()
}

impl DatabaseType {
    /// The product named by an already lower-case name: `postgres`, `mysql` or `sqlite`.
    pub fn from_folded_name(folded: &str) -> (r: Option<DatabaseType>)
        ensures
            r == type_of_name(folded@),
    {
        proof {
            reveal_strlit("postgres");
            reveal_strlit("mysql");
            reveal_strlit("sqlite");
        }
        let f = String::from_str(folded);
        if f == String::from_str("postgres") {
            Some(DatabaseType::Postgres)
        } else if f == String::from_str("mysql") {
            Some(DatabaseType::MySQL)
        } else if f == String::from_str("sqlite") {
            Some(DatabaseType::SQLite)
        } else {
            None
        }
    }

    /// The product a name stands for, in any letter case.
    pub fn from_name(name: &str) -> (r: Option<DatabaseType>)
        ensures
            r == type_of_name(lower_of(name@)),
    {
        let folded = lowercase(name);
        DatabaseType::from_folded_name(folded.as_str())
    }
}

/// A handle on one physical connection, as the pool hands it out.
pub struct Connection {}

} // verus!
