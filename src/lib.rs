//! A database-agnostic data-access layer: records are encoded to and decoded
//! from a dialect-neutral value tree, statements are rendered with the
//! placeholder style of the target dialect, and a transaction slot pins one
//! connection of a handle while a transaction is open.

pub mod adapter;
pub mod blob;
pub mod builder;
pub mod config;
pub mod error;
pub mod marshal;
pub mod placeholder;
pub mod shape;
pub mod statement;
pub mod text;
pub mod transaction;
pub mod users;
pub mod value;

pub use adapter::{Dao, RelationalDatabase};
pub use builder::SqlExecutor;
pub use config::{Connection, DatabaseConfig, DatabaseType};
pub use error::{DbError, QueryErrorKind};
pub use marshal::Entity;
pub use placeholder::PlaceholderStyle;
pub use users::{Repository, UserEntity, UserError, UserRepository, UserService};
pub use value::{Row, Timestamp, Value};
