use vstd::prelude::*;
use vstd::string::StringExecFns;

use crate::placeholder::{decimal, decimal_digits};

verus! {

/// A statement failure, sub-classified where the driver gives a structured code.
#[derive(Clone, Debug, PartialEq, Eq)]
pub enum QueryErrorKind {
    SyntaxError(String),
    ForeignKeyViolation(String),
    UniqueViolation(String),
    NotNullViolation(String),
    CheckViolation(String),
    ExclusionViolation(String),
    Other(String),
}

/// The failures that the data-access layer reports.
#[derive(Clone, Debug, PartialEq, Eq)]
pub enum DbError {
    ConnectionError(String),
    QueryError(QueryErrorKind),
    TransactionError(String),
    PoolError(String),
    ConversionError(String),
}

/// The kind that a SQLSTATE code stands for, with the driver's message.
pub open spec fn sqlstate_kind(code: Seq<char>, message: Seq<char>) -> (int, Seq<char>) {
    if code == "42601"@ {
        (0, message)
    } else if code == "23503"@ {
        (1, message)
    } else if code == "23505"@ {
        (2, message)
    } else if code == "23502"@ {
        (3, message)
    } else if code == "23514"@ {
        (4, message)
    } else if code == "23P01"@ {
        (5, message)
    } else {
        (6, "code: "@ + code + ", message: "@ + message)
    }
}

/// The kind that a MySQL error code stands for, with the server's message.
pub open spec fn mysql_kind(code: u16, message: Seq<char>) -> (int, Seq<char>) {
    if code == 1451 || code == 1452 {
        (1, message)
    } else if code == 1062 {
        (2, message)
    } else if code == 1048 {
        (3, message)
    } else {
        (6, "code: "@ + decimal_digits(code as nat) + ", message: "@ + message)
    }
}

impl QueryErrorKind {
    /// A number for the variant and the message it carries.
    pub open spec fn parts(&self) -> (int, Seq<char>) {
        match self {
            QueryErrorKind::SyntaxError(m) => (0, m@),
            QueryErrorKind::ForeignKeyViolation(m) => (1, m@),
            QueryErrorKind::UniqueViolation(m) => (2, m@),
            QueryErrorKind::NotNullViolation(m) => (3, m@),
            QueryErrorKind::CheckViolation(m) => (4, m@),
            QueryErrorKind::ExclusionViolation(m) => (5, m@),
            QueryErrorKind::Other(m) => (6, m@),
        }
    }

    /// Classifies a failure by its SQLSTATE code: a syntax error, foreign key, unique,
    /// not-null, check and exclusion violations keep the driver's message; any
    /// other code becomes `Other` with the code and the message.
    pub fn from_sqlstate(code: &str, message: String) -> (r: QueryErrorKind)
        ensures
            r.parts() == sqlstate_kind(code@, message@),
    {
        proof {
            reveal_strlit("42601");
            reveal_strlit("23503");
            reveal_strlit("23505");
            reveal_strlit("23502");
            reveal_strlit("23514");
            reveal_strlit("23P01");
        }
        let c = String::from_str(code);
        if c == String::from_str("42601") {
            QueryErrorKind::SyntaxError(message)
        } else if c == String::from_str("23503") {
            QueryErrorKind::ForeignKeyViolation(message)
        } else if c == String::from_str("23505") {
            QueryErrorKind::UniqueViolation(message)
        } else if c == String::from_str("23502") {
            QueryErrorKind::NotNullViolation(message)
        } else if c == String::from_str("23514") {
            QueryErrorKind::CheckViolation(message)
        } else if c == String::from_str("23P01") {
            QueryErrorKind::ExclusionViolation(message)
        } else {
            let text = String::from_str("code: ").concat(code).concat(", message: ").concat(
                message.as_str(),
            );
            QueryErrorKind::Other(text)
        }
    }

    /// Classifies a MySQL server error by its code: 1451 and 1452 are foreign
    /// key violations, 1062 a unique violation and 1048 a not-null violation,
    /// each with the server's message; any other code becomes `Other` with the
    /// code and the message.
    pub fn from_mysql_code(code: u16, message: String) -> (r: QueryErrorKind)
        ensures
            r.parts() == mysql_kind(code, message@),
    {
        if code == 1451 || code == 1452 {
            QueryErrorKind::ForeignKeyViolation(message)
        } else if code == 1062 {
            QueryErrorKind::UniqueViolation(message)
        } else if code == 1048 {
            QueryErrorKind::NotNullViolation(message)
        } else {
            let digits = decimal(code as u64);
            let text = String::from_str("code: ").concat(digits.as_str()).concat(", message: ").concat(
                message.as_str(),
            );
            QueryErrorKind::Other(text)
        }
    }

    /// A readable description: a prefix for the kind, then the message.
    pub fn describe(&self) -> (r: String)
        ensures
            r@ == kind_prefix(self.parts().0) + self.parts().1,
    {
        match self {
            QueryErrorKind::SyntaxError(m) => String::from_str("SyntaxError: ").concat(m.as_str()),
            QueryErrorKind::ForeignKeyViolation(m) => String::from_str("ForeignKeyViolation: ").concat(
                m.as_str(),
            ),
            QueryErrorKind::UniqueViolation(m) => String::from_str("UniqueViolation: ").concat(
                m.as_str(),
            ),
            QueryErrorKind::NotNullViolation(m) => String::from_str("NotNullViolation: ").concat(
                m.as_str(),
            ),
            QueryErrorKind::CheckViolation(m) => String::from_str("CheckViolation: ").concat(
                m.as_str(),
            ),
            QueryErrorKind::ExclusionViolation(m) => String::from_str("ExclusionViolation: ").concat(
                m.as_str(),
            ),
            QueryErrorKind::Other(m) => String::from_str("Other: ").concat(m.as_str()),
        }
    }
}

pub open spec fn kind_prefix(k: int) -> Seq<char> {
    if k == 0 {
        "SyntaxError: "@
    } else if k == 1 {
        "ForeignKeyViolation: "@
    } else if k == 2 {
        "UniqueViolation: "@
    } else if k == 3 {
        "NotNullViolation: "@
    } else if k == 4 {
        "CheckViolation: "@
    } else if k == 5 {
        "ExclusionViolation: "@
    } else {
        "Other: "@
    }
}

impl From<String> for QueryErrorKind {
    fn from(s: String) -> (r: QueryErrorKind) {
        QueryErrorKind::Other(s)
    }
}

impl vstd::std_specs::convert::FromSpecImpl<String> for QueryErrorKind {
    open spec fn obeys_from_spec() -> bool {
        true
    }

    open spec fn from_spec(v: String) -> QueryErrorKind {
        QueryErrorKind::Other(v)
    }
}

impl DbError {
    /// A readable description: a prefix for the kind of failure, then its message.
    pub fn describe(&self) -> (r: String)
        ensures
            r@ == match self {
                DbError::ConnectionError(m) => "Connection error: "@ + m@,
                DbError::QueryError(k) => "Query error: "@ + kind_prefix(k.parts().0) + k.parts().1,
                DbError::TransactionError(m) => "Transaction error: "@ + m@,
                DbError::PoolError(m) => "Pool error: "@ + m@,
                DbError::ConversionError(m) => "Conversion error: "@ + m@,
            },
    {
        match self {
            DbError::ConnectionError(m) => String::from_str("Connection error: ").concat(m.as_str()),
            DbError::QueryError(k) => {
                let inner = k.describe();
                let r = String::from_str("Query error: ").concat(inner.as_str());
                assert(r@ == "Query error: "@ + (kind_prefix(k.parts().0) + k.parts().1));
                r
            },
            DbError::TransactionError(m) => String::from_str("Transaction error: ").concat(
                m.as_str(),
            ),
            DbError::PoolError(m) => String::from_str("Pool error: ").concat(m.as_str()),
            DbError::ConversionError(m) => String::from_str("Conversion error: ").concat(m.as_str()),
        }
    }
}

} // verus!
