//! SQL statements that the schema layer issues.

use vstd::prelude::*;

use crate::text::{concat, owned};

verus! {

/// `DROP TABLE` for one table.
pub struct SQLDropTableStatement {
    pub table: String,
    pub if_exists: bool,
}

/// The text of a `DROP TABLE` statement.
pub open spec fn drop_table_text(table: Seq<char>, if_exists: bool) -> Seq<char> {
    "DROP TABLE"@ + (if if_exists { " IF EXISTS"@ } else { ""@ }) + " `"@ + table + "`;"@
}

impl SQLDropTableStatement {
    pub fn new(table: &str) -> (r: Self)
        ensures
            r.table@ == table@,
            !r.if_exists,
    {
        SQLDropTableStatement { table: owned(table), if_exists: false }
    }

    /// Drops the table only where it exists.
    pub fn if_exists(&mut self) -> (r: &mut Self)
        ensures
            *r == (SQLDropTableStatement { if_exists: true, ..*old(self) }),
            *final(self) == *final(r),
    {
        self.if_exists = true;
        self
    }

    pub fn to_string(&self) -> (r: String)
        ensures
            r@ == drop_table_text(self.table@, self.if_exists),
    {
        let head = concat("DROP TABLE", if self.if_exists { " IF EXISTS" } else { "" });
        let quoted = concat(head.as_str(), " `");
        let named = concat(quoted.as_str(), self.table.as_str());
        concat(named.as_str(), "`;")
    }
}

} // verus!
