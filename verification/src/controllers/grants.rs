//! The grants of a user, and how their privileges are written in SQL.

use vstd::prelude::*;

verus! {

/// A set of grants.
#[derive(Clone, Default, Debug)]
pub struct Grants {
    /// An optional identifier.
    pub name: Option<String>,
    pub user: String,
    pub database: Option<DatabaseGrant>,
    pub schema: Option<SchemaGrant>,
    pub table: Option<TableGrant>,
}

/// A set of database-specific grants.
#[derive(Clone, Default, Debug)]
pub struct DatabaseGrant {
    /// The granted privileges.
    pub grants: Vec<DatabasePrivilege>,
}

/// A set of schema-specific grants.
#[derive(Clone, Default, Debug)]
pub struct SchemaGrant {
    pub name: String,
    /// The granted privileges.
    pub grants: Vec<SchemaPrivilege>,
}

/// A set of table-specific grants.
#[derive(Clone, Default, Debug)]
pub struct TableGrant {
    /// The table name.
    pub name: String,
    /// The schema name.
    pub schema: Option<String>,
    /// The granted privileges.
    pub grants: Vec<TablePrivilege>,
}

#[derive(Clone, Debug)]
pub enum DatabasePrivilege {
    Connect,
    Create,
    Temporary,
    AllPrivileges,
}

#[derive(Clone, Debug)]
pub enum SchemaPrivilege {
    Usage,
    Create,
    AllPrivileges,
}

#[derive(Clone, Debug)]
pub enum TablePrivilege {
    Select,
    Insert,
    Update,
    Delete,
    Truncate,
    References,
    Trigger,
    AllPrivileges,
}

/// What is written into a SQL statement.
pub trait ToSql {
    /// The text of the value in SQL.
    spec fn sql(&self) -> Seq<char>;

    /// The value in SQL.
    fn to_sql(&self) -> (res: &str)
        ensures
            res@ == self.sql(),
    ;
}

impl ToSql for DatabasePrivilege {
    open spec fn sql(&self) -> Seq<char> {
        match self {
            DatabasePrivilege::Connect => "CONNECT"@,
            DatabasePrivilege::Create => "CREATE"@,
            DatabasePrivilege::Temporary => "TEMPORARY"@,
            DatabasePrivilege::AllPrivileges => "ALL PRIVILEGES"@,
        }
    }

    fn to_sql(&self) -> (res: &str) {
        match self {
            DatabasePrivilege::Connect => "CONNECT",
            DatabasePrivilege::Create => "CREATE",
            DatabasePrivilege::Temporary => "TEMPORARY",
            DatabasePrivilege::AllPrivileges => "ALL PRIVILEGES",
        }
    }
}

impl ToSql for SchemaPrivilege {
    open spec fn sql(&self) -> Seq<char> {
        match self {
            SchemaPrivilege::Usage => "USAGE"@,
            SchemaPrivilege::Create => "CREATE"@,
            SchemaPrivilege::AllPrivileges => "ALL PRIVILEGES"@,
        }
    }

    fn to_sql(&self) -> (res: &str) {
        match self {
            SchemaPrivilege::Usage => "USAGE",
            SchemaPrivilege::Create => "CREATE",
            SchemaPrivilege::AllPrivileges => "ALL PRIVILEGES",
        }
    }
}

impl ToSql for TablePrivilege {
    open spec fn sql(&self) -> Seq<char> {
        match self {
            TablePrivilege::Select => "SELECT"@,
            TablePrivilege::Insert => "INSERT"@,
            TablePrivilege::Update => "UPDATE"@,
            TablePrivilege::Delete => "DELETE"@,
            TablePrivilege::Truncate => "TRUNCATE"@,
            TablePrivilege::References => "REFERENCES"@,
            TablePrivilege::Trigger => "TRIGGER"@,
            TablePrivilege::AllPrivileges => "ALL PRIVILEGES"@,
        }
    }

    fn to_sql(&self) -> (res: &str) {
        match self {
            TablePrivilege::Select => "SELECT",
            TablePrivilege::Insert => "INSERT",
            TablePrivilege::Update => "UPDATE",
            TablePrivilege::Delete => "DELETE",
            TablePrivilege::Truncate => "TRUNCATE",
            TablePrivilege::References => "REFERENCES",
            TablePrivilege::Trigger => "TRIGGER",
            TablePrivilege::AllPrivileges => "ALL PRIVILEGES",
        }
    }
}

} // verus!
