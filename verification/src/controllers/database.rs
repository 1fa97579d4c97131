//! Databases: which statements a pass over a database runs, and what it tells
//! of them.

pub mod effects;
pub mod laws;
pub mod pass;
pub mod plan;
pub mod progress;

use crate::controllers::database::pass::Step;
use crate::controllers::exchange::{Action, ErrorPolicy, FinalizerEvent, ObjectMeta};
use crate::controllers::grants::Grants;
use crate::controllers::RECONCILE_INTERVAL;
use crate::error::{is_metric_label, Error};
use crate::names::NameMap;
use crate::outside::{is_name, regex_is_match, NAME_PATTERN};
use crate::text::{contains, contains_text, double, doubled, to_chars};
use vstd::prelude::*;
use vstd::string::StrSliceExecFns;

verus! {

pub const DATABASE_FINALIZER: &'static str = "database.db-operator.widemeadows.de";

/// The kind of the resource.
pub const DATABASE_KIND: &'static str = "Database";

/// The query that tells whether there is a database of a name.
pub const FIND_DATABASE: &'static str = "SELECT 1 FROM pg_database WHERE datname = $1;";

/// The longest name that PostgreSQL takes.
pub const MAX_NAME_LENGTH: usize = 63;

/// What is wanted of a database.
#[derive(Clone, Debug)]
pub struct DatabaseServerSpec {
    /// A reference to the `DatabaseServer` instance to use.
    pub server_ref: DatabaseServerRef,
    /// The name of the database to create.
    pub name: String,
    /// The optional database comment.
    pub comment: Option<String>,
    /// Whether to create the database when reconciling the resource.
    pub create: Option<bool>,
    /// Whether to delete the database when removing the resource.
    pub delete: bool,
    /// User grants to apply.
    pub grants: Vec<Grants>,
}

/// A reference to a `DatabaseServer`
#[derive(Clone, Default, Debug)]
pub struct DatabaseServerRef {
    /// A reference to the `DatabaseServer` instance.
    pub name: String,
}

/// The status object of `Database`
#[derive(Clone, Copy, Default, Debug, PartialEq, Eq, Structural)]
pub struct DatabaseStatus {
    pub processed: bool,
    pub created: bool,
}

impl View for DatabaseStatus {
    type V = DatabaseStatus;

    open spec fn view(&self) -> DatabaseStatus {
        *self
    }
}

/// A database on a server.
#[derive(Clone, Debug)]
pub struct Database {
    pub metadata: ObjectMeta,
    pub spec: DatabaseServerSpec,
    pub status: Option<DatabaseStatus>,
}

impl Database {
    /// Whether the database was created in an earlier pass.
    pub open spec fn created_before(self) -> bool {
        self.status matches Some(status) && status.created
    }

    /// Whether the database was created in an earlier pass.
    pub fn was_created(&self) -> (res: bool)
        ensures
            res == self.created_before(),
    {
        match &self.status {
            Some(status) => status.created,
            None => false,
        }
    }
}

/// The connections to the servers, each under the name of its `DatabaseServer`.
pub type Servers<P> = NameMap<P>;

/// The text of a result, or the text of its error.
pub open spec fn name_view(res: Result<String, String>) -> Result<Seq<char>, Seq<char>> {
    match res {
        Ok(name) => Ok(name@),
        Err(error) => Err(error@),
    }
}

/// A database name that can be used: it consists of one to 63 name characters.
pub open spec fn db_name(name: Seq<char>) -> Result<Seq<char>, Seq<char>> {
    if !is_name(name) {
        Err(
            "Invalid database name: Only alphanumeric characters and underscores are allowed."@,
        )
    } else if name.len() > MAX_NAME_LENGTH {
        Err("Invalid database name: Name must be 63 characters or fewer."@)
    } else {
        Ok(name)
    }
}

/// A user name that can be used: it consists of one to 63 name characters.
pub open spec fn user_name(name: Seq<char>) -> Result<Seq<char>, Seq<char>> {
    if !is_name(name) {
        Err("Invalid user name: Only alphanumeric characters and underscores are allowed."@)
    } else if name.len() > MAX_NAME_LENGTH {
        Err("Invalid user name: Name must be 63 characters or fewer."@)
    } else {
        Ok(name)
    }
}

/// Checks that a name can be used as the name of a database.
pub fn sanitize_db_name(name: &str) -> (res: Result<String, String>)
    ensures
        name_view(res) == db_name(name@),
{
    if !regex_is_match(NAME_PATTERN, name) {
        return Err(
            "Invalid database name: Only alphanumeric characters and underscores are allowed.".to_owned(),
        );
    }
    if name.unicode_len() > MAX_NAME_LENGTH {
        return Err("Invalid database name: Name must be 63 characters or fewer.".to_owned());
    }
    Ok(name.to_owned())
}

/// Checks that a name can be used as the name of a user.
pub fn sanitize_user_name(name: &str) -> (res: Result<String, String>)
    ensures
        name_view(res) == user_name(name@),
{
    if !regex_is_match(NAME_PATTERN, name) {
        return Err(
            "Invalid user name: Only alphanumeric characters and underscores are allowed.".to_owned(),
        );
    }
    if name.unicode_len() > MAX_NAME_LENGTH {
        return Err("Invalid user name: Name must be 63 characters or fewer.".to_owned());
    }
    Ok(name.to_owned())
}

/// A comment that can be written into a statement: it holds no SQL comment
/// marks, and only the printable ASCII characters.
pub open spec fn is_legal_comment(comment: Seq<char>) -> bool {
    &&& !contains_text(comment, "--"@)
    &&& !contains_text(comment, "/*"@)
    &&& !contains_text(comment, "*/"@)
    &&& forall|i: int| 0 <= i < comment.len() ==> ' ' <= #[trigger] comment[i] <= '~'
}

/// A comment as the body of a SQL string: quotes and backslashes are doubled.
pub open spec fn escaped_comment(comment: Seq<char>) -> Seq<char> {
    doubled(doubled(comment, '\''), '\\')
}

/// Whether a comment can be written into a statement.
pub fn legal_comment(comment: &str) -> (res: bool)
    ensures
        res == is_legal_comment(comment@),
{
    if contains(comment, "--") || contains(comment, "/*") || contains(comment, "*/") {
        return false;
    }
    let chars = to_chars(comment);
    let mut i: usize = 0;
    while i < chars.len()
        invariant
            i <= chars.len(),
            chars@ == comment@,
            forall|k: int| 0 <= k < i ==> ' ' <= #[trigger] comment@[k] <= '~',
        decreases chars.len() - i,
    {
        if chars[i] < ' ' || chars[i] > '~' {
            return false;
        }
        i = i + 1;
    }
    true
}

/// Writes a comment as the body of a SQL string.
pub fn sanitize_comment(comment: &str) -> (res: String)
    ensures
        res@ == escaped_comment(comment@),
{
    double(double(comment, '\'').as_str(), '\\')
}

/// Begins a pass over a database.
pub fn reconcile<P>(database: &Database, event: FinalizerEvent, servers: &Servers<P>) -> (res: Step)
    ensures
        ({
            let connected = servers@.contains_key(database.spec.server_ref.name@);
            match event {
                FinalizerEvent::Apply => res@ == database.reconcile_step(connected),
                FinalizerEvent::Cleanup => res@ == database.cleanup_step(connected),
            }
        }),
{
    match event {
        FinalizerEvent::Apply => database.reconcile(servers),
        FinalizerEvent::Cleanup => database.cleanup(servers),
    }
}

/// What is done when a pass over a database fails: the failure is counted, and
/// the database is looked at again after a while.
pub fn error_policy(doc: &Database, error: &Error) -> (res: ErrorPolicy)
    ensures
        res.instance@ == doc.metadata.any_name(),
        is_metric_label(error.view(), res.error@),
        res.action == Action::Requeue(RECONCILE_INTERVAL),
{
    ErrorPolicy {
        instance: doc.metadata.name_any(),
        error: error.metric_label(),
        action: Action::Requeue(RECONCILE_INTERVAL),
    }
}

} // verus!
