//! The tasks of a pass over a database: the statements to run, in order, with
//! the events that tell what became of each.

use crate::controllers::database::{
    escaped_comment, is_legal_comment, legal_comment, sanitize_comment,
    sanitize_user_name, user_name, Database,
};
use crate::controllers::database_event_recorder::{
    event_of, DatabaseEventRecorder, EventAction, EventReason,
};
use crate::controllers::exchange::{
    Event, EventType, EventView, Statement, StatementView,
};
use crate::controllers::grants::{
    DatabasePrivilege, Grants, SchemaPrivilege, TablePrivilege, ToSql,
};
use vstd::prelude::*;
use vstd::string::StringExecFns;

verus! {

/// One task of a pass. The note of an event that tells of a failure ends where
/// the text of the error goes.
pub enum Task {
    /// Creates the database.
    Create { statement: Statement, success: Event, existed: Event, failed: Event },
    /// Runs a statement; the pass goes on whether it fails or not.
    Run { statement: Statement, done: Option<Event>, failed: Event },
    /// Publishes an event.
    Report(Event),
    /// Logs a message.
    Log(String),
    /// Publishes an event and ends the pass.
    Reject(Event),
}

/// The texts of a [`Task`].
pub enum TaskView {
    Create {
        statement: StatementView,
        success: EventView,
        existed: EventView,
        failed: EventView,
    },
    Run { statement: StatementView, done: Option<EventView>, failed: EventView },
    Report(EventView),
    Log(Seq<char>),
    Reject(EventView),
}

/// The texts of an optional event.
pub open spec fn optional_event(event: Option<Event>) -> Option<EventView> {
    match event {
        Some(event) => Some(event@),
        None => None,
    }
}

impl View for Task {
    type V = TaskView;

    open spec fn view(&self) -> TaskView {
        match *self {
            Task::Create { statement, success, existed, failed } => TaskView::Create {
                statement: statement@,
                success: success@,
                existed: existed@,
                failed: failed@,
            },
            Task::Run { statement, done, failed } => TaskView::Run {
                statement: statement@,
                done: optional_event(done),
                failed: failed@,
            },
            Task::Report(event) => TaskView::Report(event@),
            Task::Log(text) => TaskView::Log(text@),
            Task::Reject(event) => TaskView::Reject(event@),
        }
    }
}

/// The texts of a list of tasks.
pub open spec fn task_views(tasks: Seq<Task>) -> Seq<TaskView> {
    tasks.map_values(|task: Task| task@)
}

/// `CREATE DATABASE`.
pub open spec fn create_sql(database: Seq<char>) -> Seq<char> {
    "CREATE DATABASE \""@ + database + "\";"@
}

/// `DROP DATABASE`.
pub open spec fn drop_sql(database: Seq<char>) -> Seq<char> {
    "DROP DATABASE \""@ + database + "\";"@
}

/// `COMMENT ON DATABASE`.
pub open spec fn comment_sql(database: Seq<char>, comment: Seq<char>) -> Seq<char> {
    "COMMENT ON DATABASE \""@ + database + "\" IS '"@ + escaped_comment(comment) + "';"@
}

/// `GRANT ... ON DATABASE`.
pub open spec fn grant_sql(privilege: Seq<char>, database: Seq<char>, user: Seq<char>) -> Seq<
    char,
> {
    "GRANT "@ + privilege + " ON DATABASE \""@ + database + "\" TO \""@ + user + "\";"@
}

/// The message that a schema privilege cannot be granted.
pub open spec fn schema_message(
    privilege: Seq<char>,
    database: Seq<char>,
    user: Seq<char>,
) -> Seq<char> {
    "The following operation is currently not supported: GRANT "@ + privilege
        + " ON SCHEMA \""@ + database + "\" TO "@ + user + ";"@
}

/// The message that a table privilege cannot be granted.
pub open spec fn table_message(
    privilege: Seq<char>,
    schema: Seq<char>,
    database: Seq<char>,
    user: Seq<char>,
) -> Seq<char> {
    "The following operation is currently not supported: GRANT "@ + privilege + " ON TABLE "@
        + schema + "."@ + database + " TO "@ + user + ";"@
}

/// The task that creates the database of a resource.
pub open spec fn create_task(name: Seq<char>, database: Seq<char>) -> TaskView {
    TaskView::Create {
        statement: StatementView { sql: create_sql(database), argument: None },
        success: event_of(
            EventType::Normal,
            EventAction::CreateDatabase,
            EventReason::Success,
            "Successfully created database for "@ + name,
        ),
        existed: event_of(
            EventType::Normal,
            EventAction::CreateDatabase,
            EventReason::Success,
            "Database for "@ + name + " already existed"@,
        ),
        failed: event_of(
            EventType::Warning,
            EventAction::CreateDatabase,
            EventReason::Failed,
            "Unable to create database for "@ + name + ": "@,
        ),
    }
}

/// The task that applies the comment on a database, or that tells that it
/// cannot be applied.
pub open spec fn comment_task(
    name: Seq<char>,
    database: Seq<char>,
    comment: Seq<char>,
) -> TaskView {
    if is_legal_comment(comment) {
        TaskView::Run {
            statement: StatementView {
                sql: comment_sql(database, comment),
                argument: Some(comment),
            },
            done: None,
            failed: event_of(
                EventType::Warning,
                EventAction::ApplyComment,
                EventReason::Failed,
                "Failed to apply comment to database "@ + name + ": "@,
            ),
        }
    } else {
        TaskView::Report(
            event_of(
                EventType::Warning,
                EventAction::ApplyComment,
                EventReason::Ignored,
                "Comment for database "@ + name + " contains illegal characters - skipping"@,
            ),
        )
    }
}

/// The task that grants one privilege on a database.
pub open spec fn privilege_task(
    privilege: DatabasePrivilege,
    database: Seq<char>,
    user: Seq<char>,
) -> TaskView {
    TaskView::Run {
        statement: StatementView {
            sql: grant_sql(privilege.sql(), database, user),
            argument: None,
        },
        done: Some(
            event_of(
                EventType::Normal,
                EventAction::ApplyGrant,
                EventReason::Success,
                "Applied privilege "@ + privilege.sql() + " on database "@ + database + " to "@
                    + user,
            ),
        ),
        failed: event_of(
            EventType::Warning,
            EventAction::ApplyGrant,
            EventReason::Failed,
            "Failed to apply privilege "@ + privilege.sql() + " on database "@ + database
                + " to "@ + user + ": "@,
        ),
    }
}

/// The tasks that grant privileges on a database, in order.
pub open spec fn privilege_tasks(
    privileges: Seq<DatabasePrivilege>,
    database: Seq<char>,
    user: Seq<char>,
) -> Seq<TaskView> {
    Seq::new(privileges.len(), |i: int| privilege_task(privileges[i], database, user))
}

/// The tasks that tell of schema privileges, in order.
pub open spec fn schema_tasks(
    privileges: Seq<SchemaPrivilege>,
    database: Seq<char>,
    user: Seq<char>,
) -> Seq<TaskView> {
    Seq::new(
        privileges.len(),
        |i: int| TaskView::Log(schema_message(privileges[i].sql(), database, user)),
    )
}

/// The tasks that tell of table privileges, in order.
pub open spec fn table_tasks(
    privileges: Seq<TablePrivilege>,
    schema: Seq<char>,
    database: Seq<char>,
    user: Seq<char>,
) -> Seq<TaskView> {
    Seq::new(
        privileges.len(),
        |i: int| TaskView::Log(table_message(privileges[i].sql(), schema, database, user)),
    )
}

/// The schema of a table grant, which is `public` unless it is given.
pub open spec fn schema_name(schema: Option<String>) -> Seq<char> {
    match schema {
        Some(schema) => schema@,
        None => "public"@,
    }
}

/// The tasks for the database privileges of one user.
pub open spec fn on_database(grant: Grants, database: Seq<char>) -> Seq<TaskView> {
    match grant.database {
        Some(database_grant) => privilege_tasks(database_grant.grants@, database, grant.user@),
        None => Seq::empty(),
    }
}

/// The tasks for the schema privileges of one user.
pub open spec fn on_schema(grant: Grants, database: Seq<char>) -> Seq<TaskView> {
    match grant.schema {
        Some(schema_grant) => schema_tasks(schema_grant.grants@, database, grant.user@),
        None => Seq::empty(),
    }
}

/// The tasks for the table privileges of one user.
pub open spec fn on_table(grant: Grants, database: Seq<char>) -> Seq<TaskView> {
    match grant.table {
        Some(table_grant) => table_tasks(
            table_grant.grants@,
            schema_name(table_grant.schema),
            database,
            grant.user@,
        ),
        None => Seq::empty(),
    }
}

/// The tasks for the grants of one user: the privileges on the database are
/// granted, those on schemas and tables are logged.
pub open spec fn user_tasks(grant: Grants, database: Seq<char>) -> Seq<TaskView> {
    on_database(grant, database) + on_schema(grant, database) + on_table(grant, database)
}

/// The tasks for the grants of all users, in order, up to the first user whose
/// name cannot be used: there the pass ends.
pub open spec fn grants_tasks(
    grants: Seq<Grants>,
    name: Seq<char>,
    database: Seq<char>,
) -> Seq<TaskView>
    decreases grants.len(),
{
    if grants.len() == 0 {
        Seq::empty()
    } else {
        match user_name(grants[0].user@) {
            Err(error) => seq![
                TaskView::Reject(
                    event_of(
                        EventType::Warning,
                        EventAction::ApplyGrant,
                        EventReason::InvalidName,
                        "Invalid user name for "@ + name + ": "@ + error,
                    ),
                ),
            ],
            Ok(_) => user_tasks(grants[0], database) + grants_tasks(
                grants.drop_first(),
                name,
                database,
            ),
        }
    }
}

impl Database {
    /// Whether an earlier pass saw the database through, and it is there.
    pub open spec fn known(self, exists: bool) -> bool {
        self.status matches Some(status) && status.processed && exists
    }

    /// Whether the database is to be created: an earlier pass wrote a status,
    /// the database is not known, it was not created before, and its creation
    /// is not switched off.
    pub open spec fn wants_creation(self, exists: bool) -> bool {
        &&& self.status is Some
        &&& !self.known(exists)
        &&& !self.created_before()
        &&& self.spec.create != Some(false)
    }

    /// The tasks of a pass over a database of a usable name.
    pub open spec fn plan(self, exists: bool) -> Seq<TaskView> {
        let name = self.metadata.any_name();
        let database = self.spec.name@;
        let creation = if self.wants_creation(exists) {
            seq![create_task(name, database)]
        } else {
            Seq::empty()
        };
        let commenting = match self.spec.comment {
            Some(comment) => seq![comment_task(name, database, comment@)],
            None => Seq::empty(),
        };
        creation + commenting + grants_tasks(self.spec.grants@, name, database)
    }
}

/// Makes the task that creates a database.
fn make_create_task(name: &str, database: &str) -> (res: Task)
    ensures
        res@ == create_task(name@, database@),
{
    let recorder = DatabaseEventRecorder;
    Task::Create {
        statement: Statement {
            sql: "CREATE DATABASE \"".to_owned().concat(database).concat("\";"),
            argument: None,
        },
        success: recorder.info(
            EventAction::CreateDatabase,
            EventReason::Success,
            "Successfully created database for ".to_owned().concat(name),
        ),
        existed: recorder.info(
            EventAction::CreateDatabase,
            EventReason::Success,
            "Database for ".to_owned().concat(name).concat(" already existed"),
        ),
        failed: recorder.warn(
            EventAction::CreateDatabase,
            EventReason::Failed,
            "Unable to create database for ".to_owned().concat(name).concat(": "),
        ),
    }
}

/// Makes the task for the comment on a database.
fn make_comment_task(name: &str, database: &str, comment: &String) -> (res: Task)
    ensures
        res@ == comment_task(name@, database@, comment@),
{
    let recorder = DatabaseEventRecorder;
    if legal_comment(comment.as_str()) {
        let sanitized = sanitize_comment(comment.as_str());
        Task::Run {
            statement: Statement {
                sql: "COMMENT ON DATABASE \"".to_owned().concat(database).concat(
                    "\" IS '",
                ).concat(sanitized.as_str()).concat("';"),
                argument: Some(comment.clone()),
            },
            done: None,
            failed: recorder.warn(
                EventAction::ApplyComment,
                EventReason::Failed,
                "Failed to apply comment to database ".to_owned().concat(name).concat(": "),
            ),
        }
    } else {
        Task::Report(
            recorder.warn(
                EventAction::ApplyComment,
                EventReason::Ignored,
                "Comment for database ".to_owned().concat(name).concat(
                    " contains illegal characters - skipping",
                ),
            ),
        )
    }
}

/// Makes the task that grants one privilege.
fn make_privilege_task(privilege: &DatabasePrivilege, database: &str, user: &str) -> (res: Task)
    ensures
        res@ == privilege_task(*privilege, database@, user@),
{
    let recorder = DatabaseEventRecorder;
    let sql = privilege.to_sql();
    Task::Run {
        statement: Statement {
            sql: "GRANT ".to_owned().concat(sql).concat(" ON DATABASE \"").concat(
                database,
            ).concat("\" TO \"").concat(user).concat("\";"),
            argument: None,
        },
        done: Some(
            recorder.info(
                EventAction::ApplyGrant,
                EventReason::Success,
                "Applied privilege ".to_owned().concat(sql).concat(" on database ").concat(
                    database,
                ).concat(" to ").concat(user),
            ),
        ),
        failed: recorder.warn(
            EventAction::ApplyGrant,
            EventReason::Failed,
            "Failed to apply privilege ".to_owned().concat(sql).concat(" on database ").concat(
                database,
            ).concat(" to ").concat(user).concat(": "),
        ),
    }
}

/// Appends the tasks for the database privileges of one user.
fn push_database_tasks(tasks: &mut Vec<Task>, grant: &Grants, database: &str)
    ensures
        task_views(final(tasks)@) == task_views(old(tasks)@) + on_database(*grant, database@),
{
    let ghost start = task_views(tasks@);
    let ghost all = on_database(*grant, database@);
    if let Some(database_grant) = &grant.database {
        let mut i: usize = 0;
        while i < database_grant.grants.len()
            invariant
                i <= database_grant.grants@.len(),
                all == privilege_tasks(database_grant.grants@, database@, grant.user@),
                task_views(tasks@) == start + all.take(i as int),
            decreases database_grant.grants@.len() - i,
        {
            let ghost before = tasks@;
            tasks.push(
                make_privilege_task(&database_grant.grants[i], database, grant.user.as_str()),
            );
            i = i + 1;
            assert(task_views(tasks@) =~= task_views(before).push(tasks@.last()@));
            assert(all.take(i as int) =~= all.take(i - 1).push(all[i - 1]));
        }
        assert(all.take(i as int) =~= all);
    }
    assert(task_views(tasks@) =~= start + all);
}

/// Appends the tasks for the schema privileges of one user.
fn push_schema_tasks(tasks: &mut Vec<Task>, grant: &Grants, database: &str)
    ensures
        task_views(final(tasks)@) == task_views(old(tasks)@) + on_schema(*grant, database@),
{
    let ghost start = task_views(tasks@);
    let ghost all = on_schema(*grant, database@);
    if let Some(schema_grant) = &grant.schema {
        let mut i: usize = 0;
        while i < schema_grant.grants.len()
            invariant
                i <= schema_grant.grants@.len(),
                all == schema_tasks(schema_grant.grants@, database@, grant.user@),
                task_views(tasks@) == start + all.take(i as int),
            decreases schema_grant.grants@.len() - i,
        {
            let ghost before = tasks@;
            tasks.push(
                Task::Log(
                    "The following operation is currently not supported: GRANT ".to_owned().concat(
                        schema_grant.grants[i].to_sql(),
                    ).concat(" ON SCHEMA \"").concat(database).concat("\" TO ").concat(
                        grant.user.as_str(),
                    ).concat(";"),
                ),
            );
            i = i + 1;
            assert(task_views(tasks@) =~= task_views(before).push(tasks@.last()@));
            assert(all.take(i as int) =~= all.take(i - 1).push(all[i - 1]));
        }
        assert(all.take(i as int) =~= all);
    }
    assert(task_views(tasks@) =~= start + all);
}

/// Appends the tasks for the table privileges of one user.
fn push_table_tasks(tasks: &mut Vec<Task>, grant: &Grants, database: &str)
    ensures
        task_views(final(tasks)@) == task_views(old(tasks)@) + on_table(*grant, database@),
{
    let ghost start = task_views(tasks@);
    let ghost all = on_table(*grant, database@);
    if let Some(table_grant) = &grant.table {
        let schema = match &table_grant.schema {
            Some(schema) => schema.as_str(),
            None => "public",
        };
        let mut i: usize = 0;
        while i < table_grant.grants.len()
            invariant
                i <= table_grant.grants@.len(),
                all == table_tasks(table_grant.grants@, schema@, database@, grant.user@),
                task_views(tasks@) == start + all.take(i as int),
            decreases table_grant.grants@.len() - i,
        {
            let ghost before = tasks@;
            tasks.push(
                Task::Log(
                    "The following operation is currently not supported: GRANT ".to_owned().concat(
                        table_grant.grants[i].to_sql(),
                    ).concat(" ON TABLE ").concat(schema).concat(".").concat(database).concat(
                        " TO ",
                    ).concat(grant.user.as_str()).concat(";"),
                ),
            );
            i = i + 1;
            assert(task_views(tasks@) =~= task_views(before).push(tasks@.last()@));
            assert(all.take(i as int) =~= all.take(i - 1).push(all[i - 1]));
        }
        assert(all.take(i as int) =~= all);
    }
    assert(task_views(tasks@) =~= start + all);
}

/// Appends the tasks for the grants of one user.
fn push_user_tasks(tasks: &mut Vec<Task>, grant: &Grants, database: &str)
    ensures
        task_views(final(tasks)@) == task_views(old(tasks)@) + user_tasks(*grant, database@),
{
    push_database_tasks(tasks, grant, database);
    push_schema_tasks(tasks, grant, database);
    push_table_tasks(tasks, grant, database);
    assert(task_views(tasks@) =~= task_views(old(tasks)@) + user_tasks(*grant, database@));
}

/// Appends the tasks for the grants of all users, up to the first user whose
/// name cannot be used.
fn push_grants_tasks(tasks: &mut Vec<Task>, grants: &Vec<Grants>, name: &str, database: &str)
    ensures
        task_views(final(tasks)@) == task_views(old(tasks)@) + grants_tasks(
            grants@,
            name@,
            database@,
        ),
{
    let ghost start = task_views(tasks@);
    let mut i: usize = 0;
    assert(grants@.skip(0) =~= grants@);
    assert(start + grants_tasks(grants@, name@, database@) =~= task_views(tasks@) + grants_tasks(
        grants@.skip(0),
        name@,
        database@,
    ));
    while i < grants.len()
        invariant
            i <= grants@.len(),
            start + grants_tasks(grants@, name@, database@) == task_views(tasks@) + grants_tasks(
                grants@.skip(i as int),
                name@,
                database@,
            ),
            start == task_views(old(tasks)@),
        decreases grants@.len() - i,
    {
        let ghost rest = grants@.skip(i as int);
        let ghost before = tasks@;
        assert(rest[0] == grants@[i as int]);
        assert(rest.drop_first() =~= grants@.skip(i + 1));
        match sanitize_user_name(grants[i].user.as_str()) {
            Err(error) => {
                tasks.push(
                    Task::Reject(
                        DatabaseEventRecorder.warn(
                            EventAction::ApplyGrant,
                            EventReason::InvalidName,
                            "Invalid user name for ".to_owned().concat(name).concat(": ").concat(
                                error.as_str(),
                            ),
                        ),
                    ),
                );
                assert(task_views(tasks@) =~= task_views(before) + grants_tasks(
                    rest,
                    name@,
                    database@,
                ));
                return ;
            },
            Ok(_) => {
                push_user_tasks(tasks, &grants[i], database);
                assert(task_views(before) + (user_tasks(rest[0], database@) + grants_tasks(
                    rest.drop_first(),
                    name@,
                    database@,
                )) =~= task_views(tasks@) + grants_tasks(rest.drop_first(), name@, database@));
            },
        }
        i = i + 1;
    }
    assert(grants@.skip(i as int).len() == 0);
    assert(task_views(tasks@) + Seq::<TaskView>::empty() =~= task_views(tasks@));
}

impl Database {
    /// Makes the tasks of a pass over a database of a usable name.
    pub fn make_plan(&self, exists: bool) -> (res: Vec<Task>)
        ensures
            task_views(res@) == self.plan(exists),
    {
        let name = self.metadata.name_any();
        let database = self.spec.name.as_str();
        let mut tasks: Vec<Task> = Vec::new();
        if let Some(status) = &self.status {
            if !(status.processed && exists) {
                let should_create = match self.spec.create {
                    Some(create) => create,
                    None => true,
                };
                if !self.was_created() && should_create {
                    tasks.push(make_create_task(name.as_str(), database));
                }
            }
        }
        let ghost creation = task_views(tasks@);
        assert(creation =~= if self.wants_creation(exists) {
            seq![create_task(name@, database@)]
        } else {
            Seq::empty()
        });
        if let Some(comment) = &self.spec.comment {
            tasks.push(make_comment_task(name.as_str(), database, comment));
            assert(task_views(tasks@) =~= creation + seq![
                comment_task(name@, database@, comment@),
            ]);
        }
        push_grants_tasks(&mut tasks, &self.spec.grants, name.as_str(), database);
        assert(task_views(tasks@) =~= self.plan(exists));
        tasks
    }
}

} // verus!
