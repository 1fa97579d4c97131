//! What calls over a database give, in terms of the resource, the servers and
//! the answers.

use crate::controllers::database::pass::{Pass, Request, Step};
use crate::controllers::database::plan::{
    comment_task, create_sql, create_task, drop_sql, grant_sql, grants_tasks, on_database,
    on_schema, on_table, privilege_task, task_views, user_tasks, Task, TaskView,
};
use crate::controllers::database::progress::{
    executed_by, how_applying_ends, inspection_found, lemma_unconnected, statement_of, statements,
    the_plan_is_executed, the_status_tells_what_was_seen, usable_users,
};
use crate::controllers::database::{
    db_name, error_policy, escaped_comment, is_legal_comment, legal_comment, reconcile,
    sanitize_comment, sanitize_db_name, sanitize_user_name, user_name, Database, Servers,
};
use crate::controllers::exchange::{
    Action, Answer, ErrorPolicy, Event, EventType, FinalizerEvent, ObjectMeta, Reply, Statement,
    StatementView,
};
use crate::controllers::grants::{DatabasePrivilege, Grants, ToSql};
use crate::error::{Error, Failure};
use crate::outside::{is_name, is_name_char};
use crate::text::{
    cut, doubled, doubling_can_be_undone, doubling_keeps_pairs, doubling_pairs, halved, holds,
    is_paired, lemma_cut_first, lemma_cut_none, lemma_holds,
};
use vstd::prelude::*;

verus! {

/// An ASCII letter or digit, or the underscore.
pub open spec fn is_plain_char(c: char) -> bool {
    'a' <= c <= 'z' || 'A' <= c <= 'Z' || '0' <= c <= '9' || c == '_'
}

/// All characters are plain.
pub open spec fn is_plain(text: Seq<char>) -> bool {
    forall|i: int| 0 <= i < text.len() ==> is_plain_char(#[trigger] text[i])
}

/// A name of one to 63 plain characters.
pub open spec fn is_plain_name(name: Seq<char>) -> bool {
    1 <= name.len() <= 63 && is_plain(name)
}

/// The texts of an event.
pub open spec fn tells(
    event: Event,
    type_: EventType,
    action: Seq<char>,
    reason: Seq<char>,
    note: Seq<char>,
) -> bool {
    &&& event.type_ == type_
    &&& event.action@ == action
    &&& event.reason@ == reason
    &&& event.note matches Some(told) && told@ == note
}

/// The name that a resource goes by.
pub open spec fn own_name(metadata: ObjectMeta) -> Seq<char> {
    match metadata.name {
        Some(name) => name@,
        None => match metadata.generate_name {
            Some(prefix) => prefix@,
            None => Seq::empty(),
        },
    }
}

/// The database is to be created: a status was written, in which it was not
/// created, it is not both processed and there, and its creation is not switched
/// off.
pub open spec fn creation_is_due(db: Database, found: bool) -> bool {
    match db.status {
        None => false,
        Some(status) => {
            &&& !status.created
            &&& !status.processed || !found
            &&& db.spec.create != Some(false)
        },
    }
}

/// The statement creates the database of a name: cut at its quotes, it gives
/// the name, letter for letter.
pub open spec fn creates(statement: Statement, database: Seq<char>) -> bool {
    &&& cut(statement.sql@, '"') == seq!["CREATE DATABASE "@, database, ";"@]
    &&& statement.argument is None
}

/// The statement drops the database of a name: cut at its quotes, it gives the
/// name, letter for letter.
pub open spec fn drops(statement: Statement, database: Seq<char>) -> bool {
    &&& cut(statement.sql@, '"') == seq!["DROP DATABASE "@, database, ";"@]
    &&& statement.argument matches Some(argument) && argument@ == database
}

/// The statement grants a privilege on a database to a user: cut at its quotes,
/// it gives the names of both, letter for letter.
pub open spec fn grants_to(
    statement: Statement,
    privilege: Seq<char>,
    database: Seq<char>,
    user: Seq<char>,
) -> bool {
    &&& cut(statement.sql@, '"') == seq![
        "GRANT "@ + privilege + " ON DATABASE "@,
        database,
        " TO "@,
        user,
        ";"@,
    ]
    &&& statement.argument is None
}

/// The body of a SQL string stands for a text: every quote and every backslash
/// in it is doubled, and it reads back as the text.
pub open spec fn stands_for(body: Seq<char>, text: Seq<char>) -> bool {
    &&& is_paired(body, '\'')
    &&& is_paired(body, '\\')
    &&& is_paired(halved(body, '\\'), '\'')
    &&& halved(halved(body, '\\'), '\'') == text
}

/// The statement writes a comment on a database.
pub open spec fn comments_on(
    statement: Statement,
    database: Seq<char>,
    comment: Seq<char>,
) -> bool {
    &&& statement.argument matches Some(argument) && argument@ == comment
    &&& exists|body: Seq<char>|
        {
            &&& #[trigger] stands_for(body, comment)
            &&& statement.sql@ == "COMMENT ON DATABASE \""@ + database + "\" IS '"@ + body + "';"@
        }
}

/// Why a name that is not plain cannot be the name of a user.
pub open spec fn user_complaint(name: Seq<char>) -> Seq<char> {
    if name.len() > 63 && is_plain(name) {
        "Invalid user name: Name must be 63 characters or fewer."@
    } else {
        "Invalid user name: Only alphanumeric characters and underscores are allowed."@
    }
}

/// Why a name that is not plain cannot be the name of a database.
pub open spec fn database_complaint(name: Seq<char>) -> Seq<char> {
    if name.len() > 63 && is_plain(name) {
        "Invalid database name: Name must be 63 characters or fewer."@
    } else {
        "Invalid database name: Only alphanumeric characters and underscores are allowed."@
    }
}

/// Names are usable exactly when they are plain, and are then used as they are.
/// The error tells a name that is too long from one of other characters.
pub proof fn plain_names_are_used_as_they_are(
    name: &str,
    database: Result<String, String>,
    user: Result<String, String>,
)
    requires
        call_ensures(sanitize_db_name, (name,), database),
        call_ensures(sanitize_user_name, (name,), user),
    ensures
        database is Ok <==> is_plain_name(name@),
        user is Ok <==> is_plain_name(name@),
        database matches Ok(used) ==> used@ == name@,
        user matches Ok(used) ==> used@ == name@,
        database matches Err(error) ==> error@ == database_complaint(name@),
        user matches Err(error) ==> error@ == user_complaint(name@),
{
    lemma_plain(name@);
}

/// A name can be used exactly when it is plain.
proof fn lemma_plain(name: Seq<char>)
    ensures
        is_name(name) <==> name.len() > 0 && is_plain(name),
        db_name(name) is Ok <==> is_plain_name(name),
        user_name(name) is Ok <==> is_plain_name(name),
        is_plain(name) ==> !name.contains('"'),
{
    if is_name(name) {
        assert forall|i: int| 0 <= i < name.len() implies is_plain_char(#[trigger] name[i]) by {
            assert(is_name_char(name[i]));
        }
    }
    if is_plain(name) {
        assert forall|i: int| 0 <= i < name.len() implies is_name_char(#[trigger] name[i]) by {
            assert(is_plain_char(name[i]));
        }
    }
}

/// All characters are printable ASCII, and none of the marks of a SQL comment is
/// held.
pub open spec fn is_writable(comment: Seq<char>) -> bool {
    &&& forall|i: int|
        0 <= i < comment.len() ==> {
            let code = (#[trigger] comment[i]) as int;
            32 <= code && code <= 126
        }
    &&& !holds(comment, "--"@)
    &&& !holds(comment, "/*"@)
    &&& !holds(comment, "*/"@)
}

/// A comment is written exactly when all its characters are printable ASCII, and
/// it holds none of the marks of a SQL comment.
pub proof fn printable_comments_are_legal(comment: &str, res: bool)
    requires
        call_ensures(legal_comment, (comment,), res),
    ensures
        res <==> is_writable(comment@),
{
    lemma_writable(comment@);
}

/// A comment is legal exactly when it is writable.
proof fn lemma_writable(comment: Seq<char>)
    ensures
        is_legal_comment(comment) <==> is_writable(comment),
{
    lemma_holds(comment, "--"@);
    lemma_holds(comment, "/*"@);
    lemma_holds(comment, "*/"@);
}

/// An escaped comment stands for the comment.
proof fn lemma_escaped(comment: Seq<char>)
    ensures
        stands_for(escaped_comment(comment), comment),
{
    let quoted = doubled(comment, '\'');
    doubling_pairs(comment, '\'');
    doubling_keeps_pairs(quoted, '\\', '\'');
    doubling_pairs(quoted, '\\');
    doubling_can_be_undone(quoted, '\\');
    doubling_can_be_undone(comment, '\'');
}

/// A written comment stands for the comment: no quote in it ends the string, and
/// it reads back as it was given.
pub proof fn comments_are_written_as_given(comment: &str, res: String)
    requires
        call_ensures(sanitize_comment, (comment,), res),
    ensures
        stands_for(res@, comment@),
{
    lemma_escaped(comment@);
}

/// What the statements give when they are cut at their quotes.
proof fn lemma_cut_statements(database: Seq<char>, user: Seq<char>, privilege: DatabasePrivilege)
    requires
        !database.contains('"'),
        !user.contains('"'),
    ensures
        cut(create_sql(database), '"') == seq!["CREATE DATABASE "@, database, ";"@],
        cut(drop_sql(database), '"') == seq!["DROP DATABASE "@, database, ";"@],
        cut(grant_sql(privilege.sql(), database, user), '"') == seq![
            "GRANT "@ + privilege.sql() + " ON DATABASE "@,
            database,
            " TO "@,
            user,
            ";"@,
        ],
{
    reveal_strlit("CREATE DATABASE \"");
    reveal_strlit("CREATE DATABASE ");
    reveal_strlit("DROP DATABASE \"");
    reveal_strlit("DROP DATABASE ");
    reveal_strlit("\";");
    reveal_strlit(";");
    reveal_strlit("GRANT ");
    reveal_strlit(" ON DATABASE \"");
    reveal_strlit(" ON DATABASE ");
    reveal_strlit("\" TO \"");
    reveal_strlit(" TO ");
    reveal_strlit("CONNECT");
    reveal_strlit("CREATE");
    reveal_strlit("TEMPORARY");
    reveal_strlit("ALL PRIVILEGES");
    let quote = seq!['"'];
    let end = database + quote + ";"@;
    lemma_cut_none(";"@, '"');
    lemma_cut_first(database, ";"@, '"');
    lemma_cut_first("CREATE DATABASE "@, end, '"');
    lemma_cut_first("DROP DATABASE "@, end, '"');
    assert(create_sql(database) =~= "CREATE DATABASE "@ + quote + end);
    assert(drop_sql(database) =~= "DROP DATABASE "@ + quote + end);
    assert(cut(create_sql(database), '"') =~= seq!["CREATE DATABASE "@, database, ";"@]);
    assert(cut(drop_sql(database), '"') =~= seq!["DROP DATABASE "@, database, ";"@]);
    let head = "GRANT "@ + privilege.sql() + " ON DATABASE "@;
    let user_end = user + quote + ";"@;
    let to_end = " TO "@ + quote + user_end;
    lemma_cut_first(user, ";"@, '"');
    lemma_cut_first(" TO "@, user_end, '"');
    lemma_cut_first(database, to_end, '"');
    assert(!head.contains('"')) by {
        assert forall|i: int| 0 <= i < head.len() implies head[i] != '"' by {
            let p = privilege.sql();
            if i < 6 {
                assert(head[i] == "GRANT "@[i]);
            } else if i < 6 + p.len() {
                assert(head[i] == p[i - 6]);
            } else {
                assert(head[i] == " ON DATABASE "@[i - 6 - p.len()]);
            }
        }
    }
    lemma_cut_first(head, database + quote + to_end, '"');
    let sql = grant_sql(privilege.sql(), database, user);
    assert(sql =~= head + quote + (database + quote + to_end));
    assert(cut(sql, '"') =~= seq![head, database, " TO "@, user, ";"@]);
}

/// A plan begins with the creation of the database of the resource where it is
/// due, and creates nothing else.
pub proof fn plans_create_what_is_due(db: Database, found: bool, plan: Vec<Task>)
    requires
        call_ensures(Database::make_plan, (&db, found), plan),
        is_plain_name(db.spec.name@),
    ensures
        creation_is_due(db, found) ==> plan@.len() > 0 && {
            let name = own_name(db.metadata);
            &&& plan@[0] matches Task::Create { statement, success, existed, failed }
            &&& creates(statement, db.spec.name@)
            &&& tells(
                success,
                EventType::Normal,
                "CreateDatabase"@,
                "Success"@,
                "Successfully created database for "@ + name,
            )
            &&& tells(
                existed,
                EventType::Normal,
                "CreateDatabase"@,
                "Success"@,
                "Database for "@ + name + " already existed"@,
            )
            &&& tells(
                failed,
                EventType::Warning,
                "CreateDatabase"@,
                "Failed"@,
                "Unable to create database for "@ + name + ": "@,
            )
        },
        forall|i: int|
            0 <= i < plan@.len() && #[trigger] plan@[i] is Create ==> i == 0 && creation_is_due(
                db,
                found,
            ),
{
    let views = task_views(plan@);
    assert(views == db.plan(found));
    assert(views.len() == plan@.len());
    assert(forall|i: int| 0 <= i < plan@.len() ==> views[i] == (#[trigger] plan@[i])@);
    db.lemma_creation_comes_first(found);
    assert(db.wants_creation(found) == creation_is_due(db, found));
    lemma_plain(db.spec.name@);
    lemma_cut_statements(db.spec.name@, Seq::empty(), DatabasePrivilege::Connect);
    assert forall|i: int| 0 <= i < plan@.len() && #[trigger] plan@[i] is Create implies i == 0
        && creation_is_due(db, found) by {
        assert(views[i] is Create);
        if i > 0 {
            assert(views.drop_first()[i - 1] == views[i]);
        }
    }
}

/// A legal comment is planned to be written on the database of the resource,
/// right after the creation where that is due; an illegal one is told.
pub proof fn plans_write_the_comment(
    db: Database,
    found: bool,
    plan: Vec<Task>,
    comment: String,
)
    requires
        call_ensures(Database::make_plan, (&db, found), plan),
        db.spec.comment == Some(comment),
    ensures
        ({
            let at: int = if creation_is_due(db, found) {
                1
            } else {
                0
            };
            let name = own_name(db.metadata);
            &&& at < plan@.len()
            &&& is_writable(comment@) ==> {
                &&& plan@[at] matches Task::Run { statement, done, failed }
                &&& comments_on(statement, db.spec.name@, comment@)
                &&& done is None
                &&& tells(
                    failed,
                    EventType::Warning,
                    "ApplyComment"@,
                    "Failed"@,
                    "Failed to apply comment to database "@ + name + ": "@,
                )
            }
            &&& !is_writable(comment@) ==> {
                &&& plan@[at] matches Task::Report(event)
                &&& tells(
                    event,
                    EventType::Warning,
                    "ApplyComment"@,
                    "Ignored"@,
                    "Comment for database "@ + name
                        + " contains illegal characters - skipping"@,
                )
            }
        }),
{
    let at: int = if creation_is_due(db, found) {
        1
    } else {
        0
    };
    let views = task_views(plan@);
    assert(views == db.plan(found));
    assert(views.len() == plan@.len());
    assert(db.wants_creation(found) == creation_is_due(db, found));
    assert(views[at] == comment_task(db.metadata.any_name(), db.spec.name@, comment@));
    assert(views[at] == plan@[at]@);
    lemma_writable(comment@);
    lemma_escaped(comment@);
    assert(stands_for(escaped_comment(comment@), comment@));
}

/// How many privileges on the database, on schemas and on tables a user is to
/// have.
pub open spec fn database_count(grant: Grants) -> nat {
    match grant.database {
        Some(granted) => granted.grants@.len(),
        None => 0,
    }
}

pub open spec fn schema_count(grant: Grants) -> nat {
    match grant.schema {
        Some(granted) => granted.grants@.len(),
        None => 0,
    }
}

pub open spec fn table_count(grant: Grants) -> nat {
    match grant.table {
        Some(granted) => granted.grants@.len(),
        None => 0,
    }
}

/// How many privileges the users before a position are to have.
pub open spec fn count_before(grants: Seq<Grants>, user: int) -> nat
    decreases user,
{
    if user <= 0 {
        0
    } else {
        count_before(grants, user - 1) + database_count(grants[user - 1]) + schema_count(
            grants[user - 1],
        ) + table_count(grants[user - 1])
    }
}

/// The names of the users before a position are plain.
pub open spec fn plain_before(grants: Seq<Grants>, user: int) -> bool {
    forall|i: int| 0 <= i < user ==> is_plain_name((#[trigger] grants[i]).user@)
}

/// Counting can begin with the first user.
proof fn lemma_count_from_first(grants: Seq<Grants>, user: int)
    requires
        0 < user <= grants.len(),
    ensures
        count_before(grants, user) == count_before(grants, 1) + count_before(
            grants.drop_first(),
            user - 1,
        ),
    decreases user,
{
    if user > 1 {
        lemma_count_from_first(grants, user - 1);
        assert(grants.drop_first()[user - 2] == grants[user - 1]);
    }
}

/// Where the tasks of a user stand.
proof fn lemma_grant_positions(grants: Seq<Grants>, name: Seq<char>, database: Seq<char>, user: int)
    requires
        0 <= user <= grants.len(),
        plain_before(grants, user),
    ensures
        ({
            let tasks = grants_tasks(grants, name, database);
            let at = count_before(grants, user) as int;
            &&& user == grants.len() ==> tasks.len() == at
            &&& user < grants.len() && user_name(grants[user].user@) is Ok ==> {
                let own = user_tasks(grants[user], database);
                &&& tasks.len() >= at + own.len()
                &&& tasks.subrange(at, at + own.len()) == own
            }
            &&& user < grants.len() && user_name(grants[user].user@) is Err ==> {
                &&& tasks.len() == at + 1
                &&& tasks.skip(at) == grants_tasks(grants.skip(user), name, database)
            }
        }),
    decreases grants.len(),
{
    let tasks = grants_tasks(grants, name, database);
    if user == 0 {
        assert(grants.skip(0) =~= grants);
        assert(tasks.skip(0) =~= tasks);
        if grants.len() > 0 && user_name(grants[0].user@) is Ok {
            let own = user_tasks(grants[0], database);
            assert(tasks.subrange(0, own.len() as int) =~= own);
        }
    } else {
        let others = grants.drop_first();
        let own = user_tasks(grants[0], database);
        lemma_plain(grants[0].user@);
        assert(is_plain_name(grants[0].user@));
        assert forall|i: int| 0 <= i < user - 1 implies is_plain_name(
            (#[trigger] others[i]).user@,
        ) by {
            assert(others[i] == grants[i + 1]);
        }
        lemma_grant_positions(others, name, database, user - 1);
        lemma_count_from_first(grants, user);
        let rest = grants_tasks(others, name, database);
        let at = count_before(grants, user) as int;
        let later = count_before(others, user - 1) as int;
        assert(tasks == own + rest);
        assert(count_before(grants, 0) == 0);
        assert(own.len() == count_before(grants, 1));
        assert(at == own.len() + later);
        if user < grants.len() {
            assert(others[user - 1] == grants[user]);
            let mine = user_tasks(grants[user], database);
            if user_name(grants[user].user@) is Ok {
                assert(tasks.subrange(at, at + mine.len()) =~= rest.subrange(
                    later,
                    later + mine.len(),
                ));
            } else {
                assert(tasks.skip(at) =~= rest.skip(later));
                assert(others.skip(user - 1) =~= grants.skip(user));
            }
        }
    }
}

/// The position of the first task for grants in a plan.
pub open spec fn grants_begin(db: Database, found: bool) -> int {
    (if creation_is_due(db, found) {
        1int
    } else {
        0
    }) + (if db.spec.comment is Some {
        1int
    } else {
        0
    })
}

/// Every privilege on the database that a user is to have is planned to be
/// granted to that very user, at its own position, as long as the names of the
/// users up to it are plain.
pub proof fn plans_grant_every_privilege(
    db: Database,
    found: bool,
    plan: Vec<Task>,
    user: int,
    privilege: int,
)
    requires
        call_ensures(Database::make_plan, (&db, found), plan),
        is_plain_name(db.spec.name@),
        0 <= user < db.spec.grants@.len(),
        plain_before(db.spec.grants@, user + 1),
        0 <= privilege < database_count(db.spec.grants@[user]),
    ensures
        ({
            let at = grants_begin(db, found) + count_before(db.spec.grants@, user) + privilege;
            let granted = (db.spec.grants@[user].database->0).grants@[privilege].sql();
            let to = db.spec.grants@[user].user@;
            let told = " privilege "@ + granted + " on database "@ + db.spec.name@ + " to "@ + to;
            &&& at < plan@.len()
            &&& plan@[at] matches Task::Run { statement, done, failed }
            &&& grants_to(statement, granted, db.spec.name@, to)
            &&& done matches Some(event) && tells(
                event,
                EventType::Normal,
                "ApplyGrant"@,
                "Success"@,
                "Applied"@ + told,
            )
            &&& tells(
                failed,
                EventType::Warning,
                "ApplyGrant"@,
                "Failed"@,
                "Failed to apply"@ + told + ": "@,
            )
        }),
{
    let grants = db.spec.grants@;
    let database = db.spec.name@;
    let name = db.metadata.any_name();
    let views = task_views(plan@);
    assert(views == db.plan(found));
    assert(views.len() == plan@.len());
    let begin = grants_begin(db, found);
    let tasks = grants_tasks(grants, name, database);
    let own = user_tasks(grants[user], database);
    let before = count_before(grants, user) as int;
    let granted = (grants[user].database->0).grants@[privilege];
    let to = grants[user].user@;
    assert(db.wants_creation(found) == creation_is_due(db, found));
    assert(is_plain_name(to));
    lemma_plain(to);
    lemma_plain(database);
    assert(plain_before(grants, user)) by {
        assert(forall|i: int| 0 <= i < user ==> is_plain_name((#[trigger] grants[i]).user@));
    }
    lemma_grant_positions(grants, name, database, user);
    assert(own[privilege] == privilege_task(granted, database, to));
    assert(tasks.subrange(before, before + own.len())[privilege] == tasks[before + privilege]);
    assert(views[begin + before + privilege] == tasks[before + privilege]);
    assert(views[begin + before + privilege] == plan@[begin + before + privilege]@);
    lemma_cut_statements(database, to, granted);
    reveal_strlit("Applied");
    reveal_strlit("Failed to apply");
    reveal_strlit(" privilege ");
    reveal_strlit("Applied privilege ");
    reveal_strlit("Failed to apply privilege ");
    let told = " privilege "@ + granted.sql() + " on database "@ + database + " to "@ + to;
    assert("Applied privilege "@ =~= "Applied"@ + " privilege "@);
    assert("Failed to apply privilege "@ =~= "Failed to apply"@ + " privilege "@);
    assert("Applied privilege "@ + granted.sql() + " on database "@ + database + " to "@ + to
        =~= "Applied"@ + told);
    assert("Failed to apply privilege "@ + granted.sql() + " on database "@ + database + " to "@
        + to + ": "@ =~= "Failed to apply"@ + told + ": "@);
}

/// Every privilege on schemas and on tables that a user is to have is planned to
/// be logged, after the privileges on the database of that user.
pub proof fn plans_log_other_privileges(
    db: Database,
    found: bool,
    plan: Vec<Task>,
    user: int,
    privilege: int,
)
    requires
        call_ensures(Database::make_plan, (&db, found), plan),
        0 <= user < db.spec.grants@.len(),
        plain_before(db.spec.grants@, user + 1),
        0 <= privilege < schema_count(db.spec.grants@[user]) + table_count(db.spec.grants@[user]),
    ensures
        ({
            let grant = db.spec.grants@[user];
            let at = grants_begin(db, found) + count_before(db.spec.grants@, user)
                + database_count(grant) + privilege;
            let lead = "The following operation is currently not supported: GRANT "@;
            &&& at < plan@.len()
            &&& plan@[at] matches Task::Log(text)
            &&& privilege < schema_count(grant) ==> text@ == lead + (
            grant.schema->0).grants@[privilege].sql() + " ON SCHEMA \""@ + db.spec.name@
                + "\" TO "@ + grant.user@ + ";"@
            &&& privilege >= schema_count(grant) ==> text@ == lead + (
            grant.table->0).grants@[privilege - schema_count(grant)].sql() + " ON TABLE "@ + (
            match (grant.table->0).schema {
                Some(schema) => schema@,
                None => "public"@,
            }) + "."@ + db.spec.name@ + " TO "@ + grant.user@ + ";"@
        }),
{
    let grants = db.spec.grants@;
    let grant = grants[user];
    let database = db.spec.name@;
    let name = db.metadata.any_name();
    let views = task_views(plan@);
    assert(views == db.plan(found));
    assert(views.len() == plan@.len());
    let begin = grants_begin(db, found);
    let tasks = grants_tasks(grants, name, database);
    let own = user_tasks(grant, database);
    let before = count_before(grants, user) as int;
    let k = database_count(grant) + privilege;
    assert(db.wants_creation(found) == creation_is_due(db, found));
    assert(is_plain_name(grant.user@));
    lemma_plain(grant.user@);
    assert(plain_before(grants, user)) by {
        assert(forall|i: int| 0 <= i < user ==> is_plain_name((#[trigger] grants[i]).user@));
    }
    lemma_grant_positions(grants, name, database, user);
    assert(tasks.subrange(before, before + own.len())[k] == tasks[before + k]);
    assert(views[begin + before + k] == tasks[before + k]);
    assert(views[begin + before + k] == plan@[begin + before + k]@);
    if privilege < schema_count(grant) {
        assert(own[k] == on_schema(grant, database)[privilege]);
    } else {
        assert(own[k] == on_table(grant, database)[privilege - schema_count(grant)]);
    }
}

/// A plan holds nothing but the creation, the comment and the privileges. It
/// ends at the first user whose name is not plain, with an event that tells it.
pub proof fn plans_hold_nothing_else(db: Database, found: bool, plan: Vec<Task>, user: int)
    requires
        call_ensures(Database::make_plan, (&db, found), plan),
        0 <= user <= db.spec.grants@.len(),
        plain_before(db.spec.grants@, user),
    ensures
        ({
            let at = grants_begin(db, found) + count_before(db.spec.grants@, user);
            &&& user == db.spec.grants@.len() ==> plan@.len() == at
            &&& user < db.spec.grants@.len() && !is_plain_name(db.spec.grants@[user].user@) ==> {
                &&& plan@.len() == at + 1
                &&& plan@[at] matches Task::Reject(event)
                &&& tells(
                    event,
                    EventType::Warning,
                    "ApplyGrant"@,
                    "InvalidName"@,
                    "Invalid user name for "@ + own_name(db.metadata) + ": "@ + user_complaint(
                        db.spec.grants@[user].user@,
                    ),
                )
            }
        }),
{
    let grants = db.spec.grants@;
    let name = db.metadata.any_name();
    let views = task_views(plan@);
    assert(views == db.plan(found));
    assert(views.len() == plan@.len());
    let begin = grants_begin(db, found);
    let tasks = grants_tasks(grants, name, db.spec.name@);
    let before = count_before(grants, user) as int;
    assert(db.wants_creation(found) == creation_is_due(db, found));
    lemma_grant_positions(grants, name, db.spec.name@, user);
    if user < grants.len() {
        lemma_plain(grants[user].user@);
        if !is_plain_name(grants[user].user@) {
            assert(grants.skip(user)[0] == grants[user]);
            assert(tasks.skip(before)[0] == tasks[before]);
            assert(views[begin + before] == tasks[before]);
            assert(views[begin + before] == plan@[begin + before]@);
            assert(user_name(grants[user].user@)->Err_0 == user_complaint(grants[user].user@));
        }
    }
}

/// Two statements that are alike are about the same: no two databases are
/// created or dropped by one statement, and no two grants are made by one.
pub proof fn statements_tell_names_apart(
    statement: Statement,
    database: Seq<char>,
    other: Seq<char>,
    privilege: Seq<char>,
    other_privilege: Seq<char>,
    user: Seq<char>,
    other_user: Seq<char>,
)
    ensures
        creates(statement, database) && creates(statement, other) ==> database == other,
        drops(statement, database) && drops(statement, other) ==> database == other,
        grants_to(statement, privilege, database, user) && grants_to(
            statement,
            other_privilege,
            other,
            other_user,
        ) ==> privilege == other_privilege && database == other && user == other_user,
        !(creates(statement, database) && drops(statement, other)),
        !(creates(statement, database) && grants_to(statement, privilege, other, user)),
        !(drops(statement, database) && grants_to(statement, privilege, other, user)),
{
    reveal_strlit("CREATE DATABASE ");
    reveal_strlit("DROP DATABASE ");
    let parts = cut(statement.sql@, '"');
    if creates(statement, database) && creates(statement, other) {
        assert(parts[1] == database && parts[1] == other);
    }
    if drops(statement, database) && drops(statement, other) {
        assert(parts[1] == database && parts[1] == other);
    }
    if creates(statement, database) && drops(statement, other) {
        assert(parts[0][0] == 'C' && parts[0][0] == 'D');
    }
    if grants_to(statement, privilege, database, user) && grants_to(
        statement,
        other_privilege,
        other,
        other_user,
    ) {
        assert(parts[1] == database && parts[1] == other);
        assert(parts[3] == user && parts[3] == other_user);
        let end = " ON DATABASE "@;
        let head = "GRANT "@;
        let whole = head + privilege + end;
        assert(whole == head + other_privilege + end);
        assert(whole.len() == head.len() + privilege.len() + end.len());
        assert(whole.subrange(head.len() as int, whole.len() - end.len()) =~= privilege);
        assert(whole.subrange(head.len() as int, whole.len() - end.len()) =~= other_privilege);
    }
    if creates(statement, database) && grants_to(statement, privilege, other, user) {
        assert(parts.len() == 3);
    }
    if drops(statement, database) && grants_to(statement, privilege, other, user) {
        assert(parts.len() == 3);
    }
}

/// A pass that applies a resource begins with looking for the database of the
/// resource, by its own name, on the server that the resource refers to. Where
/// that very server is not connected, this is told, and the resource is looked
/// at again later.
pub proof fn applying_begins_with_the_inspection<P>(db: Database, servers: Servers<P>, step: Step)
    requires
        call_ensures(Database::reconcile::<P>, (&db, &servers), step),
    ensures
        servers@.contains_key(db.spec.server_ref.name@) ==> {
            &&& step matches Step::Ask(Request::Find(statement), Pass::Inspecting)
            &&& statement.sql@ == "SELECT 1 FROM pg_database WHERE datname = $1;"@
            &&& statement.argument matches Some(argument) && argument@ == db.spec.name@
        },
        !servers@.contains_key(db.spec.server_ref.name@) ==> {
            &&& step matches Step::Ask(Request::Publish(event), Pass::Ending(action))
            &&& action == Action::Requeue(300)
            &&& tells(
                event,
                EventType::Warning,
                "CreateDatabase"@,
                "MissingServer"@,
                "Unable to create database for "@ + own_name(db.metadata)
                    + " due to unresolved server reference: "@ + db.spec.server_ref.name@,
            )
        },
{
    assert(step@ == db.reconcile_step(servers@.contains_key(db.spec.server_ref.name@)));
}

/// A pass that cleans up drops the database of the resource, by its own name,
/// exactly when that is requested, the server that the resource refers to is
/// connected, and the name is plain. Otherwise it tells why it does not.
pub proof fn cleaning_up_drops_the_database<P>(db: Database, servers: Servers<P>, step: Step)
    requires
        call_ensures(Database::cleanup::<P>, (&db, &servers), step),
    ensures
        ({
            let name = own_name(db.metadata);
            let connected = servers@.contains_key(db.spec.server_ref.name@);
            let plain = is_plain_name(db.spec.name@);
            &&& db.spec.delete && connected && plain ==> {
                &&& step matches Step::Ask(Request::Execute(statement), Pass::Dropping)
                &&& drops(statement, db.spec.name@)
            }
            &&& !db.spec.delete ==> {
                &&& step matches Step::Ask(Request::Publish(event), Pass::Ending(action))
                &&& action == Action::AwaitChange
                &&& tells(
                    event,
                    EventType::Normal,
                    "DeleteDatabase"@,
                    "Ignored"@,
                    "Skipping deletion of database for "@ + name + " due to configuration"@,
                )
            }
            &&& db.spec.delete && !connected ==> {
                &&& step matches Step::Ask(Request::Publish(event), Pass::Ending(action))
                &&& action == Action::Requeue(300)
                &&& tells(
                    event,
                    EventType::Normal,
                    "DeleteDatabase"@,
                    "MissingServer"@,
                    "Unable to create database for "@ + name
                        + " due to unresolved server reference: "@ + db.spec.server_ref.name@,
                )
            }
            &&& db.spec.delete && connected && !plain ==> {
                &&& step matches Step::Ask(Request::Publish(event), Pass::Ending(action))
                &&& action == Action::Requeue(300)
                &&& tells(
                    event,
                    EventType::Normal,
                    "DeleteDatabase"@,
                    "InvalidName"@,
                    "Invalid database name for "@ + name + ": "@ + database_complaint(
                        db.spec.name@,
                    ),
                )
            }
        }),
{
    assert(step@ == db.cleanup_step(servers@.contains_key(db.spec.server_ref.name@)));
    lemma_plain(db.spec.name@);
    if is_plain_name(db.spec.name@) {
        lemma_cut_statements(db.spec.name@, Seq::empty(), DatabasePrivilege::Connect);
    }
}

/// The database that is looked for, the one that is created and the one that is
/// dropped are one and the same.
pub proof fn one_database_is_meant<P>(
    db: Database,
    servers: Servers<P>,
    found: bool,
    first: Step,
    plan: Vec<Task>,
    last: Step,
)
    requires
        call_ensures(Database::reconcile::<P>, (&db, &servers), first),
        call_ensures(Database::make_plan, (&db, found), plan),
        call_ensures(Database::cleanup::<P>, (&db, &servers), last),
        is_plain_name(db.spec.name@),
    ensures
        first matches Step::Ask(Request::Find(looked), _) ==> (last matches Step::Ask(
            Request::Execute(dropped),
            _,
        ) ==> (plan@.len() > 0 && plan@[0] is Create ==> {
            let created = plan@[0]->Create_statement.sql@;
            &&& looked.argument is Some
            &&& cut(created, '"')[1] == looked.argument->0@
            &&& cut(dropped.sql@, '"')[1] == looked.argument->0@
        })),
{
    applying_begins_with_the_inspection(db, servers, first);
    cleaning_up_drops_the_database(db, servers, last);
    plans_create_what_is_due(db, found, plan);
}

/// The event that says why a pass begins decides on the pass.
pub proof fn the_finalizer_decides<P>(
    db: Database,
    event: FinalizerEvent,
    servers: Servers<P>,
    step: Step,
    applied: Step,
    cleaned: Step,
)
    requires
        call_ensures(reconcile::<P>, (&db, event, &servers), step),
        call_ensures(Database::reconcile::<P>, (&db, &servers), applied),
        call_ensures(Database::cleanup::<P>, (&db, &servers), cleaned),
    ensures
        event is Apply ==> step@ == applied@,
        event is Cleanup ==> step@ == cleaned@,
{
}

/// A failed pass is counted under the name of the resource and the label of the
/// error, and the resource is looked at again after five minutes.
pub proof fn failed_passes_are_counted(
    db: Database,
    error: Error,
    policy: ErrorPolicy,
    label: String,
)
    requires
        call_ensures(error_policy, (&db, &error), policy),
        call_ensures(Error::metric_label, (&error,), label),
    ensures
        policy.instance@ == own_name(db.metadata),
        policy.error@ == label@,
        policy.action == Action::Requeue(300),
{
}

/// The same failure, by its texts.
pub open spec fn same_failure(failure: Failure, other: Failure) -> bool {
    failure.message@ == other.message@ && failure.debug@ == other.debug@
}

/// The same event, by its texts.
pub open spec fn same_event(event: Event, other: Event) -> bool {
    &&& event.type_ == other.type_
    &&& event.action@ == other.action@
    &&& event.reason@ == other.reason@
    &&& match (event.note, other.note) {
        (Some(note), Some(other_note)) => note@ == other_note@,
        (None, None) => true,
        _ => false,
    }
}

/// The same events, or none.
pub open spec fn same_events(event: Option<Event>, other: Option<Event>) -> bool {
    match (event, other) {
        (Some(event), Some(other)) => same_event(event, other),
        (None, None) => true,
        _ => false,
    }
}

/// The same statement, by its texts.
pub open spec fn same_statement(statement: Statement, other: Statement) -> bool {
    &&& statement.sql@ == other.sql@
    &&& match (statement.argument, other.argument) {
        (Some(argument), Some(other_argument)) => argument@ == other_argument@,
        (None, None) => true,
        _ => false,
    }
}

/// The same task, by its texts.
pub open spec fn same_task(task: Task, other: Task) -> bool {
    match (task, other) {
        (
            Task::Create { statement, success, existed, failed },
            Task::Create {
                statement: other_statement,
                success: other_success,
                existed: other_existed,
                failed: other_failed,
            },
        ) => {
            &&& same_statement(statement, other_statement)
            &&& same_event(success, other_success)
            &&& same_event(existed, other_existed)
            &&& same_event(failed, other_failed)
        },
        (
            Task::Run { statement, done, failed },
            Task::Run { statement: other_statement, done: other_done, failed: other_failed },
        ) => {
            &&& same_statement(statement, other_statement)
            &&& same_events(done, other_done)
            &&& same_event(failed, other_failed)
        },
        (Task::Report(event), Task::Report(other_event)) => same_event(event, other_event),
        (Task::Log(text), Task::Log(other_text)) => text@ == other_text@,
        (Task::Reject(event), Task::Reject(other_event)) => same_event(event, other_event),
        _ => false,
    }
}

/// The same tasks in the same order, by their texts.
pub open spec fn same_tasks(tasks: Seq<Task>, others: Seq<Task>) -> bool {
    &&& tasks.len() == others.len()
    &&& forall|i: int| 0 <= i < tasks.len() ==> same_task(#[trigger] tasks[i], others[i])
}

/// Tasks of the same view are the same.
proof fn lemma_same_tasks(tasks: Seq<Task>, others: Seq<Task>)
    requires
        task_views(tasks) == task_views(others),
    ensures
        same_tasks(tasks, others),
{
    assert(task_views(tasks).len() == tasks.len());
    assert(task_views(others).len() == others.len());
    assert forall|i: int| 0 <= i < tasks.len() implies same_task(
        #[trigger] tasks[i],
        others[i],
    ) by {
        assert(task_views(tasks)[i] == tasks[i]@);
        assert(task_views(others)[i] == others[i]@);
    }
}

/// The same event, with the message of a failure at the end of its note.
pub open spec fn ends_with_failure(event: Event, before: Event, failure: Failure) -> bool {
    &&& event.type_ == before.type_
    &&& event.action@ == before.action@
    &&& event.reason@ == before.reason@
    &&& before.note matches Some(note) ==> {
        event.note matches Some(told) && told@ == note@ + failure.message@
    }
}

/// A creation that was refused leaves the database created exactly when the
/// message of the refusal holds the words `already exists`; that is then told,
/// and any other refusal is told with its message. The tasks that are left stay
/// the same.
pub proof fn only_what_exists_counts_as_created(
    db: Database,
    success: Event,
    existed: Event,
    failed: Event,
    rest: Vec<Task>,
    reply: Reply,
    step: Step,
)
    requires
        call_ensures(
            Database::resume,
            (&db, Pass::Creating { success, existed, failed, rest }, reply),
            step,
        ),
    ensures
        step matches Step::Ask(Request::Publish(event), Pass::Reporting { rest: left, created }) && {
            &&& same_tasks(left@, rest@)
            &&& match reply {
                Ok(_) => created && same_event(event, success),
                Err(failure) => {
                    &&& created <==> holds(failure.message@, "already exists"@)
                    &&& created ==> same_event(event, existed)
                    &&& !created ==> ends_with_failure(event, failed, failure)
                },
            }
        },
{
    if let Step::Ask(_, Pass::Reporting { rest: left, created }) = step {
        lemma_same_tasks(left@, rest@);
    }
    if let Err(failure) = reply {
        lemma_holds(failure.message@, "already exists"@);
    }
}

/// What became of a statement is told in the event that was made for it, and a
/// failure with its message. The tasks that are left, and whether the database
/// was created, stay the same.
pub proof fn what_became_of_statements_is_told(
    db: Database,
    done: Option<Event>,
    failed: Event,
    rest: Vec<Task>,
    created: bool,
    reply: Reply,
    step: Step,
)
    requires
        call_ensures(
            Database::resume,
            (&db, Pass::Running { done, failed, rest, created }, reply),
            step,
        ),
        reply is Err || done is Some,
    ensures
        step matches Step::Ask(
            Request::Publish(event),
            Pass::Reporting { rest: left, created: still },
        ) && {
            &&& same_tasks(left@, rest@)
            &&& still == created
            &&& match reply {
                Ok(_) => same_event(event, done->0),
                Err(failure) => ends_with_failure(event, failed, failure),
            }
        },
{
    if let Step::Ask(_, Pass::Reporting { rest: left, created: still }) = step {
        lemma_same_tasks(left@, rest@);
    }
}

/// The step turns to the first of the tasks, and keeps the others for later. It
/// writes the status when there is none.
pub open spec fn turns_to(db: Database, step: Step, tasks: Seq<Task>, created: bool) -> bool {
    let others = tasks.drop_first();
    if tasks.len() == 0 {
        &&& step matches Step::Ask(Request::PatchStatus(patch), Pass::Patching)
        &&& patch.name@ == own_name(db.metadata)
        &&& patch.status.processed
        &&& patch.status.created == created
    } else {
        match tasks[0] {
            Task::Create { statement, success, existed, failed } => {
                &&& step matches Step::Ask(
                    Request::Execute(run),
                    Pass::Creating { success: told, existed: known, failed: warned, rest },
                )
                &&& same_statement(run, statement)
                &&& same_event(told, success)
                &&& same_event(known, existed)
                &&& same_event(warned, failed)
                &&& same_tasks(rest@, others)
            },
            Task::Run { statement, done, failed } => {
                &&& step matches Step::Ask(
                    Request::Execute(run),
                    Pass::Running { done: told, failed: warned, rest, created: still },
                )
                &&& same_statement(run, statement)
                &&& same_events(told, done)
                &&& same_event(warned, failed)
                &&& same_tasks(rest@, others)
                &&& still == created
            },
            Task::Report(event) => {
                &&& step matches Step::Ask(
                    Request::Publish(told),
                    Pass::Reporting { rest, created: still },
                )
                &&& same_event(told, event)
                &&& same_tasks(rest@, others)
                &&& still == created
            },
            Task::Log(text) => {
                &&& step matches Step::Ask(
                    Request::Log(told),
                    Pass::Logging { rest, created: still },
                )
                &&& told@ == text@
                &&& same_tasks(rest@, others)
                &&& still == created
            },
            Task::Reject(event) => {
                &&& step matches Step::Ask(Request::Publish(told), Pass::Ending(action))
                &&& same_event(told, event)
                &&& action == Action::Requeue(300)
            },
        }
    }
}

/// Steps that look alike turn to tasks that look alike.
proof fn lemma_turns_to(db: Database, step: Step, tasks: Seq<Task>, created: bool)
    requires
        step@ == db.next_step(task_views(tasks), created),
    ensures
        turns_to(db, step, tasks, created),
{
    let views = task_views(tasks);
    let others = tasks.drop_first();
    assert(views.len() == tasks.len());
    if tasks.len() > 0 {
        assert(views[0] == tasks[0]@);
        assert(task_views(others) =~= views.drop_first());
        match step {
            Step::Ask(_, Pass::Creating { success, existed, failed, rest }) => {
                lemma_same_tasks(rest@, others);
            },
            Step::Ask(_, Pass::Running { done, failed, rest, created: still }) => {
                lemma_same_tasks(rest@, others);
            },
            Step::Ask(_, Pass::Reporting { rest, created: still }) => {
                lemma_same_tasks(rest@, others);
            },
            Step::Ask(_, Pass::Logging { rest, created: still }) => {
                lemma_same_tasks(rest@, others);
            },
            _ => {},
        }
    }
}

/// Once the inspection succeeded, a pass over a database of a plain name turns to
/// its plan. Tasks are then taken in turn: after an event was published, a
/// message logged or a statement run of which nothing is told.
pub proof fn tasks_are_taken_in_turn(
    db: Database,
    pass: Pass,
    reply: Reply,
    step: Step,
    plan: Vec<Task>,
)
    requires
        call_ensures(Database::resume, (&db, pass, reply), step),
        reply matches Ok(answer) ==> call_ensures(
            Database::make_plan,
            (&db, answered_found(reply)),
            plan,
        ),
    ensures
        match (pass, reply) {
            (Pass::Inspecting, Ok(_)) => is_plain_name(db.spec.name@) ==> turns_to(
                db,
                step,
                plan@,
                db.status is Some && db.status->0.processed && answered_found(reply),
            ),
            (Pass::Running { done, failed, rest, created }, Ok(_)) => done is None ==> turns_to(
                db,
                step,
                rest@,
                created,
            ),
            (Pass::Reporting { rest, created }, Ok(_)) => turns_to(db, step, rest@, created),
            (Pass::Logging { rest, created }, _) => turns_to(db, step, rest@, created),
            _ => true,
        },
{
    lemma_plain(db.spec.name@);
    match (pass, reply) {
        (Pass::Inspecting, Ok(answer)) => {
            assert(answer.is_found() == answered_found(reply));
            if is_plain_name(db.spec.name@) {
                lemma_turns_to(db, step, plan@, db.known(answered_found(reply)));
            }
        },
        (Pass::Running { done, failed, rest, created }, Ok(_)) => {
            if done is None {
                lemma_turns_to(db, step, rest@, created);
            }
        },
        (Pass::Reporting { rest, created }, Ok(_)) => {
            lemma_turns_to(db, step, rest@, created);
        },
        (Pass::Logging { rest, created }, _) => {
            lemma_turns_to(db, step, rest@, created);
        },
        _ => {},
    }
}

/// A pass whose inspection failed, or that was to create a database without a
/// plain name, tells it and stops.
pub proof fn stopped_passes_tell_why(db: Database, reply: Reply, step: Step)
    requires
        call_ensures(Database::resume, (&db, Pass::Inspecting, reply), step),
        reply is Err || !is_plain_name(db.spec.name@),
    ensures
        step matches Step::Ask(Request::Publish(event), Pass::Ending(action)) && {
            &&& action == Action::Requeue(300)
            &&& match reply {
                Err(failure) => tells(
                    event,
                    EventType::Warning,
                    "CreateDatabase"@,
                    "InspectionFailed"@,
                    "Unable to inspect databases for "@ + own_name(db.metadata) + ": "@
                        + failure.message@,
                ),
                Ok(_) => tells(
                    event,
                    EventType::Warning,
                    "CreateDatabase"@,
                    "InvalidName"@,
                    "Invalid database name for "@ + own_name(db.metadata) + ": "@
                        + database_complaint(db.spec.name@),
                ),
            }
        },
{
    lemma_plain(db.spec.name@);
}

/// That a database was dropped, or was not, is told. The resource is let go only
/// when it was.
pub proof fn what_became_of_a_drop_is_told(db: Database, reply: Reply, step: Step)
    requires
        call_ensures(Database::resume, (&db, Pass::Dropping, reply), step),
    ensures
        step matches Step::Ask(Request::Publish(event), Pass::Ending(action)) && match reply {
            Ok(_) => {
                &&& action == Action::AwaitChange
                &&& tells(
                    event,
                    EventType::Normal,
                    "DeleteDatabase"@,
                    "Success"@,
                    "Successfully deleted database for "@ + own_name(db.metadata),
                )
            },
            Err(failure) => {
                &&& action == Action::Requeue(300)
                &&& tells(
                    event,
                    EventType::Normal,
                    "DeleteDatabase"@,
                    "Failed"@,
                    "Failed to deleted database for "@ + own_name(db.metadata) + ": "@
                        + failure.message@,
                )
            },
        },
{
}

/// A pass ends with what it was to end with, or with the failure of its last
/// request, as it was given.
pub proof fn passes_end_as_answered(db: Database, pass: Pass, reply: Reply, step: Step)
    requires
        call_ensures(Database::resume, (&db, pass, reply), step),
        pass is Patching || pass is Ending || pass is Reporting && reply is Err,
    ensures
        step matches Step::Finish(outcome) && match reply {
            Ok(_) => outcome == Ok::<Action, Error>(
                match pass {
                    Pass::Ending(action) => action,
                    _ => Action::Requeue(300),
                },
            ),
            Err(failure) => outcome matches Err(Error::KubeError(kept)) && same_failure(
                kept,
                failure,
            ),
        },
{
}

/// The steps of a pass that applies a resource, one more than it was answered.
pub open spec fn is_pass<P>(
    db: Database,
    servers: Servers<P>,
    steps: Seq<Step>,
    replies: Seq<Reply>,
) -> bool {
    &&& steps.len() == replies.len() + 1
    &&& call_ensures(Database::reconcile::<P>, (&db, &servers), steps[0])
    &&& forall|i: int| 0 <= i < replies.len() ==> #[trigger] is_resumed(db, steps, replies, i)
}

/// The step of a position is resumed with its answer, which gives the next.
pub open spec fn is_resumed(db: Database, steps: Seq<Step>, replies: Seq<Reply>, i: int) -> bool {
    &&& steps[i] matches Step::Ask(_, pass)
    &&& call_ensures(Database::resume, (&db, pass, replies[i]), steps[i + 1])
}

/// The statements that steps run, in order.
pub open spec fn executions(steps: Seq<Step>) -> Seq<Statement>
    decreases steps.len(),
{
    if steps.len() == 0 {
        Seq::empty()
    } else {
        match steps.last() {
            Step::Ask(Request::Execute(statement), _) => executions(steps.drop_last()).push(
                statement,
            ),
            _ => executions(steps.drop_last()),
        }
    }
}

/// The steps of a pass are those that its answers lead to.
proof fn lemma_pass<P>(
    db: Database,
    servers: Servers<P>,
    steps: Seq<Step>,
    replies: Seq<Reply>,
    i: int,
)
    requires
        is_pass(db, servers, steps, replies),
        0 <= i < steps.len(),
    ensures
        ({
            let first = db.reconcile_step(servers@.contains_key(db.spec.server_ref.name@));
            &&& steps[i]@ == db.run(first, replies.take(i))
            &&& executions(steps.take(i + 1)).map_values(|statement: Statement| statement@)
                == db.executed(first, replies.take(i))
        }),
    decreases i,
{
    let first = db.reconcile_step(servers@.contains_key(db.spec.server_ref.name@));
    let done = executions(steps.take(i + 1));
    assert(steps.take(i + 1).drop_last() =~= steps.take(i));
    assert(steps.take(i + 1).last() == steps[i]);
    if i == 0 {
        assert(replies.take(0).len() == 0);
        assert(executions(steps.take(0)) =~= Seq::empty());
        assert(done.map_values(|statement: Statement| statement@) =~= executed_by(first));
    } else {
        lemma_pass(db, servers, steps, replies, i - 1);
        assert(is_resumed(db, steps, replies, i - 1));
        assert(replies.take(i).drop_last() =~= replies.take(i - 1));
        assert(replies.take(i).last() == replies[i - 1]);
        assert(done.map_values(|statement: Statement| statement@) =~= db.executed(
            first,
            replies.take(i - 1),
        ) + executed_by(steps[i]@));
    }
}

/// The answer to the inspection is that the database is there.
pub open spec fn answered_found(reply: Reply) -> bool {
    reply matches Ok(Answer::Found(found)) && found
}

/// The status that a pass writes is written under the name of the resource. It
/// tells that the database was processed, and that it is created: as its
/// creation was answered, where that was due, and else if it was processed
/// before and found.
pub proof fn the_status_tells_what_was_answered<P>(
    db: Database,
    servers: Servers<P>,
    steps: Seq<Step>,
    replies: Seq<Reply>,
    i: int,
)
    requires
        is_pass(db, servers, steps, replies),
        0 <= i < steps.len(),
    ensures
        steps[i] matches Step::Ask(Request::PatchStatus(patch), _) ==> {
            &&& replies.len() > 0
            &&& patch.name@ == own_name(db.metadata)
            &&& patch.api_version@ == "db-operator.widemeadows.de/v1"@
            &&& patch.kind@ == "Database"@
            &&& patch.field_manager@ == "cntrlr"@
            &&& patch.force
            &&& patch.status.processed
            &&& patch.status.created == if creation_is_due(db, answered_found(replies[0])) {
                match replies[1] {
                    Ok(_) => true,
                    Err(failure) => holds(failure.message@, "already exists"@),
                }
            } else {
                &&& db.status matches Some(status)
                &&& status.processed
                &&& answered_found(replies[0])
            }
        },
{
    let connected = servers@.contains_key(db.spec.server_ref.name@);
    lemma_pass(db, servers, steps, replies, i);
    the_status_tells_what_was_seen(db, connected, replies.take(i));
    if let Step::Ask(Request::PatchStatus(patch), _) = steps[i] {
        assert(i > 0);
        let before = replies.take(i);
        assert(before[0] == replies[0]);
        let found = answered_found(replies[0]);
        assert(inspection_found(replies[0]) == found);
        assert(db.wants_creation(found) == creation_is_due(db, found));
        if db.wants_creation(found) {
            if connected {
                db.lemma_status_needs_usable_names(before);
            } else {
                lemma_unconnected(db, before);
            }
            assert(before[1] == replies[1]);
            if let Err(failure) = replies[1] {
                lemma_holds(failure.message@, "already exists"@);
            }
        }
    }
}

/// The statements of tasks that come one after the other.
proof fn lemma_statements_joined(tasks: Seq<TaskView>, others: Seq<TaskView>)
    ensures
        statements(tasks + others) == statements(tasks) + statements(others),
    decreases tasks.len(),
{
    if tasks.len() == 0 {
        assert(tasks + others =~= others);
        assert(statements(tasks + others) =~= statements(tasks) + statements(others));
    } else {
        lemma_statements_joined(tasks.drop_first(), others);
        assert((tasks + others).drop_first() =~= tasks.drop_first() + others);
        assert(statements(tasks + others) =~= statements(tasks) + statements(others));
    }
}

/// Tasks that log run no statement.
proof fn lemma_logs_run_nothing(tasks: Seq<TaskView>)
    requires
        forall|i: int| 0 <= i < tasks.len() ==> #[trigger] tasks[i] is Log,
    ensures
        statements(tasks) == Seq::<StatementView>::empty(),
    decreases tasks.len(),
{
    if tasks.len() > 0 {
        let others = tasks.drop_first();
        assert(forall|i: int| 0 <= i < others.len() ==> others[i] == tasks[i + 1]);
        lemma_logs_run_nothing(others);
        assert(tasks[0] is Log);
        assert(statements(tasks) =~= Seq::empty());
    }
}

/// The statements of tasks that run one each.
proof fn lemma_runs_run_one(tasks: Seq<TaskView>)
    requires
        forall|i: int| 0 <= i < tasks.len() ==> #[trigger] tasks[i] is Run,
    ensures
        statements(tasks).len() == tasks.len(),
        forall|i: int|
            0 <= i < tasks.len() ==> #[trigger] statements(tasks)[i] == tasks[i]->Run_statement,
    decreases tasks.len(),
{
    if tasks.len() > 0 {
        let others = tasks.drop_first();
        assert(forall|i: int| 0 <= i < others.len() ==> others[i] == tasks[i + 1]);
        lemma_runs_run_one(others);
        assert(tasks[0] is Run);
        assert forall|i: int| 0 <= i < tasks.len() implies #[trigger] statements(tasks)[i]
            == tasks[i]->Run_statement by {
            if i > 0 {
                assert(statements(tasks)[i] == statements(others)[i - 1]);
            }
        }
    }
}

/// The statements for one user grant the privileges on the database, in order.
proof fn lemma_user_statements(grant: Grants, database: Seq<char>)
    ensures
        ({
            let all = statements(user_tasks(grant, database));
            &&& all.len() == database_count(grant)
            &&& forall|k: int|
                0 <= k < all.len() ==> #[trigger] all[k] == privilege_task(
                    (grant.database->0).grants@[k],
                    database,
                    grant.user@,
                )->Run_statement
        }),
{
    let own = on_database(grant, database);
    let schema = on_schema(grant, database);
    let table = on_table(grant, database);
    lemma_statements_joined(own + schema, table);
    lemma_statements_joined(own, schema);
    lemma_logs_run_nothing(schema);
    lemma_logs_run_nothing(table);
    lemma_runs_run_one(own);
    assert(statements(user_tasks(grant, database)) =~= statements(own));
    let all = statements(user_tasks(grant, database));
    assert forall|k: int| 0 <= k < all.len() implies #[trigger] all[k] == privilege_task(
        (grant.database->0).grants@[k],
        database,
        grant.user@,
    )->Run_statement by {
        assert(statements(own)[k] == own[k]->Run_statement);
    }
}

/// How many privileges on the database the users before a position are to have.
pub open spec fn granted_before(grants: Seq<Grants>, user: int) -> nat
    decreases user,
{
    if user <= 0 {
        0
    } else {
        granted_before(grants, user - 1) + database_count(grants[user - 1])
    }
}

/// Counting can begin with the first user.
proof fn lemma_granted_from_first(grants: Seq<Grants>, user: int)
    requires
        0 < user <= grants.len(),
    ensures
        granted_before(grants, user) == database_count(grants[0]) + granted_before(
            grants.drop_first(),
            user - 1,
        ),
    decreases user,
{
    if user > 1 {
        lemma_granted_from_first(grants, user - 1);
        assert(grants.drop_first()[user - 2] == grants[user - 1]);
    } else {
        assert(granted_before(grants, 0) == 0);
    }
}

/// Where the statements for a user stand.
proof fn lemma_granted_positions(
    grants: Seq<Grants>,
    name: Seq<char>,
    database: Seq<char>,
    user: int,
)
    requires
        0 <= user <= grants.len(),
        usable_users(grants),
    ensures
        ({
            let all = statements(grants_tasks(grants, name, database));
            let at = granted_before(grants, user) as int;
            &&& user == grants.len() ==> all.len() == at
            &&& user < grants.len() ==> {
                let own = statements(user_tasks(grants[user], database));
                &&& all.len() >= at + own.len()
                &&& all.subrange(at, at + own.len()) == own
            }
        }),
    decreases grants.len(),
{
    let all = statements(grants_tasks(grants, name, database));
    if grants.len() > 0 {
        let others = grants.drop_first();
        let own = statements(user_tasks(grants[0], database));
        let rest = statements(grants_tasks(others, name, database));
        assert(user_name(grants[0].user@) is Ok);
        assert forall|i: int| 0 <= i < others.len() implies user_name(
            (#[trigger] others[i]).user@,
        ) is Ok by {
            assert(others[i] == grants[i + 1]);
        }
        lemma_statements_joined(
            user_tasks(grants[0], database),
            grants_tasks(others, name, database),
        );
        lemma_user_statements(grants[0], database);
        assert(all == own + rest);
        if user == 0 {
            assert(all.subrange(0, own.len() as int) =~= own);
        } else {
            lemma_granted_positions(others, name, database, user - 1);
            lemma_granted_from_first(grants, user);
            let at = granted_before(grants, user) as int;
            let later = granted_before(others, user - 1) as int;
            if user < grants.len() {
                assert(others[user - 1] == grants[user]);
                let mine = statements(user_tasks(grants[user], database));
                assert(all.subrange(at, at + mine.len()) =~= rest.subrange(
                    later,
                    later + mine.len(),
                ));
            }
        }
    }
}

/// The comment is there and is written.
pub open spec fn writes_comment(db: Database) -> bool {
    db.spec.comment matches Some(comment) && is_writable(comment@)
}

/// The position of the first grant among the statements of a pass.
pub open spec fn granting_begins(db: Database, found: bool) -> int {
    (if creation_is_due(db, found) {
        1int
    } else {
        0
    }) + (if writes_comment(db) {
        1int
    } else {
        0
    })
}

/// Where the statements of a plan stand, if the names of all users can be used.
#[verifier::rlimit(30)]
proof fn lemma_plan_statements(db: Database, found: bool, user: int, privilege: int)
    requires
        usable_users(db.spec.grants@),
    ensures
        ({
            let all = statements(db.plan(found));
            let begin = granting_begins(db, found);
            let grants = db.spec.grants@;
            &&& all.len() == begin + granted_before(grants, grants.len() as int)
            &&& creation_is_due(db, found) ==> all[0] == create_task(
                db.metadata.any_name(),
                db.spec.name@,
            )->Create_statement
            &&& writes_comment(db) ==> all[begin - 1] == comment_task(
                db.metadata.any_name(),
                db.spec.name@,
                db.spec.comment->0@,
            )->Run_statement
            &&& 0 <= user < grants.len() && 0 <= privilege < database_count(grants[user]) ==> {
                let at = begin + granted_before(grants, user) + privilege;
                &&& at < all.len()
                &&& all[at] == privilege_task(
                    (grants[user].database->0).grants@[privilege],
                    db.spec.name@,
                    grants[user].user@,
                )->Run_statement
            }
        }),
{
    let name = db.metadata.any_name();
    let database = db.spec.name@;
    let grants = db.spec.grants@;
    let begin = granting_begins(db, found);
    let all = statements(db.plan(found));
    assert(db.wants_creation(found) == creation_is_due(db, found));
    let creation = if db.wants_creation(found) {
        seq![create_task(name, database)]
    } else {
        Seq::empty()
    };
    let commenting = match db.spec.comment {
        Some(comment) => seq![comment_task(name, database, comment@)],
        None => Seq::empty(),
    };
    let granting = grants_tasks(grants, name, database);
    assert(db.plan(found) == creation + commenting + granting);
    lemma_statements_joined(creation + commenting, granting);
    lemma_statements_joined(creation, commenting);
    lemma_statements_of_one(creation);
    lemma_statements_of_one(commenting);
    if db.spec.comment is Some {
        lemma_writable(db.spec.comment->0@);
    }
    let lead = statements(creation) + statements(commenting);
    assert(lead.len() == begin);
    assert(all == lead + statements(granting));
    lemma_granted_positions(grants, name, database, grants.len() as int);
    if creation_is_due(db, found) {
        assert(all[0] == lead[0]);
    }
    if writes_comment(db) {
        assert(all[begin - 1] == lead[begin - 1]);
    }
    if 0 <= user < grants.len() && 0 <= privilege < database_count(grants[user]) {
        let own = statements(user_tasks(grants[user], database));
        let from = granted_before(grants, user) as int;
        lemma_granted_positions(grants, name, database, user);
        lemma_user_statements(grants[user], database);
        assert(statements(granting).subrange(from, from + own.len())[privilege] == statements(
            granting,
        )[from + privilege]);
        assert(all[begin + from + privilege] == statements(granting)[from + privilege]);
        assert(own[privilege] == privilege_task(
            (grants[user].database->0).grants@[privilege],
            database,
            grants[user].user@,
        )->Run_statement);
    }
}

/// The statements of at most one task.
proof fn lemma_statements_of_one(tasks: Seq<TaskView>)
    requires
        tasks.len() <= 1,
    ensures
        tasks.len() == 0 ==> statements(tasks) == Seq::<StatementView>::empty(),
        tasks.len() == 1 ==> statements(tasks) == statement_of(tasks[0]),
{
    if tasks.len() == 1 {
        assert(statements(tasks.drop_first()) =~= Seq::empty());
        assert(statements(tasks) =~= statement_of(tasks[0]));
    }
}

/// By the time a pass writes the status it has run these statements and no
/// others, in this order: the creation of the database of the resource where it
/// was due, its comment where it can be written, and one grant for each
/// privilege on the database of each user.
#[verifier::rlimit(30)]
pub proof fn the_wanted_statements_are_run<P>(
    db: Database,
    servers: Servers<P>,
    steps: Seq<Step>,
    replies: Seq<Reply>,
    i: int,
    user: int,
    privilege: int,
)
    requires
        is_pass(db, servers, steps, replies),
        0 <= i < steps.len(),
        steps[i] matches Step::Ask(Request::PatchStatus(_), _),
    ensures
        ({
            let run = executions(steps.take(i + 1));
            let found = answered_found(replies[0]);
            let begin = granting_begins(db, found);
            let grants = db.spec.grants@;
            &&& run.len() == begin + granted_before(grants, grants.len() as int)
            &&& creation_is_due(db, found) ==> creates(run[0], db.spec.name@)
            &&& writes_comment(db) ==> comments_on(
                run[begin - 1],
                db.spec.name@,
                db.spec.comment->0@,
            )
            &&& 0 <= user < grants.len() && 0 <= privilege < database_count(grants[user]) ==> {
                let at = begin + granted_before(grants, user) + privilege;
                &&& at < run.len()
                &&& grants_to(
                    run[at],
                    (grants[user].database->0).grants@[privilege].sql(),
                    db.spec.name@,
                    grants[user].user@,
                )
            }
        }),
{
    let connected = servers@.contains_key(db.spec.server_ref.name@);
    let before = replies.take(i);
    let found = answered_found(replies[0]);
    let run = executions(steps.take(i + 1));
    let views = run.map_values(|statement: Statement| statement@);
    let database = db.spec.name@;
    let grants = db.spec.grants@;
    let begin = granting_begins(db, found);
    lemma_pass(db, servers, steps, replies, i);
    if !connected {
        lemma_unconnected(db, before);
    }
    assert(i > 0);
    assert(before[0] == replies[0]);
    assert(inspection_found(replies[0]) == found);
    the_plan_is_executed(db, before);
    db.lemma_status_needs_usable_names(before);
    assert(views == statements(db.plan(found)));
    assert(views.len() == run.len());
    lemma_plan_statements(db, found, user, privilege);
    lemma_plain(database);
    lemma_cut_statements(database, Seq::empty(), DatabasePrivilege::Connect);
    if creation_is_due(db, found) {
        assert(views[0] == run[0]@);
    }
    if writes_comment(db) {
        lemma_writable(db.spec.comment->0@);
        lemma_escaped(db.spec.comment->0@);
        assert(stands_for(escaped_comment(db.spec.comment->0@), db.spec.comment->0@));
        assert(views[begin - 1] == run[begin - 1]@);
    }
    if 0 <= user < grants.len() && 0 <= privilege < database_count(grants[user]) {
        let at = begin + granted_before(grants, user) + privilege;
        let granted = (grants[user].database->0).grants@[privilege];
        assert(views[at] == run[at]@);
        assert(user_name(grants[user].user@) is Ok);
        lemma_plain(grants[user].user@);
        lemma_cut_statements(database, grants[user].user@, granted);
    }
}

/// A pass writes the status only over a connected server, after an inspection
/// that succeeded, and where the names of the database and of all users are
/// plain.
pub proof fn the_status_needs_plain_names<P>(
    db: Database,
    servers: Servers<P>,
    steps: Seq<Step>,
    replies: Seq<Reply>,
    i: int,
)
    requires
        is_pass(db, servers, steps, replies),
        0 <= i < steps.len(),
        steps[i] matches Step::Ask(Request::PatchStatus(_), _),
    ensures
        servers@.contains_key(db.spec.server_ref.name@),
        replies.len() > 0 && replies[0] is Ok,
        is_plain_name(db.spec.name@),
        plain_before(db.spec.grants@, db.spec.grants@.len() as int),
{
    let before = replies.take(i);
    lemma_pass(db, servers, steps, replies, i);
    if !servers@.contains_key(db.spec.server_ref.name@) {
        lemma_unconnected(db, before);
    }
    assert(i > 0);
    assert(before[0] == replies[0]);
    db.lemma_status_needs_usable_names(before);
    lemma_plain(db.spec.name@);
    assert forall|k: int| 0 <= k < db.spec.grants@.len() implies is_plain_name(
        (#[trigger] db.spec.grants@[k]).user@,
    ) by {
        lemma_plain(db.spec.grants@[k].user@);
    }
}

/// A pass over a connected server succeeds with the status written, if its
/// inspection succeeded and the names of the database and of all users are
/// plain, whatever became of its statements.
pub proof fn plain_names_lead_to_the_status<P>(
    db: Database,
    servers: Servers<P>,
    steps: Seq<Step>,
    replies: Seq<Reply>,
)
    requires
        is_pass(db, servers, steps, replies),
        servers@.contains_key(db.spec.server_ref.name@),
        replies.len() > 0,
        replies[0] is Ok,
        is_plain_name(db.spec.name@),
        plain_before(db.spec.grants@, db.spec.grants@.len() as int),
        steps.last() matches Step::Finish(Ok(_)),
    ensures
        steps.len() > 1,
        steps[steps.len() - 2] matches Step::Ask(Request::PatchStatus(_), _),
        steps.last() == Step::Finish(Ok(Action::Requeue(300))),
{
    let n = replies.len() as int;
    lemma_pass(db, servers, steps, replies, n);
    lemma_pass(db, servers, steps, replies, n - 1);
    assert(is_resumed(db, steps, replies, n - 1));
    assert(replies.take(n) =~= replies);
    assert(replies.drop_last() =~= replies.take(n - 1));
    lemma_plain(db.spec.name@);
    assert forall|k: int| 0 <= k < db.spec.grants@.len() implies user_name(
        (#[trigger] db.spec.grants@[k]).user@,
    ) is Ok by {
        lemma_plain(db.spec.grants@[k].user@);
        assert(is_plain_name(db.spec.grants@[k].user@));
    }
    how_applying_ends(db, true, replies);
}

} // verus!
