//! Passes over databases, step by step.

use db_operator::connection::Connection;
use db_operator::controllers::database::pass::{Request, Step};
use db_operator::controllers::database::{
    error_policy, legal_comment, reconcile, sanitize_comment, sanitize_db_name,
    sanitize_user_name, Database, DatabaseServerRef, DatabaseServerSpec, DatabaseStatus, Servers,
    DATABASE_FINALIZER,
};
use db_operator::controllers::database_server::{
    DatabaseServer, DatabaseServerSpec as ServerSpec,
};
use db_operator::controllers::exchange::{
    Action, Answer, EventType, FinalizerEvent, ObjectMeta, Reply,
};
use db_operator::controllers::grants::{
    DatabaseGrant, DatabasePrivilege, Grants, SchemaGrant, SchemaPrivilege, TableGrant,
    TablePrivilege,
};
use db_operator::error::{Error, Failure};
use db_operator::names::NameMap;

fn database(status: Option<DatabaseStatus>) -> Database {
    Database {
        metadata: ObjectMeta {
            name: Some("orders".to_string()),
            generate_name: None,
            namespace: Some("default".to_string()),
        },
        spec: DatabaseServerSpec {
            server_ref: DatabaseServerRef { name: "main".to_string() },
            name: "orders_db".to_string(),
            comment: None,
            create: None,
            delete: false,
            grants: Vec::new(),
        },
        status,
    }
}

fn status(processed: bool, created: bool) -> Option<DatabaseStatus> {
    Some(DatabaseStatus { processed, created })
}

fn servers() -> Servers<u8> {
    let mut servers = NameMap::new();
    servers.insert("main".to_string(), 1);
    servers
}

fn grants(user: &str, privileges: Vec<DatabasePrivilege>) -> Grants {
    Grants {
        name: None,
        user: user.to_string(),
        database: Some(DatabaseGrant { grants: privileges }),
        schema: None,
        table: None,
    }
}

fn done() -> Reply {
    Ok(Answer::Done)
}

fn found(found: bool) -> Reply {
    Ok(Answer::Found(found))
}

fn failure(message: &str) -> Reply {
    Err(Failure { message: message.to_string(), debug: "Debug".to_string() })
}

fn describe(request: &Request) -> String {
    match request {
        Request::Find(statement) => format!("find {} {:?}", statement.sql, statement.argument),
        Request::Execute(statement) => {
            format!("execute {} {:?}", statement.sql, statement.argument)
        }
        Request::Publish(event) => format!(
            "{} {} {} {}",
            match event.type_ {
                EventType::Normal => "normal",
                EventType::Warning => "warning",
            },
            event.action,
            event.reason,
            event.note.as_deref().unwrap_or("-"),
        ),
        Request::Log(text) => format!("log {}", text),
        Request::PatchStatus(patch) => format!(
            "patch {} {} {} {} {} {:?}",
            patch.name,
            patch.api_version,
            patch.kind,
            patch.field_manager,
            patch.force,
            patch.status,
        ),
    }
}

/// Answers a pass until it is over; gives what it asked for and what it ended
/// with.
fn drive(db: &Database, first: Step, replies: Vec<Reply>) -> (Vec<String>, String) {
    let mut asked = Vec::new();
    let mut step = first;
    for reply in replies {
        match step {
            Step::Ask(request, pass) => {
                asked.push(describe(&request));
                step = db.resume(pass, reply);
            }
            Step::Finish(_) => panic!("the pass was over after {:?}", asked),
        }
    }
    match step {
        Step::Ask(request, _) => panic!("the pass goes on with {}", describe(&request)),
        Step::Finish(Ok(action)) => (asked, format!("{:?}", action)),
        Step::Finish(Err(error)) => (asked, error.to_string()),
    }
}

const FIND: &str =
    "find SELECT 1 FROM pg_database WHERE datname = $1; Some(\"orders_db\")";
const CREATE: &str = "execute CREATE DATABASE \"orders_db\"; None";
const LATER: &str = "Requeue(300)";

fn patch(created: bool) -> String {
    format!(
        "patch orders db-operator.widemeadows.de/v1 Database cntrlr true DatabaseStatus {{ processed: true, created: {} }}",
        created
    )
}

#[test]
fn names_consist_of_name_characters() {
    assert_eq!(sanitize_db_name("Orders_2024"), Ok("Orders_2024".to_string()));
    assert_eq!(sanitize_user_name("svc_orders"), Ok("svc_orders".to_string()));
    for name in ["", "a b", "a-b", "a\"b", "a\n", "\na", "größe", "a;b"] {
        assert_eq!(
            sanitize_db_name(name),
            Err("Invalid database name: Only alphanumeric characters and underscores are allowed."
                .to_string())
        );
        assert_eq!(
            sanitize_user_name(name),
            Err("Invalid user name: Only alphanumeric characters and underscores are allowed."
                .to_string())
        );
    }
}

#[test]
fn names_have_at_most_63_characters() {
    let longest = "a".repeat(63);
    let too_long = "a".repeat(64);
    assert_eq!(sanitize_db_name(&longest), Ok(longest.clone()));
    assert_eq!(sanitize_user_name(&longest), Ok(longest.clone()));
    assert_eq!(
        sanitize_db_name(&too_long),
        Err("Invalid database name: Name must be 63 characters or fewer.".to_string())
    );
    assert_eq!(
        sanitize_user_name(&too_long),
        Err("Invalid user name: Name must be 63 characters or fewer.".to_string())
    );
    assert_eq!(
        sanitize_db_name(&"ä".repeat(64)),
        Err("Invalid database name: Only alphanumeric characters and underscores are allowed."
            .to_string())
    );
}

#[test]
fn comments_hold_printable_ascii_without_comment_marks() {
    assert!(legal_comment(""));
    assert!(legal_comment("Orders - and 'more' ~ \\ /"));
    assert!(legal_comment("a / * b"));
    for comment in ["a -- b", "/* a", "a */", "tab\t", "line\n", "del\u{7f}", "größe"] {
        assert!(!legal_comment(comment), "{:?}", comment);
    }
}

#[test]
fn comments_are_escaped() {
    assert_eq!(sanitize_comment("plain"), "plain");
    assert_eq!(sanitize_comment("it's \\ done"), "it''s \\\\ done");
    assert_eq!(sanitize_comment("''"), "''''");
}

#[test]
fn missing_server_ends_the_pass() {
    let db = database(None);
    let step = db.reconcile(&NameMap::<u8>::new());
    let (asked, outcome) = drive(&db, step, vec![done()]);
    assert_eq!(
        asked,
        ["warning CreateDatabase MissingServer Unable to create database for orders due to unresolved server reference: main"]
    );
    assert_eq!(outcome, LATER);
}

#[test]
fn failed_inspection_ends_the_pass() {
    let db = database(None);
    let (asked, outcome) =
        drive(&db, db.reconcile(&servers()), vec![failure("gone"), done()]);
    assert_eq!(
        asked,
        [FIND, "warning CreateDatabase InspectionFailed Unable to inspect databases for orders: gone"]
    );
    assert_eq!(outcome, LATER);
}

#[test]
fn unusable_database_name_ends_the_pass() {
    let mut db = database(status(true, false));
    db.spec.name = "orders; --".to_string();
    let (asked, outcome) = drive(&db, db.reconcile(&servers()), vec![found(false), done()]);
    assert_eq!(
        asked,
        [
            "find SELECT 1 FROM pg_database WHERE datname = $1; Some(\"orders; --\")",
            "warning CreateDatabase InvalidName Invalid database name for orders: Invalid database name: Only alphanumeric characters and underscores are allowed.",
        ]
    );
    assert_eq!(outcome, LATER);
}

#[test]
fn first_pass_writes_a_status_and_creates_nothing() {
    let db = database(None);
    for exists in [true, false] {
        let (asked, outcome) = drive(&db, db.reconcile(&servers()), vec![found(exists), done()]);
        assert_eq!(asked, [FIND.to_string(), patch(false)]);
        assert_eq!(outcome, LATER);
    }
}

#[test]
fn missing_database_is_created() {
    let db = database(status(true, false));
    let (asked, outcome) =
        drive(&db, db.reconcile(&servers()), vec![found(false), done(), done(), done()]);
    assert_eq!(
        asked,
        [
            FIND.to_string(),
            CREATE.to_string(),
            "normal CreateDatabase Success Successfully created database for orders".to_string(),
            patch(true),
        ]
    );
    assert_eq!(outcome, LATER);
}

#[test]
fn database_that_was_there_counts_as_created() {
    let db = database(status(false, false));
    let refused = failure("error returned from database: database \"orders_db\" already exists");
    let (asked, _) =
        drive(&db, db.reconcile(&servers()), vec![found(true), refused, done(), done()]);
    assert_eq!(
        asked,
        [
            FIND.to_string(),
            CREATE.to_string(),
            "normal CreateDatabase Success Database for orders already existed".to_string(),
            patch(true),
        ]
    );
}

#[test]
fn failed_creation_is_told_and_the_pass_goes_on() {
    let mut db = database(status(true, false));
    db.spec.grants.push(grants("app", vec![DatabasePrivilege::Connect]));
    let (asked, outcome) = drive(
        &db,
        db.reconcile(&servers()),
        vec![found(false), failure("no rights"), done(), done(), done(), done()],
    );
    assert_eq!(
        asked,
        [
            FIND.to_string(),
            CREATE.to_string(),
            "warning CreateDatabase Failed Unable to create database for orders: no rights"
                .to_string(),
            "execute GRANT CONNECT ON DATABASE \"orders_db\" TO \"app\"; None".to_string(),
            "normal ApplyGrant Success Applied privilege CONNECT on database orders_db to app"
                .to_string(),
            patch(false),
        ]
    );
    assert_eq!(outcome, LATER);
}

#[test]
fn processed_database_that_is_there_is_known() {
    let db = database(status(true, false));
    let (asked, _) = drive(&db, db.reconcile(&servers()), vec![found(true), done()]);
    assert_eq!(asked, [FIND.to_string(), patch(true)]);
}

#[test]
fn created_database_is_not_created_again() {
    let mut db = database(status(true, false));
    let mut step = db.reconcile(&servers());
    let mut written = None;
    for reply in [found(false), done(), done(), done()] {
        if let Step::Ask(request, pass) = step {
            if let Request::PatchStatus(patch) = &request {
                written = Some(patch.status);
            }
            step = db.resume(pass, reply);
        }
    }
    assert_eq!(written, status(true, true));
    db.status = written;
    assert!(db.was_created());
    let (asked, _) = drive(&db, db.reconcile(&servers()), vec![found(true), done()]);
    assert_eq!(asked, [FIND.to_string(), patch(true)]);
    let (asked, _) = drive(&db, db.reconcile(&servers()), vec![found(false), done()]);
    assert_eq!(asked, [FIND.to_string(), patch(false)]);
}

#[test]
fn creation_can_be_switched_off() {
    let mut db = database(status(true, false));
    db.spec.create = Some(false);
    let (asked, _) = drive(&db, db.reconcile(&servers()), vec![found(false), done()]);
    assert_eq!(asked, [FIND.to_string(), patch(false)]);
    db.spec.create = Some(true);
    let (asked, _) =
        drive(&db, db.reconcile(&servers()), vec![found(false), done(), done(), done()]);
    assert_eq!(asked[1], CREATE);
}

#[test]
fn comment_is_applied() {
    let mut db = database(None);
    db.spec.comment = Some("The orders' store".to_string());
    let sql =
        "execute COMMENT ON DATABASE \"orders_db\" IS 'The orders'' store'; Some(\"The orders' store\")";
    let (asked, _) = drive(&db, db.reconcile(&servers()), vec![found(true), done(), done()]);
    assert_eq!(asked, [FIND.to_string(), sql.to_string(), patch(false)]);
    let (asked, outcome) = drive(
        &db,
        db.reconcile(&servers()),
        vec![found(true), failure("denied"), done(), done()],
    );
    assert_eq!(
        asked,
        [
            FIND.to_string(),
            sql.to_string(),
            "warning ApplyComment Failed Failed to apply comment to database orders: denied"
                .to_string(),
            patch(false),
        ]
    );
    assert_eq!(outcome, LATER);
}

#[test]
fn illegal_comment_is_skipped() {
    let mut db = database(None);
    db.spec.comment = Some("x'; -- drop".to_string());
    let (asked, _) = drive(&db, db.reconcile(&servers()), vec![found(true), done(), done()]);
    assert_eq!(
        asked,
        [
            FIND.to_string(),
            "warning ApplyComment Ignored Comment for database orders contains illegal characters - skipping"
                .to_string(),
            patch(false),
        ]
    );
}

#[test]
fn privileges_are_granted_in_order() {
    let mut db = database(None);
    db.spec.grants.push(grants(
        "app",
        vec![DatabasePrivilege::Connect, DatabasePrivilege::Temporary],
    ));
    db.spec.grants.push(grants(
        "admin",
        vec![DatabasePrivilege::AllPrivileges, DatabasePrivilege::Create],
    ));
    let (asked, outcome) = drive(
        &db,
        db.reconcile(&servers()),
        vec![
            found(true),
            done(),
            done(),
            failure("denied"),
            done(),
            done(),
            done(),
            done(),
            done(),
            done(),
        ],
    );
    assert_eq!(
        asked,
        [
            FIND.to_string(),
            "execute GRANT CONNECT ON DATABASE \"orders_db\" TO \"app\"; None".to_string(),
            "normal ApplyGrant Success Applied privilege CONNECT on database orders_db to app"
                .to_string(),
            "execute GRANT TEMPORARY ON DATABASE \"orders_db\" TO \"app\"; None".to_string(),
            "warning ApplyGrant Failed Failed to apply privilege TEMPORARY on database orders_db to app: denied"
                .to_string(),
            "execute GRANT ALL PRIVILEGES ON DATABASE \"orders_db\" TO \"admin\"; None".to_string(),
            "normal ApplyGrant Success Applied privilege ALL PRIVILEGES on database orders_db to admin"
                .to_string(),
            "execute GRANT CREATE ON DATABASE \"orders_db\" TO \"admin\"; None".to_string(),
            "normal ApplyGrant Success Applied privilege CREATE on database orders_db to admin"
                .to_string(),
            patch(false),
        ]
    );
    assert_eq!(outcome, LATER);
}

#[test]
fn schema_and_table_privileges_are_logged() {
    let mut db = database(None);
    db.spec.grants.push(Grants {
        name: None,
        user: "app".to_string(),
        database: None,
        schema: Some(SchemaGrant {
            name: "sales".to_string(),
            grants: vec![SchemaPrivilege::Usage],
        }),
        table: Some(TableGrant {
            name: "items".to_string(),
            schema: None,
            grants: vec![TablePrivilege::Select, TablePrivilege::References],
        }),
    });
    db.spec.grants.push(Grants {
        name: None,
        user: "audit".to_string(),
        database: None,
        schema: None,
        table: Some(TableGrant {
            name: "items".to_string(),
            schema: Some("sales".to_string()),
            grants: vec![TablePrivilege::Trigger],
        }),
    });
    let (asked, _) = drive(
        &db,
        db.reconcile(&servers()),
        vec![found(true), done(), done(), done(), done(), done()],
    );
    let prefix = "log The following operation is currently not supported: GRANT";
    assert_eq!(
        asked,
        [
            FIND.to_string(),
            format!("{} USAGE ON SCHEMA \"orders_db\" TO app;", prefix),
            format!("{} SELECT ON TABLE public.orders_db TO app;", prefix),
            format!("{} REFERENCES ON TABLE public.orders_db TO app;", prefix),
            format!("{} TRIGGER ON TABLE sales.orders_db TO audit;", prefix),
            patch(false),
        ]
    );
}

#[test]
fn message_that_cannot_be_logged_does_not_end_the_pass() {
    let mut db = database(None);
    db.spec.grants.push(Grants {
        name: None,
        user: "app".to_string(),
        database: None,
        schema: Some(SchemaGrant {
            name: "sales".to_string(),
            grants: vec![SchemaPrivilege::Create],
        }),
        table: None,
    });
    let (asked, outcome) =
        drive(&db, db.reconcile(&servers()), vec![found(true), failure("full"), done()]);
    assert_eq!(
        asked,
        [
            FIND.to_string(),
            "log The following operation is currently not supported: GRANT CREATE ON SCHEMA \"orders_db\" TO app;"
                .to_string(),
            patch(false),
        ]
    );
    assert_eq!(outcome, LATER);
}

#[test]
fn unusable_user_name_ends_the_pass_without_a_status() {
    let mut db = database(None);
    db.spec.grants.push(grants("app", vec![DatabasePrivilege::Connect]));
    db.spec.grants.push(grants("ro\"le", vec![DatabasePrivilege::Connect]));
    db.spec.grants.push(grants("late", vec![DatabasePrivilege::Connect]));
    let (asked, outcome) =
        drive(&db, db.reconcile(&servers()), vec![found(true), done(), done(), done()]);
    assert_eq!(
        asked,
        [
            FIND,
            "execute GRANT CONNECT ON DATABASE \"orders_db\" TO \"app\"; None",
            "normal ApplyGrant Success Applied privilege CONNECT on database orders_db to app",
            "warning ApplyGrant InvalidName Invalid user name for orders: Invalid user name: Only alphanumeric characters and underscores are allowed.",
        ]
    );
    assert_eq!(outcome, LATER);
}

#[test]
fn pass_fails_with_the_failure_to_publish() {
    let db = database(status(true, false));
    let (asked, outcome) =
        drive(&db, db.reconcile(&servers()), vec![found(false), done(), failure("forbidden")]);
    assert_eq!(asked.len(), 3);
    assert_eq!(outcome, "Kubernetes API Error: forbidden");
    let (_, outcome) = drive(
        &db,
        db.reconcile(&NameMap::<u8>::new()),
        vec![failure("forbidden")],
    );
    assert_eq!(outcome, "Kubernetes API Error: forbidden");
}

#[test]
fn pass_fails_with_the_failure_to_write_the_status() {
    let db = database(None);
    let (asked, outcome) =
        drive(&db, db.reconcile(&servers()), vec![found(true), failure("conflict")]);
    assert_eq!(asked, [FIND.to_string(), patch(false)]);
    assert_eq!(outcome, "Kubernetes API Error: conflict");
}

#[test]
fn pass_is_over_after_two_answers_for_each_task_and_two_more() {
    let mut db = database(status(true, false));
    db.spec.comment = Some("Orders".to_string());
    db.spec.grants.push(grants(
        "app",
        vec![DatabasePrivilege::Connect, DatabasePrivilege::Create],
    ));
    let most = 2 * db.make_plan(false).len() + 2;
    assert_eq!(most, 10);
    for failing in [false, true] {
        let mut answered = 0;
        let mut step = db.reconcile(&servers());
        while let Step::Ask(request, pass) = step {
            let reply = match request {
                Request::Find(_) => found(false),
                Request::Execute(_) if failing => failure("broken"),
                _ => done(),
            };
            answered += 1;
            step = db.resume(pass, reply);
        }
        assert!(answered <= most);
        assert_eq!(answered, if failing { 10 } else { 9 });
    }
}

#[test]
fn deletion_is_skipped_unless_requested() {
    let db = database(status(true, true));
    let (asked, outcome) = drive(&db, db.cleanup(&servers()), vec![done()]);
    assert_eq!(
        asked,
        ["normal DeleteDatabase Ignored Skipping deletion of database for orders due to configuration"]
    );
    assert_eq!(outcome, "AwaitChange");
}

#[test]
fn requested_deletion_drops_the_database() {
    let mut db = database(status(true, true));
    db.spec.delete = true;
    let (asked, outcome) = drive(&db, db.cleanup(&servers()), vec![done(), done()]);
    assert_eq!(
        asked,
        [
            "execute DROP DATABASE \"orders_db\"; Some(\"orders_db\")",
            "normal DeleteDatabase Success Successfully deleted database for orders",
        ]
    );
    assert_eq!(outcome, "AwaitChange");
    let (asked, outcome) = drive(&db, db.cleanup(&servers()), vec![failure("in use"), done()]);
    assert_eq!(
        asked[1],
        "normal DeleteDatabase Failed Failed to deleted database for orders: in use"
    );
    assert_eq!(outcome, LATER);
}

#[test]
fn deletion_needs_a_server_and_a_usable_name() {
    let mut db = database(None);
    db.spec.delete = true;
    let (asked, outcome) = drive(&db, db.cleanup(&NameMap::<u8>::new()), vec![done()]);
    assert_eq!(
        asked,
        ["normal DeleteDatabase MissingServer Unable to create database for orders due to unresolved server reference: main"]
    );
    assert_eq!(outcome, LATER);
    db.spec.name = "a".repeat(64);
    let (asked, outcome) = drive(&db, db.cleanup(&servers()), vec![done()]);
    assert_eq!(
        asked,
        ["normal DeleteDatabase InvalidName Invalid database name for orders: Invalid database name: Name must be 63 characters or fewer."]
    );
    assert_eq!(outcome, LATER);
}

#[test]
fn finalizer_event_decides_on_the_pass() {
    let db = database(None);
    let (asked, _) = drive(
        &db,
        reconcile(&db, FinalizerEvent::Apply, &servers()),
        vec![found(true), done()],
    );
    assert_eq!(asked[0], FIND);
    let (asked, _) =
        drive(&db, reconcile(&db, FinalizerEvent::Cleanup, &servers()), vec![done()]);
    assert!(asked[0].starts_with("normal DeleteDatabase Ignored"));
    assert_eq!(DATABASE_FINALIZER, "database.db-operator.widemeadows.de");
}

#[test]
fn failed_database_is_counted_and_looked_at_again() {
    let db = database(None);
    let error = Error::KubeError(Failure {
        message: "forbidden".to_string(),
        debug: "Api(ErrorResponse)".to_string(),
    });
    let policy = error_policy(&db, &error);
    assert_eq!(policy.instance, "orders");
    assert_eq!(policy.error, "kubeerror(api(errorresponse))");
    assert_eq!(policy.action, Action::Requeue(300));
}

#[test]
fn database_follows_its_server() {
    let doc = DatabaseServer {
        metadata: ObjectMeta {
            name: Some("main".to_string()),
            generate_name: None,
            namespace: Some("default".to_string()),
        },
        spec: ServerSpec { connection: Connection::default(), enable: true },
        status: None,
    };
    let db = database(None);
    let mut connected = servers();
    match db.reconcile(&connected) {
        Step::Ask(request, _) => assert_eq!(describe(&request), FIND),
        Step::Finish(_) => panic!("the pass is over"),
    }
    doc.cleanup(&mut connected);
    match db.reconcile(&connected) {
        Step::Ask(request, _) => assert!(describe(&request)
            .starts_with("warning CreateDatabase MissingServer")),
        Step::Finish(_) => panic!("the pass is over"),
    }
}
