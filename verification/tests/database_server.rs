//! Passes over database servers, step by step.

use db_operator::connection::{
    Connection, ConnectionDetails, ConnectionDetailsError, Resolution, StringValue,
};
use db_operator::controllers::database_server::pass::{Request, Step};
use db_operator::controllers::database_server::{
    error_policy, reconcile, DatabaseServer, DatabaseServerSpec, DatabaseServerStatus,
    DATABASE_SERVER_FINALIZER,
};
use db_operator::controllers::exchange::{
    Action, Answer, EventType, FinalizerEvent, ObjectMeta, Reply,
};
use db_operator::controllers::secrets::{Secret, SecretRef};
use db_operator::error::{Error, Failure, FinalizerFailure};
use db_operator::names::NameMap;
use sqlx::postgres::PgConnectOptions;

fn server(connection: Connection, enable: bool) -> DatabaseServer {
    DatabaseServer {
        metadata: ObjectMeta {
            name: Some("main".to_string()),
            generate_name: None,
            namespace: Some("default".to_string()),
        },
        spec: DatabaseServerSpec { connection, enable },
        status: None,
    }
}

fn status(enabled: bool, connected: bool) -> Option<DatabaseServerStatus> {
    Some(DatabaseServerStatus { enabled, connected, server_version: None })
}

fn value(text: &str) -> StringValue {
    StringValue::Value(text.to_string())
}

fn secret_value(name: &str, key: &str) -> StringValue {
    StringValue::SecretRef(SecretRef { name: name.to_string(), key: key.to_string() })
}

fn secret(key: &str, bytes: &[u8]) -> Reply {
    let mut data = NameMap::new();
    data.insert(key.to_string(), bytes.to_vec());
    Ok(Answer::Secret(Secret { data: Some(data) }))
}

fn done() -> Reply {
    Ok(Answer::Done)
}

fn version(version: &str) -> Reply {
    Ok(Answer::Version(Some(version.to_string())))
}

fn failure(message: &str) -> Reply {
    Err(Failure { message: message.to_string(), debug: "Debug".to_string() })
}

fn describe(request: &Request) -> String {
    match request {
        Request::Publish(event) => format!(
            "{} {} {} {}",
            match event.type_ {
                EventType::Normal => "normal",
                EventType::Warning => "warning",
            },
            event.action,
            event.reason,
            event.note.as_deref().unwrap_or("-"),
        ),
        Request::FetchSecret(name) => format!("secret {}", name),
        Request::Connect(options, limit) => format!(
            "connect {}:{} {} {} {} {}",
            options.get_host(),
            options.get_port(),
            options.get_username(),
            options.get_database().unwrap_or("-"),
            options.get_application_name().unwrap_or("-"),
            limit,
        ),
        Request::QueryVersion(statement) => {
            format!("query {} {:?}", statement.sql, statement.argument)
        }
        Request::Register(name) => format!("register {}", name),
        Request::PatchStatus(patch) => format!(
            "patch {} {} {} {} {} {} {} {}",
            patch.name,
            patch.api_version,
            patch.kind,
            patch.field_manager,
            patch.force,
            patch.status.enabled,
            patch.status.connected,
            patch.status.server_version.as_deref().unwrap_or("-"),
        ),
    }
}

/// Answers a pass until it is over; gives what it asked for and what it ended
/// with.
fn drive(doc: &DatabaseServer, first: Step, replies: Vec<Reply>) -> (Vec<String>, String) {
    let mut asked = Vec::new();
    let mut step = first;
    for reply in replies {
        match step {
            Step::Ask(request, pass) => {
                asked.push(describe(&request));
                step = doc.resume(pass, reply);
            }
            Step::Finish(_) => panic!("the pass was over after {:?}", asked),
        }
    }
    match step {
        Step::Ask(request, _) => panic!("the pass goes on with {}", describe(&request)),
        Step::Finish(Ok(action)) => (asked, format!("{:?}", action)),
        Step::Finish(Err(error)) => (asked, error.to_string()),
    }
}

/// The port of options that none was given for.
fn default_port() -> u16 {
    PgConnectOptions::new().get_port()
}

fn local() -> Connection {
    Connection::Url(value("postgres://admin@db.local:5433/maintenance"))
}

const CONNECT: &str = "connect db.local:5433 admin maintenance controller 5";
const QUERY: &str = "query SELECT version() AS version; None";
const ENABLE: &str = "normal Enabling EnableRequested Enabling database server use";
const LATER: &str = "Requeue(300)";

fn patch(enabled: bool, connected: bool, version: &str) -> String {
    format!(
        "patch main db-operator.widemeadows.de/v1 DatabaseServer cntrlr true {} {} {}",
        enabled, connected, version
    )
}

#[test]
fn finalized_doc_causes_status_patch() {
    let doc = server(local(), false);
    let (asked, outcome) = drive(
        &doc,
        doc.reconcile(),
        vec![done(), version("PostgreSQL 16.1"), done(), done(), done()],
    );
    assert_eq!(
        asked,
        [
            CONNECT.to_string(),
            QUERY.to_string(),
            "register main".to_string(),
            "normal Connect Connected Successfully connected to host `db.local`: PostgreSQL 16.1"
                .to_string(),
            patch(false, true, "PostgreSQL 16.1"),
        ]
    );
    assert_eq!(outcome, LATER);
}

#[test]
fn enabling_is_told_before_the_status_is_written() {
    let mut doc = server(local(), true);
    doc.status = status(false, true);
    let (asked, outcome) = drive(
        &doc,
        doc.reconcile(),
        vec![done(), done(), version("PostgreSQL 16.1"), done(), done()],
    );
    assert_eq!(
        asked,
        [
            ENABLE.to_string(),
            CONNECT.to_string(),
            QUERY.to_string(),
            "register main".to_string(),
            patch(true, true, "PostgreSQL 16.1"),
        ]
    );
    assert_eq!(outcome, LATER);
}

#[test]
fn enabling_is_told_once() {
    let mut doc = server(local(), true);
    doc.status = status(true, true);
    assert!(doc.was_enabled());
    let (asked, _) = drive(&doc, doc.reconcile(), vec![failure("refused"), done()]);
    assert_eq!(asked, [CONNECT.to_string(), patch(true, false, "-")]);
    doc.status = None;
    assert!(!doc.was_enabled());
    assert!(!doc.was_connected());
    let (asked, outcome) = drive(&doc, doc.reconcile(), vec![failure("forbidden")]);
    assert_eq!(asked, [ENABLE]);
    assert_eq!(outcome, "Kubernetes API Error: forbidden");
}

#[test]
fn known_connection_is_not_told_again() {
    let mut doc = server(local(), false);
    doc.status = status(false, true);
    assert!(doc.was_connected());
    let (asked, _) = drive(
        &doc,
        doc.reconcile(),
        vec![done(), version("PostgreSQL 16.1"), done(), done()],
    );
    assert_eq!(
        asked,
        [
            CONNECT.to_string(),
            QUERY.to_string(),
            "register main".to_string(),
            patch(false, true, "PostgreSQL 16.1"),
        ]
    );
}

#[test]
fn failed_connection_is_told_when_it_is_new() {
    let doc = server(local(), false);
    let (asked, outcome) = drive(&doc, doc.reconcile(), vec![failure("refused"), done(), done()]);
    assert_eq!(
        asked,
        [
            CONNECT.to_string(),
            "warning Connect ConnectionFailed Failed to connect to `main`: refused".to_string(),
            patch(false, false, "-"),
        ]
    );
    assert_eq!(outcome, LATER);
}

#[test]
fn missing_version_is_unknown() {
    let doc = server(local(), false);
    let (asked, _) = drive(
        &doc,
        doc.reconcile(),
        vec![done(), Ok(Answer::Version(None)), done(), done(), done()],
    );
    assert_eq!(
        asked[3],
        "normal Connect Connected Successfully connected to host `db.local`: unknown"
    );
    assert_eq!(asked[4], patch(false, true, "unknown"));
    let (asked, _) = drive(
        &doc,
        doc.reconcile(),
        vec![done(), failure("timeout"), done(), done(), done()],
    );
    assert_eq!(
        asked[3],
        "normal Connect Connected Successfully connected to host `db.local`: unknown"
    );
    assert_eq!(asked[4], patch(false, true, "-"));
}

#[test]
fn details_are_fetched_in_order() {
    let doc = server(
        Connection::Details(ConnectionDetails {
            host: secret_value("net", "host"),
            user: value("admin"),
            password: secret_value("login", "password"),
            dbname: Some(secret_value("net", "dbname")),
        }),
        false,
    );
    let (asked, outcome) = drive(
        &doc,
        doc.reconcile(),
        vec![
            secret("host", b"db.internal"),
            secret("password", b"hidden"),
            secret("dbname", b"maintenance"),
            failure("refused"),
            done(),
            done(),
        ],
    );
    assert_eq!(
        asked,
        [
            "secret net".to_string(),
            "secret login".to_string(),
            "secret net".to_string(),
            format!("connect db.internal:{} admin maintenance controller 5", default_port()),
            "warning Connect ConnectionFailed Failed to connect to `main`: refused".to_string(),
            patch(false, false, "-"),
        ]
    );
    assert_eq!(outcome, LATER);
}

#[test]
fn longest_pass_takes_ten_answers() {
    let doc = server(
        Connection::Details(ConnectionDetails {
            host: secret_value("all", "value"),
            user: secret_value("all", "value"),
            password: secret_value("all", "value"),
            dbname: Some(secret_value("all", "value")),
        }),
        true,
    );
    let mut replies = vec![done()];
    for _ in 0..4 {
        replies.push(secret("value", b"x"));
    }
    replies.extend([done(), version("1"), done(), done(), done()]);
    let (asked, outcome) = drive(&doc, doc.reconcile(), replies);
    assert_eq!(asked.len(), 10);
    assert_eq!(asked[5], format!("connect x:{} x x controller 5", default_port()));
    assert_eq!(outcome, LATER);
}

#[test]
fn secret_that_cannot_be_fetched_makes_the_details_invalid() {
    let mut doc = server(Connection::Url(secret_value("login", "url")), false);
    doc.status = status(false, true);
    let (asked, outcome) =
        drive(&doc, doc.reconcile(), vec![failure("not found"), done(), done()]);
    assert_eq!(
        asked,
        [
            "secret login".to_string(),
            "normal Connect ConnectionFailed Invalid connection details: Kubernetes error: not found"
                .to_string(),
            patch(false, false, "-"),
        ]
    );
    assert_eq!(outcome, LATER);
}

#[test]
fn secret_without_the_value_makes_the_details_invalid() {
    let doc = server(Connection::Url(secret_value("login", "url")), false);
    let cases = [
        (secret("other", b"x"), "Secret not found: url"),
        (Ok(Answer::Secret(Secret { data: None })), "Secret has no data"),
        (secret("url", &[0xff, 0xfe]), "Secret has invalid base64 data"),
    ];
    for (reply, text) in cases {
        let (asked, _) = drive(&doc, doc.reconcile(), vec![reply, done(), done()]);
        assert_eq!(
            asked[1],
            format!("normal Connect ConnectionFailed Invalid connection details: {}", text)
        );
    }
}

#[test]
fn url_that_cannot_be_parsed_makes_the_details_invalid() {
    let doc = server(Connection::Url(value("no url")), false);
    let (asked, outcome) = drive(&doc, doc.reconcile(), vec![done(), failure("conflict")]);
    assert_eq!(
        asked,
        [
            "normal Connect ConnectionFailed Invalid connection details: error with configuration: relative URL without a base"
                .to_string(),
            patch(false, false, "-"),
        ]
    );
    assert_eq!(outcome, "Kubernetes API Error: conflict");
}

#[test]
fn resolution_decides_on_the_next_step() {
    let doc = server(local(), false);
    match doc.connection_resolved(Vec::new(), Resolution::Pending("login".to_string())) {
        Step::Ask(request, _) => assert_eq!(describe(&request), "secret login"),
        Step::Finish(_) => panic!("the pass is over"),
    }
    let error = ConnectionDetailsError::DatabaseError("bad".to_string());
    match doc.connection_resolved(Vec::new(), Resolution::Ready(Err(error))) {
        Step::Ask(request, _) => assert_eq!(
            describe(&request),
            "normal Connect ConnectionFailed Invalid connection details: bad"
        ),
        Step::Finish(_) => panic!("the pass is over"),
    }
}

#[test]
fn finalized_doc_with_delete_timestamp_causes_delete() {
    let doc = server(local(), true);
    let mut servers = NameMap::new();
    servers.insert("main".to_string(), 1);
    servers.insert("other".to_string(), 2);
    let step = reconcile(&doc, FinalizerEvent::Cleanup, &mut servers);
    assert_eq!(servers.get("main"), None);
    assert_eq!(servers.get("other"), Some(&2));
    let (asked, outcome) = drive(&doc, step, vec![done()]);
    assert_eq!(asked, ["normal Deleting DeleteRequested Delete `main`"]);
    assert_eq!(outcome, "AwaitChange");
    let (_, outcome) = drive(&doc, doc.cleanup(&mut servers), vec![failure("forbidden")]);
    assert_eq!(outcome, "Kubernetes API Error: forbidden");
    assert_eq!(DATABASE_SERVER_FINALIZER, "databaseservers.db-operator.widemeadows.de");
}

#[test]
fn applying_keeps_the_servers() {
    let doc = server(local(), true);
    let mut servers = NameMap::new();
    servers.insert("main".to_string(), 1);
    let step = reconcile(&doc, FinalizerEvent::Apply, &mut servers);
    match step {
        Step::Ask(request, _) => assert_eq!(describe(&request), ENABLE),
        Step::Finish(_) => panic!("the pass is over"),
    }
    assert_eq!(servers.get("main"), Some(&1));
}

#[test]
fn illegal_server_is_told_and_counted() {
    let mut doc = server(local(), true);
    doc.metadata.name = Some("illegal".to_string());
    let error = Error::FinalizerError(Box::new(FinalizerFailure::ApplyFailed(
        Error::IllegalDatabaseServer,
    )));
    assert!(error.to_string().contains("IllegalDatabaseServer"));
    let policy = error_policy(&doc, &error);
    assert_eq!(policy.instance, "illegal");
    assert_eq!(policy.error, "finalizererror(applyfailed(illegaldocument))");
    assert_eq!(policy.action, Action::Requeue(300));
}
