//! Connections, and the secrets that their values are kept in.

use db_operator::connection::{
    url_parsed, with_details, Connection, ConnectionDetails, ConnectionDetailsError, Resolution,
    ResolveValueError, StringValue,
};
use db_operator::controllers::secrets::{Fetched, Secret, SecretError, SecretRef};
use db_operator::error::Failure;
use db_operator::names::NameMap;
use sqlx::postgres::{PgConnectOptions, PgSslMode};
use sqlx::ConnectOptions;

fn value(text: &str) -> StringValue {
    StringValue::Value(text.to_string())
}

fn secret_value(name: &str, key: &str) -> StringValue {
    StringValue::SecretRef(SecretRef { name: name.to_string(), key: key.to_string() })
}

fn secret(entries: &[(&str, &[u8])]) -> Secret {
    let mut data = NameMap::new();
    for (key, bytes) in entries {
        data.insert(key.to_string(), bytes.to_vec());
    }
    Secret { data: Some(data) }
}

fn resolved(connection: &Connection, answers: &Vec<Fetched>) -> PgConnectOptions {
    match connection.to_pg_connect_options(answers) {
        Resolution::Ready(Ok(options)) => options,
        Resolution::Ready(Err(error)) => panic!("{}", error.to_string()),
        Resolution::Pending(name) => panic!("{} is needed", name),
    }
}

#[test]
fn default_connection_is_local() {
    match Connection::default() {
        Connection::Url(StringValue::Value(url)) => {
            assert_eq!(url, "postgres://localhost:5432/postgres")
        }
        _ => panic!("the default is no literal URL"),
    }
    let options = resolved(&Connection::default(), &Vec::new());
    assert_eq!(options.get_host(), "localhost");
    assert_eq!(options.get_database(), Some("postgres"));
    assert_eq!(options.get_application_name(), Some("controller"));
}

#[test]
fn application_name_of_a_url_is_replaced() {
    let url = "postgres://u@h/d?application_name=mine";
    let options = resolved(&Connection::Url(value(url)), &Vec::new());
    assert_eq!(options.get_host(), "h");
    assert_eq!(options.get_username(), "u");
    assert_eq!(options.get_database(), Some("d"));
    assert_eq!(options.get_application_name(), Some("controller"));
}

#[test]
fn settings_of_a_url_are_kept() {
    let url = "postgres://u@db1:6543/app?application_name=x&sslmode=verify-full";
    let options = resolved(&Connection::Url(value(url)), &Vec::new());
    assert_eq!(options.get_host(), "db1");
    assert_eq!(options.get_port(), 6543);
    assert_eq!(options.get_username(), "u");
    assert_eq!(options.get_database(), Some("app"));
    assert_eq!(options.get_application_name(), Some("controller"));
    assert!(matches!(options.get_ssl_mode(), PgSslMode::VerifyFull));
    assert!(options.get_socket().is_none());
    let url = "postgres://u@db1/app?port=6544&sslmode=disable&host=/run/pg";
    let options = resolved(&Connection::Url(value(url)), &Vec::new());
    assert_eq!(options.get_port(), 6544);
    assert!(matches!(options.get_ssl_mode(), PgSslMode::Disable));
    assert_eq!(options.get_socket().and_then(|path| path.to_str()), Some("/run/pg"));
    assert_eq!(options.get_application_name(), Some("controller"));
}

#[test]
fn startup_options_end_with_those_of_the_url() {
    let url = "postgres://u@h/d?options=-c%20geqo%3Doff&options[search_path]=sales";
    let options = resolved(&Connection::Url(value(url)), &Vec::new());
    let startup = options.get_options().unwrap_or("");
    assert!(startup.ends_with("-c geqo=off -c search_path=sales"), "{}", startup);
}

#[test]
fn details_are_written_into_options() {
    let options = with_details(
        PgConnectOptions::new().port(6543).ssl_mode(PgSslMode::Require),
        "db.local",
        "admin",
        "hidden",
        "maintenance",
    );
    assert_eq!(options.get_host(), "db.local");
    assert_eq!(options.get_username(), "admin");
    assert_eq!(options.to_url_lossy().password(), Some("hidden"));
    assert_eq!(options.get_database(), Some("maintenance"));
    assert_eq!(options.get_application_name(), Some("controller"));
    assert_eq!(options.get_port(), 6543);
    assert!(matches!(options.get_ssl_mode(), PgSslMode::Require));
}

#[test]
fn parsed_url_gets_the_name_of_the_operator() {
    match url_parsed(Ok(PgConnectOptions::new().host("h").application_name("mine"))) {
        Ok(options) => {
            assert_eq!(options.get_host(), "h");
            assert_eq!(options.get_application_name(), Some("controller"));
        }
        Err(error) => panic!("{}", error.to_string()),
    }
    match url_parsed(Err("refused".to_string())) {
        Err(ConnectionDetailsError::DatabaseError(text)) => assert_eq!(text, "refused"),
        _ => panic!("the refusal was lost"),
    }
}

#[test]
fn port_of_a_url_in_a_secret_is_kept() {
    let connection = Connection::Url(secret_value("login", "url"));
    let answers: Vec<Fetched> = vec![Ok(secret(&[("url", b"postgres://u@db1:6543/app")]))];
    assert_eq!(resolved(&connection, &answers).get_port(), 6543);
}

#[test]
fn literal_details_are_kept() {
    let details = ConnectionDetails {
        host: value("db.local"),
        user: value("admin"),
        password: value("hidden"),
        dbname: None,
    };
    let options = resolved(&Connection::Details(details.clone()), &Vec::new());
    assert_eq!(options.get_host(), "db.local");
    assert_eq!(options.get_username(), "admin");
    assert_eq!(options.to_url_lossy().password(), Some("hidden"));
    assert!(options.get_socket().is_none());
    assert_eq!(options.get_database(), Some("postgres"));
    assert_eq!(options.get_application_name(), Some("controller"));
    let named = ConnectionDetails { dbname: Some(value("maintenance")), ..details };
    match named.resolve(&Vec::new()) {
        Resolution::Ready(Ok(options)) => assert_eq!(options.get_database(), Some("maintenance")),
        _ => panic!("the details are not resolved"),
    }
}

#[test]
fn references_take_one_answer_each() {
    let connection = Connection::Details(ConnectionDetails {
        host: secret_value("net", "host"),
        user: value("admin"),
        password: secret_value("login", "password"),
        dbname: None,
    });
    let mut answers: Vec<Fetched> = Vec::new();
    match connection.to_pg_connect_options(&answers) {
        Resolution::Pending(name) => assert_eq!(name, "net"),
        Resolution::Ready(_) => panic!("no secret was asked for"),
    }
    answers.push(Ok(secret(&[("host", b"db.local")])));
    match connection.to_pg_connect_options(&answers) {
        Resolution::Pending(name) => assert_eq!(name, "login"),
        Resolution::Ready(_) => panic!("no second secret was asked for"),
    }
    answers.push(Ok(secret(&[("password", b"hidden")])));
    let options = resolved(&connection, &answers);
    assert_eq!(options.get_host(), "db.local");
    assert_eq!(options.to_url_lossy().password(), Some("hidden"));
}

#[test]
fn first_failing_value_decides() {
    let connection = Connection::Details(ConnectionDetails {
        host: secret_value("net", "host"),
        user: secret_value("login", "user"),
        password: value("hidden"),
        dbname: None,
    });
    let answers: Vec<Fetched> = vec![Ok(secret(&[]))];
    match connection.to_pg_connect_options(&answers) {
        Resolution::Ready(Err(ConnectionDetailsError::ValueResolution(
            ResolveValueError::SecretError(SecretError::SecretNotFound(key)),
        ))) => assert_eq!(key, "host"),
        _ => panic!("the missing key was not told"),
    }
}

#[test]
fn refused_url_is_told() {
    match Connection::Url(value("no url")).to_pg_connect_options(&Vec::new()) {
        Resolution::Ready(Err(error)) => assert_eq!(
            error.to_string(),
            "error with configuration: relative URL without a base"
        ),
        _ => panic!("the URL was accepted"),
    }
}

#[test]
fn literal_value_needs_no_answer() {
    match value("text").resolve(&Vec::new(), 0) {
        Resolution::Ready(Ok(text)) => assert_eq!(text, "text"),
        _ => panic!("the literal was not resolved"),
    }
    match secret_value("login", "user").resolve(&Vec::new(), 0) {
        Resolution::Pending(name) => assert_eq!(name, "login"),
        _ => panic!("the secret was not asked for"),
    }
}

#[test]
fn fields_of_secrets_are_decoded() {
    let reference = SecretRef { name: "login".to_string(), key: "user".to_string() };
    let full = secret(&[("user", "größe".as_bytes()), ("other", b"x")]);
    assert_eq!(reference.get_field_with(&full).ok(), Some("größe".to_string()));
    assert_eq!(reference.get_field(&Ok(full)).ok(), Some("größe".to_string()));
    let error = reference.get_field_with(&Secret { data: None }).unwrap_err();
    assert_eq!(error.to_string(), "Secret has no data");
    let error = reference.get_field_with(&secret(&[("other", b"x")])).unwrap_err();
    assert_eq!(error.to_string(), "Secret not found: user");
    let error = reference.get_field_with(&secret(&[("user", &[0xc3, 0x28])])).unwrap_err();
    assert_eq!(error.to_string(), "Secret has invalid base64 data");
}

#[test]
fn failure_to_fetch_a_secret_is_kept() {
    let reference = SecretRef { name: "login".to_string(), key: "user".to_string() };
    let fetched: Fetched = Err(Failure {
        message: "not found".to_string(),
        debug: "Api(404)".to_string(),
    });
    match reference.get(&fetched) {
        Err(SecretError::Kubernetes(failure)) => assert_eq!(failure.debug, "Api(404)"),
        _ => panic!("the failure was not kept"),
    }
    assert_eq!(
        reference.get_field(&fetched).unwrap_err().to_string(),
        "Kubernetes error: not found"
    );
    assert!(reference.get(&Ok(Secret { data: None })).is_ok());
}
