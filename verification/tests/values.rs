//! Values: texts, names, privileges, events and errors.

use db_operator::controllers::database_event_recorder::{
    DatabaseEventRecorder, EventAction, EventReason,
};
use db_operator::controllers::exchange::{with_error, EventType, ObjectMeta};
use db_operator::controllers::grants::{
    DatabasePrivilege, SchemaPrivilege, TablePrivilege, ToSql,
};
use db_operator::controllers::{DATABASE_READY, LAST_APPLIED_CONFIGURATION};
use db_operator::error::{Error, Failure, FinalizerFailure};
use db_operator::names::NameMap;
use db_operator::text::{contains, double, to_chars};

fn failure() -> Failure {
    Failure { message: "It failed".to_string(), debug: "Service(\"Größe\")".to_string() }
}

#[test]
fn privileges_are_written_in_sql() {
    assert_eq!(DatabasePrivilege::Connect.to_sql(), "CONNECT");
    assert_eq!(DatabasePrivilege::Create.to_sql(), "CREATE");
    assert_eq!(DatabasePrivilege::Temporary.to_sql(), "TEMPORARY");
    assert_eq!(DatabasePrivilege::AllPrivileges.to_sql(), "ALL PRIVILEGES");
    assert_eq!(SchemaPrivilege::Usage.to_sql(), "USAGE");
    assert_eq!(SchemaPrivilege::Create.to_sql(), "CREATE");
    assert_eq!(SchemaPrivilege::AllPrivileges.to_sql(), "ALL PRIVILEGES");
    assert_eq!(TablePrivilege::Select.to_sql(), "SELECT");
    assert_eq!(TablePrivilege::Insert.to_sql(), "INSERT");
    assert_eq!(TablePrivilege::Update.to_sql(), "UPDATE");
    assert_eq!(TablePrivilege::Delete.to_sql(), "DELETE");
    assert_eq!(TablePrivilege::Truncate.to_sql(), "TRUNCATE");
    assert_eq!(TablePrivilege::References.to_sql(), "REFERENCES");
    assert_eq!(TablePrivilege::Trigger.to_sql(), "TRIGGER");
    assert_eq!(TablePrivilege::AllPrivileges.to_sql(), "ALL PRIVILEGES");
}

#[test]
fn events_name_their_action_and_reason() {
    assert_eq!(EventAction::CreateDatabase.to_string(), "CreateDatabase");
    assert_eq!(EventAction::ReconcileDatabase.to_string(), "ReconcileDatabase");
    assert_eq!(EventAction::ApplyGrant.to_string(), "ApplyGrant");
    assert_eq!(EventAction::ApplyComment.to_string(), "ApplyComment");
    assert_eq!(EventAction::DeleteDatabase.to_string(), "DeleteDatabase");
    assert_eq!(EventReason::MissingServer.to_string(), "MissingServer");
    assert_eq!(EventReason::InspectionFailed.to_string(), "InspectionFailed");
    assert_eq!(EventReason::InvalidName.to_string(), "InvalidName");
    assert_eq!(EventReason::CreateRequested.to_string(), "CreateRequested");
    assert_eq!(EventReason::Success.to_string(), "Success");
    assert_eq!(EventReason::Failed.to_string(), "Failed");
    assert_eq!(EventReason::Ignored.to_string(), "Ignored");
    let event = DatabaseEventRecorder.warn(
        EventAction::ApplyGrant,
        EventReason::Failed,
        "Failed: ".to_string(),
    );
    assert_eq!(event.type_, EventType::Warning);
    let event = with_error(event, "denied");
    assert_eq!(event.note, Some("Failed: denied".to_string()));
    assert_eq!(event.action, "ApplyGrant");
    assert_eq!(event.reason, "Failed");
    let event = DatabaseEventRecorder.info(
        EventAction::ApplyGrant,
        EventReason::Success,
        "Done".to_string(),
    );
    assert_eq!(event.type_, EventType::Normal);
    assert_eq!(event.note, Some("Done".to_string()));
}

#[test]
fn errors_are_told_to_users() {
    assert_eq!(
        Error::SerializationError(failure()).to_string(),
        "SerializationError: It failed"
    );
    assert_eq!(Error::KubeError(failure()).to_string(), "Kubernetes API Error: It failed");
    assert_eq!(Error::IllegalDatabaseServer.to_string(), "IllegalDatabaseServer");
    let cases = [
        (
            FinalizerFailure::ApplyFailed(Error::KubeError(failure())),
            "failed to apply object: Kubernetes API Error: It failed",
        ),
        (
            FinalizerFailure::CleanupFailed(Error::IllegalDatabaseServer),
            "failed to clean up object: IllegalDatabaseServer",
        ),
        (FinalizerFailure::AddFinalizer(failure()), "failed to add finalizer: It failed"),
        (FinalizerFailure::RemoveFinalizer(failure()), "failed to remove finalizer: It failed"),
        (FinalizerFailure::UnnamedObject, "object has no name"),
        (FinalizerFailure::InvalidFinalizer, "invalid finalizer"),
    ];
    for (case, text) in cases {
        assert_eq!(
            Error::FinalizerError(Box::new(case)).to_string(),
            format!("Finalizer Error: {}", text)
        );
    }
}

#[test]
fn errors_are_labelled_in_lower_case() {
    assert_eq!(
        Error::SerializationError(failure()).metric_label(),
        "serializationerror(service(\"größe\"))"
    );
    assert_eq!(Error::IllegalDatabaseServer.metric_label(), "illegaldocument");
    let cases = [
        (
            FinalizerFailure::CleanupFailed(Error::KubeError(failure())),
            "cleanupfailed(kubeerror(service(\"größe\")))",
        ),
        (FinalizerFailure::AddFinalizer(failure()), "addfinalizer(service(\"größe\"))"),
        (FinalizerFailure::RemoveFinalizer(failure()), "removefinalizer(service(\"größe\"))"),
        (FinalizerFailure::UnnamedObject, "unnamedobject"),
        (FinalizerFailure::InvalidFinalizer, "invalidfinalizer"),
    ];
    for (case, label) in cases {
        assert_eq!(
            Error::FinalizerError(Box::new(case)).metric_label(),
            format!("finalizererror({})", label)
        );
    }
}

#[test]
fn texts_are_searched_and_doubled() {
    assert_eq!(to_chars("aß"), ['a', 'ß']);
    assert!(contains("already exists", "already exists"));
    assert!(contains("it already exists.", "already exists"));
    assert!(!contains("already exist", "already exists"));
    assert!(contains("aab", "ab"));
    assert!(contains("", ""));
    assert!(!contains("", "a"));
    assert_eq!(double("a'b''", '\''), "a''b''''");
    assert_eq!(double("", '\''), "");
}

#[test]
fn name_map_keeps_the_last_value_of_each_name() {
    let mut map = NameMap::new();
    assert_eq!(map.get("a"), None);
    map.insert("a".to_string(), 1);
    map.insert("b".to_string(), 2);
    map.insert("a".to_string(), 3);
    assert_eq!(map.get("a"), Some(&3));
    assert_eq!(map.get("b"), Some(&2));
    map.remove("a");
    map.remove("c");
    assert_eq!(map.get("a"), None);
    assert_eq!(map.get("b"), Some(&2));
}

#[test]
fn name_of_a_resource_may_be_generated() {
    let mut metadata = ObjectMeta::default();
    assert_eq!(metadata.name_any(), "");
    metadata.generate_name = Some("orders-".to_string());
    assert_eq!(metadata.name_any(), "orders-");
    metadata.name = Some("orders-1".to_string());
    assert_eq!(metadata.name_any(), "orders-1");
}

#[test]
fn annotations_are_in_the_group() {
    assert_eq!(
        LAST_APPLIED_CONFIGURATION,
        "db-operator.widemeadows.de/last-applied-configuration"
    );
    assert_eq!(DATABASE_READY, "db-operator.widemeadows.de/database-ready");
}
