//! The resources that the operator manages, and the passes over them.

pub mod database;
pub mod database_event_recorder;
pub mod database_server;
pub mod exchange;
pub mod grants;
pub mod secrets;

use vstd::prelude::*;

verus! {

/// The annotation that keeps the configuration that was applied last.
pub const LAST_APPLIED_CONFIGURATION: &'static str =
    "db-operator.widemeadows.de/last-applied-configuration";

/// The annotation that tells whether a database is ready.
pub const DATABASE_READY: &'static str = "db-operator.widemeadows.de/database-ready";

/// The group and version of the resources.
pub const API_VERSION: &'static str = "db-operator.widemeadows.de/v1";

/// The name under which the operator owns the fields that it writes.
pub const FIELD_MANAGER: &'static str = "cntrlr";

/// How long to wait, in seconds, before looking at a resource again.
pub const RECONCILE_INTERVAL: u64 = 300;

} // verus!
