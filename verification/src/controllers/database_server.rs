//! Database servers: whether they can be reached, and what is told of it.

pub mod effects;
pub mod laws;
pub mod pass;

use crate::connection::Connection;
use crate::controllers::database_server::pass::Step;
use crate::controllers::exchange::{
    optional_text, Action, ErrorPolicy, FinalizerEvent, ObjectMeta,
};
use crate::controllers::RECONCILE_INTERVAL;
use crate::error::{is_metric_label, Error};
use crate::names::NameMap;
use vstd::prelude::*;

verus! {

pub const DATABASE_SERVER_FINALIZER: &'static str = "databaseservers.db-operator.widemeadows.de";

/// The kind of the resource.
pub const DATABASE_SERVER_KIND: &'static str = "DatabaseServer";

/// The query for the version of a server.
pub const VERSION_QUERY: &'static str = "SELECT version() AS version;";

/// How many connections are held to a server.
pub const MAX_CONNECTIONS: u32 = 5;

/// What is wanted of a server.
#[derive(Clone, Debug)]
pub struct DatabaseServerSpec {
    pub connection: Connection,
    pub enable: bool,
}

/// The status object of `DatabaseServer`
#[derive(Clone, Default, Debug)]
pub struct DatabaseServerStatus {
    pub enabled: bool,
    /// Whether a connection attempt was successful.
    pub connected: bool,
    /// The server version
    pub server_version: Option<String>,
}

/// The texts of a [`DatabaseServerStatus`].
pub struct DatabaseServerStatusView {
    pub enabled: bool,
    pub connected: bool,
    pub server_version: Option<Seq<char>>,
}

impl View for DatabaseServerStatus {
    type V = DatabaseServerStatusView;

    open spec fn view(&self) -> DatabaseServerStatusView {
        DatabaseServerStatusView {
            enabled: self.enabled,
            connected: self.connected,
            server_version: optional_text(self.server_version),
        }
    }
}

/// A server that holds databases.
#[derive(Clone, Debug)]
pub struct DatabaseServer {
    pub metadata: ObjectMeta,
    pub spec: DatabaseServerSpec,
    pub status: Option<DatabaseServerStatus>,
}

impl DatabaseServer {
    /// Whether the server was enabled when its status was written.
    pub open spec fn enabled_before(self) -> bool {
        self.status matches Some(status) && status.enabled
    }

    /// Whether the server was connected when its status was written.
    pub open spec fn connected_before(self) -> bool {
        self.status matches Some(status) && status.connected
    }

    /// Whether the server was enabled when its status was written.
    pub fn was_enabled(&self) -> (res: bool)
        ensures
            res == self.enabled_before(),
    {
        match &self.status {
            Some(status) => status.enabled,
            None => false,
        }
    }

    /// Whether the server was connected when its status was written.
    pub fn was_connected(&self) -> (res: bool)
        ensures
            res == self.connected_before(),
    {
        match &self.status {
            Some(status) => status.connected,
            None => false,
        }
    }
}

/// Begins a pass over a server.
pub fn reconcile<P>(
    doc: &DatabaseServer,
    event: FinalizerEvent,
    servers: &mut NameMap<P>,
) -> (res: Step)
    ensures
        match event {
            FinalizerEvent::Apply => {
                &&& doc.begins_with(res@)
                &&& final(servers)@ == old(servers)@
            },
            FinalizerEvent::Cleanup => {
                &&& res@ == doc.cleanup_step()
                &&& final(servers)@ == old(servers)@.remove(doc.metadata.any_name())
            },
        },
{
    match event {
        FinalizerEvent::Apply => doc.reconcile(),
        FinalizerEvent::Cleanup => doc.cleanup(servers),
    }
}

/// What is done when a pass over a server fails: the failure is counted, and
/// the server is looked at again after a while.
pub fn error_policy(doc: &DatabaseServer, error: &Error) -> (res: ErrorPolicy)
    ensures
        res.instance@ == doc.metadata.any_name(),
        is_metric_label(error.view(), res.error@),
        res.action == Action::Requeue(RECONCILE_INTERVAL),
{
    ErrorPolicy {
        instance: doc.metadata.name_any(),
        error: error.metric_label(),
        action: Action::Requeue(RECONCILE_INTERVAL),
    }
}

} // verus!
