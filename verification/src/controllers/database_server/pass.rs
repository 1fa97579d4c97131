//! A pass over a database server. It asks for one thing at a time, and is
//! resumed with the answer.

use crate::connection::{ConnectionDetailsError, Resolution};
use crate::controllers::database_server::{
    DatabaseServer, DatabaseServerStatus, DatabaseServerStatusView, DATABASE_SERVER_KIND,
    MAX_CONNECTIONS, VERSION_QUERY,
};
use crate::controllers::exchange::{
    optional_text, Action, Event, EventType, EventView, Reply, Statement, StatementView,
    StatusPatch, StatusPatchView,
};
use crate::controllers::secrets::Fetched;
use crate::controllers::{API_VERSION, FIELD_MANAGER, RECONCILE_INTERVAL};
use crate::error::{Error, ErrorView};
use crate::names::NameMap;
use crate::outside::pg_settings;
use sqlx::postgres::PgConnectOptions;
use vstd::prelude::*;
use vstd::string::StringExecFns;

verus! {

/// What a pass asks for.
pub enum Request {
    /// To publish an event on the server.
    Publish(Event),
    /// To fetch the named secret.
    FetchSecret(String),
    /// To open up to so many connections to the server.
    Connect(PgConnectOptions, u32),
    /// To query the server for its version.
    QueryVersion(Statement),
    /// To keep the connections under a name.
    Register(String),
    /// To write the status of the server.
    PatchStatus(StatusPatch<DatabaseServerStatus>),
}

/// The texts of a [`Request`].
pub enum RequestView {
    Publish(EventView),
    FetchSecret(Seq<char>),
    Connect(PgConnectOptions, u32),
    QueryVersion(StatementView),
    Register(Seq<char>),
    PatchStatus(StatusPatchView<DatabaseServerStatusView>),
}

impl View for Request {
    type V = RequestView;

    open spec fn view(&self) -> RequestView {
        match *self {
            Request::Publish(event) => RequestView::Publish(event@),
            Request::FetchSecret(name) => RequestView::FetchSecret(name@),
            Request::Connect(options, limit) => RequestView::Connect(options, limit),
            Request::QueryVersion(statement) => RequestView::QueryVersion(statement@),
            Request::Register(name) => RequestView::Register(name@),
            Request::PatchStatus(patch) => RequestView::PatchStatus(patch@),
        }
    }
}

/// Where a pass stands while it waits for an answer.
pub enum Pass {
    /// It is told that the server is enabled.
    Enabling,
    /// A secret is being fetched; the answers before it.
    Resolving(Vec<Fetched>),
    /// The connection to a host is being opened.
    Connecting(String),
    /// The host is being asked for its version.
    Querying(String),
    /// The connections to a host of a version are being kept.
    Registering(String, Option<String>),
    /// It is told whether the server is connected, and of which version it is.
    Announcing(bool, Option<String>),
    /// The status is being written.
    Patching,
    /// The last event is being published.
    Ending(Action),
}

/// The texts of a [`Pass`].
pub enum PassView {
    Enabling,
    Resolving(Seq<Fetched>),
    Connecting(Seq<char>),
    Querying(Seq<char>),
    Registering(Seq<char>, Option<Seq<char>>),
    Announcing(bool, Option<Seq<char>>),
    Patching,
    Ending(Action),
}

impl View for Pass {
    type V = PassView;

    open spec fn view(&self) -> PassView {
        match *self {
            Pass::Enabling => PassView::Enabling,
            Pass::Resolving(answers) => PassView::Resolving(answers@),
            Pass::Connecting(host) => PassView::Connecting(host@),
            Pass::Querying(host) => PassView::Querying(host@),
            Pass::Registering(host, version) => PassView::Registering(
                host@,
                optional_text(version),
            ),
            Pass::Announcing(connected, version) => PassView::Announcing(
                connected,
                optional_text(version),
            ),
            Pass::Patching => PassView::Patching,
            Pass::Ending(action) => PassView::Ending(action),
        }
    }
}

/// What a pass does next.
pub enum Step {
    /// It asks, and waits for the answer.
    Ask(Request, Pass),
    /// It is over.
    Finish(Result<Action, Error>),
}

/// The texts of a [`Step`].
pub enum StepView {
    Ask(RequestView, PassView),
    Finish(Result<Action, ErrorView>),
}

impl View for Step {
    type V = StepView;

    open spec fn view(&self) -> StepView {
        match *self {
            Step::Ask(request, pass) => StepView::Ask(request@, pass@),
            Step::Finish(Ok(action)) => StepView::Finish(Ok(action)),
            Step::Finish(Err(error)) => StepView::Finish(Err(error.view())),
        }
    }
}

/// The answer to a request for a secret.
pub open spec fn fetched_of(reply: Reply) -> Fetched {
    match reply {
        Ok(answer) => Ok(answer.given_secret()),
        Err(failure) => Err(failure),
    }
}

/// The version of a server, which is `unknown` when the server gave none, and
/// missing when the query failed.
pub open spec fn version_of(reply: Reply) -> Option<Seq<char>> {
    match reply {
        Ok(answer) => match answer.given_version() {
            Some(version) => Some(version@),
            None => Some("unknown"@),
        },
        Err(_) => None,
    }
}

/// The event that tells that a server is being enabled.
pub open spec fn enable_event() -> EventView {
    EventView {
        type_: EventType::Normal,
        reason: "EnableRequested"@,
        note: Some("Enabling database server use"@),
        action: "Enabling"@,
    }
}

/// The event that tells that a host is connected.
pub open spec fn connected_event(host: Seq<char>, version: Option<Seq<char>>) -> EventView {
    EventView {
        type_: EventType::Normal,
        reason: "Connected"@,
        note: Some(
            "Successfully connected to host `"@ + host + "`: "@ + match version {
                Some(version) => version,
                None => "unknown"@,
            },
        ),
        action: "Connect"@,
    }
}

/// The event that tells that a server cannot be reached.
pub open spec fn connection_failed_event(name: Seq<char>, error: Seq<char>) -> EventView {
    EventView {
        type_: EventType::Warning,
        reason: "ConnectionFailed"@,
        note: Some("Failed to connect to `"@ + name + "`: "@ + error),
        action: "Connect"@,
    }
}

/// The event that tells that the connection details cannot be used.
pub open spec fn invalid_details_event(error: Seq<char>) -> EventView {
    EventView {
        type_: EventType::Normal,
        reason: "ConnectionFailed"@,
        note: Some("Invalid connection details: "@ + error),
        action: "Connect"@,
    }
}

/// The event that tells that a server is being deleted.
pub open spec fn delete_event(name: Seq<char>) -> EventView {
    EventView {
        type_: EventType::Normal,
        reason: "DeleteRequested"@,
        note: Some("Delete `"@ + name + "`"@),
        action: "Deleting"@,
    }
}

/// Makes an event.
fn make_event(type_: EventType, reason: &str, note: String, action: &str) -> (res: Event)
    ensures
        res@ == (EventView { type_, reason: reason@, note: Some(note@), action: action@ }),
{
    Event { type_, reason: reason.to_owned(), note: Some(note), action: action.to_owned() }
}

impl DatabaseServer {
    /// The status that a pass writes.
    pub open spec fn status_patch(self, connected: bool, version: Option<Seq<char>>) -> StatusPatchView<
        DatabaseServerStatusView,
    > {
        StatusPatchView {
            name: self.metadata.any_name(),
            api_version: API_VERSION@,
            kind: DATABASE_SERVER_KIND@,
            field_manager: FIELD_MANAGER@,
            force: true,
            status: DatabaseServerStatusView {
                enabled: self.spec.enable,
                connected,
                server_version: version,
            },
        }
    }

    /// The step that writes the status.
    pub open spec fn patch_step(self, connected: bool, version: Option<Seq<char>>) -> StepView {
        StepView::Ask(
            RequestView::PatchStatus(self.status_patch(connected, version)),
            PassView::Patching,
        )
    }

    /// The step after the connection details were resolved as far as the
    /// answers allow.
    pub open spec fn connection_step(
        self,
        answers: Seq<Fetched>,
        resolution: Resolution<Result<PgConnectOptions, ConnectionDetailsError>>,
    ) -> StepView {
        match resolution {
            Resolution::Pending(name) => StepView::Ask(
                RequestView::FetchSecret(name@),
                PassView::Resolving(answers),
            ),
            Resolution::Ready(Ok(options)) => StepView::Ask(
                RequestView::Connect(options, MAX_CONNECTIONS),
                PassView::Connecting(pg_settings(options)["host"@]),
            ),
            Resolution::Ready(Err(error)) => StepView::Ask(
                RequestView::Publish(invalid_details_event(error@.text())),
                PassView::Announcing(false, None),
            ),
        }
    }

    /// The step is one that the connection details and the answers so far lead
    /// to.
    pub open spec fn resolves_with(self, answers: Seq<Fetched>, step: StepView) -> bool {
        exists|resolution: Resolution<Result<PgConnectOptions, ConnectionDetailsError>>|
            {
                &&& #[trigger] self.spec.connection.resolves_to(answers, resolution)
                &&& step == self.connection_step(answers, resolution)
            }
    }

    /// The step is one with which a pass over the server begins.
    pub open spec fn begins_with(self, step: StepView) -> bool {
        if !self.enabled_before() && self.spec.enable {
            step == StepView::Ask(RequestView::Publish(enable_event()), PassView::Enabling)
        } else {
            self.resolves_with(Seq::empty(), step)
        }
    }

    /// The first step of a pass that cleans up after the resource.
    pub open spec fn cleanup_step(self) -> StepView {
        StepView::Ask(
            RequestView::Publish(delete_event(self.metadata.any_name())),
            PassView::Ending(Action::AwaitChange),
        )
    }

    /// The step after a connection was opened, or was not.
    pub open spec fn connected_step(self, host: Seq<char>, reply: Reply) -> StepView {
        match reply {
            Ok(_) => StepView::Ask(
                RequestView::QueryVersion(StatementView { sql: VERSION_QUERY@, argument: None }),
                PassView::Querying(host),
            ),
            Err(failure) => if self.connected_before() {
                self.patch_step(false, None)
            } else {
                StepView::Ask(
                    RequestView::Publish(
                        connection_failed_event(self.metadata.any_name(), failure.message@),
                    ),
                    PassView::Announcing(false, None),
                )
            },
        }
    }

    /// The step after the connections were kept.
    pub open spec fn registered_step(self, host: Seq<char>, version: Option<Seq<char>>) -> StepView {
        if self.connected_before() {
            self.patch_step(true, version)
        } else {
            StepView::Ask(
                RequestView::Publish(connected_event(host, version)),
                PassView::Announcing(true, version),
            )
        }
    }

    /// The step is one that a pass takes after an answer came in.
    pub open spec fn resumes_with(self, pass: PassView, reply: Reply, step: StepView) -> bool {
        match (pass, reply) {
            (PassView::Resolving(answers), _) => self.resolves_with(
                answers.push(fetched_of(reply)),
                step,
            ),
            (PassView::Connecting(host), _) => step == self.connected_step(host, reply),
            (PassView::Querying(host), _) => step == StepView::Ask(
                RequestView::Register(self.metadata.any_name()),
                PassView::Registering(host, version_of(reply)),
            ),
            (PassView::Registering(host, version), _) => step == self.registered_step(
                host,
                version,
            ),
            (PassView::Enabling, Ok(_)) => self.resolves_with(Seq::empty(), step),
            (PassView::Announcing(connected, version), Ok(_)) => step == self.patch_step(
                connected,
                version,
            ),
            (PassView::Patching, Ok(_)) => step == StepView::Finish(
                Ok(Action::Requeue(RECONCILE_INTERVAL)),
            ),
            (PassView::Ending(action), Ok(_)) => step == StepView::Finish(Ok(action)),
            (PassView::Enabling, Err(failure)) => step == StepView::Finish(
                Err(ErrorView::KubeError(failure@)),
            ),
            (PassView::Announcing(connected, version), Err(failure)) => step == StepView::Finish(
                Err(ErrorView::KubeError(failure@)),
            ),
            (PassView::Patching, Err(failure)) => step == StepView::Finish(
                Err(ErrorView::KubeError(failure@)),
            ),
            (PassView::Ending(action), Err(failure)) => step == StepView::Finish(
                Err(ErrorView::KubeError(failure@)),
            ),
        }
    }

    /// Writes the status.
    fn patch(&self, connected: bool, version: Option<String>) -> (res: Step)
        ensures
            res@ == self.patch_step(connected, optional_text(version)),
    {
        Step::Ask(
            Request::PatchStatus(
                StatusPatch {
                    name: self.metadata.name_any(),
                    api_version: API_VERSION.to_owned(),
                    kind: DATABASE_SERVER_KIND.to_owned(),
                    field_manager: FIELD_MANAGER.to_owned(),
                    force: true,
                    status: DatabaseServerStatus {
                        enabled: self.spec.enable,
                        connected,
                        server_version: version,
                    },
                },
            ),
            Pass::Patching,
        )
    }

    /// Goes on after the connection details were resolved as far as the
    /// answers allow.
    pub fn connection_resolved(
        &self,
        answers: Vec<Fetched>,
        resolution: Resolution<Result<PgConnectOptions, ConnectionDetailsError>>,
    ) -> (res: Step)
        ensures
            res@ == self.connection_step(answers@, resolution),
    {
        match resolution {
            Resolution::Pending(name) => Step::Ask(
                Request::FetchSecret(name),
                Pass::Resolving(answers),
            ),
            Resolution::Ready(Ok(options)) => {
                let host = options.get_host().to_owned();
                Step::Ask(Request::Connect(options, MAX_CONNECTIONS), Pass::Connecting(host))
            },
            Resolution::Ready(Err(error)) => {
                let note = "Invalid connection details: ".to_owned().concat(
                    error.to_string().as_str(),
                );
                Step::Ask(
                    Request::Publish(
                        make_event(EventType::Normal, "ConnectionFailed", note, "Connect"),
                    ),
                    Pass::Announcing(false, None),
                )
            },
        }
    }

    /// Resolves the connection details as far as the answers allow.
    fn resolve(&self, answers: Vec<Fetched>) -> (res: Step)
        ensures
            self.resolves_with(answers@, res@),
    {
        let resolution = self.spec.connection.to_pg_connect_options(&answers);
        self.connection_resolved(answers, resolution)
    }

    /// Begins a pass that applies the resource.
    pub fn reconcile(&self) -> (res: Step)
        ensures
            self.begins_with(res@),
    {
        if !self.was_enabled() && self.spec.enable {
            Step::Ask(
                Request::Publish(
                    make_event(
                        EventType::Normal,
                        "EnableRequested",
                        "Enabling database server use".to_owned(),
                        "Enabling",
                    ),
                ),
                Pass::Enabling,
            )
        } else {
            self.resolve(Vec::new())
        }
    }

    /// Begins a pass that cleans up after the resource: the connections to the
    /// server are given up.
    pub fn cleanup<P>(&self, servers: &mut NameMap<P>) -> (res: Step)
        ensures
            final(servers)@ == old(servers)@.remove(self.metadata.any_name()),
            res@ == self.cleanup_step(),
    {
        let name = self.metadata.name_any();
        servers.remove(name.as_str());
        let note = "Delete `".to_owned().concat(name.as_str()).concat("`");
        Step::Ask(
            Request::Publish(make_event(EventType::Normal, "DeleteRequested", note, "Deleting")),
            Pass::Ending(Action::AwaitChange),
        )
    }

    /// Goes on after a connection was opened, or was not.
    fn connected(&self, host: String, reply: Reply) -> (res: Step)
        ensures
            res@ == self.connected_step(host@, reply),
    {
        match reply {
            Ok(_) => Step::Ask(
                Request::QueryVersion(
                    Statement { sql: VERSION_QUERY.to_owned(), argument: None },
                ),
                Pass::Querying(host),
            ),
            Err(failure) => {
                if self.was_connected() {
                    self.patch(false, None)
                } else {
                    let note = "Failed to connect to `".to_owned().concat(
                        self.metadata.name_any().as_str(),
                    ).concat("`: ").concat(failure.message.as_str());
                    Step::Ask(
                        Request::Publish(
                            make_event(EventType::Warning, "ConnectionFailed", note, "Connect"),
                        ),
                        Pass::Announcing(false, None),
                    )
                }
            },
        }
    }

    /// Goes on after the connections were kept.
    fn registered(&self, host: String, version: Option<String>) -> (res: Step)
        ensures
            res@ == self.registered_step(host@, optional_text(version)),
    {
        if self.was_connected() {
            self.patch(true, version)
        } else {
            let shown = match &version {
                Some(version) => version.as_str(),
                None => "unknown",
            };
            let note = "Successfully connected to host `".to_owned().concat(
                host.as_str(),
            ).concat("`: ").concat(shown);
            Step::Ask(
                Request::Publish(make_event(EventType::Normal, "Connected", note, "Connect")),
                Pass::Announcing(true, version),
            )
        }
    }

    /// Goes on with a pass after an answer came in.
    pub fn resume(&self, pass: Pass, reply: Reply) -> (res: Step)
        ensures
            self.resumes_with(pass@, reply, res@),
    {
        match pass {
            Pass::Enabling => match reply {
                Ok(_) => self.resolve(Vec::new()),
                Err(failure) => Step::Finish(Err(Error::KubeError(failure))),
            },
            Pass::Resolving(answers) => {
                let mut answers = answers;
                match reply {
                    Ok(answer) => answers.push(Ok(answer.secret())),
                    Err(failure) => answers.push(Err(failure)),
                }
                self.resolve(answers)
            },
            Pass::Connecting(host) => self.connected(host, reply),
            Pass::Querying(host) => {
                let version = match reply {
                    Ok(answer) => match answer.version() {
                        Some(version) => Some(version),
                        None => Some("unknown".to_owned()),
                    },
                    Err(_) => None,
                };
                Step::Ask(
                    Request::Register(self.metadata.name_any()),
                    Pass::Registering(host, version),
                )
            },
            Pass::Registering(host, version) => self.registered(host, version),
            Pass::Announcing(connected, version) => match reply {
                Ok(_) => self.patch(connected, version),
                Err(failure) => Step::Finish(Err(Error::KubeError(failure))),
            },
            Pass::Patching => match reply {
                Ok(_) => Step::Finish(Ok(Action::Requeue(RECONCILE_INTERVAL))),
                Err(failure) => Step::Finish(Err(Error::KubeError(failure))),
            },
            Pass::Ending(action) => match reply {
                Ok(_) => Step::Finish(Ok(action)),
                Err(failure) => Step::Finish(Err(Error::KubeError(failure))),
            },
        }
    }
}

} // verus!
