//! A pass over a database. It asks for one thing at a time, and is resumed
//! with the answer.

use crate::controllers::database::plan::{
    drop_sql, optional_event, task_views, Task, TaskView,
};
use crate::controllers::database::{
    db_name, sanitize_db_name, Database, DatabaseStatus, Servers, DATABASE_KIND, FIND_DATABASE,
};
use crate::controllers::database_event_recorder::{
    event_of, DatabaseEventRecorder, EventAction, EventReason,
};
use crate::controllers::exchange::{
    with_error, with_error_text, Action, Event, EventType, EventView, Reply, Statement,
    StatementView, StatusPatch, StatusPatchView,
};
use crate::controllers::{API_VERSION, FIELD_MANAGER, RECONCILE_INTERVAL};
use crate::error::{Error, ErrorView};
use crate::text::{contains, contains_text};
use vstd::prelude::*;
use vstd::string::StringExecFns;

verus! {

/// What a pass asks for.
pub enum Request {
    /// Whether a query has a row.
    Find(Statement),
    /// To run a statement.
    Execute(Statement),
    /// To publish an event on the database.
    Publish(Event),
    /// To log a message.
    Log(String),
    /// To write the status of the database.
    PatchStatus(StatusPatch<DatabaseStatus>),
}

/// The texts of a [`Request`].
pub enum RequestView {
    Find(StatementView),
    Execute(StatementView),
    Publish(EventView),
    Log(Seq<char>),
    PatchStatus(StatusPatchView<DatabaseStatus>),
}

impl View for Request {
    type V = RequestView;

    open spec fn view(&self) -> RequestView {
        match *self {
            Request::Find(statement) => RequestView::Find(statement@),
            Request::Execute(statement) => RequestView::Execute(statement@),
            Request::Publish(event) => RequestView::Publish(event@),
            Request::Log(text) => RequestView::Log(text@),
            Request::PatchStatus(patch) => RequestView::PatchStatus(patch@),
        }
    }
}

/// Where a pass stands while it waits for an answer.
pub enum Pass {
    /// The databases of the server are inspected.
    Inspecting,
    /// The database is being created.
    Creating { success: Event, existed: Event, failed: Event, rest: Vec<Task> },
    /// A statement is being run.
    Running { done: Option<Event>, failed: Event, rest: Vec<Task>, created: bool },
    /// An event is being published, after which the pass goes on.
    Reporting { rest: Vec<Task>, created: bool },
    /// A message is being logged, after which the pass goes on in any case.
    Logging { rest: Vec<Task>, created: bool },
    /// The status is being written.
    Patching,
    /// The database is being dropped.
    Dropping,
    /// The last event is being published.
    Ending(Action),
}

/// The texts of a [`Pass`].
pub enum PassView {
    Inspecting,
    Creating { success: EventView, existed: EventView, failed: EventView, rest: Seq<TaskView> },
    Running { done: Option<EventView>, failed: EventView, rest: Seq<TaskView>, created: bool },
    Reporting { rest: Seq<TaskView>, created: bool },
    Logging { rest: Seq<TaskView>, created: bool },
    Patching,
    Dropping,
    Ending(Action),
}

impl View for Pass {
    type V = PassView;

    open spec fn view(&self) -> PassView {
        match *self {
            Pass::Inspecting => PassView::Inspecting,
            Pass::Creating { success, existed, failed, rest } => PassView::Creating {
                success: success@,
                existed: existed@,
                failed: failed@,
                rest: task_views(rest@),
            },
            Pass::Running { done, failed, rest, created } => PassView::Running {
                done: optional_event(done),
                failed: failed@,
                rest: task_views(rest@),
                created,
            },
            Pass::Reporting { rest, created } => PassView::Reporting {
                rest: task_views(rest@),
                created,
            },
            Pass::Logging { rest, created } => PassView::Logging {
                rest: task_views(rest@),
                created,
            },
            Pass::Patching => PassView::Patching,
            Pass::Dropping => PassView::Dropping,
            Pass::Ending(action) => PassView::Ending(action),
        }
    }
}

/// What a pass does next.
pub enum Step {
    /// It asks, and waits for the answer.
    Ask(Request, Pass),
    /// It is over.
    Finish(Result<Action, Error>),
}

/// The texts of a [`Step`].
pub enum StepView {
    Ask(RequestView, PassView),
    Finish(Result<Action, ErrorView>),
}

impl View for Step {
    type V = StepView;

    open spec fn view(&self) -> StepView {
        match *self {
            Step::Ask(request, pass) => StepView::Ask(request@, pass@),
            Step::Finish(Ok(action)) => StepView::Finish(Ok(action)),
            Step::Finish(Err(error)) => StepView::Finish(Err(error.view())),
        }
    }
}

/// The action that looks at a resource again after a while.
pub open spec fn later() -> Action {
    Action::Requeue(RECONCILE_INTERVAL)
}

/// Publishes an event and ends the pass.
pub open spec fn end_with(event: EventView, action: Action) -> StepView {
    StepView::Ask(RequestView::Publish(event), PassView::Ending(action))
}

/// The name of a database cannot be used.
pub open spec fn invalid_name_note(name: Seq<char>, error: Seq<char>) -> Seq<char> {
    "Invalid database name for "@ + name + ": "@ + error
}

/// The server of a database is not connected.
pub open spec fn missing_server_note(name: Seq<char>, server: Seq<char>) -> Seq<char> {
    "Unable to create database for "@ + name + " due to unresolved server reference: "@ + server
}

/// A failure to create a database that is no failure: it was there.
pub open spec fn already_exists(message: Seq<char>) -> bool {
    contains_text(message, "already exists"@)
}

impl Database {
    /// The status that a pass writes when it has seen the database through.
    pub open spec fn status_patch(self, created: bool) -> StatusPatchView<DatabaseStatus> {
        StatusPatchView {
            name: self.metadata.any_name(),
            api_version: API_VERSION@,
            kind: DATABASE_KIND@,
            field_manager: FIELD_MANAGER@,
            force: true,
            status: DatabaseStatus { processed: true, created },
        }
    }

    /// The query that tells whether the database is there.
    pub open spec fn find_statement(self) -> StatementView {
        StatementView { sql: FIND_DATABASE@, argument: Some(self.spec.name@) }
    }

    /// The first step of a pass that applies the resource.
    pub open spec fn reconcile_step(self, connected: bool) -> StepView {
        if connected {
            StepView::Ask(RequestView::Find(self.find_statement()), PassView::Inspecting)
        } else {
            end_with(
                event_of(
                    EventType::Warning,
                    EventAction::CreateDatabase,
                    EventReason::MissingServer,
                    missing_server_note(self.metadata.any_name(), self.spec.server_ref.name@),
                ),
                later(),
            )
        }
    }

    /// The first step of a pass that cleans up after the resource.
    pub open spec fn cleanup_step(self, connected: bool) -> StepView {
        let name = self.metadata.any_name();
        if !self.spec.delete {
            end_with(
                event_of(
                    EventType::Normal,
                    EventAction::DeleteDatabase,
                    EventReason::Ignored,
                    "Skipping deletion of database for "@ + name + " due to configuration"@,
                ),
                Action::AwaitChange,
            )
        } else if !connected {
            end_with(
                event_of(
                    EventType::Normal,
                    EventAction::DeleteDatabase,
                    EventReason::MissingServer,
                    missing_server_note(name, self.spec.server_ref.name@),
                ),
                later(),
            )
        } else {
            match db_name(self.spec.name@) {
                Err(error) => end_with(
                    event_of(
                        EventType::Normal,
                        EventAction::DeleteDatabase,
                        EventReason::InvalidName,
                        invalid_name_note(name, error),
                    ),
                    later(),
                ),
                Ok(database) => StepView::Ask(
                    RequestView::Execute(
                        StatementView {
                            sql: drop_sql(database),
                            argument: Some(self.spec.name@),
                        },
                    ),
                    PassView::Dropping,
                ),
            }
        }
    }

    /// The step that turns to the next task.
    pub open spec fn next_step(self, rest: Seq<TaskView>, created: bool) -> StepView {
        if rest.len() == 0 {
            StepView::Ask(RequestView::PatchStatus(self.status_patch(created)), PassView::Patching)
        } else {
            let others = rest.drop_first();
            match rest[0] {
                TaskView::Create { statement, success, existed, failed } => StepView::Ask(
                    RequestView::Execute(statement),
                    PassView::Creating { success, existed, failed, rest: others },
                ),
                TaskView::Run { statement, done, failed } => StepView::Ask(
                    RequestView::Execute(statement),
                    PassView::Running { done, failed, rest: others, created },
                ),
                TaskView::Report(event) => StepView::Ask(
                    RequestView::Publish(event),
                    PassView::Reporting { rest: others, created },
                ),
                TaskView::Log(text) => StepView::Ask(
                    RequestView::Log(text),
                    PassView::Logging { rest: others, created },
                ),
                TaskView::Reject(event) => end_with(event, later()),
            }
        }
    }

    /// The step after the databases of the server were inspected.
    pub open spec fn inspected_step(self, exists: bool) -> StepView {
        match db_name(self.spec.name@) {
            Err(error) => end_with(
                event_of(
                    EventType::Warning,
                    EventAction::CreateDatabase,
                    EventReason::InvalidName,
                    invalid_name_note(self.metadata.any_name(), error),
                ),
                later(),
            ),
            Ok(_) => self.next_step(self.plan(exists), self.known(exists)),
        }
    }

    /// The step after an answer came in.
    pub open spec fn resume_step(self, pass: PassView, reply: Reply) -> StepView {
        let name = self.metadata.any_name();
        match (pass, reply) {
            (PassView::Inspecting, Ok(answer)) => self.inspected_step(answer.is_found()),
            (PassView::Inspecting, Err(failure)) => end_with(
                event_of(
                    EventType::Warning,
                    EventAction::CreateDatabase,
                    EventReason::InspectionFailed,
                    "Unable to inspect databases for "@ + name + ": "@ + failure.message@,
                ),
                later(),
            ),
            (PassView::Creating { success, existed, failed, rest }, Ok(_)) => StepView::Ask(
                RequestView::Publish(success),
                PassView::Reporting { rest, created: true },
            ),
            (PassView::Creating { success, existed, failed, rest }, Err(failure)) => {
                if already_exists(failure.message@) {
                    StepView::Ask(
                        RequestView::Publish(existed),
                        PassView::Reporting { rest, created: true },
                    )
                } else {
                    StepView::Ask(
                        RequestView::Publish(with_error_text(failed, failure.message@)),
                        PassView::Reporting { rest, created: false },
                    )
                }
            },
            (PassView::Running { done, failed, rest, created }, Ok(_)) => match done {
                Some(event) => StepView::Ask(
                    RequestView::Publish(event),
                    PassView::Reporting { rest, created },
                ),
                None => self.next_step(rest, created),
            },
            (PassView::Running { done, failed, rest, created }, Err(failure)) => StepView::Ask(
                RequestView::Publish(with_error_text(failed, failure.message@)),
                PassView::Reporting { rest, created },
            ),
            (PassView::Reporting { rest, created }, Ok(_)) => self.next_step(rest, created),
            (PassView::Logging { rest, created }, _) => self.next_step(rest, created),
            (PassView::Patching, Ok(_)) => StepView::Finish(Ok(later())),
            (PassView::Dropping, Ok(_)) => end_with(
                event_of(
                    EventType::Normal,
                    EventAction::DeleteDatabase,
                    EventReason::Success,
                    "Successfully deleted database for "@ + name,
                ),
                Action::AwaitChange,
            ),
            (PassView::Dropping, Err(failure)) => end_with(
                event_of(
                    EventType::Normal,
                    EventAction::DeleteDatabase,
                    EventReason::Failed,
                    "Failed to deleted database for "@ + name + ": "@ + failure.message@,
                ),
                later(),
            ),
            (PassView::Ending(action), Ok(_)) => StepView::Finish(Ok(action)),
            (PassView::Reporting { rest, created }, Err(failure)) => StepView::Finish(
                Err(ErrorView::KubeError(failure@)),
            ),
            (PassView::Patching, Err(failure)) => StepView::Finish(
                Err(ErrorView::KubeError(failure@)),
            ),
            (PassView::Ending(action), Err(failure)) => StepView::Finish(
                Err(ErrorView::KubeError(failure@)),
            ),
        }
    }

    /// Begins a pass that applies the resource.
    pub fn reconcile<P>(&self, servers: &Servers<P>) -> (res: Step)
        ensures
            res@ == self.reconcile_step(servers@.contains_key(self.spec.server_ref.name@)),
    {
        match servers.get(self.spec.server_ref.name.as_str()) {
            None => {
                let note = "Unable to create database for ".to_owned().concat(
                    self.metadata.name_any().as_str(),
                ).concat(" due to unresolved server reference: ").concat(
                    self.spec.server_ref.name.as_str(),
                );
                Step::Ask(
                    Request::Publish(
                        DatabaseEventRecorder.warn(
                            EventAction::CreateDatabase,
                            EventReason::MissingServer,
                            note,
                        ),
                    ),
                    Pass::Ending(Action::Requeue(RECONCILE_INTERVAL)),
                )
            },
            Some(_) => Step::Ask(
                Request::Find(
                    Statement {
                        sql: FIND_DATABASE.to_owned(),
                        argument: Some(self.spec.name.clone()),
                    },
                ),
                Pass::Inspecting,
            ),
        }
    }

    /// Begins a pass that cleans up after the resource: the database is
    /// deleted only when that is requested.
    pub fn cleanup<P>(&self, servers: &Servers<P>) -> (res: Step)
        ensures
            res@ == self.cleanup_step(servers@.contains_key(self.spec.server_ref.name@)),
    {
        let name = self.metadata.name_any();
        if !self.spec.delete {
            let note = "Skipping deletion of database for ".to_owned().concat(
                name.as_str(),
            ).concat(" due to configuration");
            return Step::Ask(
                Request::Publish(
                    DatabaseEventRecorder.info(
                        EventAction::DeleteDatabase,
                        EventReason::Ignored,
                        note,
                    ),
                ),
                Pass::Ending(Action::AwaitChange),
            );
        }
        match servers.get(self.spec.server_ref.name.as_str()) {
            None => {
                let note = "Unable to create database for ".to_owned().concat(
                    name.as_str(),
                ).concat(" due to unresolved server reference: ").concat(
                    self.spec.server_ref.name.as_str(),
                );
                Step::Ask(
                    Request::Publish(
                        DatabaseEventRecorder.info(
                            EventAction::DeleteDatabase,
                            EventReason::MissingServer,
                            note,
                        ),
                    ),
                    Pass::Ending(Action::Requeue(RECONCILE_INTERVAL)),
                )
            },
            Some(_) => match sanitize_db_name(self.spec.name.as_str()) {
                Err(error) => {
                    let note = "Invalid database name for ".to_owned().concat(
                        name.as_str(),
                    ).concat(": ").concat(error.as_str());
                    Step::Ask(
                        Request::Publish(
                            DatabaseEventRecorder.info(
                                EventAction::DeleteDatabase,
                                EventReason::InvalidName,
                                note,
                            ),
                        ),
                        Pass::Ending(Action::Requeue(RECONCILE_INTERVAL)),
                    )
                },
                Ok(database) => Step::Ask(
                    Request::Execute(
                        Statement {
                            sql: "DROP DATABASE \"".to_owned().concat(database.as_str()).concat(
                                "\";",
                            ),
                            argument: Some(self.spec.name.clone()),
                        },
                    ),
                    Pass::Dropping,
                ),
            },
        }
    }

    /// Turns to the next task, or writes the status when none is left.
    fn advance(&self, rest: Vec<Task>, created: bool) -> (res: Step)
        ensures
            res@ == self.next_step(task_views(rest@), created),
    {
        let mut rest = rest;
        if rest.len() == 0 {
            return Step::Ask(
                Request::PatchStatus(
                    StatusPatch {
                        name: self.metadata.name_any(),
                        api_version: API_VERSION.to_owned(),
                        kind: DATABASE_KIND.to_owned(),
                        field_manager: FIELD_MANAGER.to_owned(),
                        force: true,
                        status: DatabaseStatus { processed: true, created },
                    },
                ),
                Pass::Patching,
            );
        }
        let ghost all = rest@;
        let task = rest.remove(0);
        assert(task_views(rest@) =~= task_views(all).drop_first());
        assert(task@ == task_views(all)[0]);
        match task {
            Task::Create { statement, success, existed, failed } => Step::Ask(
                Request::Execute(statement),
                Pass::Creating { success, existed, failed, rest },
            ),
            Task::Run { statement, done, failed } => Step::Ask(
                Request::Execute(statement),
                Pass::Running { done, failed, rest, created },
            ),
            Task::Report(event) => Step::Ask(
                Request::Publish(event),
                Pass::Reporting { rest, created },
            ),
            Task::Log(text) => Step::Ask(Request::Log(text), Pass::Logging { rest, created }),
            Task::Reject(event) => Step::Ask(
                Request::Publish(event),
                Pass::Ending(Action::Requeue(RECONCILE_INTERVAL)),
            ),
        }
    }

    /// Goes on after the databases of the server were inspected.
    fn inspected(&self, exists: bool) -> (res: Step)
        ensures
            res@ == self.inspected_step(exists),
    {
        match sanitize_db_name(self.spec.name.as_str()) {
            Err(error) => {
                let note = "Invalid database name for ".to_owned().concat(
                    self.metadata.name_any().as_str(),
                ).concat(": ").concat(error.as_str());
                Step::Ask(
                    Request::Publish(
                        DatabaseEventRecorder.warn(
                            EventAction::CreateDatabase,
                            EventReason::InvalidName,
                            note,
                        ),
                    ),
                    Pass::Ending(Action::Requeue(RECONCILE_INTERVAL)),
                )
            },
            Ok(_) => {
                let known = match &self.status {
                    Some(status) => status.processed && exists,
                    None => false,
                };
                self.advance(self.make_plan(exists), known)
            },
        }
    }

    /// Goes on after the database was created, or was not.
    fn create_database(
        &self,
        success: Event,
        existed: Event,
        failed: Event,
        rest: Vec<Task>,
        reply: Reply,
    ) -> (res: Step)
        ensures
            res@ == self.resume_step(
                PassView::Creating {
                    success: success@,
                    existed: existed@,
                    failed: failed@,
                    rest: task_views(rest@),
                },
                reply,
            ),
    {
        match reply {
            Ok(_) => Step::Ask(Request::Publish(success), Pass::Reporting { rest, created: true }),
            Err(failure) => {
                if contains(failure.message.as_str(), "already exists") {
                    Step::Ask(Request::Publish(existed), Pass::Reporting { rest, created: true })
                } else {
                    Step::Ask(
                        Request::Publish(with_error(failed, failure.message.as_str())),
                        Pass::Reporting { rest, created: false },
                    )
                }
            },
        }
    }

    /// Goes on after the database was dropped, or was not.
    fn dropped(&self, reply: Reply) -> (res: Step)
        ensures
            res@ == self.resume_step(PassView::Dropping, reply),
    {
        let name = self.metadata.name_any();
        match reply {
            Ok(_) => {
                let note = "Successfully deleted database for ".to_owned().concat(name.as_str());
                Step::Ask(
                    Request::Publish(
                        DatabaseEventRecorder.info(
                            EventAction::DeleteDatabase,
                            EventReason::Success,
                            note,
                        ),
                    ),
                    Pass::Ending(Action::AwaitChange),
                )
            },
            Err(failure) => {
                let note = "Failed to deleted database for ".to_owned().concat(
                    name.as_str(),
                ).concat(": ").concat(failure.message.as_str());
                Step::Ask(
                    Request::Publish(
                        DatabaseEventRecorder.info(
                            EventAction::DeleteDatabase,
                            EventReason::Failed,
                            note,
                        ),
                    ),
                    Pass::Ending(Action::Requeue(RECONCILE_INTERVAL)),
                )
            },
        }
    }

    /// Goes on with a pass after an answer came in.
    pub fn resume(&self, pass: Pass, reply: Reply) -> (res: Step)
        ensures
            res@ == self.resume_step(pass@, reply),
    {
        match pass {
            Pass::Inspecting => match reply {
                Ok(answer) => self.inspected(answer.found()),
                Err(failure) => {
                    let note = "Unable to inspect databases for ".to_owned().concat(
                        self.metadata.name_any().as_str(),
                    ).concat(": ").concat(failure.message.as_str());
                    Step::Ask(
                        Request::Publish(
                            DatabaseEventRecorder.warn(
                                EventAction::CreateDatabase,
                                EventReason::InspectionFailed,
                                note,
                            ),
                        ),
                        Pass::Ending(Action::Requeue(RECONCILE_INTERVAL)),
                    )
                },
            },
            Pass::Creating { success, existed, failed, rest } => self.create_database(
                success,
                existed,
                failed,
                rest,
                reply,
            ),
            Pass::Running { done, failed, rest, created } => match reply {
                Ok(_) => match done {
                    Some(event) => Step::Ask(
                        Request::Publish(event),
                        Pass::Reporting { rest, created },
                    ),
                    None => self.advance(rest, created),
                },
                Err(failure) => Step::Ask(
                    Request::Publish(with_error(failed, failure.message.as_str())),
                    Pass::Reporting { rest, created },
                ),
            },
            Pass::Reporting { rest, created } => match reply {
                Ok(_) => self.advance(rest, created),
                Err(failure) => Step::Finish(Err(Error::KubeError(failure))),
            },
            Pass::Logging { rest, created } => self.advance(rest, created),
            Pass::Patching => match reply {
                Ok(_) => Step::Finish(Ok(Action::Requeue(RECONCILE_INTERVAL))),
                Err(failure) => Step::Finish(Err(Error::KubeError(failure))),
            },
            Pass::Dropping => self.dropped(reply),
            Pass::Ending(action) => match reply {
                Ok(_) => Step::Finish(Ok(action)),
                Err(failure) => Step::Finish(Err(Error::KubeError(failure))),
            },
        }
    }
}

} // verus!
