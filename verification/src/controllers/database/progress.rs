//! What a pass over a database has done by the time it has been answered so
//! often, and what it ends with.

use crate::controllers::database::laws::creation_is_optional;
use crate::controllers::database::pass::{
    already_exists, later, PassView, RequestView, StepView,
};
use crate::controllers::database::plan::{
    create_sql, create_task, grants_tasks, on_database, privilege_task, user_tasks, TaskView,
};
use crate::controllers::database::{db_name, user_name, Database};
use crate::controllers::exchange::{Action, EventView, Reply, StatementView};
use crate::controllers::grants::Grants;
use crate::error::{ErrorView, Failure};
use vstd::prelude::*;

verus! {

/// The statement that a step runs, if it runs one.
pub open spec fn executed_by(step: StepView) -> Seq<StatementView> {
    match step {
        StepView::Ask(RequestView::Execute(statement), _) => seq![statement],
        _ => Seq::empty(),
    }
}

/// The statement of a task, if it has one.
pub open spec fn statement_of(task: TaskView) -> Seq<StatementView> {
    match task {
        TaskView::Create { statement, success, existed, failed } => seq![statement],
        TaskView::Run { statement, done, failed } => seq![statement],
        _ => Seq::empty(),
    }
}

/// The statements of tasks, in order.
pub open spec fn statements(tasks: Seq<TaskView>) -> Seq<StatementView>
    decreases tasks.len(),
{
    if tasks.len() == 0 {
        Seq::empty()
    } else {
        statement_of(tasks[0]) + statements(tasks.drop_first())
    }
}

/// Whether a creation that was answered so leaves the database there.
pub open spec fn creation_succeeded(reply: Reply) -> bool {
    match reply {
        Ok(_) => true,
        Err(failure) => already_exists(failure.message@),
    }
}

/// Whether the answer to the inspection is that the database is there.
pub open spec fn inspection_found(reply: Reply) -> bool {
    reply matches Ok(answer) && answer.is_found()
}

/// No task creates the database.
pub open spec fn without_creation(tasks: Seq<TaskView>) -> bool {
    forall|i: int| 0 <= i < tasks.len() ==> !(#[trigger] tasks[i] is Create)
}

/// The tasks for grants create no database.
proof fn lemma_grants_without_creation(grants: Seq<Grants>, name: Seq<char>, database: Seq<char>)
    ensures
        without_creation(grants_tasks(grants, name, database)),
    decreases grants.len(),
{
    if grants.len() > 0 {
        lemma_grants_without_creation(grants.drop_first(), name, database);
        assert(without_creation(user_tasks(grants[0], database)));
    }
}

/// Some task ends the pass.
spec fn rejects(tasks: Seq<TaskView>) -> bool {
    exists|i: int| 0 <= i < tasks.len() && #[trigger] tasks[i] is Reject
}

/// A task that does not end the pass leaves that to the others.
proof fn lemma_rejects_rest(tasks: Seq<TaskView>)
    requires
        tasks.len() > 0,
    ensures
        rejects(tasks) == (tasks[0] is Reject || rejects(tasks.drop_first())),
{
    let others = tasks.drop_first();
    if rejects(tasks) {
        let i = choose|i: int| 0 <= i < tasks.len() && #[trigger] tasks[i] is Reject;
        if i > 0 {
            assert(others[i - 1] is Reject);
        }
    }
    if rejects(others) {
        let i = choose|i: int| 0 <= i < others.len() && #[trigger] others[i] is Reject;
        assert(tasks[i + 1] is Reject);
    }
}

/// A task that ends the pass has none after it.
spec fn rejects_last(tasks: Seq<TaskView>) -> bool {
    forall|i: int| 0 <= i < tasks.len() && #[trigger] tasks[i] is Reject ==> i == tasks.len() - 1
}

/// The tasks for grants have none after one that ends the pass.
proof fn lemma_grants_reject_last(grants: Seq<Grants>, name: Seq<char>, database: Seq<char>)
    ensures
        rejects_last(grants_tasks(grants, name, database)),
    decreases grants.len(),
{
    if grants.len() > 0 && user_name(grants[0].user@) is Ok {
        let own = user_tasks(grants[0], database);
        let rest = grants_tasks(grants.drop_first(), name, database);
        let tasks = grants_tasks(grants, name, database);
        lemma_grants_reject_last(grants.drop_first(), name, database);
        assert(forall|i: int| 0 <= i < own.len() ==> !(#[trigger] own[i] is Reject));
        assert forall|i: int| 0 <= i < tasks.len() && #[trigger] tasks[i] is Reject implies i
            == tasks.len() - 1 by {
            if i < own.len() {
                assert(tasks[i] == own[i]);
            } else {
                assert(tasks[i] == rest[i - own.len()]);
            }
        }
    }
}

/// The names of all users can be used.
pub open spec fn usable_users(grants: Seq<Grants>) -> bool {
    forall|i: int| 0 <= i < grants.len() ==> user_name((#[trigger] grants[i]).user@) is Ok
}

/// The tasks for grants end the pass exactly when the name of a user cannot be
/// used.
proof fn lemma_grants_reject(grants: Seq<Grants>, name: Seq<char>, database: Seq<char>)
    ensures
        rejects(grants_tasks(grants, name, database)) == !usable_users(grants),
    decreases grants.len(),
{
    if grants.len() > 0 {
        let others = grants.drop_first();
        let tasks = grants_tasks(grants, name, database);
        lemma_grants_reject(others, name, database);
        if user_name(grants[0].user@) is Err {
            assert(tasks[0] is Reject);
        } else {
            let own = user_tasks(grants[0], database);
            let rest = grants_tasks(others, name, database);
            assert(forall|i: int| 0 <= i < own.len() ==> !(#[trigger] own[i] is Reject));
            if rejects(rest) {
                let i = choose|i: int| 0 <= i < rest.len() && #[trigger] rest[i] is Reject;
                assert(tasks[own.len() + i] == rest[i]);
                let k = choose|k: int|
                    0 <= k < others.len() && !(user_name((#[trigger] others[k]).user@) is Ok);
                assert(grants[k + 1] == others[k]);
            } else {
                assert forall|i: int| 0 <= i < tasks.len() implies !(
                #[trigger] tasks[i] is Reject) by {
                    if i < own.len() {
                        assert(tasks[i] == own[i]);
                    } else {
                        assert(tasks[i] == rest[i - own.len()]);
                    }
                }
                assert forall|k: int| 0 <= k < grants.len() implies user_name(
                    (#[trigger] grants[k]).user@,
                ) is Ok by {
                    if k > 0 {
                        assert(grants[k] == others[k - 1]);
                    }
                }
            }
        }
    }
}

impl Database {
    /// The names of the database and of all users can be used.
    pub open spec fn usable_names(self) -> bool {
        db_name(self.spec.name@) is Ok && usable_users(self.spec.grants@)
    }

    /// A plan ends the pass exactly when the name of a user cannot be used, and
    /// there it ends itself.
    proof fn lemma_plan_rejects(self, exists: bool)
        ensures
            rejects(self.plan(exists)) == !usable_users(self.spec.grants@),
            rejects_last(self.plan(exists)),
    {
        let granting = grants_tasks(
            self.spec.grants@,
            self.metadata.any_name(),
            self.spec.name@,
        );
        let plan = self.plan(exists);
        let lead = plan.len() - granting.len();
        lemma_grants_reject(self.spec.grants@, self.metadata.any_name(), self.spec.name@);
        lemma_grants_reject_last(self.spec.grants@, self.metadata.any_name(), self.spec.name@);
        assert(forall|i: int| lead <= i < plan.len() ==> plan[i] == granting[i - lead]);
        assert(forall|i: int| 0 <= i < lead ==> !(#[trigger] plan[i] is Reject));
        if rejects(granting) {
            let i = choose|i: int| 0 <= i < granting.len() && #[trigger] granting[i] is Reject;
            assert(plan[lead + i] is Reject);
        }
    }

    /// The statements that a pass has run after the answers, where the last
    /// one may still be running.
    pub open spec fn executed(self, first: StepView, replies: Seq<Reply>) -> Seq<StatementView>
        decreases replies.len(),
    {
        if replies.len() == 0 {
            executed_by(first)
        } else {
            self.executed(first, replies.drop_last()) + executed_by(self.run(first, replies))
        }
    }

    /// Whether the database is there, as far as the answers tell: the answer to
    /// its creation tells it, and the answer to the inspection where the
    /// database is not to be created.
    pub open spec fn seen(self, replies: Seq<Reply>) -> bool {
        let exists = inspection_found(replies[0]);
        if self.wants_creation(exists) {
            creation_succeeded(replies[1])
        } else {
            self.known(exists)
        }
    }

    /// The creation comes first in a plan, and only once.
    pub proof fn lemma_creation_comes_first(self, exists: bool)
        ensures
            self.wants_creation(exists) ==> {
                &&& self.plan(exists).len() > 0
                &&& self.plan(exists)[0] == create_task(self.metadata.any_name(), self.spec.name@)
                &&& without_creation(self.plan(exists).drop_first())
            },
            !self.wants_creation(exists) ==> without_creation(self.plan(exists)),
    {
        lemma_grants_without_creation(
            self.spec.grants@,
            self.metadata.any_name(),
            self.spec.name@,
        );
    }

    /// Some tasks of the plan are still to be done, and the others are done.
    spec fn is_underway(self, replies: Seq<Reply>, rest: Seq<TaskView>) -> bool {
        let exists = inspection_found(replies[0]);
        &&& replies[0] is Ok
        &&& db_name(self.spec.name@) is Ok
        &&& without_creation(rest)
        &&& self.executed(self.reconcile_step(true), replies) + statements(rest) == statements(
            self.plan(exists),
        )
        &&& rejects(rest) == !usable_users(self.spec.grants@)
        &&& rejects_last(rest)
    }

    /// The planned statements were run up to some position.
    spec fn keeps_order(self, replies: Seq<Reply>) -> bool {
        self.executed(self.reconcile_step(true), replies).is_prefix_of(
            statements(self.plan(inspection_found(replies[0]))),
        )
    }

    /// All the planned statements were run, if the inspection succeeded and the
    /// name of the database can be used.
    spec fn has_executed_plan(self, replies: Seq<Reply>) -> bool {
        replies[0] is Ok && db_name(self.spec.name@) is Ok ==> self.executed(
            self.reconcile_step(true),
            replies,
        ) == statements(self.plan(inspection_found(replies[0])))
    }

    /// What a pass has come to after the inspection was answered.
    spec fn has_progressed(self, replies: Seq<Reply>) -> bool {
        let exists = inspection_found(replies[0]);
        let creating = self.wants_creation(exists);
        &&& self.keeps_order(replies)
        &&& match self.run(self.reconcile_step(true), replies) {
            StepView::Finish(outcome) => outcome is Ok ==> self.has_executed_plan(replies),
            StepView::Ask(request, pass) => match pass {
                PassView::Creating { success, existed, failed, rest } => {
                    &&& request is Execute
                    &&& self.is_underway(replies, rest)
                    &&& creating
                    &&& replies.len() == 1
                },
                PassView::Running { done, failed, rest, created } => {
                    &&& request is Execute
                    &&& self.is_underway(replies, rest)
                    &&& creating ==> replies.len() > 1
                    &&& created == self.seen(replies)
                },
                PassView::Logging { rest, created } => {
                    &&& request is Log
                    &&& self.is_underway(replies, rest)
                    &&& creating ==> replies.len() > 1
                    &&& created == self.seen(replies)
                },
                PassView::Reporting { rest, created } => {
                    &&& request is Publish
                    &&& self.is_underway(replies, rest)
                    &&& creating ==> replies.len() > 1
                    &&& created == self.seen(replies)
                },
                PassView::Patching => {
                    &&& request == RequestView::PatchStatus(self.status_patch(self.seen(replies)))
                    &&& self.is_underway(replies, Seq::empty())
                    &&& self.has_executed_plan(replies)
                    &&& creating ==> replies.len() > 1
                },
                PassView::Ending(action) => {
                    &&& request is Publish
                    &&& action == later()
                    &&& !(replies[0] is Ok && self.usable_names())
                    &&& self.has_executed_plan(replies)
                },
                PassView::Inspecting => false,
                PassView::Dropping => false,
            },
        }
    }

    /// Turning to the next task moves its statement from those to be run to
    /// those that were run.
    #[verifier::rlimit(30)]
    proof fn lemma_next_progress(self, before: Seq<Reply>, replies: Seq<Reply>, rest: Seq<TaskView>)
        requires
            before == replies.drop_last(),
            before.len() >= 1,
            self.is_underway(before, rest),
            self.wants_creation(inspection_found(replies[0])) ==> replies.len() > 1,
            self.run(self.reconcile_step(true), replies) == self.next_step(
                rest,
                self.seen(replies),
            ),
        ensures
            self.has_progressed(replies),
    {
        let first = self.reconcile_step(true);
        let done = self.executed(first, before);
        assert(replies[0] == before[0]);
        if rest.len() > 0 {
            let others = rest.drop_first();
            assert(!(rest[0] is Create));
            assert(forall|i: int| 0 <= i < others.len() ==> others[i] == rest[i + 1]);
            lemma_rejects_rest(rest);
            assert(executed_by(self.next_step(rest, self.seen(replies))) == statement_of(rest[0]));
            assert(done + statement_of(rest[0]) + statements(others) =~= done + statements(rest));
        } else {
            assert(rest =~= Seq::empty());
            assert(done + Seq::<StatementView>::empty() =~= done);
        }
    }

    /// A pass makes progress with every answer.
    #[verifier::rlimit(50)]
    proof fn lemma_run_progress(self, replies: Seq<Reply>)
        requires
            replies.len() >= 1,
        ensures
            self.has_progressed(replies),
        decreases replies.len(),
    {
        let first = self.reconcile_step(true);
        let before = replies.drop_last();
        let exists = inspection_found(replies[0]);
        if replies.len() == 1 {
            assert(self.run(first, before) == first);
            assert(self.executed(first, before) =~= Seq::empty());
            let plan = self.plan(exists);
            self.lemma_creation_comes_first(exists);
            self.lemma_plan_rejects(exists);
            if replies[0] is Ok && db_name(self.spec.name@) is Ok {
                let others = plan.drop_first();
                if plan.len() == 0 {
                    assert(plan =~= Seq::empty());
                    assert(self.executed(first, replies) =~= Seq::empty());
                } else {
                    assert(forall|i: int| 0 <= i < others.len() ==> others[i] == plan[i + 1]);
                    lemma_rejects_rest(plan);
                    assert(self.executed(first, replies) =~= statement_of(plan[0]));
                    assert(self.executed(first, replies) + statements(others) =~= statements(plan));
                }
            }
        } else {
            self.lemma_run_progress(before);
            assert(before[0] == replies[0]);
            match self.run(first, before) {
                StepView::Ask(_, pass) => {
                    let done = self.executed(first, before);
                    match pass {
                        PassView::Creating { success, existed, failed, rest } => {
                            assert(self.executed(first, replies) =~= done);
                        },
                        PassView::Running { done: event, failed, rest, created } => {
                            assert(self.seen(before) == self.seen(replies));
                            if replies.last() is Ok && event is None {
                                self.lemma_next_progress(before, replies, rest);
                            } else {
                                assert(self.executed(first, replies) =~= done);
                            }
                        },
                        PassView::Logging { rest, created } => {
                            assert(self.seen(before) == self.seen(replies));
                            self.lemma_next_progress(before, replies, rest);
                        },
                        PassView::Reporting { rest, created } => {
                            assert(self.seen(before) == self.seen(replies));
                            if replies.last() is Ok {
                                self.lemma_next_progress(before, replies, rest);
                            }
                        },
                        _ => {},
                    }
                },
                StepView::Finish(_) => {},
            }
        }
    }
}

/// A pass over a connected server whose inspection succeeded, and over a
/// database of a usable name, has run all the planned statements and no others,
/// in the order of the plan, by the time it writes the status, by the time it
/// tells that the name of a user cannot be used, and when it has succeeded.
pub proof fn the_plan_is_executed(db: Database, replies: Seq<Reply>)
    requires
        match db.run(db.reconcile_step(true), replies) {
            StepView::Ask(RequestView::PatchStatus(_), _) => true,
            StepView::Ask(_, PassView::Ending(_)) => replies[0] is Ok && db_name(
                db.spec.name@,
            ) is Ok,
            StepView::Finish(Ok(_)) => replies[0] is Ok && db_name(db.spec.name@) is Ok,
            _ => false,
        },
    ensures
        db.executed(db.reconcile_step(true), replies) == statements(
            db.plan(inspection_found(replies[0])),
        ),
{
    assert(replies.len() > 0);
    db.lemma_run_progress(replies);
}

/// Whatever a pass is answered, and whether it is over or not, it has run the
/// planned statements up to some position, in the order of the plan and without
/// others.
pub proof fn statements_are_run_in_order(db: Database, replies: Seq<Reply>)
    requires
        replies.len() > 0,
    ensures
        db.executed(db.reconcile_step(true), replies).is_prefix_of(
            statements(db.plan(inspection_found(replies[0]))),
        ),
{
    db.lemma_run_progress(replies);
}

/// The status that a pass writes tells that the database was processed, and
/// whether it is there: as its creation was answered where it was to be
/// created, and as the inspection was answered where it was not.
pub proof fn the_status_tells_what_was_seen(db: Database, connected: bool, replies: Seq<Reply>)
    ensures
        db.run(db.reconcile_step(connected), replies) matches StepView::Ask(
            RequestView::PatchStatus(patch),
            _,
        ) ==> patch == db.status_patch(db.seen(replies)),
{
    if connected {
        if replies.len() > 0 {
            db.lemma_run_progress(replies);
        }
    } else {
        lemma_unconnected(db, replies);
    }
}

/// A pass over a database whose server is not connected publishes one event.
pub proof fn lemma_unconnected(db: Database, replies: Seq<Reply>)
    ensures
        match db.run(db.reconcile_step(false), replies) {
            StepView::Ask(request, pass) => {
                &&& replies.len() == 0
                &&& request is Publish
                &&& pass == PassView::Ending(later())
            },
            StepView::Finish(outcome) => replies.len() > 0 && outcome == match replies[0] {
                Ok(_) => Ok(later()),
                Err(failure) => Err(ErrorView::KubeError(failure@)),
            },
        },
    decreases replies.len(),
{
    if replies.len() > 0 {
        lemma_unconnected(db, replies.drop_last());
        if replies.len() > 1 {
            assert(replies.drop_last()[0] == replies[0]);
        }
    }
}

/// A database that a pass reported as created is not created again by a later
/// pass that sees the status as it was written.
pub proof fn a_created_database_is_not_created_again(
    db: Database,
    connected: bool,
    replies: Seq<Reply>,
    again: Database,
    again_connected: bool,
    again_replies: Seq<Reply>,
)
    requires
        db.run(db.reconcile_step(connected), replies) matches StepView::Ask(
            RequestView::PatchStatus(patch),
            _,
        ) && patch.status.created && again.status == Some(patch.status),
    ensures
        again.run(again.reconcile_step(again_connected), again_replies) matches StepView::Ask(
            RequestView::Execute(statement),
            _,
        ) ==> forall|name: Seq<char>| statement.sql != #[trigger] create_sql(name),
{
    creation_is_optional(again, again_connected, again_replies);
}

impl Database {
    /// The status is written only where all names can be used.
    pub proof fn lemma_status_needs_usable_names(self, replies: Seq<Reply>)
        requires
            self.run(self.reconcile_step(true), replies) matches StepView::Ask(
                RequestView::PatchStatus(_),
                _,
            ),
        ensures
            replies.len() > 0,
            replies[0] is Ok,
            self.usable_names(),
            self.wants_creation(inspection_found(replies[0])) ==> replies.len() > 1,
    {
        assert(replies.len() > 0);
        self.lemma_run_progress(replies);
    }
}

/// A pass that applies a resource ends after the last answer in one of two
/// ways. It succeeds when that answer is that the status was written, or that
/// the event was published that tells why the pass stops, and the resource is
/// then looked at again later. It fails when an event cannot be published or
/// the status not written, and with that failure. The status was written exactly when the server is connected, the inspection
/// succeeded, and the names of the database and of all users can be used.
pub proof fn how_applying_ends(db: Database, connected: bool, replies: Seq<Reply>)
    requires
        replies.len() > 0,
        db.run(db.reconcile_step(connected), replies.drop_last()) is Ask,
        db.run(db.reconcile_step(connected), replies) is Finish,
    ensures
        ({
            let request = db.run(db.reconcile_step(connected), replies.drop_last())->Ask_0;
            let outcome = db.run(db.reconcile_step(connected), replies)->Finish_0;
            &&& request is Publish || request is PatchStatus
            &&& match replies.last() {
                Ok(_) => {
                    &&& outcome == Ok::<Action, ErrorView>(later())
                    &&& request is PatchStatus <==> connected && replies[0] is Ok
                        && db.usable_names()
                },
                Err(failure) => outcome == Err::<Action, ErrorView>(
                    ErrorView::KubeError(failure@),
                ),
            }
        }),
{
    let before = replies.drop_last();
    if !connected {
        lemma_unconnected(db, before);
    } else if before.len() > 0 {
        db.lemma_run_progress(before);
        assert(before[0] == replies[0]);
    }
}

impl Database {
    /// The grants from a position on are planned as far as the names of their
    /// users can be used.
    proof fn lemma_grant_planned(self, from: int, user: int, privilege: int)
        requires
            0 <= from <= user < self.spec.grants@.len(),
            forall|i: int|
                from <= i <= user ==> user_name((#[trigger] self.spec.grants@[i]).user@) is Ok,
            self.spec.grants@[user].database is Some,
            0 <= privilege < (self.spec.grants@[user].database->0).grants@.len(),
        ensures
            grants_tasks(
                self.spec.grants@.skip(from),
                self.metadata.any_name(),
                self.spec.name@,
            ).contains(
                privilege_task(
                    (self.spec.grants@[user].database->0).grants@[privilege],
                    self.spec.name@,
                    self.spec.grants@[user].user@,
                ),
            ),
        decreases user - from,
    {
        let grants = self.spec.grants@.skip(from);
        let name = self.metadata.any_name();
        let database = self.spec.name@;
        let tasks = grants_tasks(grants, name, database);
        let own = user_tasks(grants[0], database);
        let others = grants_tasks(grants.drop_first(), name, database);
        let wanted = privilege_task(
            (self.spec.grants@[user].database->0).grants@[privilege],
            database,
            self.spec.grants@[user].user@,
        );
        assert(grants[0] == self.spec.grants@[from]);
        assert(grants.drop_first() =~= self.spec.grants@.skip(from + 1));
        assert(tasks == own + others);
        if from == user {
            assert(on_database(grants[0], database)[privilege] == wanted);
            assert(tasks[privilege] == wanted);
        } else {
            self.lemma_grant_planned(from + 1, user, privilege);
            let i = choose|i: int| 0 <= i < others.len() && others[i] == wanted;
            assert(tasks[own.len() + i] == wanted);
        }
    }
}

/// Every wanted privilege on the database is planned, if the name of its user
/// and those of the users before it can be used.
pub proof fn every_grant_is_planned(db: Database, exists: bool, user: int, privilege: int)
    requires
        0 <= user < db.spec.grants@.len(),
        usable_users(db.spec.grants@.take(user + 1)),
        db.spec.grants@[user].database is Some,
        0 <= privilege < (db.spec.grants@[user].database->0).grants@.len(),
    ensures
        db.plan(exists).contains(
            privilege_task(
                (db.spec.grants@[user].database->0).grants@[privilege],
                db.spec.name@,
                db.spec.grants@[user].user@,
            ),
        ),
{
    let grants = db.spec.grants@;
    let tasks = grants_tasks(grants, db.metadata.any_name(), db.spec.name@);
    let wanted = privilege_task(
        (grants[user].database->0).grants@[privilege],
        db.spec.name@,
        grants[user].user@,
    );
    assert forall|i: int| 0 <= i <= user implies user_name((#[trigger] grants[i]).user@) is Ok by {
        assert(grants.take(user + 1)[i] == grants[i]);
    }
    assert(grants.skip(0) =~= grants);
    db.lemma_grant_planned(0, user, privilege);
    let i = choose|i: int| 0 <= i < tasks.len() && tasks[i] == wanted;
    let plan = db.plan(exists);
    assert(plan[plan.len() - tasks.len() + i] == wanted);
}

/// A statement that fails does not end the pass: the failure is told in an
/// event whose note ends with its text, and the pass goes on with the tasks
/// that are left.
pub proof fn failed_statements_are_told(
    db: Database,
    done: Option<EventView>,
    failed: EventView,
    rest: Seq<TaskView>,
    created: bool,
    failure: Failure,
)
    ensures
        db.resume_step(
            PassView::Running { done, failed, rest, created },
            Err(failure),
        ) matches StepView::Ask(RequestView::Publish(event), pass) && {
            &&& pass == PassView::Reporting { rest, created }
            &&& event.type_ == failed.type_
            &&& event.note matches Some(note) && failure.message@.is_suffix_of(note)
        },
{
    let message = failure.message@;
    match failed.note {
        Some(note) => {
            assert((note + message).subrange(
                note.len() as int,
                (note + message).len() as int,
            ) =~= message);
        },
        None => {
            assert(message.subrange(0, message.len() as int) =~= message);
        },
    }
}

/// A creation that fails does not end the pass either: the database counts as
/// created exactly when it was there, and any other failure is told in an event
/// whose note ends with its text.
pub proof fn failed_creations_are_told(
    db: Database,
    success: EventView,
    existed: EventView,
    failed: EventView,
    rest: Seq<TaskView>,
    failure: Failure,
)
    ensures
        db.resume_step(
            PassView::Creating { success, existed, failed, rest },
            Err(failure),
        ) matches StepView::Ask(RequestView::Publish(event), pass) && {
            let created = already_exists(failure.message@);
            &&& pass == PassView::Reporting { rest, created }
            &&& created ==> event == existed
            &&& !created ==> {
                &&& event.type_ == failed.type_
                &&& event.note matches Some(note) && failure.message@.is_suffix_of(note)
            }
        },
{
    failed_statements_are_told(db, None, failed, rest, false, failure);
}

} // verus!
