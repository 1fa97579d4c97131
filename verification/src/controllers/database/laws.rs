//! Which statements a pass over a database runs, and that it ends, whatever it
//! is answered.

use crate::controllers::database::pass::{later, PassView, RequestView, StepView};
use crate::controllers::database::plan::{
    comment_sql, create_sql, drop_sql, grant_sql, grants_tasks, on_database, user_tasks, TaskView,
};
use crate::controllers::database::{
    db_name, escaped_comment, is_legal_comment, user_name, Database,
};
use crate::controllers::exchange::{Action, Reply, StatementView};
use crate::controllers::grants::ToSql;
use crate::error::ErrorView;
use crate::outside::is_name_char;
use crate::text::{
    doubled, doubling_can_be_undone, doubling_keeps_pairs, doubling_pairs, halved, is_paired,
};
use vstd::prelude::*;

verus! {

impl Database {
    /// The step that a pass has come to after the answers, from its first step.
    pub open spec fn run(self, first: StepView, replies: Seq<Reply>) -> StepView
        decreases replies.len(),
    {
        if replies.len() == 0 {
            first
        } else {
            match self.run(first, replies.drop_last()) {
                StepView::Ask(_, pass) => self.resume_step(pass, replies.last()),
                StepView::Finish(outcome) => StepView::Finish(outcome),
            }
        }
    }

    /// The statement creates the database.
    pub open spec fn is_creation(self, statement: StatementView) -> bool {
        statement == StatementView { sql: create_sql(self.spec.name@), argument: None }
    }

    /// The statement applies the comment on the database, which is legal.
    pub open spec fn is_commenting(self, statement: StatementView) -> bool {
        &&& self.spec.comment matches Some(comment)
        &&& is_legal_comment(comment@)
        &&& statement == StatementView {
            sql: comment_sql(self.spec.name@, comment@),
            argument: Some(comment@),
        }
    }

    /// The statement grants the privilege of the given position to the user of
    /// the given position, whose name can be used.
    pub open spec fn is_grant_of(self, statement: StatementView, user: int, privilege: int) -> bool {
        &&& 0 <= user < self.spec.grants@.len()
        &&& user_name(self.spec.grants@[user].user@) is Ok
        &&& self.spec.grants@[user].database matches Some(grant)
        &&& 0 <= privilege < grant.grants@.len()
        &&& statement == StatementView {
            sql: grant_sql(
                grant.grants@[privilege].sql(),
                self.spec.name@,
                self.spec.grants@[user].user@,
            ),
            argument: None,
        }
    }

    /// The statement grants one of the wanted privileges.
    pub open spec fn is_grant(self, statement: StatementView) -> bool {
        exists|user: int, privilege: int| #[trigger] self.is_grant_of(statement, user, privilege)
    }

    /// A pass that applies the resource may run the statement.
    pub open spec fn may_execute(self, statement: StatementView) -> bool {
        ||| self.is_creation(statement) && self.wants_creation(false)
        ||| self.is_commenting(statement)
        ||| self.is_grant(statement)
    }

    /// The task runs no other statement than a pass may run.
    pub open spec fn may_do(self, task: TaskView) -> bool {
        match task {
            TaskView::Create { statement, success, existed, failed } => self.may_execute(statement),
            TaskView::Run { statement, done, failed } => self.may_execute(statement),
            _ => true,
        }
    }

    /// The pass runs no other statement than it may.
    spec fn within_bounds(self, pass: PassView) -> bool {
        match pass {
            PassView::Inspecting => true,
            PassView::Creating { success, existed, failed, rest } => {
                &&& db_name(self.spec.name@) is Ok
                &&& forall|i: int| 0 <= i < rest.len() ==> self.may_do(#[trigger] rest[i])
            },
            PassView::Running { done, failed, rest, created } => {
                &&& db_name(self.spec.name@) is Ok
                &&& forall|i: int| 0 <= i < rest.len() ==> self.may_do(#[trigger] rest[i])
            },
            PassView::Reporting { rest, created } => {
                &&& db_name(self.spec.name@) is Ok
                &&& forall|i: int| 0 <= i < rest.len() ==> self.may_do(#[trigger] rest[i])
            },
            PassView::Logging { rest, created } => {
                &&& db_name(self.spec.name@) is Ok
                &&& forall|i: int| 0 <= i < rest.len() ==> self.may_do(#[trigger] rest[i])
            },
            PassView::Dropping => false,
            PassView::Patching => true,
            PassView::Ending(_) => true,
        }
    }

    /// The step runs no other statement than it may.
    spec fn step_within_bounds(self, step: StepView) -> bool {
        match step {
            StepView::Ask(RequestView::Execute(statement), pass) => {
                &&& db_name(self.spec.name@) is Ok
                &&& self.may_execute(statement)
                &&& self.within_bounds(pass)
            },
            StepView::Ask(_, pass) => self.within_bounds(pass),
            StepView::Finish(_) => true,
        }
    }

    /// The tasks for one user do what a pass may do.
    proof fn lemma_user_tasks(self, user: int)
        requires
            0 <= user < self.spec.grants@.len(),
            user_name(self.spec.grants@[user].user@) is Ok,
        ensures
            forall|i: int|
                0 <= i < user_tasks(self.spec.grants@[user], self.spec.name@).len()
                    ==> self.may_do(
                    #[trigger] user_tasks(self.spec.grants@[user], self.spec.name@)[i],
                ),
    {
        let grant = self.spec.grants@[user];
        let name = self.spec.name@;
        let tasks = user_tasks(grant, name);
        assert forall|i: int| 0 <= i < tasks.len() implies self.may_do(#[trigger] tasks[i]) by {
            let granted = on_database(grant, name);
            if i < granted.len() {
                assert(tasks[i] == granted[i]);
                let statement = match granted[i] {
                    TaskView::Run { statement, done, failed } => statement,
                    _ => arbitrary(),
                };
                assert(self.is_grant_of(statement, user, i));
            }
        }
    }

    /// The tasks for the users from a position on do what a pass may do.
    proof fn lemma_grants_tasks(self, from: int)
        requires
            0 <= from <= self.spec.grants@.len(),
        ensures
            ({
                let tasks = grants_tasks(
                    self.spec.grants@.skip(from),
                    self.metadata.any_name(),
                    self.spec.name@,
                );
                forall|i: int| 0 <= i < tasks.len() ==> self.may_do(#[trigger] tasks[i])
            }),
        decreases self.spec.grants@.len() - from,
    {
        let grants = self.spec.grants@.skip(from);
        let name = self.metadata.any_name();
        let tasks = grants_tasks(grants, name, self.spec.name@);
        if grants.len() > 0 {
            assert(grants[0] == self.spec.grants@[from]);
            assert(grants.drop_first() =~= self.spec.grants@.skip(from + 1));
            if user_name(grants[0].user@) is Ok {
                self.lemma_user_tasks(from);
                self.lemma_grants_tasks(from + 1);
                let own = user_tasks(grants[0], self.spec.name@);
                let others = grants_tasks(grants.drop_first(), name, self.spec.name@);
                assert(tasks == own + others);
                assert forall|i: int| 0 <= i < tasks.len() implies self.may_do(
                    #[trigger] tasks[i],
                ) by {
                    if i < own.len() {
                        assert(tasks[i] == own[i]);
                    } else {
                        assert(tasks[i] == others[i - own.len()]);
                    }
                }
            }
        }
    }

    /// The planned tasks do what a pass may do.
    proof fn lemma_plan(self, exists: bool)
        ensures
            forall|i: int|
                0 <= i < self.plan(exists).len() ==> self.may_do(#[trigger] self.plan(exists)[i]),
    {
        self.lemma_grants_tasks(0);
        assert(self.spec.grants@.skip(0) =~= self.spec.grants@);
        let name = self.metadata.any_name();
        let granting = grants_tasks(self.spec.grants@, name, self.spec.name@);
        let plan = self.plan(exists);
        let lead = plan.len() - granting.len();
        assert forall|i: int| 0 <= i < plan.len() implies self.may_do(#[trigger] plan[i]) by {
            if i >= lead {
                assert(plan[i] == granting[i - lead]);
            }
        }
    }

    /// Turning to the next task stays within bounds.
    proof fn lemma_next_step(self, rest: Seq<TaskView>, created: bool)
        requires
            db_name(self.spec.name@) is Ok,
            forall|i: int| 0 <= i < rest.len() ==> self.may_do(#[trigger] rest[i]),
        ensures
            self.step_within_bounds(self.next_step(rest, created)),
    {
        if rest.len() > 0 {
            assert(self.may_do(rest[0]));
            assert forall|i: int| 0 <= i < rest.drop_first().len() implies self.may_do(
                #[trigger] rest.drop_first()[i],
            ) by {
                assert(rest.drop_first()[i] == rest[i + 1]);
            }
        }
    }

    /// A pass that applies the resource stays within bounds.
    proof fn lemma_run_within_bounds(self, connected: bool, replies: Seq<Reply>)
        ensures
            self.step_within_bounds(self.run(self.reconcile_step(connected), replies)),
        decreases replies.len(),
    {
        if replies.len() > 0 {
            let before = replies.drop_last();
            self.lemma_run_within_bounds(connected, before);
            match self.run(self.reconcile_step(connected), before) {
                StepView::Ask(_, pass) => {
                    match (pass, replies.last()) {
                        (PassView::Inspecting, Ok(answer)) => {
                            let exists = answer.is_found();
                            self.lemma_plan(exists);
                            if db_name(self.spec.name@) is Ok {
                                self.lemma_next_step(self.plan(exists), self.known(exists));
                            }
                        },
                        (PassView::Running { done, failed, rest, created }, Ok(_)) => {
                            self.lemma_next_step(rest, created);
                        },
                        (PassView::Reporting { rest, created }, Ok(_)) => {
                            self.lemma_next_step(rest, created);
                        },
                        (PassView::Logging { rest, created }, _) => {
                            self.lemma_next_step(rest, created);
                        },
                        _ => {},
                    }
                },
                StepView::Finish(_) => {},
            }
        }
    }
}

/// A pass that applies a resource runs a statement only on a database of a
/// usable name, and only to create it where that is wanted, to apply its legal
/// comment, or to grant a wanted privilege to a user of a usable name.
pub proof fn only_wanted_statements_are_executed(
    db: Database,
    connected: bool,
    replies: Seq<Reply>,
)
    ensures
        db.run(db.reconcile_step(connected), replies) matches StepView::Ask(
            RequestView::Execute(statement),
            _,
        ) ==> db_name(db.spec.name@) is Ok && db.may_execute(statement),
{
    db.lemma_run_within_bounds(connected, replies);
}

/// The kinds of statements differ by their texts.
proof fn lemma_kinds_differ(
    database: Seq<char>,
    other: Seq<char>,
    comment: Seq<char>,
    privilege: Seq<char>,
    user: Seq<char>,
)
    ensures
        comment_sql(database, comment) != create_sql(other),
        comment_sql(database, comment) != drop_sql(other),
        grant_sql(privilege, database, user) != create_sql(other),
        grant_sql(privilege, database, user) != drop_sql(other),
        create_sql(database) != drop_sql(other),
{
    reveal_strlit("CREATE DATABASE \"");
    reveal_strlit("DROP DATABASE \"");
    reveal_strlit("COMMENT ON DATABASE \"");
    reveal_strlit("GRANT ");
    assert(create_sql(other)[0] == 'C');
    assert(create_sql(other)[1] == 'R');
    assert(create_sql(database)[0] == 'C');
    assert(drop_sql(other)[0] == 'D');
    assert(comment_sql(database, comment)[0] == 'C');
    assert(comment_sql(database, comment)[1] == 'O');
    assert(grant_sql(privilege, database, user)[0] == 'G');
}

/// A statement that a pass may run creates no database unless that is wanted,
/// and drops none.
proof fn lemma_may_execute(db: Database, statement: StatementView)
    requires
        db.may_execute(statement),
    ensures
        forall|name: Seq<char>| statement.sql != #[trigger] drop_sql(name),
        !db.wants_creation(false) ==> forall|name: Seq<char>|
            statement.sql != #[trigger] create_sql(name),
{
    let database = db.spec.name@;
    assert forall|name: Seq<char>| statement.sql != #[trigger] drop_sql(name) by {
        if db.is_creation(statement) {
            lemma_kinds_differ(database, name, Seq::empty(), Seq::empty(), Seq::empty());
        } else if db.is_commenting(statement) {
            let comment = db.spec.comment->0@;
            lemma_kinds_differ(database, name, comment, Seq::empty(), Seq::empty());
        } else {
            let (i, j) = choose|i: int, j: int| #[trigger] db.is_grant_of(statement, i, j);
            let privilege = (db.spec.grants@[i].database->0).grants@[j].sql();
            lemma_kinds_differ(
                database,
                name,
                Seq::empty(),
                privilege,
                db.spec.grants@[i].user@,
            );
        }
    }
    if !db.wants_creation(false) {
        assert forall|name: Seq<char>| statement.sql != #[trigger] create_sql(name) by {
            if db.is_commenting(statement) {
                let comment = db.spec.comment->0@;
                lemma_kinds_differ(database, name, comment, Seq::empty(), Seq::empty());
            } else {
                let (i, j) = choose|i: int, j: int| #[trigger] db.is_grant_of(statement, i, j);
                let privilege = (db.spec.grants@[i].database->0).grants@[j].sql();
                lemma_kinds_differ(
                    database,
                    name,
                    Seq::empty(),
                    privilege,
                    db.spec.grants@[i].user@,
                );
            }
        }
    }
}

/// Creation is optional: no database is created for a resource that switches
/// it off, nor for one whose database was created before, nor before a first
/// status was written.
pub proof fn creation_is_optional(db: Database, connected: bool, replies: Seq<Reply>)
    requires
        db.spec.create == Some(false) || db.created_before() || db.status is None,
    ensures
        db.run(db.reconcile_step(connected), replies) matches StepView::Ask(
            RequestView::Execute(statement),
            _,
        ) ==> forall|name: Seq<char>| statement.sql != #[trigger] create_sql(name),
{
    db.lemma_run_within_bounds(connected, replies);
    match db.run(db.reconcile_step(connected), replies) {
        StepView::Ask(RequestView::Execute(statement), _) => lemma_may_execute(db, statement),
        _ => {},
    }
}

/// No database is dropped while its resource is applied.
pub proof fn applying_drops_nothing(db: Database, connected: bool, replies: Seq<Reply>)
    ensures
        db.run(db.reconcile_step(connected), replies) matches StepView::Ask(
            RequestView::Execute(statement),
            _,
        ) ==> forall|name: Seq<char>| statement.sql != #[trigger] drop_sql(name),
{
    db.lemma_run_within_bounds(connected, replies);
    match db.run(db.reconcile_step(connected), replies) {
        StepView::Ask(RequestView::Execute(statement), _) => lemma_may_execute(db, statement),
        _ => {},
    }
}

impl Database {
    /// The deletion of the database was requested, and could be attempted.
    pub open spec fn attempts_deletion(self, connected: bool) -> bool {
        self.spec.delete && connected && db_name(self.spec.name@) is Ok
    }

    /// The action with which a pass that cleans up succeeds: the resource is
    /// let go when its database was dropped or is to be kept, else it is looked
    /// at again later.
    pub open spec fn cleanup_action(self, connected: bool, replies: Seq<Reply>) -> Action {
        if !self.spec.delete || self.attempts_deletion(connected) && replies[0] is Ok {
            Action::AwaitChange
        } else {
            later()
        }
    }
}

/// What a pass that cleans up comes to, by the number of its answers.
proof fn lemma_cleanup(db: Database, connected: bool, replies: Seq<Reply>)
    ensures
        match db.run(db.cleanup_step(connected), replies) {
            StepView::Ask(RequestView::Publish(_), PassView::Ending(action)) => {
                &&& replies.len() == if db.attempts_deletion(connected) {
                    1nat
                } else {
                    0nat
                }
                &&& action == db.cleanup_action(connected, replies)
            },
            StepView::Ask(RequestView::Execute(statement), PassView::Dropping) => {
                &&& replies.len() == 0
                &&& db.attempts_deletion(connected)
                &&& statement == StatementView {
                    sql: drop_sql(db.spec.name@),
                    argument: Some(db.spec.name@),
                }
            },
            StepView::Finish(outcome) => {
                &&& replies.len() > 0
                &&& outcome matches Ok(action) ==> action == db.cleanup_action(connected, replies)
            },
            _ => false,
        },
    decreases replies.len(),
{
    if replies.len() > 0 {
        let before = replies.drop_last();
        lemma_cleanup(db, connected, before);
        if before.len() > 0 {
            assert(before[0] == replies[0]);
        }
    }
}

/// Deletion is optional: a pass that cleans up runs no statement but the one
/// that drops the database, and that one only where the deletion is requested,
/// the server is connected and the name can be used.
pub proof fn deletion_is_optional(db: Database, connected: bool, replies: Seq<Reply>)
    ensures
        db.run(db.cleanup_step(connected), replies) matches StepView::Ask(
            RequestView::Execute(statement),
            _,
        ) ==> {
            &&& db.attempts_deletion(connected)
            &&& statement == StatementView {
                sql: drop_sql(db.spec.name@),
                argument: Some(db.spec.name@),
            }
        },
{
    lemma_cleanup(db, connected, replies);
}

/// A pass that cleans up is over after two answers at the latest.
pub proof fn cleaning_up_ends(db: Database, connected: bool, replies: Seq<Reply>)
    requires
        replies.len() >= 2,
    ensures
        db.run(db.cleanup_step(connected), replies) is Finish,
{
    lemma_cleanup(db, connected, replies);
}

/// A pass that cleans up succeeds with the action that its answers call for,
/// and fails only with the failure to publish its event.
pub proof fn how_cleaning_up_ends(db: Database, connected: bool, replies: Seq<Reply>)
    requires
        replies.len() > 0,
        db.run(db.cleanup_step(connected), replies.drop_last()) is Ask,
        db.run(db.cleanup_step(connected), replies) is Finish,
    ensures
        ({
            let request = db.run(db.cleanup_step(connected), replies.drop_last())->Ask_0;
            let outcome = db.run(db.cleanup_step(connected), replies)->Finish_0;
            &&& request is Publish
            &&& match replies.last() {
                Ok(_) => outcome == Ok::<Action, ErrorView>(db.cleanup_action(connected, replies)),
                Err(failure) => outcome == Err::<Action, ErrorView>(
                    ErrorView::KubeError(failure@),
                ),
            }
        }),
{
    lemma_cleanup(db, connected, replies.drop_last());
    lemma_cleanup(db, connected, replies);
}

impl Database {
    /// How many answers a pass that applies the resource can still take.
    spec fn answers_left(self, step: StepView) -> nat {
        match step {
            StepView::Finish(_) => 0,
            StepView::Ask(_, pass) => match pass {
                PassView::Inspecting => 2 * self.plan(false).len() + 2,
                PassView::Creating { success, existed, failed, rest } => 2 * rest.len() + 3,
                PassView::Running { done, failed, rest, created } => 2 * rest.len() + 3,
                PassView::Reporting { rest, created } => 2 * rest.len() + 2,
                PassView::Logging { rest, created } => 2 * rest.len() + 2,
                PassView::Patching => 1,
                PassView::Dropping => 2,
                PassView::Ending(_) => 1,
            },
        }
    }

    /// Turning to the next task leaves two answers for each task, and one more.
    proof fn lemma_next_left(self, rest: Seq<TaskView>, created: bool)
        ensures
            self.answers_left(self.next_step(rest, created)) <= 2 * rest.len() + 1,
    {
    }

    /// A database that is there needs no more tasks than one that is not.
    proof fn lemma_shorter_plan(self, exists: bool)
        ensures
            self.plan(exists).len() <= self.plan(false).len(),
    {
        assert(self.wants_creation(exists) ==> self.wants_creation(false));
    }

    /// An answer brings a pass closer to its end.
    proof fn lemma_resume_left(self, pass: PassView, reply: Reply, request: RequestView)
        requires
            !(pass is Dropping),
        ensures
            self.answers_left(self.resume_step(pass, reply)) < self.answers_left(
                StepView::Ask(request, pass),
            ),
    {
        match pass {
            PassView::Inspecting => {
                if let Ok(answer) = reply {
                    let exists = answer.is_found();
                    self.lemma_shorter_plan(exists);
                    self.lemma_next_left(self.plan(exists), self.known(exists));
                }
            },
            PassView::Running { done, failed, rest, created } => {
                self.lemma_next_left(rest, created);
            },
            PassView::Reporting { rest, created } => {
                self.lemma_next_left(rest, created);
            },
            PassView::Logging { rest, created } => {
                self.lemma_next_left(rest, created);
            },
            _ => {},
        }
    }

    /// Every answer brings a pass closer to its end.
    proof fn lemma_run_ends(self, connected: bool, replies: Seq<Reply>)
        ensures
            ({
                let first = self.reconcile_step(connected);
                let step = self.run(first, replies);
                step is Finish || self.answers_left(step) + replies.len() <= self.answers_left(
                    first,
                )
            }),
        decreases replies.len(),
    {
        if replies.len() > 0 {
            let before = replies.drop_last();
            self.lemma_run_ends(connected, before);
            self.lemma_run_within_bounds(connected, before);
            match self.run(self.reconcile_step(connected), before) {
                StepView::Ask(request, pass) => {
                    self.lemma_resume_left(pass, replies.last(), request);
                },
                StepView::Finish(_) => {},
            }
        }
    }
}

/// A pass that applies a resource is over after two answers for each planned
/// task, and two more, at the latest.
pub proof fn applying_ends(db: Database, connected: bool, replies: Seq<Reply>)
    requires
        replies.len() >= 2 * db.plan(false).len() + 2,
    ensures
        db.run(db.reconcile_step(connected), replies) is Finish,
{
    db.lemma_run_ends(connected, replies);
}

/// A comment cannot leave the string that it is written into: every quote in
/// it is followed by its twin.
pub proof fn comments_stay_in_their_string(comment: Seq<char>)
    ensures
        is_paired(escaped_comment(comment), '\''),
{
    let quoted = doubled(comment, '\'');
    doubling_pairs(comment, '\'');
    doubling_keeps_pairs(quoted, '\\', '\'');
}

/// No comment is lost in writing it: it can be read back.
pub proof fn comments_can_be_read_back(comment: Seq<char>)
    ensures
        halved(halved(escaped_comment(comment), '\\'), '\'') == comment,
{
    doubling_can_be_undone(doubled(comment, '\''), '\\');
    doubling_can_be_undone(comment, '\'');
}

/// A name that can be used, of a database or of a user, cannot leave the quotes
/// that it is written into: it has one to 63 characters, and none of them is a
/// quote or a backslash. What can be used for the one can be used for the other.
pub proof fn usable_names_stay_in_their_quotes(name: Seq<char>)
    ensures
        db_name(name) is Ok <==> user_name(name) is Ok,
        db_name(name) is Ok ==> {
            &&& db_name(name) == Ok::<Seq<char>, Seq<char>>(name)
            &&& user_name(name) == Ok::<Seq<char>, Seq<char>>(name)
            &&& 1 <= name.len() <= 63
            &&& !name.contains('"')
            &&& !name.contains('\'')
            &&& !name.contains('\\')
        },
{
    if db_name(name) is Ok {
        assert(forall|i: int| 0 <= i < name.len() ==> is_name_char(#[trigger] name[i]));
    }
}

} // verus!
