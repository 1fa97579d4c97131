//! What holds of every pass over a database server, whatever it is answered.

use crate::connection::{
    connections_name_the_operator, pending_connections_lack_answers, ConnectionDetailsError,
    Resolution, APPLICATION_NAME,
};
use crate::controllers::database::pass::{
    end_with, later, missing_server_note, PassView as DatabasePassView,
    RequestView as DatabaseRequestView, StepView as DatabaseStepView,
};
use crate::controllers::database::Database;
use crate::controllers::database_event_recorder::{event_of, EventAction, EventReason};
use crate::controllers::database_server::pass::{
    connected_event, connection_failed_event, enable_event, fetched_of, invalid_details_event,
    version_of, PassView, RequestView, StepView,
};
use crate::controllers::database_server::{DatabaseServer, MAX_CONNECTIONS};
use crate::controllers::exchange::{Action, EventType, EventView, Reply};
use crate::controllers::secrets::Fetched;
use crate::controllers::RECONCILE_INTERVAL;
use crate::error::ErrorView;
use crate::outside::pg_settings;
use sqlx::postgres::PgConnectOptions;
use vstd::prelude::*;

verus! {

/// The step asks for an event to be published.
pub open spec fn publishes(step: StepView, event: EventView) -> bool {
    step matches StepView::Ask(RequestView::Publish(published), _) && published == event
}

/// The step asks for connections to be kept under a name.
pub open spec fn registers(step: StepView, name: Seq<char>) -> bool {
    step matches StepView::Ask(RequestView::Register(registered), _) && registered == name
}

/// The step asks for the version of the server.
pub open spec fn asks_version(step: StepView) -> bool {
    step matches StepView::Ask(RequestView::QueryVersion(_), _)
}

/// The server was asked for its version at some step before a position.
pub open spec fn version_asked(steps: Seq<StepView>, i: int) -> bool {
    exists|k: int| 0 <= k < i && #[trigger] asks_version(steps[k])
}

/// The version is the one that was read from the answer to the query for it:
/// it is `unknown` where the answer gave none, and there is none where the
/// query failed.
pub open spec fn version_read(
    steps: Seq<StepView>,
    replies: Seq<Reply>,
    i: int,
    version: Option<Seq<char>>,
) -> bool {
    &&& version_asked(steps, i)
    &&& forall|k: int|
        0 <= k < i && #[trigger] asks_version(steps[k]) ==> version == version_of(replies[k])
}

/// The step asks for connections to a host to be opened.
pub open spec fn connects_to(step: StepView, host: Seq<char>) -> bool {
    step matches StepView::Ask(RequestView::Connect(options, _), _)
        && pg_settings(options)["host"@] == host
}

/// Connections to the host were asked for at some step before a position.
pub open spec fn connected_to(steps: Seq<StepView>, i: int, host: Seq<char>) -> bool {
    exists|k: int| 0 <= k < i && #[trigger] connects_to(steps[k], host)
}

impl DatabaseServer {
    /// The answer of a position leads from its step to the next.
    pub open spec fn follows(self, steps: Seq<StepView>, replies: Seq<Reply>, i: int) -> bool {
        &&& steps[i] matches StepView::Ask(_, pass)
        &&& self.resumes_with(pass, replies[i], steps[i + 1])
    }

    /// The steps of a pass that applies the resource, one more than it was
    /// answered.
    pub open spec fn runs(self, steps: Seq<StepView>, replies: Seq<Reply>) -> bool {
        &&& steps.len() == replies.len() + 1
        &&& self.begins_with(steps[0])
        &&& forall|i: int| 0 <= i < replies.len() ==> #[trigger] self.follows(steps, replies, i)
    }

    /// The connections were kept at some step before a position.
    pub open spec fn registered_before(self, steps: Seq<StepView>, i: int) -> bool {
        exists|k: int| 0 <= k < i && #[trigger] registers(steps[k], self.metadata.any_name())
    }

    /// What a pass asks for at a position, by where it stands.
    spec fn is_sound(self, steps: Seq<StepView>, replies: Seq<Reply>, i: int) -> bool {
        match steps[i] {
            StepView::Finish(_) => true,
            StepView::Ask(request, pass) => match pass {
                PassView::Enabling => {
                    &&& i == 0
                    &&& request == RequestView::Publish(enable_event())
                    &&& self.spec.enable && !self.enabled_before()
                    &&& !self.registered_before(steps, i)
                    &&& !version_asked(steps, i)
                },
                PassView::Resolving(answers) => {
                    &&& request is FetchSecret
                    &&& answers.len() < self.spec.connection.lookups()
                    &&& !self.registered_before(steps, i)
                    &&& !version_asked(steps, i)
                },
                PassView::Connecting(host) => {
                    &&& request matches RequestView::Connect(options, limit)
                    &&& limit == MAX_CONNECTIONS
                    &&& pg_settings(options)["host"@] == host
                    &&& pg_settings(options).contains_pair(
                        "application_name"@,
                        APPLICATION_NAME@,
                    )
                    &&& !self.registered_before(steps, i)
                    &&& !version_asked(steps, i)
                },
                PassView::Querying(host) => {
                    &&& request is QueryVersion
                    &&& i >= 1
                    &&& connects_to(steps[i - 1], host)
                    &&& replies[i - 1] is Ok
                    &&& !self.registered_before(steps, i)
                    &&& !version_asked(steps, i)
                },
                PassView::Registering(host, version) => {
                    &&& request == RequestView::Register(self.metadata.any_name())
                    &&& i >= 2
                    &&& steps[i - 1] matches StepView::Ask(RequestView::QueryVersion(_), _)
                    &&& version_read(steps, replies, i, version)
                    &&& connects_to(steps[i - 2], host)
                    &&& replies[i - 2] is Ok
                    &&& !self.registered_before(steps, i)
                },
                PassView::Announcing(connected, version) => {
                    &&& request matches RequestView::Publish(event)
                    &&& connected == self.registered_before(steps, i)
                    &&& connected ==> {
                        &&& !self.connected_before()
                        &&& version_read(steps, replies, i, version)
                        &&& exists|host: Seq<char>|
                            {
                                &&& connected_to(steps, i, host)
                                &&& event == #[trigger] connected_event(host, version)
                            }
                    }
                    &&& !connected ==> {
                        &&& version is None
                        &&& {
                            ||| exists|error: Seq<char>|
                                event == #[trigger] invalid_details_event(error)
                            ||| !self.connected_before() && exists|error: Seq<char>|
                                event == #[trigger] connection_failed_event(
                                    self.metadata.any_name(),
                                    error,
                                )
                        }
                    }
                },
                PassView::Patching => {
                    &&& request matches RequestView::PatchStatus(patch)
                    &&& patch == self.status_patch(
                        self.registered_before(steps, i),
                        patch.status.server_version,
                    )
                    &&& patch.status.connected ==> version_read(
                        steps,
                        replies,
                        i,
                        patch.status.server_version,
                    )
                    &&& !patch.status.connected ==> patch.status.server_version is None
                    &&& patch.status.connected && !self.connected_before() ==> {
                        &&& i >= 1
                        &&& exists|host: Seq<char>|
                            {
                                &&& connected_to(steps, i, host)
                                &&& publishes(
                                    steps[i - 1],
                                    #[trigger] connected_event(host, patch.status.server_version),
                                )
                            }
                    }
                },
                PassView::Ending(_) => false,
            },
        }
    }

    /// Resolving the connection keeps to what a pass may ask for.
    proof fn lemma_resolves(
        self,
        answers: Seq<Fetched>,
        steps: Seq<StepView>,
        replies: Seq<Reply>,
        i: int,
    )
        requires
            self.resolves_with(answers, steps[i]),
            !self.registered_before(steps, i),
            !version_asked(steps, i),
        ensures
            self.is_sound(steps, replies, i),
    {
        let resolution = choose|
            resolution: Resolution<Result<PgConnectOptions, ConnectionDetailsError>>,
        |
            {
                &&& #[trigger] self.spec.connection.resolves_to(answers, resolution)
                &&& steps[i] == self.connection_step(answers, resolution)
            };
        pending_connections_lack_answers(self.spec.connection, answers, resolution);
        match resolution {
            Resolution::Ready(Ok(options)) => {
                connections_name_the_operator(self.spec.connection, answers, options);
            },
            Resolution::Ready(Err(error)) => {
                let event = invalid_details_event(error@.text());
                assert(publishes(steps[i], event));
            },
            Resolution::Pending(_) => {},
        }
    }

    /// Every step of a pass keeps to what a pass may ask for.
    proof fn lemma_runs_sound(self, steps: Seq<StepView>, replies: Seq<Reply>, i: int)
        requires
            self.runs(steps, replies),
            0 <= i < steps.len(),
        ensures
            self.is_sound(steps, replies, i),
        decreases i,
    {
        let name = self.metadata.any_name();
        if i == 0 {
            assert(!self.registered_before(steps, 0));
            if self.enabled_before() || !self.spec.enable {
                self.lemma_resolves(Seq::empty(), steps, replies, 0);
            }
        } else {
            let before = i - 1;
            self.lemma_runs_sound(steps, replies, before);
            assert(self.follows(steps, replies, before));
            assert(self.registered_before(steps, i) == (self.registered_before(steps, before)
                || registers(steps[before], name))) by {
                if self.registered_before(steps, before) {
                    let k = choose|k: int| 0 <= k < before && #[trigger] registers(steps[k], name);
                    assert(registers(steps[k], name));
                }
                if registers(steps[before], name) {
                    assert(0 <= before < i);
                }
            }
            assert(version_asked(steps, i) == (version_asked(steps, before) || asks_version(
                steps[before],
            ))) by {
                if version_asked(steps, before) {
                    let k = choose|k: int| 0 <= k < before && #[trigger] asks_version(steps[k]);
                    assert(asks_version(steps[k]));
                }
            }
            match steps[before] {
                StepView::Ask(_, pass) => match pass {
                    PassView::Enabling => if replies[before] is Ok {
                        self.lemma_resolves(Seq::empty(), steps, replies, i);
                    },
                    PassView::Resolving(answers) => {
                        self.lemma_resolves(
                            answers.push(
                                fetched_of(replies[before]),
                            ),
                            steps,
                            replies,
                            i,
                        );
                    },
                    PassView::Connecting(host) => {
                        if let Err(failure) = replies[before] {
                            assert(self.connected_before() || publishes(
                                steps[i],
                                connection_failed_event(name, failure.message@),
                            ));
                        }
                    },
                    PassView::Querying(host) => {
                        assert(connects_to(steps[i - 2], host));
                        assert(asks_version(steps[before]));
                    },
                    PassView::Registering(host, version) => {
                        assert(registers(steps[before], name));
                        assert(connects_to(steps[i - 3], host));
                        assert(connected_to(steps, i, host));
                        assert(self.connected_before() || publishes(
                            steps[i],
                            connected_event(host, version),
                        ));
                    },
                    PassView::Announcing(connected, version) => {
                        if connected {
                            let event = steps[before]->Ask_0->Publish_0;
                            let host = choose|host: Seq<char>|
                                {
                                    &&& connected_to(steps, before, host)
                                    &&& event == #[trigger] connected_event(host, version)
                                };
                            let k = choose|k: int|
                                0 <= k < before && #[trigger] connects_to(steps[k], host);
                            assert(connects_to(steps[k], host));
                            assert(connected_to(steps, i, host));
                            assert(publishes(steps[before], connected_event(host, version)));
                        }
                    },
                    _ => {},
                },
                StepView::Finish(_) => {},
            }
        }
    }

    /// How many answers a pass can still take.
    spec fn answers_left(self, step: StepView) -> int {
        match step {
            StepView::Finish(_) => 0,
            StepView::Ask(_, pass) => match pass {
                PassView::Enabling => self.spec.connection.lookups() as int + 6,
                PassView::Resolving(answers) => self.spec.connection.lookups() - answers.len() + 5,
                PassView::Connecting(_) => 5,
                PassView::Querying(_) => 4,
                PassView::Registering(_, _) => 3,
                PassView::Announcing(_, _) => 2,
                PassView::Patching => 1,
                PassView::Ending(_) => 1,
            },
        }
    }
}

/// Every answer brings a pass closer to its end.
proof fn lemma_runs_end(
    server: DatabaseServer,
    steps: Seq<StepView>,
    replies: Seq<Reply>,
    i: int,
)
    requires
        server.runs(steps, replies),
        0 <= i < steps.len(),
    ensures
        server.answers_left(steps[i]) + i <= server.spec.connection.lookups() + 6,
        steps[i] is Ask ==> server.answers_left(steps[i]) >= 1,
    decreases i,
{
    server.lemma_runs_sound(steps, replies, i);
    if i > 0 {
        lemma_runs_end(server, steps, replies, i - 1);
        server.lemma_runs_sound(steps, replies, i - 1);
        assert(server.follows(steps, replies, i - 1));
    }
}

/// A pass that applies a server is over after six answers, and one more for
/// each value that is kept in a secret, at the latest.
pub proof fn applying_ends(server: DatabaseServer, steps: Seq<StepView>, replies: Seq<Reply>)
    requires
        server.runs(steps, replies),
    ensures
        replies.len() <= server.spec.connection.lookups() + 6,
        replies.len() == server.spec.connection.lookups() + 6 ==> steps.last() is Finish,
{
    lemma_runs_end(server, steps, replies, steps.len() - 1);
}

/// The events on a server differ by their reasons.
proof fn lemma_reasons_differ()
    ensures
        "EnableRequested"@ != "Connected"@,
        "EnableRequested"@ != "ConnectionFailed"@,
        "Connected"@ != "ConnectionFailed"@,
{
    reveal_strlit("EnableRequested");
    reveal_strlit("Connected");
    reveal_strlit("ConnectionFailed");
    assert("EnableRequested"@.len() == 15);
    assert("Connected"@.len() == 9);
    assert("ConnectionFailed"@.len() == 16);
}

/// That a server is being enabled is told once: at the first step of a pass
/// over a server that is to be enabled and was not before, and at no other.
pub proof fn enabling_is_told_once(
    server: DatabaseServer,
    steps: Seq<StepView>,
    replies: Seq<Reply>,
    i: int,
)
    requires
        server.runs(steps, replies),
        0 <= i < steps.len(),
    ensures
        publishes(steps[i], enable_event()) <==> i == 0 && server.spec.enable
            && !server.enabled_before(),
{
    lemma_reasons_differ();
    server.lemma_runs_sound(steps, replies, i);
}

/// Once a pass has written the status of an enabled server, a later pass that
/// sees that status does not tell again that the server is being enabled.
pub proof fn enabling_is_not_told_again(
    server: DatabaseServer,
    steps: Seq<StepView>,
    replies: Seq<Reply>,
    i: int,
    again: DatabaseServer,
    again_steps: Seq<StepView>,
    again_replies: Seq<Reply>,
    k: int,
)
    requires
        server.runs(steps, replies),
        server.spec.enable,
        0 <= i < steps.len(),
        steps[i] matches StepView::Ask(RequestView::PatchStatus(patch), _)
            && again.status matches Some(status) && status@ == patch.status,
        again.runs(again_steps, again_replies),
        0 <= k < again_steps.len(),
    ensures
        !publishes(again_steps[k], enable_event()),
{
    server.lemma_runs_sound(steps, replies, i);
    enabling_is_told_once(again, again_steps, again_replies, k);
}

/// What is told of the connection to a server is told when it changes: a pass
/// over a server that was connected before tells neither that it is connected
/// nor that it cannot be reached.
pub proof fn a_known_connection_is_not_told(
    server: DatabaseServer,
    steps: Seq<StepView>,
    replies: Seq<Reply>,
    i: int,
)
    requires
        server.runs(steps, replies),
        server.connected_before(),
        0 <= i < steps.len(),
    ensures
        forall|host: Seq<char>, version: Option<Seq<char>>|
            !publishes(steps[i], #[trigger] connected_event(host, version)),
        forall|error: Seq<char>|
            !publishes(
                steps[i],
                #[trigger] connection_failed_event(server.metadata.any_name(), error),
            ),
{
    lemma_reasons_differ();
    server.lemma_runs_sound(steps, replies, i);
}

/// A pass over a server that was not connected before tells that it is
/// connected right before it writes so, with the host that it connected to and
/// the version that it writes.
pub proof fn a_new_connection_is_told(
    server: DatabaseServer,
    steps: Seq<StepView>,
    replies: Seq<Reply>,
    i: int,
)
    requires
        server.runs(steps, replies),
        !server.connected_before(),
        0 <= i < steps.len(),
    ensures
        steps[i] matches StepView::Ask(RequestView::PatchStatus(patch), _) ==> (
        patch.status.connected ==> {
            &&& i >= 1
            &&& exists|host: Seq<char>|
                {
                    &&& connected_to(steps, i, host)
                    &&& publishes(
                        steps[i - 1],
                        #[trigger] connected_event(host, patch.status.server_version),
                    )
                }
        }),
{
    server.lemma_runs_sound(steps, replies, i);
}

/// A pass over a server that was not connected before tells right away that the
/// server cannot be reached, with the text of the failure.
pub proof fn a_new_failure_to_connect_is_told(
    server: DatabaseServer,
    steps: Seq<StepView>,
    replies: Seq<Reply>,
    i: int,
)
    requires
        server.runs(steps, replies),
        !server.connected_before(),
        0 <= i < replies.len(),
        steps[i] matches StepView::Ask(RequestView::Connect(_, _), _),
    ensures
        replies[i] matches Err(failure) ==> publishes(
            steps[i + 1],
            connection_failed_event(server.metadata.any_name(), failure.message@),
        ),
{
    server.lemma_runs_sound(steps, replies, i);
    assert(server.follows(steps, replies, i));
}

/// The status that a pass writes holds what was seen: the server is enabled as
/// it is to be, and it is connected exactly when the connections to it were kept
/// before. The version of a connected server is the one that was read from the
/// answer to the query for it; for any other server none is given.
pub proof fn the_status_tells_what_was_seen(
    server: DatabaseServer,
    steps: Seq<StepView>,
    replies: Seq<Reply>,
    i: int,
)
    requires
        server.runs(steps, replies),
        0 <= i < steps.len(),
    ensures
        steps[i] matches StepView::Ask(RequestView::PatchStatus(patch), _) ==> {
            &&& patch.name == server.metadata.any_name()
            &&& patch.status.enabled == server.spec.enable
            &&& patch.status.connected == server.registered_before(steps, i)
            &&& patch.status.connected ==> version_read(
                steps,
                replies,
                i,
                patch.status.server_version,
            )
            &&& !patch.status.connected ==> patch.status.server_version is None
        },
{
    server.lemma_runs_sound(steps, replies, i);
}

/// Connections are kept only where they were opened: right before it, the
/// server was asked for its version, and before that the connections were
/// opened with success.
pub proof fn only_open_connections_are_kept(
    server: DatabaseServer,
    steps: Seq<StepView>,
    replies: Seq<Reply>,
    i: int,
)
    requires
        server.runs(steps, replies),
        0 <= i < steps.len(),
    ensures
        steps[i] matches StepView::Ask(RequestView::Register(name), _) ==> {
            &&& name == server.metadata.any_name()
            &&& i >= 2
            &&& steps[i - 1] matches StepView::Ask(RequestView::QueryVersion(_), _)
            &&& steps[i - 2] matches StepView::Ask(RequestView::Connect(_, _), _)
            &&& replies[i - 2] is Ok
        },
{
    server.lemma_runs_sound(steps, replies, i);
}

/// Every connection is opened under the name of the operator, and their number
/// is limited.
pub proof fn connections_are_opened_alike(
    server: DatabaseServer,
    steps: Seq<StepView>,
    replies: Seq<Reply>,
    i: int,
)
    requires
        server.runs(steps, replies),
        0 <= i < steps.len(),
    ensures
        steps[i] matches StepView::Ask(RequestView::Connect(options, limit), _) ==> {
            &&& limit == MAX_CONNECTIONS
            &&& pg_settings(options).contains_pair("application_name"@, APPLICATION_NAME@)
        },
{
    server.lemma_runs_sound(steps, replies, i);
}

/// A server whose connection is described by literal values is not looked up
/// in secrets.
pub proof fn literal_connections_need_no_secrets(
    server: DatabaseServer,
    steps: Seq<StepView>,
    replies: Seq<Reply>,
    i: int,
)
    requires
        server.runs(steps, replies),
        server.spec.connection.lookups() == 0,
        0 <= i < steps.len(),
    ensures
        !(steps[i] matches StepView::Ask(RequestView::FetchSecret(_), _)),
{
    server.lemma_runs_sound(steps, replies, i);
}

/// A pass that applies a server succeeds only when it has written the status,
/// and the server is then looked at again later. It fails only when an event
/// cannot be published or the status not written, and with that failure: a
/// server that cannot be reached, or whose secrets cannot be had, fails no pass.
pub proof fn how_applying_ends(
    server: DatabaseServer,
    steps: Seq<StepView>,
    replies: Seq<Reply>,
    i: int,
)
    requires
        server.runs(steps, replies),
        0 <= i < steps.len(),
    ensures
        steps[i] matches StepView::Finish(outcome) ==> {
            &&& i >= 1
            &&& steps[i - 1] matches StepView::Ask(request, _)
            &&& match replies[i - 1] {
                Ok(_) => {
                    &&& request is PatchStatus
                    &&& outcome == Ok::<Action, ErrorView>(Action::Requeue(RECONCILE_INTERVAL))
                },
                Err(failure) => {
                    &&& request is PatchStatus || request is Publish
                    &&& outcome == Err::<Action, ErrorView>(ErrorView::KubeError(failure@))
                },
            }
        },
{
    if i > 0 {
        server.lemma_runs_sound(steps, replies, i - 1);
        assert(server.follows(steps, replies, i - 1));
    }
}

/// A pass that cleans up after a server is over after one answer: the server is
/// let go, unless the event cannot be published.
pub proof fn cleaning_up_ends(server: DatabaseServer, reply: Reply, step: StepView)
    requires
        server.cleanup_step() matches StepView::Ask(_, pass) && server.resumes_with(
            pass,
            reply,
            step,
        ),
    ensures
        step == match reply {
            Ok(_) => StepView::Finish(Ok::<Action, ErrorView>(Action::AwaitChange)),
            Err(failure) => StepView::Finish(
                Err::<Action, ErrorView>(ErrorView::KubeError(failure@)),
            ),
        },
{
}

/// A pass over a database finds its server once the connections to the server
/// were kept, and no longer finds it once they were given up.
pub proof fn databases_follow_their_server<P>(
    server: DatabaseServer,
    db: Database,
    servers: Map<Seq<char>, P>,
    connections: P,
)
    requires
        db.spec.server_ref.name@ == server.metadata.any_name(),
    ensures
        ({
            let name = server.metadata.any_name();
            let kept = servers.insert(name, connections);
            let given_up = kept.remove(name);
            &&& db.reconcile_step(kept.contains_key(name)) == DatabaseStepView::Ask(
                DatabaseRequestView::Find(db.find_statement()),
                DatabasePassView::Inspecting,
            )
            &&& db.reconcile_step(given_up.contains_key(name)) == end_with(
                event_of(
                    EventType::Warning,
                    EventAction::CreateDatabase,
                    EventReason::MissingServer,
                    missing_server_note(db.metadata.any_name(), name),
                ),
                later(),
            )
        }),
{
}

} // verus!
