//! What calls over a database server give, in terms of the resource, the
//! connections and the answers.

use crate::connection::effects::{connection_gives, lemma_connection_gives};
use crate::connection::{ConnectionDetailsError, Resolution};
use crate::controllers::database::effects::{own_name, same_failure, tells};
use crate::controllers::database_server::laws::{
    asks_version, registers, the_status_tells_what_was_seen, version_asked,
};
use crate::controllers::database_server::pass::{fetched_of, Pass, Request, Step};
use crate::controllers::database_server::{error_policy, reconcile, DatabaseServer};
use crate::controllers::exchange::{
    Action, Answer, ErrorPolicy, EventType, FinalizerEvent, Reply,
};
use crate::controllers::secrets::Fetched;
use crate::error::{Error, Failure};
use crate::names::NameMap;
use crate::outside::pg_settings;
use sqlx::postgres::PgConnectOptions;
use vstd::prelude::*;

verus! {

/// The server was enabled when its status was written.
pub open spec fn known_enabled(doc: DatabaseServer) -> bool {
    match doc.status {
        Some(status) => status.enabled,
        None => false,
    }
}

/// The server was connected when its status was written.
pub open spec fn known_connected(doc: DatabaseServer) -> bool {
    match doc.status {
        Some(status) => status.connected,
        None => false,
    }
}

/// The same text, or none.
pub open spec fn same_text(text: Option<String>, other: Option<String>) -> bool {
    match (text, other) {
        (Some(text), Some(other)) => text@ == other@,
        (None, None) => true,
        _ => false,
    }
}

/// The step writes the status of the server: that it is enabled as it is to be,
/// whether it is connected, and of which version it is.
pub open spec fn writes(
    doc: DatabaseServer,
    step: Step,
    connected: bool,
    version: Option<String>,
) -> bool {
    &&& step matches Step::Ask(Request::PatchStatus(patch), Pass::Patching)
    &&& patch.name@ == own_name(doc.metadata)
    &&& patch.api_version@ == "db-operator.widemeadows.de/v1"@
    &&& patch.kind@ == "DatabaseServer"@
    &&& patch.field_manager@ == "cntrlr"@
    &&& patch.force
    &&& patch.status.enabled == doc.spec.enable
    &&& patch.status.connected == connected
    &&& same_text(patch.status.server_version, version)
}

/// The step is what the resolution of the connection calls for: to ask for the
/// secret that is needed, to connect, or to tell that the details are invalid.
pub open spec fn goes_on(
    step: Step,
    answers: Seq<Fetched>,
    resolution: Resolution<Result<PgConnectOptions, ConnectionDetailsError>>,
) -> bool {
    match resolution {
        Resolution::Pending(name) => {
            &&& step matches Step::Ask(Request::FetchSecret(asked), Pass::Resolving(kept))
            &&& asked@ == name@
            &&& kept@ == answers
        },
        Resolution::Ready(Ok(options)) => {
            &&& step matches Step::Ask(Request::Connect(used, limit), Pass::Connecting(host))
            &&& used == options
            &&& limit == 5
            &&& host@ == pg_settings(options)["host"@]
        },
        Resolution::Ready(Err(error)) => {
            &&& step matches Step::Ask(Request::Publish(event), Pass::Announcing(connected, version))
            &&& !connected
            &&& version is None
            &&& tells(
                event,
                EventType::Normal,
                "Connect"@,
                "ConnectionFailed"@,
                "Invalid connection details: "@ + error@.text(),
            )
        },
    }
}

/// The step is what the connection of the server and the answers call for.
pub open spec fn resolves(doc: DatabaseServer, step: Step, answers: Seq<Fetched>) -> bool {
    exists|resolution: Resolution<Result<PgConnectOptions, ConnectionDetailsError>>|
        {
            &&& #[trigger] connection_gives(doc.spec.connection, answers, resolution)
            &&& goes_on(step, answers, resolution)
        }
}

/// A step that the connection resolves with is what it calls for.
proof fn lemma_resolves(doc: DatabaseServer, step: Step, answers: Seq<Fetched>)
    requires
        doc.resolves_with(answers, step@),
    ensures
        resolves(doc, step, answers),
{
    let resolution = choose|
        resolution: Resolution<Result<PgConnectOptions, ConnectionDetailsError>>,
    |
        {
            &&& #[trigger] doc.spec.connection.resolves_to(answers, resolution)
            &&& step@ == doc.connection_step(answers, resolution)
        };
    lemma_connection_gives(doc.spec.connection, answers, resolution);
    assert(goes_on(step, answers, resolution));
}

/// A pass begins by telling that the server is being enabled, if it is to be and
/// was not before. Otherwise it begins with the connection.
pub proof fn applying_begins_with_enabling(doc: DatabaseServer, step: Step)
    requires
        call_ensures(DatabaseServer::reconcile, (&doc,), step),
    ensures
        doc.spec.enable && !known_enabled(doc) ==> {
            &&& step matches Step::Ask(Request::Publish(event), Pass::Enabling)
            &&& tells(
                event,
                EventType::Normal,
                "Enabling"@,
                "EnableRequested"@,
                "Enabling database server use"@,
            )
        },
        !doc.spec.enable || known_enabled(doc) ==> resolves(doc, step, Seq::empty()),
{
    if !doc.spec.enable || known_enabled(doc) {
        lemma_resolves(doc, step, Seq::empty());
    }
}

/// The resolution of the connection decides on the step.
pub proof fn the_resolution_decides(
    doc: DatabaseServer,
    answers: Vec<Fetched>,
    resolution: Resolution<Result<PgConnectOptions, ConnectionDetailsError>>,
    step: Step,
    text: String,
)
    requires
        call_ensures(DatabaseServer::connection_resolved, (&doc, answers, resolution), step),
        resolution matches Resolution::Ready(Err(error)) ==> call_ensures(
            ConnectionDetailsError::to_string,
            (&error,),
            text,
        ),
    ensures
        goes_on(step, answers@, resolution),
        resolution matches Resolution::Ready(Err(_)) ==> {
            &&& step matches Step::Ask(Request::Publish(event), _)
            &&& event.note matches Some(note)
            &&& note@ == "Invalid connection details: "@ + text@
        },
{
    assert(step@ == doc.connection_step(answers@, resolution));
}

/// A fetched secret is kept with the answers before it, as it was given, and the
/// connection is then looked at again.
pub proof fn fetched_secrets_are_kept(
    doc: DatabaseServer,
    answers: Vec<Fetched>,
    reply: Reply,
    step: Step,
)
    requires
        call_ensures(DatabaseServer::resume, (&doc, Pass::Resolving(answers), reply), step),
    ensures
        reply matches Ok(Answer::Secret(secret)) ==> resolves(
            doc,
            step,
            answers@.push(Ok(secret)),
        ),
        reply matches Err(failure) ==> resolves(doc, step, answers@.push(Err(failure))),
{
    lemma_resolves(
        doc,
        step,
        answers@.push(fetched_of(reply)),
    );
}

/// An opened connection is asked for its version. That a server cannot be reached
/// is told with the failure, unless it was connected before, and the status is
/// written without a connection.
pub proof fn what_became_of_the_connection(
    doc: DatabaseServer,
    host: String,
    reply: Reply,
    step: Step,
)
    requires
        call_ensures(DatabaseServer::resume, (&doc, Pass::Connecting(host), reply), step),
    ensures
        reply is Ok ==> {
            &&& step matches Step::Ask(Request::QueryVersion(statement), Pass::Querying(kept))
            &&& statement.sql@ == "SELECT version() AS version;"@
            &&& statement.argument is None
            &&& kept@ == host@
        },
        reply matches Err(failure) ==> {
            &&& known_connected(doc) ==> writes(doc, step, false, None)
            &&& !known_connected(doc) ==> {
                &&& step matches Step::Ask(
                    Request::Publish(event),
                    Pass::Announcing(connected, version),
                )
                &&& !connected
                &&& version is None
                &&& tells(
                    event,
                    EventType::Warning,
                    "Connect"@,
                    "ConnectionFailed"@,
                    "Failed to connect to `"@ + own_name(doc.metadata) + "`: "@
                        + failure.message@,
                )
            }
        },
{
}

/// The version is the very text that the server gave, of whatever length. It is
/// `unknown` only where the answer held none, and there is none where the query
/// failed. The connections are then kept under the name of the server.
pub proof fn versions_are_read_as_given(
    doc: DatabaseServer,
    host: String,
    reply: Reply,
    step: Step,
)
    requires
        call_ensures(DatabaseServer::resume, (&doc, Pass::Querying(host), reply), step),
    ensures
        step matches Step::Ask(Request::Register(name), Pass::Registering(kept, version)) && {
            &&& name@ == own_name(doc.metadata)
            &&& kept@ == host@
            &&& reply is Err <==> version is None
            &&& reply matches Ok(Answer::Version(Some(given))) ==> version->0@ == given@
            &&& reply matches Ok(Answer::Version(None)) ==> version->0@ == "unknown"@
        },
{
}

/// A new connection is told with its host and its version, and both the version
/// and that the server is connected are then written. A connection that was
/// known is not told.
pub proof fn kept_connections_are_told(
    doc: DatabaseServer,
    host: String,
    version: Option<String>,
    reply: Reply,
    step: Step,
)
    requires
        call_ensures(
            DatabaseServer::resume,
            (&doc, Pass::Registering(host, version), reply),
            step,
        ),
    ensures
        known_connected(doc) ==> writes(doc, step, true, version),
        !known_connected(doc) ==> {
            &&& step matches Step::Ask(Request::Publish(event), Pass::Announcing(connected, kept))
            &&& connected
            &&& same_text(kept, version)
            &&& tells(
                event,
                EventType::Normal,
                "Connect"@,
                "Connected"@,
                "Successfully connected to host `"@ + host@ + "`: "@ + match version {
                    Some(version) => version@,
                    None => "unknown"@,
                },
            )
        },
{
}

/// What was told is then written, and a pass ends with what it was answered.
pub proof fn what_was_told_is_written(
    doc: DatabaseServer,
    pass: Pass,
    reply: Reply,
    step: Step,
)
    requires
        call_ensures(DatabaseServer::resume, (&doc, pass, reply), step),
    ensures
        match (pass, reply) {
            (Pass::Enabling, Ok(_)) => resolves(doc, step, Seq::empty()),
            (Pass::Announcing(connected, version), Ok(_)) => writes(
                doc,
                step,
                connected,
                version,
            ),
            (Pass::Patching, Ok(_)) => step == Step::Finish(Ok(Action::Requeue(300))),
            (Pass::Ending(action), Ok(_)) => step == Step::Finish(Ok(action)),
            (Pass::Enabling, Err(failure)) => fails_with(step, failure),
            (Pass::Announcing(_, _), Err(failure)) => fails_with(step, failure),
            (Pass::Patching, Err(failure)) => fails_with(step, failure),
            (Pass::Ending(_), Err(failure)) => fails_with(step, failure),
            _ => true,
        },
{
    if let (Pass::Enabling, Ok(_)) = (pass, reply) {
        lemma_resolves(doc, step, Seq::empty());
    }
}

/// The pass fails with the failure that it was answered.
pub open spec fn fails_with(step: Step, failure: Failure) -> bool {
    step matches Step::Finish(Err(Error::KubeError(kept))) && same_failure(kept, failure)
}

/// The connections of a server that is cleaned up after are given up, those of
/// the others are kept, and this is told.
pub proof fn cleaning_up_gives_up_the_connections<P>(
    doc: DatabaseServer,
    servers: &mut NameMap<P>,
    step: Step,
)
    requires
        call_ensures(DatabaseServer::cleanup::<P>, (&doc, servers), step),
    ensures
        !final(servers)@.contains_key(own_name(doc.metadata)),
        forall|name: Seq<char>|
            name != own_name(doc.metadata) ==> {
                &&& #[trigger] final(servers)@.contains_key(name) <==> old(servers)@.contains_key(name)
                &&& final(servers)@.contains_key(name) ==> final(servers)@[name] == old(servers)@[name]
            },
        step matches Step::Ask(Request::Publish(event), Pass::Ending(action)) && {
            &&& action == Action::AwaitChange
            &&& tells(
                event,
                EventType::Normal,
                "Deleting"@,
                "DeleteRequested"@,
                "Delete `"@ + own_name(doc.metadata) + "`"@,
            )
        },
{
}

/// A failed pass is counted under the name of the server and the label of the
/// error, and the server is looked at again after five minutes.
pub proof fn failed_passes_are_counted(
    doc: DatabaseServer,
    error: Error,
    policy: ErrorPolicy,
    label: String,
)
    requires
        call_ensures(error_policy, (&doc, &error), policy),
        call_ensures(Error::metric_label, (&error,), label),
    ensures
        policy.instance@ == own_name(doc.metadata),
        policy.error@ == label@,
        policy.action == Action::Requeue(300),
{
}

/// The steps of a pass that applies a server, one more than it was answered.
pub open spec fn is_pass(doc: DatabaseServer, steps: Seq<Step>, replies: Seq<Reply>) -> bool {
    &&& steps.len() == replies.len() + 1
    &&& call_ensures(DatabaseServer::reconcile, (&doc,), steps[0])
    &&& forall|i: int| 0 <= i < replies.len() ==> #[trigger] is_resumed(doc, steps, replies, i)
}

/// The step of a position is resumed with its answer, which gives the next.
pub open spec fn is_resumed(
    doc: DatabaseServer,
    steps: Seq<Step>,
    replies: Seq<Reply>,
    i: int,
) -> bool {
    &&& steps[i] matches Step::Ask(_, pass)
    &&& call_ensures(DatabaseServer::resume, (&doc, pass, replies[i]), steps[i + 1])
}

/// The steps of a pass are those that its answers lead to.
proof fn lemma_pass(doc: DatabaseServer, steps: Seq<Step>, replies: Seq<Reply>)
    requires
        is_pass(doc, steps, replies),
    ensures
        doc.runs(steps.map_values(|step: Step| step@), replies),
{
    let views = steps.map_values(|step: Step| step@);
    assert(views.len() == steps.len());
    assert(forall|i: int| 0 <= i < steps.len() ==> views[i] == (#[trigger] steps[i])@);
    assert(views[0] == steps[0]@);
    assert forall|i: int| 0 <= i < replies.len() implies #[trigger] doc.follows(
        views,
        replies,
        i,
    ) by {
        assert(is_resumed(doc, steps, replies, i));
        assert(views[i] == steps[i]@);
        assert(views[i + 1] == steps[i + 1]@);
    }
}

/// The step asks for the version of the server.
pub open spec fn queries_version(step: Step) -> bool {
    step matches Step::Ask(Request::QueryVersion(_), _)
}

/// The step keeps connections under a name.
pub open spec fn keeps_under(step: Step, name: Seq<char>) -> bool {
    step matches Step::Ask(Request::Register(kept), _) && kept@ == name
}

/// The status that a pass writes holds the version that the server gave when it
/// was asked, letter for letter; `unknown` where it gave none; and none where the
/// query failed or the server was not connected. The server is connected exactly
/// when its connections were kept under its own name, and enabled as it is to
/// be.
pub proof fn the_status_holds_the_version_as_given(
    doc: DatabaseServer,
    steps: Seq<Step>,
    replies: Seq<Reply>,
    i: int,
    k: int,
)
    requires
        is_pass(doc, steps, replies),
        0 <= k < i < steps.len(),
    ensures
        steps[i] matches Step::Ask(Request::PatchStatus(patch), _) ==> {
            let version = patch.status.server_version;
            &&& patch.status.enabled == doc.spec.enable
            &&& patch.status.connected <==> exists|at: int|
                0 <= at < i && #[trigger] keeps_under(steps[at], own_name(doc.metadata))
            &&& !patch.status.connected ==> version is None
            &&& patch.status.connected && queries_version(steps[k]) ==> {
                &&& replies[k] matches Ok(Answer::Version(Some(given))) ==> {
                    version matches Some(written) && written@ == given@
                }
                &&& replies[k] matches Ok(Answer::Version(None)) ==> {
                    version matches Some(written) && written@ == "unknown"@
                }
                &&& replies[k] is Err ==> version is None
            }
            &&& patch.status.connected ==> exists|at: int|
                0 <= at < i && #[trigger] queries_version(steps[at])
        },
{
    let views = steps.map_values(|step: Step| step@);
    let name = own_name(doc.metadata);
    lemma_pass(doc, steps, replies);
    the_status_tells_what_was_seen(doc, views, replies, i);
    assert(forall|at: int| 0 <= at < steps.len() ==> views[at] == (#[trigger] steps[at])@);
    assert(views[i] == steps[i]@);
    assert(views[k] == steps[k]@);
    assert forall|at: int| 0 <= at < i implies {
        &&& #[trigger] asks_version(views[at]) == queries_version(steps[at])
        &&& registers(views[at], name) == keeps_under(steps[at], name)
    } by {
        assert(views[at] == steps[at]@);
    }
    if let Step::Ask(Request::PatchStatus(patch), _) = steps[i] {
        if doc.registered_before(views, i) {
            let at = choose|at: int| 0 <= at < i && #[trigger] registers(views[at], name);
            assert(asks_version(views[at]) == queries_version(steps[at]));
            assert(keeps_under(steps[at], name));
        }
        if exists|at: int| 0 <= at < i && #[trigger] keeps_under(steps[at], name) {
            let at = choose|at: int| 0 <= at < i && #[trigger] keeps_under(steps[at], name);
            assert(asks_version(views[at]) == queries_version(steps[at]));
            assert(registers(views[at], name));
        }
        if patch.status.connected {
            assert(version_asked(views, i));
            let at = choose|at: int| 0 <= at < i && #[trigger] asks_version(views[at]);
            assert(queries_version(steps[at]));
            assert(asks_version(views[k]) == queries_version(steps[k]));
        }
    }
}

/// The event that says why a pass begins decides on the pass. The servers are
/// left alone unless the resource is cleaned up after.
pub proof fn the_finalizer_decides<P>(
    doc: DatabaseServer,
    event: FinalizerEvent,
    servers: &mut NameMap<P>,
    step: Step,
)
    requires
        call_ensures(reconcile::<P>, (&doc, event, servers), step),
    ensures
        event is Apply ==> {
            &&& final(servers)@ == old(servers)@
            &&& doc.spec.enable && !known_enabled(doc) ==> {
                step matches Step::Ask(Request::Publish(_), Pass::Enabling)
            }
            &&& !doc.spec.enable || known_enabled(doc) ==> resolves(doc, step, Seq::empty())
        },
        event is Cleanup ==> {
            &&& final(servers)@ == old(servers)@.remove(own_name(doc.metadata))
            &&& step matches Step::Ask(Request::Publish(told), Pass::Ending(action))
            &&& action == Action::AwaitChange
            &&& tells(
                told,
                EventType::Normal,
                "Deleting"@,
                "DeleteRequested"@,
                "Delete `"@ + own_name(doc.metadata) + "`"@,
            )
        },
{
    if event is Apply && (!doc.spec.enable || known_enabled(doc)) {
        lemma_resolves(doc, step, Seq::empty());
    }
}

} // verus!
