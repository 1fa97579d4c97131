//! What a pass over a resource asks for, what it is answered, and what it ends
//! with.

use crate::controllers::secrets::Secret;
use crate::error::Failure;
use vstd::prelude::*;
use vstd::string::StringExecFns;

verus! {

/// The metadata of a resource.
#[derive(Clone, Default, Debug)]
pub struct ObjectMeta {
    pub name: Option<String>,
    pub generate_name: Option<String>,
    pub namespace: Option<String>,
}

impl ObjectMeta {
    /// The name, else the prefix of a generated name, else nothing.
    pub open spec fn any_name(self) -> Seq<char> {
        match (self.name, self.generate_name) {
            (Some(name), _) => name@,
            (None, Some(prefix)) => prefix@,
            (None, None) => Seq::empty(),
        }
    }

    /// The most useful name of the resource.
    pub fn name_any(&self) -> (res: String)
        ensures
            res@ == self.any_name(),
    {
        match &self.name {
            Some(name) => name.clone(),
            None => match &self.generate_name {
                Some(prefix) => prefix.clone(),
                None => String::new(),
            },
        }
    }
}

/// When to look at a resource again.
#[derive(Clone, Copy, PartialEq, Eq, Structural, Debug)]
pub enum Action {
    /// After so many seconds, or when it changes.
    Requeue(u64),
    /// When it changes.
    AwaitChange,
}

/// Why a resource is looked at.
#[derive(Clone, Copy, PartialEq, Eq, Structural, Debug)]
pub enum FinalizerEvent {
    /// The resource is there, and its finalizer is set.
    Apply,
    /// The resource is being deleted.
    Cleanup,
}

/// How much attention an event needs.
#[derive(Clone, Copy, PartialEq, Eq, Structural, Debug)]
pub enum EventType {
    Normal,
    Warning,
}

/// An event to publish on a resource.
#[derive(Clone, Debug)]
pub struct Event {
    pub type_: EventType,
    pub reason: String,
    pub note: Option<String>,
    pub action: String,
}

/// The texts of an [`Event`].
#[verifier::ext_equal]
pub struct EventView {
    pub type_: EventType,
    pub reason: Seq<char>,
    pub note: Option<Seq<char>>,
    pub action: Seq<char>,
}

/// The text of an optional string.
pub open spec fn optional_text(text: Option<String>) -> Option<Seq<char>> {
    match text {
        Some(text) => Some(text@),
        None => None,
    }
}

impl View for Event {
    type V = EventView;

    open spec fn view(&self) -> EventView {
        EventView {
            type_: self.type_,
            reason: self.reason@,
            note: optional_text(self.note),
            action: self.action@,
        }
    }
}

/// The event with the text of an error at the end of its note.
pub open spec fn with_error_text(event: EventView, error: Seq<char>) -> EventView {
    EventView {
        note: match event.note {
            Some(note) => Some(note + error),
            None => Some(error),
        },
        ..event
    }
}

/// Appends the text of an error to the note of an event.
pub fn with_error(event: Event, error: &str) -> (res: Event)
    ensures
        res@ == with_error_text(event@, error@),
{
    let note = match event.note {
        Some(note) => note.concat(error),
        None => error.to_owned(),
    };
    Event { type_: event.type_, reason: event.reason, note: Some(note), action: event.action }
}

/// A SQL statement and the argument that is bound to it.
#[derive(Clone, Debug)]
pub struct Statement {
    pub sql: String,
    pub argument: Option<String>,
}

/// The texts of a [`Statement`].
#[verifier::ext_equal]
pub struct StatementView {
    pub sql: Seq<char>,
    pub argument: Option<Seq<char>>,
}

impl View for Statement {
    type V = StatementView;

    open spec fn view(&self) -> StatementView {
        StatementView { sql: self.sql@, argument: optional_text(self.argument) }
    }
}

/// A status to write over the status of a resource.
pub struct StatusPatch<S> {
    /// The name of the resource.
    pub name: String,
    pub api_version: String,
    pub kind: String,
    /// The name under which the written fields are owned.
    pub field_manager: String,
    /// Whether the fields are taken over from other owners.
    pub force: bool,
    pub status: S,
}

/// The texts of a [`StatusPatch`].
#[verifier::ext_equal]
pub struct StatusPatchView<S> {
    pub name: Seq<char>,
    pub api_version: Seq<char>,
    pub kind: Seq<char>,
    pub field_manager: Seq<char>,
    pub force: bool,
    pub status: S,
}

impl<S: View> View for StatusPatch<S> {
    type V = StatusPatchView<S::V>;

    open spec fn view(&self) -> StatusPatchView<S::V> {
        StatusPatchView {
            name: self.name@,
            api_version: self.api_version@,
            kind: self.kind@,
            field_manager: self.field_manager@,
            force: self.force,
            status: self.status@,
        }
    }
}

/// How a failed pass is counted and when the resource is looked at again.
pub struct ErrorPolicy {
    /// The resource, as the failure is counted.
    pub instance: String,
    /// The error, as the failure is counted.
    pub error: String,
    pub action: Action,
}

/// What the outside answers when the thing that it was asked for was done.
pub enum Answer {
    /// Nothing but that it was done.
    Done,
    /// Whether what was looked for is there.
    Found(bool),
    /// The secret that was asked for.
    Secret(Secret),
    /// The version that the server gave, if it gave one.
    Version(Option<String>),
}

/// What the outside answers.
pub type Reply = Result<Answer, Failure>;

impl Answer {
    /// Whether what was looked for is there.
    pub open spec fn is_found(self) -> bool {
        self == Answer::Found(true)
    }

    /// Whether what was looked for is there.
    pub fn found(&self) -> (res: bool)
        ensures
            res == self.is_found(),
    {
        match self {
            Answer::Found(found) => *found,
            _ => false,
        }
    }

    /// The secret, which has no data unless one was given.
    pub open spec fn given_secret(self) -> Secret {
        match self {
            Answer::Secret(secret) => secret,
            _ => Secret { data: None },
        }
    }

    /// The secret, which has no data unless one was given.
    pub fn secret(self) -> (res: Secret)
        ensures
            res == self.given_secret(),
    {
        match self {
            Answer::Secret(secret) => secret,
            _ => Secret { data: None },
        }
    }

    /// The version, if one was given.
    pub open spec fn given_version(self) -> Option<String> {
        match self {
            Answer::Version(version) => version,
            _ => None,
        }
    }

    /// The version, if one was given.
    pub fn version(self) -> (res: Option<String>)
        ensures
            res == self.given_version(),
    {
        match self {
            Answer::Version(version) => version,
            _ => None,
        }
    }
}

/// A resource goes by its own name. Only one without a name goes by the prefix
/// of its generated name, and by nothing where it has neither.
pub proof fn resources_go_by_their_name(metadata: ObjectMeta, res: String)
    requires
        call_ensures(ObjectMeta::name_any, (&metadata,), res),
    ensures
        metadata.name matches Some(name) ==> res@ == name@,
        metadata.name is None ==> (metadata.generate_name matches Some(prefix) ==> res@
            == prefix@),
        metadata.name is None && metadata.generate_name is None ==> res@.len() == 0,
{
}

/// The error ends the note of an event, what stood there before is kept, and so
/// is the rest of the event.
pub proof fn errors_end_the_note(event: Event, error: &str, res: Event)
    requires
        call_ensures(with_error, (event, error), res),
    ensures
        res.type_ == event.type_,
        res.reason@ == event.reason@,
        res.action@ == event.action@,
        res.note matches Some(note) && {
            &&& error@.is_suffix_of(note@)
            &&& event.note matches Some(before) ==> {
                &&& before@.is_prefix_of(note@)
                &&& note@.len() == before@.len() + error@.len()
            }
            &&& event.note is None ==> note@.len() == error@.len()
        },
{
    assert(res@ == with_error_text(event@, error@));
    let note = res.note->0@;
    match event.note {
        Some(before) => {
            assert(note.subrange(0, before@.len() as int) =~= before@);
            assert(note.subrange(before@.len() as int, note.len() as int) =~= error@);
        },
        None => {
            assert(note.subrange(0, note.len() as int) =~= error@);
        },
    }
}

/// What was answered is read as it was given, and nothing else is read as an
/// answer of its kind.
pub proof fn answers_are_read_as_given(
    answer: Answer,
    found: bool,
    secret: Secret,
    version: Option<String>,
)
    requires
        call_ensures(Answer::found, (&answer,), found),
        call_ensures(Answer::secret, (answer,), secret),
        call_ensures(Answer::version, (answer,), version),
    ensures
        found <==> answer == Answer::Found(true),
        match answer {
            Answer::Secret(given) => secret == given,
            _ => secret.data is None,
        },
        match answer {
            Answer::Version(given) => version == given,
            _ => version is None,
        },
{
}

} // verus!
