//! The events that tell users what became of a database.

use crate::controllers::exchange::{Event, EventType, EventView};
use vstd::prelude::*;

verus! {

/// Makes the events that are published on a database.
pub struct DatabaseEventRecorder;

/// What was attempted.
#[derive(Clone, Copy, PartialEq, Eq, Structural, Debug)]
pub enum EventAction {
    CreateDatabase,
    ReconcileDatabase,
    ApplyGrant,
    ApplyComment,
    DeleteDatabase,
}

/// What became of it.
#[derive(Clone, Copy, PartialEq, Eq, Structural, Debug)]
pub enum EventReason {
    MissingServer,
    InspectionFailed,
    InvalidName,
    CreateRequested,
    Success,
    Failed,
    Ignored,
}

impl EventAction {
    /// The action as it stands in an event.
    pub open spec fn text(self) -> Seq<char> {
        match self {
            EventAction::CreateDatabase => "CreateDatabase"@,
            EventAction::ReconcileDatabase => "ReconcileDatabase"@,
            EventAction::ApplyGrant => "ApplyGrant"@,
            EventAction::ApplyComment => "ApplyComment"@,
            EventAction::DeleteDatabase => "DeleteDatabase"@,
        }
    }

    /// The action as it stands in an event.
    pub fn to_string(&self) -> (res: String)
        ensures
            res@ == self.text(),
    {
        match self {
            EventAction::CreateDatabase => "CreateDatabase".to_owned(),
            EventAction::ReconcileDatabase => "ReconcileDatabase".to_owned(),
            EventAction::ApplyGrant => "ApplyGrant".to_owned(),
            EventAction::ApplyComment => "ApplyComment".to_owned(),
            EventAction::DeleteDatabase => "DeleteDatabase".to_owned(),
        }
    }
}

impl EventReason {
    /// The reason as it stands in an event.
    pub open spec fn text(self) -> Seq<char> {
        match self {
            EventReason::MissingServer => "MissingServer"@,
            EventReason::InspectionFailed => "InspectionFailed"@,
            EventReason::InvalidName => "InvalidName"@,
            EventReason::CreateRequested => "CreateRequested"@,
            EventReason::Success => "Success"@,
            EventReason::Failed => "Failed"@,
            EventReason::Ignored => "Ignored"@,
        }
    }

    /// The reason as it stands in an event.
    pub fn to_string(&self) -> (res: String)
        ensures
            res@ == self.text(),
    {
        match self {
            EventReason::MissingServer => "MissingServer".to_owned(),
            EventReason::InspectionFailed => "InspectionFailed".to_owned(),
            EventReason::InvalidName => "InvalidName".to_owned(),
            EventReason::CreateRequested => "CreateRequested".to_owned(),
            EventReason::Success => "Success".to_owned(),
            EventReason::Failed => "Failed".to_owned(),
            EventReason::Ignored => "Ignored".to_owned(),
        }
    }
}

/// The event that tells of an action, with a reason and a note.
pub open spec fn event_of(
    type_: EventType,
    action: EventAction,
    reason: EventReason,
    note: Seq<char>,
) -> EventView {
    EventView { type_, action: action.text(), reason: reason.text(), note: Some(note) }
}

impl DatabaseEventRecorder {
    /// The event that tells of the normal course of things.
    pub fn info(&self, action: EventAction, reason: EventReason, note: String) -> (res: Event)
        ensures
            res@ == event_of(EventType::Normal, action, reason, note@),
    {
        self.publish(EventType::Normal, action, reason, note)
    }

    /// The event that tells of something that needs attention.
    pub fn warn(&self, action: EventAction, reason: EventReason, note: String) -> (res: Event)
        ensures
            res@ == event_of(EventType::Warning, action, reason, note@),
    {
        self.publish(EventType::Warning, action, reason, note)
    }

    /// The event to publish.
    pub fn publish(
        &self,
        type_: EventType,
        action: EventAction,
        reason: EventReason,
        note: String,
    ) -> (res: Event)
        ensures
            res@ == event_of(type_, action, reason, note@),
    {
        Event { type_, action: action.to_string(), reason: reason.to_string(), note: Some(note) }
    }
}

/// An event tells the action, the reason and the note that it is made of, word
/// for word, and how much attention they need.
pub proof fn events_tell_what_they_are_made_of(
    recorder: DatabaseEventRecorder,
    type_: EventType,
    action: EventAction,
    reason: EventReason,
    note: String,
    published: Event,
    told: Event,
    warned: Event,
    action_text: String,
    reason_text: String,
)
    requires
        call_ensures(
            DatabaseEventRecorder::publish,
            (&recorder, type_, action, reason, note),
            published,
        ),
        call_ensures(DatabaseEventRecorder::info, (&recorder, action, reason, note), told),
        call_ensures(DatabaseEventRecorder::warn, (&recorder, action, reason, note), warned),
        call_ensures(EventAction::to_string, (&action,), action_text),
        call_ensures(EventReason::to_string, (&reason,), reason_text),
    ensures
        published.type_ == type_,
        told.type_ == EventType::Normal,
        warned.type_ == EventType::Warning,
        forall|event: Event| event == published || event == told || event == warned ==> {
            &&& (#[trigger] event.action)@ == action_text@
            &&& event.reason@ == reason_text@
            &&& event.note matches Some(told_note) && told_note@ == note@
        },
{
    assert(published@ == event_of(type_, action, reason, note@));
    assert(told@ == event_of(EventType::Normal, action, reason, note@));
    assert(warned@ == event_of(EventType::Warning, action, reason, note@));
}

} // verus!
