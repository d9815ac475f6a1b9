use vstd::prelude::*;

verus! {

/// The identifier of one instance, the 128-bit value of its UUID.
#[derive(Debug, Clone, Copy, PartialEq, Eq, Structural, Hash)]
pub struct InstanceId {
    pub value: u128,
}

/// Who an action is attributed to.
#[derive(Debug, Clone)]
pub enum Cause {
    System,
    User { user_id: String },
}

/// A change in an instance's lifecycle.
#[derive(Debug, Clone, Copy, PartialEq, Eq, Structural)]
pub enum Lifecycle {
    Restored,
    Started,
    Stopped,
    Removed,
}

/// What an event reports.
#[derive(Debug, Clone)]
pub enum EventKind {
    Instance { instance: InstanceId, change: Lifecycle },
    ConsoleOutput { instance: InstanceId, line: String },
    Action { instance: Option<InstanceId>, description: String },
}

/// An immutable notification of a state change, a console line or an action.
#[derive(Debug, Clone)]
pub struct Event {
    pub kind: EventKind,
    pub timestamp: i64,
    pub cause: Cause,
}

pub open spec fn instance_of(e: Event) -> Option<InstanceId> {
    match e.kind {
        EventKind::Instance { instance, .. } => Some(instance),
        EventKind::ConsoleOutput { instance, .. } => Some(instance),
        EventKind::Action { instance, .. } => instance,
    }
}

impl Event {
    pub open spec fn lifecycle_spec(instance: InstanceId, change: Lifecycle, timestamp: i64, cause: Cause) -> Event {
        Event { kind: EventKind::Instance { instance, change }, timestamp, cause }
    }

    /// An event on `instance`'s lifecycle.
    pub fn lifecycle(instance: InstanceId, change: Lifecycle, timestamp: i64, cause: Cause) -> (r: Event)
        ensures
            r == Event::lifecycle_spec(instance, change, timestamp, cause),
    {
        Event { kind: EventKind::Instance { instance, change }, timestamp, cause }
    }

    /// A line of `instance`'s console output.
    pub fn console(instance: InstanceId, line: String, timestamp: i64) -> (r: Event)
        ensures
            r.kind == (EventKind::ConsoleOutput { instance, line }),
            r.timestamp == timestamp,
            r.cause == Cause::System,
    {
        Event { kind: EventKind::ConsoleOutput { instance, line }, timestamp, cause: Cause::System }
    }

    pub fn is_console_message(&self) -> (r: bool)
        ensures
            r == (self.kind is ConsoleOutput),
    {
        match self.kind {
            EventKind::ConsoleOutput { .. } => true,
            _ => false,
        }
    }

    /// The instance the event is about, where there is one.
    pub fn instance_id(&self) -> (r: Option<InstanceId>)
        ensures
            r == instance_of(*self),
    {
        match &self.kind {
            EventKind::Instance { instance, .. } => Some(*instance),
            EventKind::ConsoleOutput { instance, .. } => Some(*instance),
            EventKind::Action { instance, .. } => *instance,
        }
    }

    /// A copy of the event.
    pub fn duplicate(&self) -> (r: Event)
        ensures
            r == *self,
    {
        let kind = match &self.kind {
            EventKind::Instance { instance, change } => EventKind::Instance { instance: *instance, change: *change },
            EventKind::ConsoleOutput { instance, line } => EventKind::ConsoleOutput { instance: *instance, line: line.clone() },
            EventKind::Action { instance, description } => EventKind::Action { instance: *instance, description: description.clone() },
        };
        let cause = match &self.cause {
            Cause::System => Cause::System,
            Cause::User { user_id } => Cause::User { user_id: user_id.clone() },
        };
        Event { kind, timestamp: self.timestamp, cause }
    }
}

} // verus!
