use vstd::prelude::*;
use crate::codec::DecodeError;
use crate::ids::{ConnectionId, EntityId};

verus! {

/// Severity of an operator-visible log line.
#[derive(Clone, Copy, PartialEq, Eq, Structural, Debug)]
pub enum LogLevel {
    Info,
    Warn,
    Error,
}

/// A structured log event.  The verified core never prints; it returns the
/// events it owes, and the binary around it renders them.  Clients never see
/// them: a failure shows up on the wire as a normal response or as silence.
#[derive(Clone, Copy, PartialEq, Eq, Structural, Debug)]
pub enum LogEvent {
    /// A state received a message it does not handle; the message is dropped.
    UnhandledMessage(ConnectionId),
    /// A state received an inbound packet it does not handle; the packet is
    /// dropped.
    UnhandledPacket(ConnectionId),
    /// A connection asked to mutate an entity it does not own; the request is
    /// dropped, never honored and never fatal.
    OwnershipViolation(ConnectionId, EntityId),
    /// An update named an entity with no registry entry.
    UnknownEntity(EntityId),
    /// An update named a component kind clients may not overwrite.
    NonUpdatableComponent(EntityId),
    /// The entity does not hold the component the update names.
    MissingComponent(EntityId),
    /// A received unit failed to decode and was discarded.
    DecodeFailed(ConnectionId, DecodeError),
    /// A connection asked the orchestrator to claim a display name.
    NameRequest(ConnectionId),
    /// A component write passed the ownership check and was applied.
    ComponentUpdated(EntityId),
}

/// The severity each event is reported with.
pub open spec fn spec_level(e: LogEvent) -> LogLevel {
    match e {
        LogEvent::UnhandledMessage(_) => LogLevel::Warn,
        LogEvent::UnhandledPacket(_) => LogLevel::Warn,
        LogEvent::OwnershipViolation(_, _) => LogLevel::Warn,
        LogEvent::UnknownEntity(_) => LogLevel::Error,
        LogEvent::NonUpdatableComponent(_) => LogLevel::Warn,
        LogEvent::MissingComponent(_) => LogLevel::Error,
        LogEvent::DecodeFailed(_, _) => LogLevel::Error,
        LogEvent::NameRequest(_) => LogLevel::Info,
        LogEvent::ComponentUpdated(_) => LogLevel::Info,
    }
}

impl LogEvent {
    pub fn level(&self) -> (l: LogLevel)
        ensures
            l == spec_level(*self),
    {
        match self {
            LogEvent::UnhandledMessage(_) => LogLevel::Warn,
            LogEvent::UnhandledPacket(_) => LogLevel::Warn,
            LogEvent::OwnershipViolation(_, _) => LogLevel::Warn,
            LogEvent::UnknownEntity(_) => LogLevel::Error,
            LogEvent::NonUpdatableComponent(_) => LogLevel::Warn,
            LogEvent::MissingComponent(_) => LogLevel::Error,
            LogEvent::DecodeFailed(_, _) => LogLevel::Error,
            LogEvent::NameRequest(_) => LogLevel::Info,
            LogEvent::ComponentUpdated(_) => LogLevel::Info,
        }
    }
}

} // verus!
