//! Identifiers. Each is a UUID held as its 128-bit value.

use crate::outside::{format_uuid, parse_uuid};
#[allow(unused_imports)]
use crate::outside::{uuid_text, uuid_value};
use vstd::prelude::*;

verus! {

/// A repository under gate.
#[derive(Clone, Copy, Debug, PartialEq, Eq, PartialOrd, Ord, Hash, Structural)]
pub struct RepositoryId(pub u128);

impl RepositoryId {
    /// The hyphenated notation of the identifier.
    pub fn to_text(self) -> (r: String)
        ensures
            r@ == uuid_text(self.0),
            uuid_value(r@) == Some(self.0),
    {
        format_uuid(self.0)
    }

    /// Reads the notation that `to_text` writes.
    pub fn parse(text: &str) -> (r: Option<Self>)
        ensures
            r is Some <==> uuid_value(text@) is Some,
            r matches Some(id) ==> uuid_value(text@) == Some(id.0),
    {
        match parse_uuid(text) {
            Some(value) => Some(RepositoryId(value)),
            None => None,
        }
    }
}

/// An entry of a repository's queue.
#[derive(Clone, Copy, Debug, PartialEq, Eq, PartialOrd, Ord, Hash, Structural)]
pub struct QueueItemId(pub u128);

impl QueueItemId {
    /// The hyphenated notation of the identifier.
    pub fn to_text(self) -> (r: String)
        ensures
            r@ == uuid_text(self.0),
            uuid_value(r@) == Some(self.0),
    {
        format_uuid(self.0)
    }

    /// Reads the notation that `to_text` writes.
    pub fn parse(text: &str) -> (r: Option<Self>)
        ensures
            r is Some <==> uuid_value(text@) is Some,
            r matches Some(id) ==> uuid_value(text@) == Some(id.0),
    {
        match parse_uuid(text) {
            Some(value) => Some(QueueItemId(value)),
            None => None,
        }
    }
}

/// One execution of the step graph.
#[derive(Clone, Copy, Debug, PartialEq, Eq, PartialOrd, Ord, Hash, Structural)]
pub struct BuildsetId(pub u128);

impl BuildsetId {
    /// The hyphenated notation of the identifier.
    pub fn to_text(self) -> (r: String)
        ensures
            r@ == uuid_text(self.0),
            uuid_value(r@) == Some(self.0),
    {
        format_uuid(self.0)
    }

    /// Reads the notation that `to_text` writes.
    pub fn parse(text: &str) -> (r: Option<Self>)
        ensures
            r is Some <==> uuid_value(text@) is Some,
            r matches Some(id) ==> uuid_value(text@) == Some(id.0),
    {
        match parse_uuid(text) {
            Some(value) => Some(BuildsetId(value)),
            None => None,
        }
    }
}

/// A client command; repeated delivery reuses it.
#[derive(Clone, Copy, Debug, PartialEq, Eq, PartialOrd, Ord, Hash, Structural)]
pub struct CommandId(pub u128);

impl CommandId {
    /// The hyphenated notation of the identifier.
    pub fn to_text(self) -> (r: String)
        ensures
            r@ == uuid_text(self.0),
            uuid_value(r@) == Some(self.0),
    {
        format_uuid(self.0)
    }

    /// Reads the notation that `to_text` writes.
    pub fn parse(text: &str) -> (r: Option<Self>)
        ensures
            r is Some <==> uuid_value(text@) is Some,
            r matches Some(id) ==> uuid_value(text@) == Some(id.0),
    {
        match parse_uuid(text) {
            Some(value) => Some(CommandId(value)),
            None => None,
        }
    }
}

/// A recorded domain event.
#[derive(Clone, Copy, Debug, PartialEq, Eq, PartialOrd, Ord, Hash, Structural)]
pub struct EventId(pub u128);

impl EventId {
    /// The hyphenated notation of the identifier.
    pub fn to_text(self) -> (r: String)
        ensures
            r@ == uuid_text(self.0),
            uuid_value(r@) == Some(self.0),
    {
        format_uuid(self.0)
    }

    /// Reads the notation that `to_text` writes.
    pub fn parse(text: &str) -> (r: Option<Self>)
        ensures
            r is Some <==> uuid_value(text@) is Some,
            r matches Some(id) ==> uuid_value(text@) == Some(id.0),
    {
        match parse_uuid(text) {
            Some(value) => Some(EventId(value)),
            None => None,
        }
    }
}

/// A step of a frozen step graph.
#[derive(Clone, Copy, Debug, PartialEq, Eq, PartialOrd, Ord, Hash, Structural)]
pub struct StepId(pub u128);

impl StepId {
    /// The hyphenated notation of the identifier.
    pub fn to_text(self) -> (r: String)
        ensures
            r@ == uuid_text(self.0),
            uuid_value(r@) == Some(self.0),
    {
        format_uuid(self.0)
    }

    /// Reads the notation that `to_text` writes.
    pub fn parse(text: &str) -> (r: Option<Self>)
        ensures
            r is Some <==> uuid_value(text@) is Some,
            r matches Some(id) ==> uuid_value(text@) == Some(id.0),
    {
        match parse_uuid(text) {
            Some(value) => Some(StepId(value)),
            None => None,
        }
    }
}

/// One attempt at a step.
#[derive(Clone, Copy, Debug, PartialEq, Eq, PartialOrd, Ord, Hash, Structural)]
pub struct StepAttemptId(pub u128);

impl StepAttemptId {
    /// The hyphenated notation of the identifier.
    pub fn to_text(self) -> (r: String)
        ensures
            r@ == uuid_text(self.0),
            uuid_value(r@) == Some(self.0),
    {
        format_uuid(self.0)
    }

    /// Reads the notation that `to_text` writes.
    pub fn parse(text: &str) -> (r: Option<Self>)
        ensures
            r is Some <==> uuid_value(text@) is Some,
            r matches Some(id) ==> uuid_value(text@) == Some(id.0),
    {
        match parse_uuid(text) {
            Some(value) => Some(StepAttemptId(value)),
            None => None,
        }
    }
}

/// A warm or cold build slot.
#[derive(Clone, Copy, Debug, PartialEq, Eq, PartialOrd, Ord, Hash, Structural)]
pub struct SlotId(pub u128);

impl SlotId {
    /// The hyphenated notation of the identifier.
    pub fn to_text(self) -> (r: String)
        ensures
            r@ == uuid_text(self.0),
            uuid_value(r@) == Some(self.0),
    {
        format_uuid(self.0)
    }

    /// Reads the notation that `to_text` writes.
    pub fn parse(text: &str) -> (r: Option<Self>)
        ensures
            r is Some <==> uuid_value(text@) is Some,
            r matches Some(id) ==> uuid_value(text@) == Some(id.0),
    {
        match parse_uuid(text) {
            Some(value) => Some(SlotId(value)),
            None => None,
        }
    }
}

/// A certificate that a buildset passed.
#[derive(Clone, Copy, Debug, PartialEq, Eq, PartialOrd, Ord, Hash, Structural)]
pub struct CertificateId(pub u128);

impl CertificateId {
    /// The hyphenated notation of the identifier.
    pub fn to_text(self) -> (r: String)
        ensures
            r@ == uuid_text(self.0),
            uuid_value(r@) == Some(self.0),
    {
        format_uuid(self.0)
    }

    /// Reads the notation that `to_text` writes.
    pub fn parse(text: &str) -> (r: Option<Self>)
        ensures
            r is Some <==> uuid_value(text@) is Some,
            r matches Some(id) ==> uuid_value(text@) == Some(id.0),
    {
        match parse_uuid(text) {
            Some(value) => Some(CertificateId(value)),
            None => None,
        }
    }
}

/// One derivation of what an item is validated against.
#[derive(Clone, Copy, Debug, PartialEq, Eq, PartialOrd, Ord, Hash, Structural)]
pub struct ValidationGenerationId(pub u128);

impl ValidationGenerationId {
    /// The hyphenated notation of the identifier.
    pub fn to_text(self) -> (r: String)
        ensures
            r@ == uuid_text(self.0),
            uuid_value(r@) == Some(self.0),
    {
        format_uuid(self.0)
    }

    /// Reads the notation that `to_text` writes.
    pub fn parse(text: &str) -> (r: Option<Self>)
        ensures
            r is Some <==> uuid_value(text@) is Some,
            r matches Some(id) ==> uuid_value(text@) == Some(id.0),
    {
        match parse_uuid(text) {
            Some(value) => Some(ValidationGenerationId(value)),
            None => None,
        }
    }
}

/// A connected client.
#[derive(Clone, Copy, Debug, PartialEq, Eq, PartialOrd, Ord, Hash, Structural)]
pub struct ClientInstanceId(pub u128);

impl ClientInstanceId {
    /// The hyphenated notation of the identifier.
    pub fn to_text(self) -> (r: String)
        ensures
            r@ == uuid_text(self.0),
            uuid_value(r@) == Some(self.0),
    {
        format_uuid(self.0)
    }

    /// Reads the notation that `to_text` writes.
    pub fn parse(text: &str) -> (r: Option<Self>)
        ensures
            r is Some <==> uuid_value(text@) is Some,
            r matches Some(id) ==> uuid_value(text@) == Some(id.0),
    {
        match parse_uuid(text) {
            Some(value) => Some(ClientInstanceId(value)),
            None => None,
        }
    }
}

} // verus!
