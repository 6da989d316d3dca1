//! What the registry has from the environment it runs in: the authenticated
//! caller, the clock, the store, and the list of notifications sent.
use crate::storage::DataKeyView;
use crate::storage::Storage;
use crate::storage::ValueView;
use crate::types::Address;
use vstd::prelude::*;

verus! {

/// The kinds of notification the registry sends.
#[derive(Clone, Copy, Debug, PartialEq, Eq, Structural)]
pub enum Event {
    AchievementCreated,
    AchievementUpdated,
    AchievementMinted,
    AchievementVerified,
}

impl Event {
    /// The name under which the event is published.
    pub open spec fn name(self) -> Seq<char> {
        match self {
            Event::AchievementCreated => "AchievementCreated"@,
            Event::AchievementUpdated => "AchievementUpdated"@,
            Event::AchievementMinted => "AchievementMinted"@,
            Event::AchievementVerified => "AchievementVerified"@,
        }
    }

    /// The name under which the event is published.
    pub fn as_str(&self) -> (r: &'static str)
        ensures
            r@ == self.name(),
    {
        match self {
            Event::AchievementCreated => "AchievementCreated",
            Event::AchievementUpdated => "AchievementUpdated",
            Event::AchievementMinted => "AchievementMinted",
            Event::AchievementVerified => "AchievementVerified",
        }
    }

    /// The topic under which every event of the registry is published.
    pub fn topic() -> (r: &'static str)
        ensures
            r@ == "ACH"@,
    {
        "ACH"
    }
}

/// One notification: an event and the identifier of the record it is about.
#[derive(Clone, Copy, Debug, PartialEq, Eq, Structural)]
pub struct Notification {
    pub event: Event,
    pub id: u64,
}

/// The environment of one call.
///
/// The host fills in who has authenticated as the caller and what time it is,
/// hands over the store, and afterwards delivers the notifications.
pub struct Env {
    /// The durable state of the registry.
    pub storage: Storage,
    /// The identity that has authenticated for this call.
    pub caller: Address,
    /// The reading of the clock at this call.
    pub timestamp: u64,
    /// The notifications sent so far, oldest first.
    pub events: Vec<Notification>,
}

/// An environment as a mathematical value.
pub struct EnvView {
    pub storage: Map<DataKeyView, ValueView>,
    pub caller: Seq<char>,
    pub timestamp: u64,
    pub events: Seq<Notification>,
}

impl View for Env {
    type V = EnvView;

    open spec fn view(&self) -> EnvView {
        EnvView {
            storage: self.storage@,
            caller: self.caller@,
            timestamp: self.timestamp,
            events: self.events@,
        }
    }
}

impl Env {
    /// An environment with an empty store and no notification, for a call by
    /// `caller` at time `timestamp`.
    pub fn new(caller: Address, timestamp: u64) -> (r: Env)
        ensures
            r@ == (EnvView {
                storage: Map::<DataKeyView, ValueView>::empty(),
                caller: caller@,
                timestamp: timestamp,
                events: Seq::<Notification>::empty(),
            }),
    {
        Env { storage: Storage::new(), caller, timestamp, events: Vec::new() }
    }
}

} // verus!
