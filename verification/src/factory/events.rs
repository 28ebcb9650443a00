//! Structured notification records the quest factory emits after each
//! committing operation.

use vstd::prelude::*;

verus! {

/// An operator was granted the capability.
#[derive(Debug)]
pub struct AddOperatorLog {
    pub operator: String,
}

/// An operator capability was revoked.
#[derive(Debug)]
pub struct RemoveOperatorLog {
    pub operator: String,
}

/// A quest instance was provisioned and registered.
#[derive(Debug)]
pub struct CreateQuestLog {
    pub quest_id: usize,
    pub game_name: String,
}

/// A game name was appended to the registry.
#[derive(Debug)]
pub struct AddGameLog {
    pub game_name: String,
    pub game_id: usize,
}

/// The event payload of one notification record.
#[derive(Debug)]
pub enum EventLogVariant {
    AddOperator(AddOperatorLog),
    RemoveOperator(RemoveOperatorLog),
    CreateQuest(CreateQuestLog),
    AddGame(AddGameLog),
}

/// One versioned, append-only notification record.
#[derive(Debug)]
pub struct EventLog {
    pub standard: String,
    pub version: String,
    pub event: EventLogVariant,
}

} // verus!
