//! Discriminators that stored records carry. The store keeps each as its
//! numeric identifier; only the distinctions that the engine's rules depend
//! on are spelled out here.

use vstd::prelude::*;

verus! {

/// An activity mode, by its numeric identifier.
#[derive(Clone, Copy, Debug, PartialEq, Eq, Structural)]
pub struct Mode {
    pub id: u32,
}

pub const MODE_ALL_PVP: u32 = 5;

pub const MODE_PRIVATE_MATCHES_ALL: u32 = 32;

pub const MODE_PRIVATE_MATCHES_FIRST: u32 = 51;

pub const MODE_PRIVATE_MATCHES_LAST: u32 = 57;

/// Whether a mode identifier names a private-match mode: the umbrella mode
/// or one of its sub-modes.
pub open spec fn is_private_mode(id: u32) -> bool {
    id == MODE_PRIVATE_MATCHES_ALL || (MODE_PRIVATE_MATCHES_FIRST <= id
        && id <= MODE_PRIVATE_MATCHES_LAST)
}

impl Mode {
    /// The mode that covers every public player-versus-player event.
    pub fn all_pvp() -> (mode: Mode)
        ensures
            mode.id == MODE_ALL_PVP,
    {
        Mode { id: MODE_ALL_PVP }
    }

    /// The mode that covers every private match.
    pub fn private_matches_all() -> (mode: Mode)
        ensures
            mode.id == MODE_PRIVATE_MATCHES_ALL,
    {
        Mode { id: MODE_PRIVATE_MATCHES_ALL }
    }

    pub fn from_id(id: u32) -> (mode: Mode)
        ensures
            mode.id == id,
    {
        Mode { id }
    }

    pub fn to_id(&self) -> (id: u32)
        ensures
            id == self.id,
    {
        self.id
    }

    pub fn is_private(&self) -> (private: bool)
        ensures
            private == is_private_mode(self.id),
    {
        self.id == MODE_PRIVATE_MATCHES_ALL || (MODE_PRIVATE_MATCHES_FIRST <= self.id
            && self.id <= MODE_PRIVATE_MATCHES_LAST)
    }
}

/// The platform an account lives on, by its numeric identifier.
#[derive(Clone, Copy, Debug, PartialEq, Eq, Structural)]
pub struct Platform {
    pub id: u32,
}

impl Platform {
    pub fn from_id(id: u32) -> (platform: Platform)
        ensures
            platform.id == id,
    {
        Platform { id }
    }

    pub fn to_id(&self) -> (id: u32)
        ensures
            id == self.id,
    {
        self.id
    }
}

#[derive(Clone, Copy, Debug, PartialEq, Eq, Structural)]
pub enum CharacterClass {
    Titan,
    Hunter,
    Warlock,
    Unknown,
}

pub const CLASS_TITAN: u32 = 0;

pub const CLASS_HUNTER: u32 = 1;

pub const CLASS_WARLOCK: u32 = 2;

pub const CLASS_UNKNOWN: u32 = 255;

impl CharacterClass {
    pub open spec fn spec_to_id(self) -> u32 {
        match self {
            CharacterClass::Titan => CLASS_TITAN,
            CharacterClass::Hunter => CLASS_HUNTER,
            CharacterClass::Warlock => CLASS_WARLOCK,
            CharacterClass::Unknown => CLASS_UNKNOWN,
        }
    }

    pub open spec fn spec_from_id(id: u32) -> CharacterClass {
        if id == CLASS_TITAN {
            CharacterClass::Titan
        } else if id == CLASS_HUNTER {
            CharacterClass::Hunter
        } else if id == CLASS_WARLOCK {
            CharacterClass::Warlock
        } else {
            CharacterClass::Unknown
        }
    }

    pub fn to_id(&self) -> (id: u32)
        ensures
            id == self.spec_to_id(),
    {
        match self {
            CharacterClass::Titan => CLASS_TITAN,
            CharacterClass::Hunter => CLASS_HUNTER,
            CharacterClass::Warlock => CLASS_WARLOCK,
            CharacterClass::Unknown => CLASS_UNKNOWN,
        }
    }

    pub fn from_id(id: u32) -> (class: CharacterClass)
        ensures
            class == Self::spec_from_id(id),
    {
        if id == CLASS_TITAN {
            CharacterClass::Titan
        } else if id == CLASS_HUNTER {
            CharacterClass::Hunter
        } else if id == CLASS_WARLOCK {
            CharacterClass::Warlock
        } else {
            CharacterClass::Unknown
        }
    }
}

/// Which roster entry a report is asked for.
#[derive(Clone, Copy, Debug, PartialEq, Eq, Structural)]
pub enum CharacterClassSelection {
    Titan,
    Hunter,
    Warlock,
    LastActive,
    All,
}

#[derive(Clone, Copy, Debug, PartialEq, Eq, Structural)]
pub enum Standing {
    Victory,
    Defeat,
    Unknown,
}

impl Standing {
    pub open spec fn spec_from_value(value: u32) -> Standing {
        if value == 0 {
            Standing::Victory
        } else if value == 1 {
            Standing::Defeat
        } else {
            Standing::Unknown
        }
    }

    pub fn from_value(value: u32) -> (standing: Standing)
        ensures
            standing == Self::spec_from_value(value),
    {
        if value == 0 {
            Standing::Victory
        } else if value == 1 {
            Standing::Defeat
        } else {
            Standing::Unknown
        }
    }
}

#[derive(Clone, Copy, Debug, PartialEq, Eq, Structural)]
pub enum CompletionReason {
    ObjectiveCompleted,
    TimerFinished,
    Failed,
    NoOpponents,
    Mercy,
    Unknown,
}

impl CompletionReason {
    pub open spec fn spec_from_id(id: u32) -> CompletionReason {
        if id == 0 {
            CompletionReason::ObjectiveCompleted
        } else if id == 1 {
            CompletionReason::TimerFinished
        } else if id == 2 {
            CompletionReason::Failed
        } else if id == 3 {
            CompletionReason::NoOpponents
        } else if id == 4 {
            CompletionReason::Mercy
        } else {
            CompletionReason::Unknown
        }
    }

    pub fn from_id(id: u32) -> (reason: CompletionReason)
        ensures
            reason == Self::spec_from_id(id),
    {
        if id == 0 {
            CompletionReason::ObjectiveCompleted
        } else if id == 1 {
            CompletionReason::TimerFinished
        } else if id == 2 {
            CompletionReason::Failed
        } else if id == 3 {
            CompletionReason::NoOpponents
        } else if id == 4 {
            CompletionReason::Mercy
        } else {
            CompletionReason::Unknown
        }
    }
}

pub const ITEM_TYPE_UNKNOWN: u32 = 0;

/// The kind of an inventory item, by its numeric identifier.
#[derive(Clone, Copy, Debug, PartialEq, Eq, Structural)]
pub struct ItemType {
    pub id: u32,
}

/// The sub-kind of an inventory item, by its numeric identifier.
#[derive(Clone, Copy, Debug, PartialEq, Eq, Structural)]
pub struct ItemSubType {
    pub id: u32,
}

/// The tier of a medal, by its numeric identifier.
#[derive(Clone, Copy, Debug, PartialEq, Eq, Structural)]
pub struct MedalTier {
    pub id: u32,
}

impl ItemType {
    pub fn unknown() -> (kind: ItemType)
        ensures
            kind.id == ITEM_TYPE_UNKNOWN,
    {
        ItemType { id: ITEM_TYPE_UNKNOWN }
    }
}

impl ItemSubType {
    pub fn unknown() -> (kind: ItemSubType)
        ensures
            kind.id == ITEM_TYPE_UNKNOWN,
    {
        ItemSubType { id: ITEM_TYPE_UNKNOWN }
    }
}

impl MedalTier {
    pub fn unknown() -> (tier: MedalTier)
        ensures
            tier.id == ITEM_TYPE_UNKNOWN,
    {
        MedalTier { id: ITEM_TYPE_UNKNOWN }
    }
}

} // verus!
