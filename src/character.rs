use vstd::prelude::*;
use crate::data::StationType;
use crate::event::{DetectiveActionType, MisterXActionType};

verus! {

/// A kind of move, and the edges it may travel.
pub trait ActionTypeTrait {
    spec fn spec_matches(&self, station_type: StationType) -> bool;

    fn matches(&self, station_type: &StationType) -> (r: bool)
        ensures
            r == self.spec_matches(*station_type),
    ;
}

impl ActionTypeTrait for DetectiveActionType {
    /// A detective travels an edge of the same transport; never water.
    open spec fn spec_matches(&self, station_type: StationType) -> bool {
        match station_type {
            StationType::Taxi => *self == DetectiveActionType::Taxi,
            StationType::Bus => *self == DetectiveActionType::Bus,
            StationType::Underground => *self == DetectiveActionType::Underground,
            StationType::Water => false,
        }
    }

    fn matches(&self, station_type: &StationType) -> (r: bool) {
        match station_type {
            StationType::Taxi => *self == DetectiveActionType::Taxi,
            StationType::Bus => *self == DetectiveActionType::Bus,
            StationType::Underground => *self == DetectiveActionType::Underground,
            StationType::Water => false,
        }
    }
}

impl ActionTypeTrait for MisterXActionType {
    /// The fugitive travels an edge of the same transport; a hidden move
    /// travels any edge, water included.
    open spec fn spec_matches(&self, station_type: StationType) -> bool {
        match station_type {
            StationType::Taxi => *self == MisterXActionType::Taxi || *self
                == MisterXActionType::Hidden,
            StationType::Bus => *self == MisterXActionType::Bus || *self
                == MisterXActionType::Hidden,
            StationType::Underground => *self == MisterXActionType::Underground || *self
                == MisterXActionType::Hidden,
            StationType::Water => *self == MisterXActionType::Hidden,
        }
    }

    fn matches(&self, station_type: &StationType) -> (r: bool) {
        if *self == MisterXActionType::Hidden {
            return true;
        }
        match station_type {
            StationType::Taxi => *self == MisterXActionType::Taxi,
            StationType::Bus => *self == MisterXActionType::Bus,
            StationType::Underground => *self == MisterXActionType::Underground,
            StationType::Water => false,
        }
    }
}

/// What both sides share: a start, a history of moves, and a position.
pub trait Character {
    spec fn spec_start_station(&self) -> u8;

    spec fn spec_station_id(&self) -> u8;

    /// Number of entries in the history.
    spec fn spec_len(&self) -> nat;

    spec fn wf(&self) -> bool;

    fn start_station(&self) -> (r: u8)
        ensures
            r == self.spec_start_station(),
    ;

    fn station_id(&self) -> (r: u8)
        requires
            self.wf(),
        ensures
            r == self.spec_station_id(),
    ;

    fn number_of_actions(&self) -> (r: usize)
        ensures
            r == self.spec_len(),
    ;
}

} // verus!
