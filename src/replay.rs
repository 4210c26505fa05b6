use vstd::prelude::*;
use crate::event::{DetectiveActionType, MisterXActionType, Role};

verus! {

/// One move of a finished game, in the order it was played.
#[derive(Clone, Debug)]
#[allow(inconsistent_fields)]
pub enum Action {
    Detective { color: String, station: u8, action_type: DetectiveActionType },
    MisterX { station: u8, action_type: MisterXActionType },
}

/// A replay action with the color as a sequence of characters.
pub enum ActionView {
    Detective(Seq<char>, u8, DetectiveActionType),
    MisterX(u8, MisterXActionType),
}

impl View for Action {
    type V = ActionView;

    open spec fn view(&self) -> ActionView {
        match self {
            Action::Detective { color, station, action_type } => ActionView::Detective(
                color@,
                *station,
                *action_type,
            ),
            Action::MisterX { station, action_type } => ActionView::MisterX(*station, *action_type),
        }
    }
}

/// The views of the actions `s`.
pub open spec fn views(s: Seq<Action>) -> Seq<ActionView> {
    s.map_values(|a: Action| a@)
}

/// Everything needed to play a finished game again: the starts, the moves,
/// and the winner.
#[derive(Clone, Debug)]
pub struct Replay {
    pub mister_x_starting_station: u8,
    pub detective_starting_stations: Vec<(String, u8)>,
    pub actions: Vec<Action>,
    pub winner: Role,
}

} // verus!
