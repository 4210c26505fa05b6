use vstd::prelude::*;
use crate::replay::Replay;

verus! {

/// The two sides of the game.
#[derive(Clone, Copy, Debug, PartialEq, Eq, Structural)]
pub enum Role {
    Detective,
    MisterX,
}

/// How the fugitive travels on one move; `Hidden` masks the transport.
#[derive(Clone, Copy, Debug, PartialEq, Eq, Structural)]
pub enum MisterXActionType {
    Taxi,
    Bus,
    Underground,
    Hidden,
}

/// How a detective travels on one move.
#[derive(Clone, Copy, Debug, PartialEq, Eq, Structural)]
pub enum DetectiveActionType {
    Taxi,
    Bus,
    Underground,
}

/// Tickets a detective has left, per transport.
#[derive(Clone, Copy, Debug, PartialEq, Eq, Structural)]
pub struct DetectiveTransportData {
    pub taxi: u8,
    pub bus: u8,
    pub underground: u8,
}

/// Abilities the fugitive has left.
#[derive(Clone, Copy, Debug, PartialEq, Eq, Structural)]
pub struct MisterXAbilityData {
    pub double_move: u8,
    pub hidden: u8,
}

/// One detective as shown in a game state.
#[derive(Clone, Debug)]
pub struct DetectiveData {
    pub color: String,
    pub station_id: u8,
    pub available_transport: DetectiveTransportData,
}

/// The fugitive as shown in a game state; `station_id` is left out where
/// the receiver may not see it.
#[derive(Clone, Debug)]
pub struct MisterXData {
    pub station_id: Option<u8>,
    pub abilities: MisterXAbilityData,
    pub moves: Vec<MisterXActionType>,
}

/// A snapshot of a running game.
#[derive(Clone, Debug)]
pub struct GameState {
    pub players: Vec<DetectiveData>,
    pub mister_x: MisterXData,
    pub round: u8,
}

/// A detective as shown, with the color as characters.
pub struct DetectiveDataView {
    pub color: Seq<char>,
    pub station_id: u8,
    pub available_transport: DetectiveTransportData,
}

impl View for DetectiveData {
    type V = DetectiveDataView;

    open spec fn view(&self) -> DetectiveDataView {
        DetectiveDataView {
            color: self.color@,
            station_id: self.station_id,
            available_transport: self.available_transport,
        }
    }
}

/// A game state as plain values.
pub struct GameStateView {
    pub players: Seq<DetectiveDataView>,
    pub station_id: Option<u8>,
    pub abilities: MisterXAbilityData,
    pub moves: Seq<MisterXActionType>,
    pub round: u8,
}

impl View for GameState {
    type V = GameStateView;

    open spec fn view(&self) -> GameStateView {
        GameStateView {
            players: self.players@.map_values(|p: DetectiveData| p@),
            station_id: self.mister_x.station_id,
            abilities: self.mister_x.abilities,
            moves: self.mister_x.moves@,
            round: self.round,
        }
    }
}

impl GameState {
    /// A copy of this state in which the fugitive's station is `station_id`.
    pub fn with_station(&self, station_id: Option<u8>) -> (r: GameState)
        ensures
            r@ == (GameStateView { station_id, ..self@ }),
    {
        let mut players: Vec<DetectiveData> = Vec::new();
        let mut i: usize = 0;
        while i < self.players.len()
            invariant
                i <= self.players@.len(),
                players@.len() == i,
                forall|j: int| 0 <= j < i ==> (#[trigger] players@[j])@ == self.players@[j]@,
            decreases self.players@.len() - i,
        {
            let d = &self.players[i];
            let copy = DetectiveData {
                color: d.color.clone(),
                station_id: d.station_id,
                available_transport: d.available_transport,
            };
            assert(copy@ == self.players@[i as int]@);
            players.push(copy);
            i = i + 1;
        }
        assert(players@.map_values(|p: DetectiveData| p@) =~= self.players@.map_values(
            |p: DetectiveData| p@,
        ));
        let mut moves: Vec<MisterXActionType> = Vec::new();
        let mut k: usize = 0;
        while k < self.mister_x.moves.len()
            invariant
                k <= self.mister_x.moves@.len(),
                moves@ =~= self.mister_x.moves@.subrange(0, k as int),
            decreases self.mister_x.moves@.len() - k,
        {
            moves.push(self.mister_x.moves[k]);
            k = k + 1;
            assert(moves@ =~= self.mister_x.moves@.subrange(0, k as int));
        }
        assert(moves@ =~= self.mister_x.moves@);
        GameState {
            players,
            mister_x: MisterXData { station_id, abilities: self.mister_x.abilities, moves },
            round: self.round,
        }
    }
}

/// What a game session reports, in the order it happens.
#[derive(Clone, Debug)]
pub enum GameEvent {
    GameStarted,
    RoundStarted(Role),
    MoveEnded,
    /// A snapshot, and whether detectives may see the fugitive's station.
    GameState(GameState, bool),
    GameEnded(Replay),
}

} // verus!
