use vstd::prelude::*;
use crate::event::{DetectiveActionType, GameState, MisterXActionType, Role};
use crate::packet::{ClientPacket, JoinGamePacket, MoveDetectivePacket, MoveMisterXPacket, ServerPacket};

verus! {

/// One single move a bot chose for the fugitive.
#[derive(Clone, Copy, Debug, PartialEq, Eq, Structural)]
pub struct MisterXMove {
    pub station: u8,
    pub action_type: MisterXActionType,
}

/// A bot's turn for the fugitive: one move, or two as a double move.
#[derive(Clone, Copy, Debug, PartialEq, Eq, Structural)]
pub struct MisterXAction {
    pub first_move: MisterXMove,
    pub second_move: Option<MisterXMove>,
}

/// One detective's move a bot chose.
#[derive(Clone, Debug)]
pub struct DetectiveMove {
    pub color: String,
    pub station: u8,
    pub action_type: DetectiveActionType,
}

/// A bot's turn for the detectives: one move per detective.
#[derive(Clone, Debug)]
pub struct DetectiveAction {
    pub moves: Vec<DetectiveMove>,
}

pub open spec fn mister_x_move_packet(m: MisterXMove) -> MoveMisterXPacket {
    MoveMisterXPacket { station_id: m.station, transport_type: m.action_type }
}

impl MisterXAction {
    /// The moves of this turn as packet payloads.
    pub open spec fn spec_packets(&self) -> Seq<MoveMisterXPacket> {
        match self.second_move {
            Some(second) => seq![mister_x_move_packet(self.first_move), mister_x_move_packet(second)],
            None => seq![mister_x_move_packet(self.first_move)],
        }
    }

    /// The payload of the `moveMisterX` packet that sends this turn.
    pub fn to_packets(&self) -> (r: Vec<MoveMisterXPacket>)
        ensures
            r@ == self.spec_packets(),
    {
        let mut r: Vec<MoveMisterXPacket> = Vec::new();
        r.push(
            MoveMisterXPacket {
                station_id: self.first_move.station,
                transport_type: self.first_move.action_type,
            },
        );
        if let Some(second) = self.second_move {
            r.push(
                MoveMisterXPacket { station_id: second.station, transport_type: second.action_type },
            );
        }
        assert(r@ =~= match self.second_move {
            Some(second) => seq![mister_x_move_packet(self.first_move), mister_x_move_packet(second)],
            None => seq![mister_x_move_packet(self.first_move)],
        });
        r
    }
}

impl DetectiveAction {
    /// The `moveDetective` packets that send this turn, one per move, in
    /// order.
    pub fn to_packets(&self) -> (r: Vec<MoveDetectivePacket>)
        ensures
            r@.len() == self.moves@.len(),
            forall|i: int|
                0 <= i < r@.len() ==> (#[trigger] r@[i]).color@ == self.moves@[i].color@
                    && r@[i].station_id == self.moves@[i].station && r@[i].transport_type
                    == self.moves@[i].action_type,
    {
        let mut r: Vec<MoveDetectivePacket> = Vec::new();
        let mut i: usize = 0;
        while i < self.moves.len()
            invariant
                i <= self.moves@.len(),
                r@.len() == i,
                forall|j: int|
                    0 <= j < i ==> (#[trigger] r@[j]).color@ == self.moves@[j].color@
                        && r@[j].station_id == self.moves@[j].station && r@[j].transport_type
                        == self.moves@[j].action_type,
            decreases self.moves@.len() - i,
        {
            let m = &self.moves[i];
            r.push(
                MoveDetectivePacket {
                    color: m.color.clone(),
                    station_id: m.station,
                    transport_type: m.action_type,
                },
            );
            i = i + 1;
        }
        r
    }
}

/// What a bot does after one packet from the server.
#[derive(Debug)]
pub enum BotStep {
    /// Nothing to do yet.
    Wait,
    /// The bot's side has the turn in this state: decide and send.
    Decide(GameState),
    /// The game is over.
    Finished(Role),
}

/// The packets that join the game `game_id` and ask it to start.
pub fn join_packets(game_id: u128) -> (r: Vec<ClientPacket>)
    ensures
        r@.len() == 2,
        r@[0] matches ClientPacket::JoinGame(p) && p.id == game_id,
        r@[1] matches ClientPacket::StartGame,
{
    let mut r: Vec<ClientPacket> = Vec::new();
    r.push(ClientPacket::JoinGame(JoinGamePacket { id: game_id }));
    r.push(ClientPacket::StartGame);
    r
}

/// A bot's view of its game: the side it plays, once known, and whether a
/// turn of that side has just started.
pub struct BotRuntime {
    role: Option<Role>,
    turn_started: bool,
}

impl BotRuntime {
    pub closed spec fn spec_role(&self) -> Option<Role> {
        self.role
    }

    pub closed spec fn spec_turn_started(&self) -> bool {
        self.turn_started
    }

    pub fn new() -> (r: BotRuntime)
        ensures
            r.spec_role() is None,
            !r.spec_turn_started(),
    {
        BotRuntime { role: None, turn_started: false }
    }

    pub fn role(&self) -> (r: Option<Role>)
        ensures
            r == self.spec_role(),
    {
        self.role
    }

    /// Takes one packet from the server: `gameStarted` tells the side,
    /// `startMove` for that side opens its turn, the next `gameState` is the
    /// one to decide on, and `gameEnded` ends the game.
    pub fn on_packet(&mut self, packet: ServerPacket) -> (r: BotStep)
        ensures
            match packet {
                ServerPacket::GameStarted(p) => r is Wait && final(self).spec_role() == Some(
                    p.role,
                ) && !final(self).spec_turn_started(),
                ServerPacket::StartMove(p) => r is Wait && final(self).spec_role() == old(self).spec_role() && final(self).spec_turn_started() == (old(self).spec_role()
                    == Some(p.role)),
                ServerPacket::GameState(s) => final(self).spec_role() == old(self).spec_role()
                    && !final(self).spec_turn_started() && if old(self).spec_turn_started() {
                    r matches BotStep::Decide(t) && t == s
                } else {
                    r is Wait
                },
                ServerPacket::GameEnded(p) => r == BotStep::Finished(p.winner) && final(self).spec_role() == old(self).spec_role(),
                _ => r is Wait && final(self).spec_role() == old(self).spec_role()
                    && final(self).spec_turn_started() == old(self).spec_turn_started(),
            },
    {
        match packet {
            ServerPacket::GameStarted(p) => {
                self.role = Some(p.role);
                self.turn_started = false;
                BotStep::Wait
            },
            ServerPacket::StartMove(p) => {
                self.turn_started = match self.role {
                    Some(role) => role == p.role,
                    None => false,
                };
                BotStep::Wait
            },
            ServerPacket::GameState(s) => {
                if self.turn_started {
                    self.turn_started = false;
                    BotStep::Decide(s)
                } else {
                    BotStep::Wait
                }
            },
            ServerPacket::GameEnded(p) => BotStep::Finished(p.winner),
            _ => BotStep::Wait,
        }
    }
}

/// The packets that play the fugitive's turn `action`: the move, then the
/// end of the turn.
pub fn mister_x_turn(action: &MisterXAction) -> (r: Vec<ClientPacket>)
    ensures
        r@.len() == 2,
        r@[0] matches ClientPacket::MoveMisterX(ms) && ms@ == action.spec_packets(),
        r@[1] matches ClientPacket::SubmitMove,
{
    let mut r: Vec<ClientPacket> = Vec::new();
    r.push(ClientPacket::MoveMisterX(action.to_packets()));
    r.push(ClientPacket::SubmitMove);
    r
}

/// The packets that play the detectives' turn `action`: one move per
/// detective, then the end of the turn.
pub fn detective_turn(action: &DetectiveAction) -> (r: Vec<ClientPacket>)
    ensures
        r@.len() == action.moves@.len() + 1,
        forall|i: int|
            0 <= i < action.moves@.len() ==> ((#[trigger] r@[i]) matches ClientPacket::MoveDetective(p)
                && p.color@ == action.moves@[i].color@ && p.station_id == action.moves@[i].station
                && p.transport_type == action.moves@[i].action_type),
        r@[action.moves@.len() as int] matches ClientPacket::SubmitMove,
{
    let moves = action.to_packets();
    let mut r: Vec<ClientPacket> = Vec::new();
    let mut moves = moves;
    let ghost all = moves@;
    let ghost mut done: int = 0;
    while moves.len() > 0
        invariant
            0 <= done <= all.len(),
            all.len() == action.moves@.len(),
            moves@ == all.subrange(done, all.len() as int),
            r@.len() == done,
            forall|j: int| 0 <= j < all.len() ==> (#[trigger] all[j]).color@ == action.moves@[j].color@
                && all[j].station_id == action.moves@[j].station && all[j].transport_type
                == action.moves@[j].action_type,
            forall|j: int|
                0 <= j < done ==> ((#[trigger] r@[j]) matches ClientPacket::MoveDetective(p) && p
                    == all[j]),
        decreases moves@.len(),
    {
        let p = moves.remove(0);
        r.push(ClientPacket::MoveDetective(p));
        proof {
            done = done + 1;
            assert(moves@ =~= all.subrange(done, all.len() as int));
        }
    }
    r.push(ClientPacket::SubmitMove);
    r
}

} // verus!
