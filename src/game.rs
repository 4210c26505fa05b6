use vstd::prelude::*;
use crate::character::{ActionTypeTrait, Character};
use crate::data::{is_reveal_index, standard_rounds, Connection, Round, StationType};
use crate::detective::{
    self, count_type, lemma_count_type_push, ticket_of, Detective, INITIAL_BUS, INITIAL_TAXI,
    INITIAL_UNDERGROUND,
};
use crate::event::{
    DetectiveActionType, DetectiveData, DetectiveTransportData, GameEvent, GameState,
    MisterXAbilityData, MisterXActionType, MisterXData, Role,
};
use crate::map_utils::{
    all_valid_detective_moves, has_connection, links, spec_detective_moves, spec_has_connection,
};
use crate::mister_x::{
    self, count_double, count_hidden, end_station, hidden_in, lemma_counts_push, types_of, MisterX,
    MoveData, INITIAL_DOUBLE_MOVES, INITIAL_HIDDEN,
};
use crate::replay::{self, views, ActionView, Replay};

verus! {

/// Why a move or the end of a turn was refused.
#[derive(Clone, Copy, Debug, PartialEq, Eq, Structural)]
pub enum GameError {
    InvalidMove,
    NotAllMoved,
}

impl GameError {
    pub open spec fn spec_message(&self) -> Seq<char> {
        match self {
            GameError::InvalidMove => "invalid move"@,
            GameError::NotAllMoved => "not all moved"@,
        }
    }

    pub fn message(&self) -> (r: String)
        ensures
            r@ == self.spec_message(),
    {
        match self {
            GameError::InvalidMove => "invalid move".to_string(),
            GameError::NotAllMoved => "not all moved".to_string(),
        }
    }
}

/// `s` without its last entry where it holds more than `target` entries.
pub open spec fn trimmed<A>(s: Seq<A>, target: int) -> Seq<A> {
    if s.len() > target {
        s.drop_last()
    } else {
        s
    }
}

/// Where the fugitive stands after the turns `h`.
pub open spec fn x_station_after(start: u8, h: Seq<mister_x::Action>) -> u8 {
    if h.len() == 0 {
        start
    } else {
        end_station(h.last())
    }
}

/// Where a detective stands after the moves `h`.
pub open spec fn detective_station_after(start: u8, h: Seq<detective::Action>) -> u8 {
    if h.len() == 0 {
        start
    } else {
        h.last().station
    }
}

/// Two detectives agree in everything but the identity of their storage.
pub open spec fn same_detective(a: Detective, b: Detective) -> bool {
    &&& a.spec_color() == b.spec_color()
    &&& a.spec_start_station() == b.spec_start_station()
    &&& a.history() == b.history()
    &&& a.initial_tickets() == b.initial_tickets()
}

pub open spec fn same_mister_x(a: MisterX, b: MisterX) -> bool {
    &&& a.spec_start_station() == b.spec_start_station()
    &&& a.history() == b.history()
    &&& a.initial_abilities() == b.initial_abilities()
}

/// `p` shows the detective `d` as it stands.
pub open spec fn detective_shown(d: Detective, p: DetectiveData) -> bool {
    &&& p.color@ == d.spec_color()
    &&& p.station_id == d.spec_station_id()
    &&& p.available_transport == d.spec_tickets()
}

/// The replay entries of the fugitive's turn `i`, double moves flattened.
pub open spec fn x_entries(h: Seq<mister_x::Action>, i: int) -> Seq<ActionView> {
    if 0 <= i < h.len() {
        match h[i] {
            mister_x::Action::Single(m) => seq![ActionView::MisterX(m.station, m.action_type)],
            mister_x::Action::Double(m1, m2) => seq![
                ActionView::MisterX(m1.station, m1.action_type),
                ActionView::MisterX(m2.station, m2.action_type),
            ],
        }
    } else {
        seq![]
    }
}

/// The replay entries of the detectives' moves of round `i`, in detective
/// order; a detective without a move in that round has none.
pub open spec fn detective_entries(dets: Seq<Detective>, i: int) -> Seq<ActionView>
    decreases dets.len(),
{
    if dets.len() == 0 {
        seq![]
    } else {
        let d = dets.last();
        detective_entries(dets.drop_last(), i) + if 0 <= i < d.history().len() {
            seq![
                ActionView::Detective(
                    d.spec_color(),
                    d.history()[i].station,
                    d.history()[i].action_type,
                ),
            ]
        } else {
            seq![]
        }
    }
}

/// The replay entries of rounds `0 .. n`: each round the fugitive first,
/// then the detectives.
pub open spec fn replay_entries(
    dets: Seq<Detective>,
    h: Seq<mister_x::Action>,
    n: int,
) -> Seq<ActionView>
    decreases n,
{
    if n <= 0 {
        seq![]
    } else {
        replay_entries(dets, h, n - 1) + x_entries(h, n - 1) + detective_entries(dets, n - 1)
    }
}

/// The longest history among the detectives, or `floor` if larger.
pub open spec fn longest(dets: Seq<Detective>, floor: nat) -> nat
    decreases dets.len(),
{
    if dets.len() == 0 {
        floor
    } else {
        let rest = longest(dets.drop_last(), floor);
        if dets.last().history().len() > rest {
            dets.last().history().len()
        } else {
            rest
        }
    }
}

/// One game session: whose turn it is, the round, both sides, the map, and
/// the events reported so far.
pub struct Game {
    active_role: Role,
    game_round: u8,
    ended: bool,
    connections: Vec<Connection>,
    rounds: Vec<Round>,
    detectives: Vec<Detective>,
    mister_x: MisterX,
    events: Vec<GameEvent>,
}

impl Game {
    pub closed spec fn spec_role(&self) -> Role {
        self.active_role
    }

    pub closed spec fn spec_round(&self) -> u8 {
        self.game_round
    }

    pub closed spec fn spec_ended(&self) -> bool {
        self.ended
    }

    pub closed spec fn spec_connections(&self) -> Seq<Connection> {
        self.connections@
    }

    pub closed spec fn spec_rounds(&self) -> Seq<Round> {
        self.rounds@
    }

    pub closed spec fn spec_detectives(&self) -> Seq<Detective> {
        self.detectives@
    }

    pub closed spec fn spec_mister_x(&self) -> MisterX {
        self.mister_x
    }

    pub closed spec fn spec_events(&self) -> Seq<GameEvent> {
        self.events@
    }

    /// The invariant of a session: counts never below zero, the round within
    /// the schedule while the game runs, no history ahead of the round.
    pub open spec fn inv(&self) -> bool {
        &&& 1 <= self.spec_rounds().len() <= 255
        &&& !self.spec_ended() ==> self.spec_round() < self.spec_rounds().len()
        &&& self.spec_round() <= self.spec_rounds().len()
        &&& self.spec_mister_x().inv()
        &&& self.spec_mister_x().history().len() <= self.spec_round() + 1
        &&& forall|i: int|
            0 <= i < self.spec_detectives().len() ==> {
                &&& (#[trigger] self.spec_detectives()[i]).inv()
                &&& self.spec_detectives()[i].history().len() <= self.spec_round() + 1
            }
    }

    /// Everything but the events is the same in `self` and `other`.
    pub open spec fn same_state(&self, other: Game) -> bool {
        &&& self.spec_role() == other.spec_role()
        &&& self.spec_round() == other.spec_round()
        &&& self.spec_ended() == other.spec_ended()
        &&& self.spec_connections() == other.spec_connections()
        &&& self.spec_rounds() == other.spec_rounds()
        &&& same_mister_x(self.spec_mister_x(), other.spec_mister_x())
        &&& self.spec_detectives().len() == other.spec_detectives().len()
        &&& forall|i: int|
            0 <= i < self.spec_detectives().len() ==> same_detective(
                #[trigger] self.spec_detectives()[i],
                other.spec_detectives()[i],
            )
    }

    /// Whether detectives see the fugitive's station now: the schedule
    /// entry of the round being played (zero-based `round`) decides, on the
    /// fugitive's turn and on the detectives' turn alike. So in a round
    /// marked to reveal, every snapshot from the fugitive's move in it until
    /// the detectives end it carries the station.
    pub open spec fn spec_show_mister_x(&self) -> bool {
        self.spec_round() < self.spec_rounds().len()
            && self.spec_rounds()[self.spec_round() as int].show_mister_x
    }

    /// `s` is a snapshot of this game, the fugitive's station included.
    pub open spec fn spec_state(&self, s: GameState) -> bool {
        &&& s.players@.len() == self.spec_detectives().len()
        &&& forall|i: int|
            0 <= i < s.players@.len() ==> detective_shown(
                self.spec_detectives()[i],
                #[trigger] s.players@[i],
            )
        &&& s.mister_x.station_id == Some(self.spec_mister_x().spec_station_id())
        &&& s.mister_x.abilities == self.spec_mister_x().spec_abilities()
        &&& s.mister_x.moves@ == types_of(self.spec_mister_x().history())
        &&& s.round == self.spec_round()
    }

    /// `e` reports a snapshot of this game with the reveal flag `show`.
    pub open spec fn is_state_event(&self, e: GameEvent, show: bool) -> bool {
        match e {
            GameEvent::GameState(s, b) => b == show && self.spec_state(s),
            _ => false,
        }
    }

    /// `r` is the replay of this game, won by `winner`.
    pub open spec fn spec_replay(&self, r: Replay, winner: Role) -> bool {
        let dets = self.spec_detectives();
        let h = self.spec_mister_x().history();
        &&& r.winner == winner
        &&& r.mister_x_starting_station == self.spec_mister_x().spec_start_station()
        &&& r.detective_starting_stations@.len() == dets.len()
        &&& forall|i: int|
            0 <= i < dets.len() ==> (#[trigger] r.detective_starting_stations@[i]).0@
                == dets[i].spec_color() && r.detective_starting_stations@[i].1
                == dets[i].spec_start_station()
        &&& views(r.actions@) == replay_entries(dets, h, longest(dets, h.len()) as int)
    }

    pub open spec fn is_ended_event(&self, e: GameEvent, winner: Role) -> bool {
        match e {
            GameEvent::GameEnded(r) => self.spec_replay(r, winner),
            _ => false,
        }
    }

    /// Some detective stands on the fugitive's station.
    pub open spec fn spec_captured(&self) -> bool {
        exists|i: int|
            0 <= i < self.spec_detectives().len()
                && (#[trigger] self.spec_detectives()[i]).spec_station_id()
                == self.spec_mister_x().spec_station_id()
    }

    /// Whoever has the turn has moved: the fugitive once this round, or
    /// every detective that has a move at all.
    pub open spec fn spec_all_moved(&self) -> bool {
        match self.spec_role() {
            Role::MisterX => self.spec_mister_x().history().len() > self.spec_round(),
            Role::Detective => forall|i: int|
                0 <= i < self.spec_detectives().len() ==> {
                    let d = #[trigger] self.spec_detectives()[i];
                    d.history().len() > self.spec_round() || spec_detective_moves(
                        self.spec_connections(),
                        d.spec_station_id(),
                        d.spec_tickets(),
                    ).len() == 0
                },
        }
    }

    /// The turn the fugitive would make with `moves`, checked against the
    /// history trimmed to the current round; `None` if it is not allowed.
    pub open spec fn spec_x_step(&self, moves: Seq<(u8, MisterXActionType)>) -> Option<
        mister_x::Action,
    > {
        let x = self.spec_mister_x();
        let h = trimmed(x.history(), self.spec_round() as int);
        let from = x_station_after(x.spec_start_station(), h);
        let hidden_left = x.initial_abilities().hidden - count_hidden(h);
        let double_left = x.initial_abilities().double_move - count_double(h);
        let conns = self.spec_connections();
        if moves.len() == 1 {
            let m1 = MoveData { station: moves[0].0, action_type: moves[0].1 };
            if (m1.action_type != MisterXActionType::Hidden || hidden_left > 0)
                && spec_has_connection(conns, from, m1.station, m1.action_type) {
                Some(mister_x::Action::Single(m1))
            } else {
                None
            }
        } else if moves.len() == 2 {
            let m1 = MoveData { station: moves[0].0, action_type: moves[0].1 };
            let m2 = MoveData { station: moves[1].0, action_type: moves[1].1 };
            let a = mister_x::Action::Double(m1, m2);
            if hidden_in(a) <= hidden_left && double_left > 0 && spec_has_connection(
                conns,
                from,
                m1.station,
                m1.action_type,
            ) && spec_has_connection(conns, m1.station, m2.station, m2.action_type) {
                Some(a)
            } else {
                None
            }
        } else {
            None
        }
    }

    /// `k` is the first detective with `color`.
    pub open spec fn first_with_color(&self, color: Seq<char>, k: int) -> bool {
        &&& 0 <= k < self.spec_detectives().len()
        &&& self.spec_detectives()[k].spec_color() == color
        &&& forall|j: int| 0 <= j < k ==> (#[trigger] self.spec_detectives()[j]).spec_color() != color
    }

    /// Detective `k` may move to `station` by `t`, its history trimmed to the
    /// current round.
    pub open spec fn spec_detective_step_ok(&self, k: int, station: u8, t: DetectiveActionType) -> bool {
        let d = self.spec_detectives()[k];
        let h = trimmed(d.history(), self.spec_round() as int);
        &&& ticket_of(d.initial_tickets(), t) - count_type(h, t) > 0
        &&& spec_has_connection(
            self.spec_connections(),
            detective_station_after(d.spec_start_station(), h),
            station,
            t,
        )
    }

    /// What `move_mister_x(moves)` leaves, events aside, having returned `r`.
    pub open spec fn spec_moved_mister_x(
        &self,
        new: Game,
        moves: Seq<(u8, MisterXActionType)>,
        r: Result<(), GameError>,
    ) -> bool {
        &&& new.inv()
        &&& new.spec_role() == self.spec_role()
        &&& new.spec_round() == self.spec_round()
        &&& new.spec_ended() == self.spec_ended()
        &&& new.spec_connections() == self.spec_connections()
        &&& new.spec_rounds() == self.spec_rounds()
        &&& new.spec_detectives() == self.spec_detectives()
        &&& new.spec_mister_x().spec_start_station() == self.spec_mister_x().spec_start_station()
        &&& new.spec_mister_x().initial_abilities() == self.spec_mister_x().initial_abilities()
        &&& match self.spec_x_step(moves) {
            Some(a) => r == Ok::<(), GameError>(()) && new.spec_mister_x().history() == trimmed(
                self.spec_mister_x().history(),
                self.spec_round() as int,
            ).push(a),
            None => r == Err::<(), GameError>(GameError::InvalidMove)
                && new.spec_mister_x().history() == self.spec_mister_x().history(),
        }
    }

    /// What `move_detective(color, station, t)` leaves, events aside, having
    /// returned `r`.
    pub open spec fn spec_moved_detective(
        &self,
        new: Game,
        color: Seq<char>,
        station: u8,
        t: DetectiveActionType,
        r: Result<(), GameError>,
    ) -> bool {
        &&& new.inv()
        &&& new.spec_role() == self.spec_role()
        &&& new.spec_round() == self.spec_round()
        &&& new.spec_ended() == self.spec_ended()
        &&& new.spec_connections() == self.spec_connections()
        &&& new.spec_rounds() == self.spec_rounds()
        &&& same_mister_x(new.spec_mister_x(), self.spec_mister_x())
        &&& new.spec_detectives().len() == self.spec_detectives().len()
        &&& (forall|k: int| !self.first_with_color(color, k)) ==> r == Err::<(), GameError>(
            GameError::InvalidMove,
        ) && new.same_state(*self)
        &&& forall|k: int|
            self.first_with_color(color, k) ==> {
                if self.spec_detective_step_ok(k, station, t) {
                    &&& r == Ok::<(), GameError>(())
                    &&& forall|j: int|
                        0 <= j < self.spec_detectives().len() && j != k ==> same_detective(
                            #[trigger] new.spec_detectives()[j],
                            self.spec_detectives()[j],
                        )
                    &&& new.spec_detectives()[k].spec_color() == self.spec_detectives()[k].spec_color()
                    &&& new.spec_detectives()[k].spec_start_station()
                        == self.spec_detectives()[k].spec_start_station()
                    &&& new.spec_detectives()[k].initial_tickets()
                        == self.spec_detectives()[k].initial_tickets()
                    &&& new.spec_detectives()[k].history() == trimmed(
                        self.spec_detectives()[k].history(),
                        self.spec_round() as int,
                    ).push(detective::Action { station, action_type: t })
                } else {
                    &&& r == Err::<(), GameError>(GameError::InvalidMove)
                    &&& new.same_state(*self)
                }
            }
    }

    /// Ending the turn now ends the game: a capture, or the detectives
    /// finishing the last round.
    pub open spec fn spec_move_ends_game(&self) -> bool {
        self.spec_captured() || (self.spec_role() == Role::Detective && self.spec_round() + 1
            == self.spec_rounds().len())
    }

    /// Who wins if the game ends now.
    pub open spec fn spec_winner(&self) -> Role {
        if self.spec_captured() {
            Role::Detective
        } else {
            Role::MisterX
        }
    }

    /// What `end_move` leaves, events aside, having returned `r`.
    pub open spec fn spec_ended_move(&self, new: Game, r: Result<bool, GameError>) -> bool {
        &&& new.inv()
        &&& new.spec_connections() == self.spec_connections()
        &&& new.spec_rounds() == self.spec_rounds()
        &&& new.spec_mister_x() == self.spec_mister_x()
        &&& new.spec_detectives() == self.spec_detectives()
        &&& !self.spec_all_moved() ==> r == Err::<bool, GameError>(GameError::NotAllMoved)
            && new.same_state(*self)
        &&& self.spec_all_moved() ==> {
            let ended = self.spec_move_ends_game();
            &&& r == Ok::<bool, GameError>(ended)
            &&& new.spec_ended() == ended
            &&& new.spec_round() == if !self.spec_captured() && self.spec_role() == Role::Detective {
                self.spec_round() + 1
            } else {
                self.spec_round() as int
            }
            &&& new.spec_role() == if ended {
                self.spec_role()
            } else if self.spec_role() == Role::Detective {
                Role::MisterX
            } else {
                Role::Detective
            }
        }
    }

    /// A game between the standard characters: one detective per
    /// (color, start) pair, and the fugitive at `mister_x_start_station`.
    pub fn new(
        detective_data: Vec<(String, u8)>,
        mister_x_start_station: u8,
        connections: Vec<Connection>,
        rounds: Vec<Round>,
    ) -> (r: Game)
        requires
            1 <= rounds@.len() <= 255,
        ensures
            r.inv(),
            r.spec_role() == Role::MisterX,
            r.spec_round() == 0,
            !r.spec_ended(),
            r.spec_connections() == connections@,
            r.spec_rounds() == rounds@,
            r.spec_events().len() == 0,
            r.spec_mister_x().spec_start_station() == mister_x_start_station,
            r.spec_mister_x().history().len() == 0,
            r.spec_mister_x().initial_abilities() == (MisterXAbilityData {
                double_move: INITIAL_DOUBLE_MOVES,
                hidden: INITIAL_HIDDEN,
            }),
            r.spec_detectives().len() == detective_data@.len(),
            forall|i: int|
                0 <= i < detective_data@.len() ==> {
                    let d = #[trigger] r.spec_detectives()[i];
                    &&& d.spec_color() == detective_data@[i].0@
                    &&& d.spec_start_station() == detective_data@[i].1
                    &&& d.history().len() == 0
                    &&& d.initial_tickets() == (DetectiveTransportData {
                        taxi: INITIAL_TAXI,
                        bus: INITIAL_BUS,
                        underground: INITIAL_UNDERGROUND,
                    })
                },
    {
        let mut detectives: Vec<Detective> = Vec::new();
        let mut data = detective_data;
        let ghost given = data@;
        let mut i: usize = 0;
        while i < data.len()
            invariant
                i <= data@.len(),
                data@.len() == given.len(),
                forall|j: int| i <= j < data@.len() ==> data@[j] == given[j],
                detectives@.len() == i,
                forall|j: int|
                    0 <= j < i ==> {
                        let d = #[trigger] detectives@[j];
                        &&& d.spec_color() == given[j].0@
                        &&& d.spec_start_station() == given[j].1
                        &&& d.history().len() == 0
                        &&& d.inv()
                        &&& d.initial_tickets() == (DetectiveTransportData {
                            taxi: INITIAL_TAXI,
                            bus: INITIAL_BUS,
                            underground: INITIAL_UNDERGROUND,
                        })
                    },
            decreases data@.len() - i,
        {
            let mut color = String::new();
            std::mem::swap(&mut color, &mut data[i].0);
            let start = data[i].1;
            detectives.push(Detective::new(start, color));
            i = i + 1;
        }
        Game::with_characters(detectives, MisterX::new(mister_x_start_station), connections, rounds)
    }

    /// A game between the given characters, none of which has moved yet.
    pub fn with_characters(
        detectives: Vec<Detective>,
        mister_x: MisterX,
        connections: Vec<Connection>,
        rounds: Vec<Round>,
    ) -> (r: Game)
        requires
            1 <= rounds@.len() <= 255,
            mister_x.inv(),
            mister_x.history().len() == 0,
            forall|i: int|
                0 <= i < detectives@.len() ==> (#[trigger] detectives@[i]).inv()
                    && detectives@[i].history().len() == 0,
        ensures
            r.inv(),
            r.spec_role() == Role::MisterX,
            r.spec_round() == 0,
            !r.spec_ended(),
            r.spec_connections() == connections@,
            r.spec_rounds() == rounds@,
            r.spec_events().len() == 0,
            r.spec_mister_x() == mister_x,
            r.spec_detectives() == detectives@,
    {
        Game {
            active_role: Role::MisterX,
            game_round: 0,
            ended: false,
            connections,
            rounds,
            detectives,
            mister_x,
            events: Vec::new(),
        }
    }

    pub fn active_role(&self) -> (r: Role)
        ensures
            r == self.spec_role(),
    {
        self.active_role
    }

    pub fn round(&self) -> (r: u8)
        ensures
            r == self.spec_round(),
    {
        self.game_round
    }

    pub fn is_ended(&self) -> (r: bool)
        ensures
            r == self.spec_ended(),
    {
        self.ended
    }

    pub fn detectives(&self) -> (r: &Vec<Detective>)
        ensures
            r@ == self.spec_detectives(),
    {
        &self.detectives
    }

    pub fn mister_x(&self) -> (r: &MisterX)
        ensures
            *r == self.spec_mister_x(),
    {
        &self.mister_x
    }

    /// Hands out the events reported so far and forgets them.
    pub fn take_events(&mut self) -> (r: Vec<GameEvent>)
        ensures
            r@ == old(self).spec_events(),
            final(self).spec_events().len() == 0,
            final(self).same_state(*old(self)),
            old(self).inv() ==> final(self).inv(),
            final(self).spec_mister_x() == old(self).spec_mister_x(),
            final(self).spec_detectives() == old(self).spec_detectives(),
    {
        let mut r: Vec<GameEvent> = Vec::new();
        std::mem::swap(&mut r, &mut self.events);
        r
    }

    /// Whether detectives see the fugitive's station now: the schedule
    /// entry of the round being played, on either side's turn.
    pub fn should_show_mister_x(&self) -> (r: bool)
        ensures
            r == self.spec_show_mister_x(),
    {
        let round = self.game_round as usize;
        if round < self.rounds.len() {
            self.rounds[round].show_mister_x
        } else {
            false
        }
    }

    /// A snapshot of the game, the fugitive's station included.
    pub fn game_state(&self) -> (r: GameState)
        requires
            self.inv(),
        ensures
            self.spec_state(r),
    {
        let mut players: Vec<DetectiveData> = Vec::new();
        let mut i: usize = 0;
        while i < self.detectives.len()
            invariant
                self.inv(),
                i <= self.detectives@.len(),
                players@.len() == i,
                forall|j: int| 0 <= j < i ==> detective_shown(self.detectives@[j], #[trigger] players@[j]),
            decreases self.detectives@.len() - i,
        {
            assert(self.spec_detectives()[i as int].inv());
            let d = &self.detectives[i];
            players.push(
                DetectiveData {
                    color: d.color_string(),
                    station_id: d.station_id(),
                    available_transport: d.tickets(),
                },
            );
            i = i + 1;
        }
        GameState {
            players,
            mister_x: MisterXData {
                station_id: Some(self.mister_x.station_id()),
                abilities: self.mister_x.abilities(),
                moves: self.mister_x.action_types(),
            },
            round: self.game_round,
        }
    }

    fn send_game_state(&mut self, show: bool)
        requires
            old(self).inv(),
        ensures
            final(self).same_state(*old(self)),
            final(self).spec_mister_x() == old(self).spec_mister_x(),
            final(self).spec_detectives() == old(self).spec_detectives(),
            final(self).spec_events().len() == old(self).spec_events().len() + 1,
            final(self).spec_events().drop_last() == old(self).spec_events(),
            final(self).is_state_event(final(self).spec_events().last(), show),
    {
        let state = self.game_state();
        self.events.push(GameEvent::GameState(state, show));
        assert(self.events@.drop_last() =~= old(self).events@);
    }

    /// Starts the game: reports its start and opens the fugitive's turn.
    pub fn start(&mut self)
        requires
            old(self).inv(),
            !old(self).spec_ended(),
        ensures
            final(self).inv(),
            final(self).spec_role() == Role::MisterX,
            final(self).spec_round() == old(self).spec_round(),
            final(self).spec_ended() == old(self).spec_ended(),
            final(self).spec_connections() == old(self).spec_connections(),
            final(self).spec_rounds() == old(self).spec_rounds(),
            final(self).spec_mister_x() == old(self).spec_mister_x(),
            final(self).spec_detectives() == old(self).spec_detectives(),
            final(self).spec_events().len() == old(self).spec_events().len() + 3,
            final(self).spec_events().subrange(0, old(self).spec_events().len() as int)
                == old(self).spec_events(),
            final(self).spec_events()[old(self).spec_events().len() as int]
                == GameEvent::GameStarted,
            final(self).spec_events()[old(self).spec_events().len() as int + 1] == GameEvent::RoundStarted(
                Role::MisterX,
            ),
            final(self).is_state_event(
                final(self).spec_events()[old(self).spec_events().len() as int + 2],
                final(self).spec_show_mister_x(),
            ),
    {
        self.events.push(GameEvent::GameStarted);
        assert(self.spec_detectives() == old(self).spec_detectives());
        self.start_move(Role::MisterX);
        let ghost n = old(self).events@.len();
        assert(self.events@[n as int] == self.events@.subrange(0, n as int + 1)[n as int]);
        assert(self.events@.subrange(0, old(self).events@.len() as int) =~= old(self).events@);
    }

    /// Gives the turn to `role`: reports it, then a snapshot.
    pub fn start_move(&mut self, role: Role)
        requires
            old(self).inv(),
        ensures
            final(self).inv(),
            final(self).spec_role() == role,
            final(self).spec_round() == old(self).spec_round(),
            final(self).spec_ended() == old(self).spec_ended(),
            final(self).spec_connections() == old(self).spec_connections(),
            final(self).spec_rounds() == old(self).spec_rounds(),
            final(self).spec_mister_x() == old(self).spec_mister_x(),
            final(self).spec_detectives() == old(self).spec_detectives(),
            final(self).spec_events().len() == old(self).spec_events().len() + 2,
            final(self).spec_events().subrange(0, old(self).spec_events().len() as int)
                == old(self).spec_events(),
            final(self).spec_events()[old(self).spec_events().len() as int]
                == GameEvent::RoundStarted(role),
            final(self).is_state_event(
                final(self).spec_events()[old(self).spec_events().len() as int + 1],
                final(self).spec_show_mister_x(),
            ),
    {
        self.active_role = role;
        self.events.push(GameEvent::RoundStarted(role));
        assert(self.spec_detectives() == old(self).spec_detectives());
        let show = self.should_show_mister_x();
        self.send_game_state(show);
        let ghost n = old(self).events@.len();
        assert(self.events@[n as int] == self.events@.drop_last()[n as int]);
        assert(self.events@.subrange(0, old(self).events@.len() as int) =~= old(self).events@);
    }

    /// The fugitive's turn for the current round: one move, or two as a
    /// double move. A turn already made this round is replaced. Refused,
    /// with nothing changed, unless each move travels an edge of its
    /// transport (a hidden move: any edge), the hidden moves are left, and
    /// for two moves a double move is left.
    pub fn move_mister_x(&mut self, moves: Vec<(u8, MisterXActionType)>) -> (r: Result<
        (),
        GameError,
    >)
        requires
            old(self).inv(),
            !old(self).spec_ended(),
        ensures
            old(self).spec_moved_mister_x(*final(self), moves@, r),
            final(self).spec_events() == old(self).spec_events(),
    {
        if moves.len() == 0 || moves.len() > 2 {
            return Err(GameError::InvalidMove);
        }
        let round = self.game_round as usize;
        let removed = self.mister_x.trim_actions(round);
        let ghost h = self.mister_x.history();
        let step = self.check_mister_x_step(&moves);
        match step {
            Some(a) => {
                self.mister_x.add_action(a);
                assert(self.spec_detectives() == old(self).spec_detectives());
                Ok(())
            },
            None => {
                match removed {
                    Some(a) => {
                        proof {
                            assert(h.push(a) =~= old(self).mister_x.history());
                            lemma_counts_push(h, a);
                        }
                        self.mister_x.add_action(a);
                    },
                    None => {},
                }
                assert(self.spec_detectives() == old(self).spec_detectives());
                Err(GameError::InvalidMove)
            },
        }
    }

    /// Checks `moves` against the fugitive's history as it stands.
    fn check_mister_x_step(&self, moves: &Vec<(u8, MisterXActionType)>) -> (r: Option<
        mister_x::Action,
    >)
        requires
            self.spec_mister_x().inv(),
            self.spec_mister_x().history().len() <= self.spec_round(),
            1 <= moves@.len() <= 2,
        ensures
            r == self.spec_x_step(moves@),
            r matches Some(a) ==> self.spec_mister_x().allows(a),
    {
        let from = self.mister_x.station_id();
        if moves.len() == 1 {
            let m1 = MoveData { station: moves[0].0, action_type: moves[0].1 };
            if !self.mister_x.can_do_action(&m1.action_type) {
                return None;
            }
            if !has_connection(self.connections.as_slice(), from, m1.station, &m1.action_type) {
                return None;
            }
            Some(mister_x::Action::Single(m1))
        } else {
            let m1 = MoveData { station: moves[0].0, action_type: moves[0].1 };
            let m2 = MoveData { station: moves[1].0, action_type: moves[1].1 };
            if !self.mister_x.can_do_action(&m1.action_type) || !self.mister_x.can_do_action(
                &m2.action_type,
            ) {
                return None;
            }
            let hidden_left = self.mister_x.hidden();
            if m1.action_type == MisterXActionType::Hidden && m2.action_type
                == MisterXActionType::Hidden && hidden_left < 2 {
                return None;
            }
            if self.mister_x.double_moves() == 0 {
                return None;
            }
            if !has_connection(self.connections.as_slice(), from, m1.station, &m1.action_type)
                || !has_connection(
                self.connections.as_slice(),
                m1.station,
                m2.station,
                &m2.action_type,
            ) {
                return None;
            }
            Some(mister_x::Action::Double(m1, m2))
        }
    }

    /// A detective's move for the current round, the detective found by
    /// `color`. A move already made this round is replaced. Refused, with
    /// nothing changed, if no detective has that color, no ticket for the
    /// transport is left, or no edge of that transport joins the stations.
    /// An accepted move reports a snapshot.
    pub fn move_detective(
        &mut self,
        color: String,
        station_id: u8,
        transport_type: DetectiveActionType,
    ) -> (r: Result<(), GameError>)
        requires
            old(self).inv(),
            !old(self).spec_ended(),
        ensures
            old(self).spec_moved_detective(
                *final(self),
                color@,
                station_id,
                transport_type,
                r,
            ),
            r is Ok ==> final(self).spec_events().len() == old(self).spec_events().len() + 1
                && final(self).spec_events().drop_last() == old(self).spec_events()
                && final(self).is_state_event(
                final(self).spec_events().last(),
                final(self).spec_show_mister_x(),
            ),
            r is Err ==> final(self).spec_events() == old(self).spec_events(),
    {
        let mut k: usize = 0;
        while k < self.detectives.len() && !self.detectives[k].has_color(&color)
            invariant
                k <= self.detectives@.len(),
                forall|j: int|
                    0 <= j < k ==> (#[trigger] self.spec_detectives()[j]).spec_color() != color@,
            decreases self.detectives@.len() - k,
        {
            k = k + 1;
        }
        if k == self.detectives.len() {
            return Err(GameError::InvalidMove);
        }
        assert(old(self).first_with_color(color@, k as int));
        let round = self.game_round as usize;
        assert(self.spec_detectives()[k as int].inv());
        let removed = self.detectives[k].trim_actions(round);
        let ghost h = self.detectives@[k as int].history();
        let ok = self.detectives[k].can_do_action(&transport_type) && has_connection(
            self.connections.as_slice(),
            self.detectives[k].station_id(),
            station_id,
            &transport_type,
        );
        if ok {
            self.detectives[k].add_action(
                detective::Action { station: station_id, action_type: transport_type },
            );
            assert forall|j: int| 0 <= j < self.detectives@.len() implies (
            #[trigger] self.detectives@[j]).inv() && self.detectives@[j].history().len()
                <= self.game_round + 1 by {
                if j != k {
                    assert(self.detectives@[j] == old(self).detectives@[j]);
                }
            }
            let show = self.should_show_mister_x();
            self.send_game_state(show);
            Ok(())
        } else {
            match removed {
                Some(a) => {
                    proof {
                        assert(h.push(a) =~= old(self).detectives@[k as int].history());
                        lemma_count_type_push(h, a, a.action_type);
                    }
                    self.detectives[k].add_action(a);
                },
                None => {},
            }
            assert forall|j: int| 0 <= j < self.detectives@.len() implies same_detective(
                #[trigger] self.detectives@[j],
                old(self).detectives@[j],
            ) by {
                if j != k {
                    assert(self.detectives@[j] == old(self).detectives@[j]);
                }
            }
            Err(GameError::InvalidMove)
        }
    }

    fn captured(&self) -> (r: bool)
        requires
            self.inv(),
        ensures
            r == self.spec_captured(),
    {
        let x = self.mister_x.station_id();
        let mut i: usize = 0;
        while i < self.detectives.len()
            invariant
                self.inv(),
                x == self.mister_x.spec_station_id(),
                i <= self.detectives@.len(),
                forall|j: int|
                    0 <= j < i ==> (#[trigger] self.spec_detectives()[j]).spec_station_id() != x,
            decreases self.detectives@.len() - i,
        {
            assert(self.spec_detectives()[i as int].inv());
            if self.detectives[i].station_id() == x {
                assert(self.spec_detectives()[i as int].spec_station_id() == x);
                return true;
            }
            i = i + 1;
        }
        false
    }

    fn all_moved(&self) -> (r: bool)
        requires
            self.inv(),
        ensures
            r == self.spec_all_moved(),
    {
        match self.active_role {
            Role::MisterX => self.mister_x.number_of_actions() > self.game_round as usize,
            Role::Detective => {
                let mut i: usize = 0;
                while i < self.detectives.len()
                    invariant
                        self.inv(),
                        self.active_role == Role::Detective,
                        i <= self.detectives@.len(),
                        forall|j: int|
                            0 <= j < i ==> {
                                let d = #[trigger] self.spec_detectives()[j];
                                d.history().len() > self.game_round || spec_detective_moves(
                                    self.connections@,
                                    d.spec_station_id(),
                                    d.spec_tickets(),
                                ).len() == 0
                            },
                    decreases self.detectives@.len() - i,
                {
                    assert(self.spec_detectives()[i as int].inv());
                    let d = &self.detectives[i];
                    if d.number_of_actions() <= self.game_round as usize {
                        let moves = all_valid_detective_moves(
                            self.connections.as_slice(),
                            d.station_id(),
                            &d.tickets(),
                        );
                        if moves.len() > 0 {
                            assert(!({
                                let d = self.spec_detectives()[i as int];
                                d.history().len() > self.game_round || spec_detective_moves(
                                    self.connections@,
                                    d.spec_station_id(),
                                    d.spec_tickets(),
                                ).len() == 0
                            }));
                            return false;
                        }
                    }
                    i = i + 1;
                }
                true
            },
        }
    }

    /// Ends the current turn. Refused with `NotAllMoved`, nothing changed,
    /// unless the side to move has moved. Otherwise reports the end of the
    /// move; then the game ends if a detective stands on the fugitive's
    /// station (detectives win) or the last round is over (the fugitive
    /// wins), and else the other side gets the turn, the round advancing
    /// after the detectives. Returns whether the game ended.
    pub fn end_move(&mut self) -> (r: Result<bool, GameError>)
        requires
            old(self).inv(),
            !old(self).spec_ended(),
        ensures
            old(self).spec_ended_move(*final(self), r),
            r is Err ==> final(self).spec_events() == old(self).spec_events(),
            r is Ok ==> {
                let n = old(self).spec_events().len();
                &&& final(self).spec_events().len() == n + 3
                &&& final(self).spec_events().subrange(0, n as int) == old(self).spec_events()
                &&& final(self).spec_events()[n as int] == GameEvent::MoveEnded
                &&& final(self).spec_ended() ==> final(self).is_ended_event(
                    final(self).spec_events()[n as int + 1],
                    old(self).spec_winner(),
                ) && final(self).is_state_event(final(self).spec_events()[n as int + 2], true)
                &&& !final(self).spec_ended() ==> final(self).spec_events()[n as int + 1]
                    == GameEvent::RoundStarted(final(self).spec_role())
                    && final(self).is_state_event(
                    final(self).spec_events()[n as int + 2],
                    final(self).spec_show_mister_x(),
                )
            },
    {
        if !self.all_moved() {
            return Err(GameError::NotAllMoved);
        }
        self.events.push(GameEvent::MoveEnded);
        assert(self.spec_detectives() == old(self).spec_detectives());
        let ghost n = old(self).events@.len();
        let ghost with_end = self.events@;
        assert(with_end[n as int] == GameEvent::MoveEnded);
        if self.captured() {
            self.end_game(Role::Detective);
            assert(self.events@.subrange(0, n as int + 1) == with_end);
            assert(self.events@[n as int] == self.events@.subrange(0, n as int + 1)[n as int]);
            assert(self.events@.subrange(0, n as int) =~= old(self).events@);
            return Ok(true);
        }
        match self.active_role {
            Role::Detective => {
                if self.game_round as usize + 1 == self.rounds.len() {
                    self.ended = true;
                    self.game_round = self.game_round + 1;
                    assert(self.spec_detectives() == old(self).spec_detectives());
                    self.end_game(Role::MisterX);
                    assert(self.events@.subrange(0, n as int + 1) == with_end);
                    assert(self.events@[n as int] == self.events@.subrange(0, n as int + 1)[n as int]);
                    assert(self.events@.subrange(0, n as int) =~= old(self).events@);
                    return Ok(true);
                }
                self.game_round = self.game_round + 1;
                assert(self.spec_detectives() == old(self).spec_detectives());
                self.start_move(Role::MisterX);
            },
            Role::MisterX => {
                self.start_move(Role::Detective);
            },
        }
        assert(self.events@.subrange(0, n as int) =~= old(self).events@);
        Ok(false)
    }

    /// Ends the game won by `winner`: reports the replay, then a snapshot
    /// that shows the fugitive to everyone.
    pub fn end_game(&mut self, winner: Role)
        requires
            old(self).inv(),
        ensures
            final(self).inv(),
            final(self).spec_ended(),
            final(self).spec_role() == old(self).spec_role(),
            final(self).spec_round() == old(self).spec_round(),
            final(self).spec_connections() == old(self).spec_connections(),
            final(self).spec_rounds() == old(self).spec_rounds(),
            final(self).spec_mister_x() == old(self).spec_mister_x(),
            final(self).spec_detectives() == old(self).spec_detectives(),
            final(self).spec_events().len() == old(self).spec_events().len() + 2,
            final(self).spec_events().subrange(0, old(self).spec_events().len() as int)
                == old(self).spec_events(),
            final(self).is_ended_event(
                final(self).spec_events()[old(self).spec_events().len() as int],
                winner,
            ),
            final(self).is_state_event(
                final(self).spec_events()[old(self).spec_events().len() as int + 1],
                true,
            ),
    {
        self.ended = true;
        assert(self.spec_detectives() == old(self).spec_detectives());
        let replay = self.build_replay(winner);
        self.events.push(GameEvent::GameEnded(replay));
        assert(self.spec_detectives() == old(self).spec_detectives());
        self.send_game_state(true);
        let ghost n = old(self).events@.len();
        assert(self.events@[n as int] == self.events@.drop_last()[n as int]);
        assert(self.events@.subrange(0, old(self).events@.len() as int) =~= old(self).events@);
    }

    fn build_replay(&self, winner: Role) -> (r: Replay)
        requires
            self.inv(),
        ensures
            self.spec_replay(r, winner),
    {
        let dets = &self.detectives;
        let x_actions = self.mister_x.actions();
        let ghost h = x_actions@;
        let ghost ds = dets@;
        let mut max_actions: usize = x_actions.len();
        let mut i: usize = 0;
        while i < dets.len()
            invariant
                i <= ds.len(),
                ds == dets@,
                max_actions == longest(ds.subrange(0, i as int), h.len()),
            decreases ds.len() - i,
        {
            assert(ds.subrange(0, i as int + 1).drop_last() =~= ds.subrange(0, i as int));
            let len = dets[i].actions().len();
            if len > max_actions {
                max_actions = len;
            }
            i = i + 1;
        }
        assert(ds.subrange(0, i as int) =~= ds);
        let mut actions: Vec<replay::Action> = Vec::new();
        let mut round: usize = 0;
        while round < max_actions
            invariant
                round <= max_actions,
                ds == dets@,
                h == x_actions@,
                max_actions == longest(ds, h.len()),
                views(actions@) == replay_entries(ds, h, round as int),
            decreases max_actions - round,
        {
            let ghost before = views(actions@);
            if round < x_actions.len() {
                match x_actions[round] {
                    mister_x::Action::Single(m) => {
                        actions.push(
                            replay::Action::MisterX { station: m.station, action_type: m.action_type },
                        );
                    },
                    mister_x::Action::Double(m1, m2) => {
                        actions.push(
                            replay::Action::MisterX {
                                station: m1.station,
                                action_type: m1.action_type,
                            },
                        );
                        actions.push(
                            replay::Action::MisterX {
                                station: m2.station,
                                action_type: m2.action_type,
                            },
                        );
                    },
                }
            }
            assert(views(actions@) =~= before + x_entries(h, round as int));
            let ghost mid = views(actions@);
            let mut j: usize = 0;
            while j < dets.len()
                invariant
                    j <= ds.len(),
                    ds == dets@,
                    round < max_actions,
                    views(actions@) == mid + detective_entries(ds.subrange(0, j as int), round as int),
                decreases ds.len() - j,
            {
                assert(ds.subrange(0, j as int + 1).drop_last() =~= ds.subrange(0, j as int));
                assert(ds.subrange(0, j as int + 1).last() == ds[j as int]);
                let d = &dets[j];
                let hist = d.actions();
                if round < hist.len() {
                    let a = hist[round];
                    let entry = replay::Action::Detective {
                        color: d.color_string(),
                        station: a.station,
                        action_type: a.action_type,
                    };
                    proof {
                        assert(views(actions@.push(entry)) =~= views(actions@).push(entry@));
                    }
                    actions.push(entry);
                }
                j = j + 1;
                assert(views(actions@) =~= mid + detective_entries(
                    ds.subrange(0, j as int),
                    round as int,
                ));
            }
            assert(ds.subrange(0, j as int) =~= ds);
            round = round + 1;
        }
        let mut starts: Vec<(String, u8)> = Vec::new();
        let mut k: usize = 0;
        while k < dets.len()
            invariant
                k <= ds.len(),
                ds == dets@,
                starts@.len() == k,
                forall|j: int|
                    0 <= j < k ==> (#[trigger] starts@[j]).0@ == ds[j].spec_color() && starts@[j].1
                        == ds[j].spec_start_station(),
            decreases ds.len() - k,
        {
            starts.push((dets[k].color_string(), dets[k].start_station()));
            k = k + 1;
        }
        Replay {
            mister_x_starting_station: self.mister_x.start_station(),
            detective_starting_stations: starts,
            actions,
            winner,
        }
    }
}

/// The kind of edge a detective's transport travels.
pub open spec fn detective_mode(t: DetectiveActionType) -> StationType {
    match t {
        DetectiveActionType::Taxi => StationType::Taxi,
        DetectiveActionType::Bus => StationType::Bus,
        DetectiveActionType::Underground => StationType::Underground,
    }
}

/// The kind of edge a plain transport of the fugitive travels.
pub open spec fn mister_x_mode(t: MisterXActionType) -> StationType {
    match t {
        MisterXActionType::Taxi => StationType::Taxi,
        MisterXActionType::Bus => StationType::Bus,
        _ => StationType::Underground,
    }
}

/// Some edge between `from` and `to` has the kind `mode`.
pub open spec fn edge_of_mode(conns: Seq<Connection>, from: u8, to: u8, mode: StationType) -> bool {
    exists|i: int| 0 <= i < conns.len() && links(#[trigger] conns[i], from, to) && conns[i].mode == mode
}

/// Some edge joins `from` and `to`.
pub open spec fn any_edge(conns: Seq<Connection>, from: u8, to: u8) -> bool {
    exists|i: int| 0 <= i < conns.len() && links(#[trigger] conns[i], from, to)
}

/// An accepted detective move travels an edge of its own transport, from
/// where the detective stood, with a ticket for it left.
pub proof fn lemma_accepted_detective_move_has_edge(
    g: Game,
    new: Game,
    color: Seq<char>,
    station: u8,
    t: DetectiveActionType,
)
    requires
        g.inv(),
        g.spec_moved_detective(new, color, station, t, Ok(())),
    ensures
        exists|k: int|
            #[trigger] g.first_with_color(color, k) && {
                let d = g.spec_detectives()[k];
                let h = trimmed(d.history(), g.spec_round() as int);
                &&& edge_of_mode(
                    g.spec_connections(),
                    detective_station_after(d.spec_start_station(), h),
                    station,
                    detective_mode(t),
                )
                &&& ticket_of(d.initial_tickets(), t) - count_type(h, t) > 0
            },
{
    if forall|k: int| !g.first_with_color(color, k) {
        assert(false);
    }
    let k = choose|k: int| g.first_with_color(color, k);
    assert(g.spec_detective_step_ok(k, station, t));
    let d = g.spec_detectives()[k];
    let h = trimmed(d.history(), g.spec_round() as int);
    let from = detective_station_after(d.spec_start_station(), h);
    let i = choose|i: int|
        0 <= i < g.spec_connections().len() && links(#[trigger] g.spec_connections()[i], from, station)
            && t.spec_matches(g.spec_connections()[i].mode);
    assert(g.spec_connections()[i].mode == detective_mode(t));
}

/// An accepted move of the fugitive: each single move travels an edge of
/// its own transport, or, hidden, any edge; its hidden moves were left.
pub proof fn lemma_accepted_mister_x_move_has_edge(
    g: Game,
    new: Game,
    moves: Seq<(u8, MisterXActionType)>,
)
    requires
        g.inv(),
        g.spec_moved_mister_x(new, moves, Ok(())),
    ensures
        ({
            let x = g.spec_mister_x();
            let h = trimmed(x.history(), g.spec_round() as int);
            let from = x_station_after(x.spec_start_station(), h);
            let conns = g.spec_connections();
            let hidden_left = x.initial_abilities().hidden - count_hidden(h);
            &&& 1 <= moves.len() <= 2
            &&& forall|j: int|
                0 <= j < moves.len() ==> {
                    let start = if j == 0 {
                        from
                    } else {
                        moves[0].0
                    };
                    &&& (#[trigger] moves[j]).1 != MisterXActionType::Hidden ==> edge_of_mode(
                        conns,
                        start,
                        moves[j].0,
                        mister_x_mode(moves[j].1),
                    )
                    &&& moves[j].1 == MisterXActionType::Hidden ==> any_edge(conns, start, moves[j].0)
                        && hidden_left > 0
                }
        }),
{
    let x = g.spec_mister_x();
    let h = trimmed(x.history(), g.spec_round() as int);
    let from = x_station_after(x.spec_start_station(), h);
    let conns = g.spec_connections();
    assert(g.spec_x_step(moves) is Some);
    assert forall|j: int| 0 <= j < moves.len() implies {
        let start = if j == 0 {
            from
        } else {
            moves[0].0
        };
        &&& (#[trigger] moves[j]).1 != MisterXActionType::Hidden ==> edge_of_mode(
            conns,
            start,
            moves[j].0,
            mister_x_mode(moves[j].1),
        )
        &&& moves[j].1 == MisterXActionType::Hidden ==> any_edge(conns, start, moves[j].0)
            && x.initial_abilities().hidden - count_hidden(h) > 0
    } by {
        let start = if j == 0 {
            from
        } else {
            moves[0].0
        };
        assert(spec_has_connection(conns, start, moves[j].0, moves[j].1));
        let i = choose|i: int|
            0 <= i < conns.len() && links(#[trigger] conns[i], start, moves[j].0)
                && moves[j].1.spec_matches(conns[i].mode);
        assert(links(conns[i], start, moves[j].0));
    }
}

/// The counts shown in a snapshot are what each side started with less
/// what its history used, and none is below zero.
pub proof fn lemma_counts_follow_history(g: Game, s: GameState)
    requires
        g.inv(),
        g.spec_state(s),
    ensures
        forall|i: int|
            0 <= i < s.players@.len() ==> {
                let d = g.spec_detectives()[i];
                let t = (#[trigger] s.players@[i]).available_transport;
                &&& t.taxi == d.initial_tickets().taxi - count_type(
                    d.history(),
                    DetectiveActionType::Taxi,
                ) >= 0
                &&& t.bus == d.initial_tickets().bus - count_type(d.history(), DetectiveActionType::Bus)
                    >= 0
                &&& t.underground == d.initial_tickets().underground - count_type(
                    d.history(),
                    DetectiveActionType::Underground,
                ) >= 0
            },
        s.mister_x.abilities.hidden == g.spec_mister_x().initial_abilities().hidden - count_hidden(
            g.spec_mister_x().history(),
        ) >= 0,
        s.mister_x.abilities.double_move == g.spec_mister_x().initial_abilities().double_move
            - count_double(g.spec_mister_x().history()) >= 0,
{
    assert forall|i: int| 0 <= i < s.players@.len() implies {
        let d = g.spec_detectives()[i];
        let t = (#[trigger] s.players@[i]).available_transport;
        &&& t.taxi == d.initial_tickets().taxi - count_type(d.history(), DetectiveActionType::Taxi)
            >= 0
        &&& t.bus == d.initial_tickets().bus - count_type(d.history(), DetectiveActionType::Bus) >= 0
        &&& t.underground == d.initial_tickets().underground - count_type(
            d.history(),
            DetectiveActionType::Underground,
        ) >= 0
    } by {
        assert(g.spec_detectives()[i].inv());
        assert(detective_shown(g.spec_detectives()[i], s.players@[i]));
    }
}

/// Two moves are refused when no double move is left.
pub proof fn lemma_double_move_needs_token(g: Game, moves: Seq<(u8, MisterXActionType)>)
    requires
        moves.len() == 2,
        ({
            let x = g.spec_mister_x();
            x.initial_abilities().double_move - count_double(
                trimmed(x.history(), g.spec_round() as int),
            ) <= 0
        }),
    ensures
        g.spec_x_step(moves) is None,
{
}

/// A hidden move is refused when no hidden move is left.
pub proof fn lemma_hidden_move_needs_token(g: Game, moves: Seq<(u8, MisterXActionType)>, j: int)
    requires
        0 <= j < moves.len(),
        moves[j].1 == MisterXActionType::Hidden,
        ({
            let x = g.spec_mister_x();
            x.initial_abilities().hidden - count_hidden(trimmed(x.history(), g.spec_round() as int))
                <= 0
        }),
    ensures
        g.spec_x_step(moves) is None,
{
}

/// When the detectives end the last round without a capture, the game
/// ends and the fugitive wins.
pub proof fn lemma_fugitive_wins_after_last_round(g: Game)
    requires
        g.spec_role() == Role::Detective,
        g.spec_round() + 1 == g.spec_rounds().len(),
        !g.spec_captured(),
    ensures
        g.spec_move_ends_game(),
        g.spec_winner() == Role::MisterX,
{
}

/// A detective on the fugitive's station ends the game at the next end of
/// a turn, the detectives winning.
pub proof fn lemma_capture_ends_game(g: Game)
    requires
        g.spec_captured(),
    ensures
        g.spec_move_ends_game(),
        g.spec_winner() == Role::Detective,
{
}

/// Where the fugitive stands after the replay entries `a`, starting at
/// `start`: the station of its last entry.
pub open spec fn replayed_x_station(a: Seq<ActionView>, start: u8) -> u8
    decreases a.len(),
{
    if a.len() == 0 {
        start
    } else {
        match a.last() {
            ActionView::MisterX(station, _) => station,
            _ => replayed_x_station(a.drop_last(), start),
        }
    }
}

/// Where the detective of `color` stands after the replay entries `a`,
/// starting at `start`: the station of the last entry of that color.
pub open spec fn replayed_detective_station(a: Seq<ActionView>, color: Seq<char>, start: u8) -> u8
    decreases a.len(),
{
    if a.len() == 0 {
        start
    } else {
        match a.last() {
            ActionView::Detective(c, station, _) => if c == color {
                station
            } else {
                replayed_detective_station(a.drop_last(), color, start)
            },
            _ => replayed_detective_station(a.drop_last(), color, start),
        }
    }
}

proof fn lemma_replayed_concat(a: Seq<ActionView>, b: Seq<ActionView>, color: Seq<char>, s: u8, t: u8)
    ensures
        replayed_x_station(a + b, s) == replayed_x_station(b, replayed_x_station(a, s)),
        replayed_detective_station(a + b, color, t) == replayed_detective_station(
            b,
            color,
            replayed_detective_station(a, color, t),
        ),
    decreases b.len(),
{
    if b.len() == 0 {
        assert(a + b =~= a);
    } else {
        lemma_replayed_concat(a, b.drop_last(), color, s, t);
        assert((a + b).drop_last() =~= a + b.drop_last());
        assert((a + b).last() == b.last());
    }
}

proof fn lemma_longest_bounds(dets: Seq<Detective>, floor: nat, k: int)
    requires
        0 <= k < dets.len(),
    ensures
        longest(dets, floor) >= floor,
        longest(dets, floor) >= dets[k].history().len(),
    decreases dets.len(),
{
    lemma_longest_floor(dets, floor);
    if k < dets.len() - 1 {
        lemma_longest_bounds(dets.drop_last(), floor, k);
    }
}

proof fn lemma_longest_floor(dets: Seq<Detective>, floor: nat)
    ensures
        longest(dets, floor) >= floor,
    decreases dets.len(),
{
    if dets.len() > 0 {
        lemma_longest_floor(dets.drop_last(), floor);
    }
}

proof fn lemma_detective_entries_no_x(dets: Seq<Detective>, i: int, s: u8)
    ensures
        replayed_x_station(detective_entries(dets, i), s) == s,
    decreases dets.len(),
{
    if dets.len() > 0 {
        lemma_detective_entries_no_x(dets.drop_last(), i, s);
        let d = dets.last();
        let tail: Seq<ActionView> = if 0 <= i < d.history().len() {
            seq![
                ActionView::Detective(
                    d.spec_color(),
                    d.history()[i].station,
                    d.history()[i].action_type,
                ),
            ]
        } else {
            seq![]
        };
        assert(detective_entries(dets, i) == detective_entries(dets.drop_last(), i) + tail);
        lemma_replayed_concat(detective_entries(dets.drop_last(), i), tail, seq![], s, 0);
        if tail.len() == 1 {
            assert(tail.drop_last() =~= Seq::<ActionView>::empty());
            reveal_with_fuel(replayed_x_station, 2);
            assert(replayed_x_station(tail, s) == s);
        } else {
            assert(replayed_x_station(tail, s) == s);
        }
    }
}

proof fn lemma_x_entries_station(h: Seq<mister_x::Action>, i: int, s: u8, color: Seq<char>, t: u8)
    ensures
        replayed_x_station(x_entries(h, i), s) == if 0 <= i < h.len() {
            end_station(h[i])
        } else {
            s
        },
        replayed_detective_station(x_entries(h, i), color, t) == t,
{
    let e = x_entries(h, i);
    reveal_with_fuel(replayed_detective_station, 3);
    if e.len() == 2 {
        assert(e.drop_last().drop_last() =~= Seq::<ActionView>::empty());
        assert(replayed_detective_station(e.drop_last(), color, t) == t);
    } else if e.len() == 1 {
        assert(e.drop_last() =~= Seq::<ActionView>::empty());
    }
}

/// Among the first `m` detectives only detective `k` has `color`; the
/// entries of round `i` then move only it.
proof fn lemma_detective_entries_station(dets: Seq<Detective>, m: int, k: int, i: int, t: u8)
    requires
        0 <= m <= dets.len(),
        0 <= k < dets.len(),
        0 <= i,
        forall|j: int| 0 <= j < dets.len() && j != k ==> dets[j].spec_color() != dets[k].spec_color(),
    ensures
        replayed_detective_station(
            detective_entries(dets.subrange(0, m), i),
            dets[k].spec_color(),
            t,
        ) == if k < m && i < dets[k].history().len() {
            dets[k].history()[i].station
        } else {
            t
        },
    decreases m,
{
    let color = dets[k].spec_color();
    if m > 0 {
        lemma_detective_entries_station(dets, m - 1, k, i, t);
        let p = dets.subrange(0, m);
        assert(p.drop_last() =~= dets.subrange(0, m - 1));
        let d = p.last();
        assert(d == dets[m - 1]);
        let tail: Seq<ActionView> = if 0 <= i < d.history().len() {
            seq![
                ActionView::Detective(
                    d.spec_color(),
                    d.history()[i].station,
                    d.history()[i].action_type,
                ),
            ]
        } else {
            seq![]
        };
        assert(detective_entries(p, i) == detective_entries(dets.subrange(0, m - 1), i) + tail);
        lemma_replayed_concat(detective_entries(dets.subrange(0, m - 1), i), tail, color, 0, t);
        let t2 = replayed_detective_station(
            detective_entries(dets.subrange(0, m - 1), i),
            color,
            t,
        );
        if tail.len() == 1 {
            assert(tail.drop_last() =~= Seq::<ActionView>::empty());
            reveal_with_fuel(replayed_detective_station, 2);
            if m - 1 == k {
                assert(replayed_detective_station(tail, color, t2) == d.history()[i].station);
            } else {
                assert(d.spec_color() != color);
                assert(replayed_detective_station(tail, color, t2) == t2);
            }
        } else {
            assert(replayed_detective_station(tail, color, t2) == t2);
        }
    } else {
        assert(dets.subrange(0, 0) =~= Seq::<Detective>::empty());
    }
}

proof fn lemma_replay_prefix_x(g: Game, n: int)
    requires
        0 <= n,
    ensures
        ({
            let x = g.spec_mister_x();
            let h = x.history();
            replayed_x_station(replay_entries(g.spec_detectives(), h, n), x.spec_start_station())
                == x_station_after(
                x.spec_start_station(),
                h.subrange(0, if n < h.len() { n } else { h.len() as int }),
            )
        }),
    decreases n,
{
    let dets = g.spec_detectives();
    let x = g.spec_mister_x();
    let h = x.history();
    if n > 0 {
        lemma_replay_prefix_x(g, n - 1);
        let prev = replay_entries(dets, h, n - 1);
        let xe = x_entries(h, n - 1);
        let de = detective_entries(dets, n - 1);
        assert(replay_entries(dets, h, n) == prev + xe + de);
        lemma_replayed_concat(prev + xe, de, seq![], x.spec_start_station(), 0);
        lemma_replayed_concat(prev, xe, seq![], x.spec_start_station(), 0);
        lemma_x_entries_station(h, n - 1, replayed_x_station(prev, x.spec_start_station()), seq![], 0);
        lemma_detective_entries_no_x(dets, n - 1, replayed_x_station(prev + xe, x.spec_start_station()));
        if n <= h.len() {
            assert(h.subrange(0, n).drop_last() =~= h.subrange(0, n - 1));
        }
    } else {
        assert(h.subrange(0, 0) =~= Seq::<mister_x::Action>::empty());
    }
}

proof fn lemma_replay_prefix_detective(g: Game, n: int, k: int)
    requires
        g.inv(),
        0 <= n,
        0 <= k < g.spec_detectives().len(),
        forall|j: int|
            0 <= j < g.spec_detectives().len() && j != k ==> g.spec_detectives()[j].spec_color()
                != g.spec_detectives()[k].spec_color(),
    ensures
        ({
            let dets = g.spec_detectives();
            let x = g.spec_mister_x();
            let h = x.history();
            let a = replay_entries(dets, h, n);
            let d = dets[k];
            replayed_detective_station(a, d.spec_color(), d.spec_start_station())
                == detective_station_after(
                d.spec_start_station(),
                d.history().subrange(
                    0,
                    if n < d.history().len() {
                        n
                    } else {
                        d.history().len() as int
                    },
                ),
            )
        }),
    decreases n,
{
    let dets = g.spec_detectives();
    let x = g.spec_mister_x();
    let h = x.history();
    let d = dets[k];
    let color = d.spec_color();
    if n > 0 {
        lemma_replay_prefix_detective(g, n - 1, k);
        let prev = replay_entries(dets, h, n - 1);
        let xe = x_entries(h, n - 1);
        let de = detective_entries(dets, n - 1);
        assert(replay_entries(dets, h, n) == prev + xe + de);
        lemma_replayed_concat(prev + xe, de, color, x.spec_start_station(), d.spec_start_station());
        lemma_replayed_concat(prev, xe, color, x.spec_start_station(), d.spec_start_station());
        lemma_x_entries_station(
            h,
            n - 1,
            replayed_x_station(prev, x.spec_start_station()),
            color,
            replayed_detective_station(prev, color, d.spec_start_station()),
        );
        lemma_detective_entries_no_x(
            dets,
            n - 1,
            replayed_x_station(prev + xe, x.spec_start_station()),
        );
        assert(dets.subrange(0, dets.len() as int) =~= dets);
        lemma_detective_entries_station(
            dets,
            dets.len() as int,
            k,
            n - 1,
            replayed_detective_station(prev + xe, color, d.spec_start_station()),
        );
        if n <= h.len() {
            assert(h.subrange(0, n).drop_last() =~= h.subrange(0, n - 1));
        }
        if n <= d.history().len() {
            assert(d.history().subrange(0, n).drop_last() =~= d.history().subrange(0, n - 1));
        }
    } else {
        assert(h.subrange(0, 0) =~= Seq::<mister_x::Action>::empty());
        assert(d.history().subrange(0, 0) =~= Seq::<detective::Action>::empty());
    }
}

/// A replay puts every piece back where the game left it: played from the
/// same starts, the fugitive ends on the station of its last entry and
/// each detective (colors being distinct) on the station of the last entry
/// of its color; the winner is the one recorded.
pub proof fn lemma_replay_reproduces_positions(g: Game, r: Replay, winner: Role)
    requires
        g.inv(),
        g.spec_replay(r, winner),
        forall|j: int, k: int|
            0 <= j < g.spec_detectives().len() && 0 <= k < g.spec_detectives().len() && j != k
                ==> g.spec_detectives()[j].spec_color() != g.spec_detectives()[k].spec_color(),
    ensures
        r.winner == winner,
        replayed_x_station(views(r.actions@), r.mister_x_starting_station)
            == g.spec_mister_x().spec_station_id(),
        forall|k: int|
            0 <= k < g.spec_detectives().len() ==> replayed_detective_station(
                views(r.actions@),
                (#[trigger] r.detective_starting_stations@[k]).0@,
                r.detective_starting_stations@[k].1,
            ) == g.spec_detectives()[k].spec_station_id(),
{
    let dets = g.spec_detectives();
    let h = g.spec_mister_x().history();
    let n = longest(dets, h.len());
    lemma_longest_floor(dets, h.len());
    lemma_replay_prefix_x(g, n as int);
    assert(h.subrange(0, h.len() as int) =~= h);
    assert forall|k: int| 0 <= k < dets.len() implies replayed_detective_station(
        views(r.actions@),
        (#[trigger] r.detective_starting_stations@[k]).0@,
        r.detective_starting_stations@[k].1,
    ) == dets[k].spec_station_id() by {
        lemma_longest_bounds(dets, h.len(), k);
        lemma_replay_prefix_detective(g, n as int, k);
        assert(h.subrange(0, h.len() as int) =~= h);
        assert(dets[k].history().subrange(0, dets[k].history().len() as int) =~= dets[k].history());
    }
}

/// With the standard schedule, detectives see the fugitive's station
/// exactly in rounds 3, 8, 13, 18 and 24 (one-based).
pub proof fn lemma_standard_reveal_rounds(g: Game)
    requires
        g.spec_rounds() == standard_rounds(),
        g.spec_round() < 24,
    ensures
        g.spec_show_mister_x() == is_reveal_index(g.spec_round() + 1),
{
}

/// With the standard starting counts, a snapshot shows each detective
/// 10 taxi, 8 bus and 4 underground tickets less those it used, and the
/// fugitive 2 hidden and 2 double moves less those it used; none below
/// zero.
pub proof fn lemma_standard_counts_follow_history(g: Game, s: GameState)
    requires
        g.inv(),
        g.spec_state(s),
        g.spec_mister_x().initial_abilities() == (MisterXAbilityData {
            double_move: INITIAL_DOUBLE_MOVES,
            hidden: INITIAL_HIDDEN,
        }),
        forall|i: int|
            0 <= i < g.spec_detectives().len() ==> (#[trigger] g.spec_detectives()[i]).initial_tickets()
                == (DetectiveTransportData {
                taxi: INITIAL_TAXI,
                bus: INITIAL_BUS,
                underground: INITIAL_UNDERGROUND,
            }),
    ensures
        forall|i: int|
            0 <= i < s.players@.len() ==> {
                let h = g.spec_detectives()[i].history();
                let t = (#[trigger] s.players@[i]).available_transport;
                &&& t.taxi == 10 - count_type(h, DetectiveActionType::Taxi) >= 0
                &&& t.bus == 8 - count_type(h, DetectiveActionType::Bus) >= 0
                &&& t.underground == 4 - count_type(h, DetectiveActionType::Underground) >= 0
            },
        s.mister_x.abilities.hidden == 2 - count_hidden(g.spec_mister_x().history()) >= 0,
        s.mister_x.abilities.double_move == 2 - count_double(g.spec_mister_x().history()) >= 0,
{
    lemma_counts_follow_history(g, s);
    assert forall|i: int| 0 <= i < s.players@.len() implies {
        let h = g.spec_detectives()[i].history();
        let t = (#[trigger] s.players@[i]).available_transport;
        &&& t.taxi == 10 - count_type(h, DetectiveActionType::Taxi) >= 0
        &&& t.bus == 8 - count_type(h, DetectiveActionType::Bus) >= 0
        &&& t.underground == 4 - count_type(h, DetectiveActionType::Underground) >= 0
    } by {
        assert(g.spec_detectives()[i].initial_tickets().taxi == 10);
    }
}

/// Before the last round is over and without a capture, ending a turn
/// does not end the game.
pub proof fn lemma_game_goes_on(g: Game)
    requires
        !g.spec_captured(),
        g.spec_role() == Role::MisterX || g.spec_round() + 1 < g.spec_rounds().len(),
    ensures
        !g.spec_move_ends_game(),
{
}

} // verus!
