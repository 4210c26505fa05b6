use std::collections::HashMap;
use vstd::prelude::*;
use crate::character::Character;
use crate::data::{palette, DataService};
use crate::detective::Detective;
use crate::event::{GameEvent, GameStateView, Role};
use crate::game::Game;
use crate::lobby::Lobby;
use crate::mister_x::MisterX;
use crate::packet::{ErrorPacket, GameEndedPacket, GameStartedPacket, ServerPacket, StartMovePacket};
use crate::random::{random_index, sample_stations};

verus! {

broadcast use vstd::std_specs::hash::group_hash_axioms;

/// A server packet as plain values.
pub enum ServerPacketView {
    Error(Seq<char>),
    Game(u128),
    GameStarted(Role),
    StartMove(Role),
    GameState(GameStateView),
    EndMove,
    GameEnded(Role),
}

impl View for ServerPacket {
    type V = ServerPacketView;

    open spec fn view(&self) -> ServerPacketView {
        match self {
            ServerPacket::Error(e) => ServerPacketView::Error(e.message@),
            ServerPacket::Game(g) => ServerPacketView::Game(g.id),
            ServerPacket::GameStarted(p) => ServerPacketView::GameStarted(p.role),
            ServerPacket::StartMove(p) => ServerPacketView::StartMove(p.role),
            ServerPacket::GameState(s) => ServerPacketView::GameState(s@),
            ServerPacket::EndMove => ServerPacketView::EndMove,
            ServerPacket::GameEnded(p) => ServerPacketView::GameEnded(p.winner),
        }
    }
}

/// A packet and the connection it goes to.
#[derive(Debug)]
pub struct Outbound {
    pub to: u128,
    pub packet: ServerPacket,
}

pub struct OutboundView {
    pub to: u128,
    pub packet: ServerPacketView,
}

impl View for Outbound {
    type V = OutboundView;

    open spec fn view(&self) -> OutboundView {
        OutboundView { to: self.to, packet: self.packet@ }
    }
}

pub open spec fn outbound_views(s: Seq<Outbound>) -> Seq<OutboundView> {
    s.map_values(|o: Outbound| o@)
}

/// `p` sent to each of `players`, in order.
pub open spec fn to_each(players: Seq<u128>, p: ServerPacketView) -> Seq<OutboundView> {
    players.map_values(|d: u128| OutboundView { to: d, packet: p })
}

/// A copy of `p`.
pub fn copy_packet(p: &ServerPacket) -> (r: ServerPacket)
    ensures
        r@ == p@,
{
    match p {
        ServerPacket::Error(e) => ServerPacket::Error(ErrorPacket { message: e.message.clone() }),
        ServerPacket::Game(g) => ServerPacket::Game(*g),
        ServerPacket::GameStarted(g) => ServerPacket::GameStarted(*g),
        ServerPacket::StartMove(s) => ServerPacket::StartMove(*s),
        ServerPacket::GameState(s) => ServerPacket::GameState(
            s.with_station(s.mister_x.station_id),
        ),
        ServerPacket::EndMove => ServerPacket::EndMove,
        ServerPacket::GameEnded(g) => ServerPacket::GameEnded(*g),
    }
}

/// Who plays a game: the fugitive's connection and the detectives'.
pub struct GameEventListener {
    detective_players: Vec<u128>,
    mister_x_player: u128,
}

impl GameEventListener {
    pub closed spec fn spec_detective_players(&self) -> Seq<u128> {
        self.detective_players@
    }

    pub closed spec fn spec_mister_x_player(&self) -> u128 {
        self.mister_x_player
    }

    pub fn new(detective_players: Vec<u128>, mister_x_player: u128) -> (r: GameEventListener)
        ensures
            r.spec_detective_players() == detective_players@,
            r.spec_mister_x_player() == mister_x_player,
    {
        GameEventListener { detective_players, mister_x_player }
    }

    /// All players: the detectives' connections, then the fugitive's.
    pub open spec fn spec_all_players(&self) -> Seq<u128> {
        self.spec_detective_players().push(self.spec_mister_x_player())
    }

    pub fn all_players(&self) -> (r: Vec<u128>)
        ensures
            r@ == self.spec_all_players(),
    {
        let mut r: Vec<u128> = Vec::new();
        let mut i: usize = 0;
        while i < self.detective_players.len()
            invariant
                i <= self.detective_players@.len(),
                r@ == self.detective_players@.subrange(0, i as int),
            decreases self.detective_players@.len() - i,
        {
            r.push(self.detective_players[i]);
            i = i + 1;
            assert(r@ =~= self.detective_players@.subrange(0, i as int));
        }
        assert(self.detective_players@.subrange(0, i as int) =~= self.detective_players@);
        r.push(self.mister_x_player);
        r
    }

    pub open spec fn spec_user_role(&self, id: u128) -> Role {
        if id == self.spec_mister_x_player() {
            Role::MisterX
        } else {
            Role::Detective
        }
    }

    /// The side the connection `id` plays.
    pub fn get_user_role(&self, id: u128) -> (r: Role)
        ensures
            r == self.spec_user_role(id),
    {
        if self.mister_x_player == id {
            Role::MisterX
        } else {
            Role::Detective
        }
    }

    /// The packets an event becomes. A game state goes to the fugitive as
    /// it is; the detectives get it with the fugitive's station left out
    /// unless `show` is set.
    pub open spec fn spec_fan_out(&self, e: GameEvent) -> Seq<OutboundView> {
        let dets = self.spec_detective_players();
        let x = self.spec_mister_x_player();
        match e {
            GameEvent::GameStarted => seq![
                OutboundView {
                    to: x,
                    packet: ServerPacketView::GameStarted(Role::MisterX),
                },
            ] + to_each(dets, ServerPacketView::GameStarted(Role::Detective)),
            GameEvent::RoundStarted(role) => to_each(dets, ServerPacketView::StartMove(role)).push(
                OutboundView { to: x, packet: ServerPacketView::StartMove(role) },
            ),
            GameEvent::MoveEnded => to_each(dets, ServerPacketView::EndMove).push(
                OutboundView { to: x, packet: ServerPacketView::EndMove },
            ),
            GameEvent::GameState(s, show) => seq![
                OutboundView { to: x, packet: ServerPacketView::GameState(s@) },
            ] + to_each(
                dets,
                ServerPacketView::GameState(
                    GameStateView {
                        station_id: if show {
                            s@.station_id
                        } else {
                            None
                        },
                        ..s@
                    },
                ),
            ),
            GameEvent::GameEnded(r) => to_each(dets, ServerPacketView::GameEnded(r.winner)).push(
                OutboundView { to: x, packet: ServerPacketView::GameEnded(r.winner) },
            ),
        }
    }

    fn send_to_detectives(&self, p: &ServerPacket, out: &mut Vec<Outbound>)
        ensures
            outbound_views(final(out)@) == outbound_views(old(out)@) + to_each(
                self.spec_detective_players(),
                p@,
            ),
    {
        let ghost start = outbound_views(out@);
        let mut i: usize = 0;
        while i < self.detective_players.len()
            invariant
                i <= self.detective_players@.len(),
                outbound_views(out@) == start + to_each(
                    self.detective_players@.subrange(0, i as int),
                    p@,
                ),
            decreases self.detective_players@.len() - i,
        {
            let o = Outbound { to: self.detective_players[i], packet: copy_packet(p) };
            proof {
                assert(outbound_views(out@.push(o)) =~= outbound_views(out@).push(o@));
            }
            out.push(o);
            i = i + 1;
            assert(outbound_views(out@) =~= start + to_each(
                self.detective_players@.subrange(0, i as int),
                p@,
            ));
        }
        assert(self.detective_players@.subrange(0, i as int) =~= self.detective_players@);
    }

    fn send_to_mister_x(&self, p: ServerPacket, out: &mut Vec<Outbound>)
        ensures
            outbound_views(final(out)@) == outbound_views(old(out)@).push(
                OutboundView { to: self.spec_mister_x_player(), packet: p@ },
            ),
    {
        let o = Outbound { to: self.mister_x_player, packet: p };
        proof {
            assert(outbound_views(out@.push(o)) =~= outbound_views(out@).push(o@));
        }
        out.push(o);
    }

    /// Appends to `out` the packets that `event` becomes.
    pub fn packets_for(&self, event: &GameEvent, out: &mut Vec<Outbound>)
        ensures
            outbound_views(final(out)@) == outbound_views(old(out)@) + self.spec_fan_out(*event),
    {
        let ghost start = outbound_views(out@);
        match event {
            GameEvent::GameStarted => {
                self.send_to_mister_x(
                    ServerPacket::GameStarted(GameStartedPacket { role: Role::MisterX }),
                    out,
                );
                self.send_to_detectives(
                    &ServerPacket::GameStarted(GameStartedPacket { role: Role::Detective }),
                    out,
                );
            },
            GameEvent::RoundStarted(role) => {
                let p = ServerPacket::StartMove(StartMovePacket { role: *role });
                self.send_to_detectives(&p, out);
                self.send_to_mister_x(p, out);
            },
            GameEvent::MoveEnded => {
                self.send_to_detectives(&ServerPacket::EndMove, out);
                self.send_to_mister_x(ServerPacket::EndMove, out);
            },
            GameEvent::GameState(s, show) => {
                let full = s.with_station(s.mister_x.station_id);
                assert(full@ =~= s@);
                self.send_to_mister_x(ServerPacket::GameState(full), out);
                let shown = if *show {
                    s.with_station(s.mister_x.station_id)
                } else {
                    s.with_station(None)
                };
                self.send_to_detectives(&ServerPacket::GameState(shown), out);
            },
            GameEvent::GameEnded(r) => {
                let p = ServerPacket::GameEnded(GameEndedPacket { winner: r.winner });
                self.send_to_detectives(&p, out);
                self.send_to_mister_x(p, out);
            },
        }
        assert(outbound_views(out@) =~= start + self.spec_fan_out(*event));
    }
}

/// A running game and who plays it.
pub struct Session {
    pub game: Game,
    pub listener: GameEventListener,
}

#[derive(Clone, Copy, Debug, PartialEq, Eq, Structural)]
pub enum GameServiceError {
    UnknownGame,
    NotEnoughPlayers,
    TooManyDetectives,
}

impl GameServiceError {
    pub open spec fn spec_message(&self) -> Seq<char> {
        match self {
            GameServiceError::UnknownGame => "unknown game"@,
            GameServiceError::NotEnoughPlayers => "game does not have enough players"@,
            GameServiceError::TooManyDetectives => "too many detectives"@,
        }
    }

    pub fn message(&self) -> (r: String)
        ensures
            r@ == self.spec_message(),
    {
        match self {
            GameServiceError::UnknownGame => "unknown game".to_string(),
            GameServiceError::NotEnoughPlayers => "game does not have enough players".to_string(),
            GameServiceError::TooManyDetectives => "too many detectives".to_string(),
        }
    }
}

/// The draws that start a game from `lobby` are possible: the fugitive is
/// one of the members, one distinct start per detective from the detective
/// pool, the fugitive's start from its own pool.
pub open spec fn valid_draw(
    lobby: Lobby,
    data: DataService,
    mister_x: int,
    stations: Seq<u8>,
    mister_x_station: u8,
) -> bool {
    &&& 0 <= mister_x < lobby.players@.len()
    &&& stations.len() == lobby.settings.number_of_detectives
    &&& stations.no_duplicates()
    &&& forall|i: int| 0 <= i < stations.len() ==> data.spec_detective_stations().contains(#[trigger] stations[i])
    &&& data.spec_mister_x_stations().contains(mister_x_station)
}

/// `s` is the game started from `lobby` with those draws: the member
/// `mister_x` plays the fugitive, the others the detectives; detective `i`
/// has the `i`-th color and the `i`-th start; nobody has moved yet.
pub open spec fn spec_session_from(
    s: Session,
    lobby: Lobby,
    data: DataService,
    mister_x: int,
    stations: Seq<u8>,
    mister_x_station: u8,
) -> bool {
    let players = lobby.players@;
    let dets = s.game.spec_detectives();
    &&& s.listener.spec_mister_x_player() == players[mister_x]
    &&& s.listener.spec_detective_players() == players.remove(mister_x)
    &&& s.game.inv()
    &&& !s.game.spec_ended()
    &&& s.game.spec_role() == Role::MisterX
    &&& s.game.spec_round() == 0
    &&& s.game.spec_events().len() == 0
    &&& s.game.spec_connections() == data.spec_connections()
    &&& s.game.spec_rounds() == data.spec_rounds()
    &&& s.game.spec_mister_x().spec_start_station() == mister_x_station
    &&& s.game.spec_mister_x().history().len() == 0
    &&& s.game.spec_mister_x().initial_abilities() == data.spec_abilities()
    &&& dets.len() == lobby.settings.number_of_detectives
    &&& forall|i: int|
        0 <= i < dets.len() ==> {
            &&& (#[trigger] dets[i]).spec_color() == palette()[i]
            &&& dets[i].spec_start_station() == stations[i]
            &&& dets[i].history().len() == 0
            &&& dets[i].initial_tickets() == data.spec_tickets()
        }
}

/// Draws at random who of `lobby` plays the fugitive, the detectives'
/// starts and the fugitive's start.
pub fn draw_starts(lobby: &Lobby, data: &DataService) -> (r: (usize, Vec<u8>, u8))
    requires
        data.inv(),
        lobby.players@.len() >= 1,
        lobby.settings.number_of_detectives <= data.spec_detective_stations().len(),
    ensures
        valid_draw(*lobby, *data, r.0 as int, r.1@, r.2),
{
    let pool = data.detective_stations();
    let mister_x = random_index(lobby.players.len());
    let stations = sample_stations(pool, lobby.settings.number_of_detectives);
    let x_pool = data.mister_x_stations();
    let mister_x_station = x_pool[random_index(x_pool.len())];
    assert(data.spec_mister_x_stations().contains(mister_x_station));
    (mister_x, stations, mister_x_station)
}

/// The game that the lobby becomes with the given draws.
pub fn new_session(
    lobby: &Lobby,
    data: &DataService,
    mister_x: usize,
    detective_stations: &Vec<u8>,
    mister_x_station: u8,
) -> (r: Session)
    requires
        data.inv(),
        lobby.settings.number_of_detectives <= 5,
        valid_draw(*lobby, *data, mister_x as int, detective_stations@, mister_x_station),
    ensures
        spec_session_from(
            r,
            *lobby,
            *data,
            mister_x as int,
            detective_stations@,
            mister_x_station,
        ),
{
    let players = &lobby.players;
    let mut detective_players: Vec<u128> = Vec::new();
    let mut j: usize = 0;
    while j < mister_x
        invariant
            mister_x < players@.len(),
            j <= mister_x,
            detective_players@ == players@.subrange(0, j as int),
        decreases mister_x - j,
    {
        detective_players.push(players[j]);
        j = j + 1;
        assert(detective_players@ =~= players@.subrange(0, j as int));
    }
    let count = players.len();
    assert(mister_x < count);
    j = mister_x + 1;
    while j < players.len()
        invariant
            mister_x < players@.len(),
            mister_x + 1 <= j <= players@.len(),
            detective_players@ == players@.subrange(0, mister_x as int) + players@.subrange(
                mister_x + 1,
                j as int,
            ),
        decreases players@.len() - j,
    {
        detective_players.push(players[j]);
        j = j + 1;
        assert(detective_players@ =~= players@.subrange(0, mister_x as int) + players@.subrange(
            mister_x + 1,
            j as int,
        ));
    }
    assert(detective_players@ =~= players@.remove(mister_x as int));
    let listener = GameEventListener::new(detective_players, players[mister_x]);
    let colors = data.get_colors();
    let tickets = data.tickets();
    let n = lobby.settings.number_of_detectives;
    let mut detectives: Vec<Detective> = Vec::new();
    let mut i: usize = 0;
    while i < n
        invariant
            n <= 5,
            n == detective_stations@.len(),
            colors@.len() == 5,
            forall|k: int| 0 <= k < 5 ==> (#[trigger] colors@[k])@ == palette()[k],
            tickets == data.spec_tickets(),
            i <= n,
            detectives@.len() == i,
            forall|k: int|
                0 <= k < i ==> {
                    &&& (#[trigger] detectives@[k]).spec_color() == palette()[k]
                    &&& detectives@[k].spec_start_station() == detective_stations@[k]
                    &&& detectives@[k].history().len() == 0
                    &&& detectives@[k].initial_tickets() == data.spec_tickets()
                    &&& detectives@[k].inv()
                },
        decreases n - i,
    {
        let color = colors[i].clone();
        detectives.push(Detective::with_tickets(detective_stations[i], color, tickets));
        i = i + 1;
    }
    let mister = MisterX::with_abilities(mister_x_station, data.abilities());
    let game = Game::with_characters(
        detectives,
        mister,
        data.get_all_connections(),
        data.get_all_rounds(),
    );
    Session { game, listener }
}

/// The running games, by id.
pub struct GameService {
    games: HashMap<u128, Session>,
}

impl GameService {
    pub closed spec fn spec_games(&self) -> Map<u128, Session> {
        self.games@
    }

    pub fn new() -> (r: GameService)
        ensures
            r.spec_games() == Map::<u128, Session>::empty(),
    {
        GameService { games: HashMap::new() }
    }

    pub fn contains(&self, game_id: u128) -> (r: bool)
        ensures
            r == self.spec_games().contains_key(game_id),
    {
        self.games.contains_key(&game_id)
    }

    /// Starts a game from `lobby` under `lobby_id`: draws who plays the
    /// fugitive and the start stations. Refused with fewer than two members,
    /// or with more detectives than colors or detective starts.
    pub fn add_game_from_lobby(&mut self, lobby: &Lobby, lobby_id: u128, data: &DataService) -> (r:
        Result<(), GameServiceError>)
        requires
            data.inv(),
        ensures
            lobby.players@.len() < 2 ==> r == Err::<(), GameServiceError>(
                GameServiceError::NotEnoughPlayers,
            ),
            lobby.players@.len() >= 2 && (lobby.settings.number_of_detectives > 5
                || lobby.settings.number_of_detectives > data.spec_detective_stations().len())
                ==> r == Err::<(), GameServiceError>(GameServiceError::TooManyDetectives),
            lobby.players@.len() >= 2 && lobby.settings.number_of_detectives <= 5
                && lobby.settings.number_of_detectives <= data.spec_detective_stations().len()
                ==> r is Ok,
            r is Err ==> final(self).spec_games() == old(self).spec_games(),
            r is Ok ==> {
                &&& final(self).spec_games().dom() == old(self).spec_games().dom().insert(lobby_id)
                &&& forall|k: u128|
                    k != lobby_id && #[trigger] old(self).spec_games().contains_key(k)
                        ==> final(self).spec_games()[k] == old(self).spec_games()[k]
                &&& exists|x: int, st: Seq<u8>, xs: u8|
                    #[trigger] valid_draw(*lobby, *data, x, st, xs) && spec_session_from(
                        final(self).spec_games()[lobby_id],
                        *lobby,
                        *data,
                        x,
                        st,
                        xs,
                    )
            },
    {
        if lobby.players.len() < 2 {
            return Err(GameServiceError::NotEnoughPlayers);
        }
        let n = lobby.settings.number_of_detectives;
        let pool = data.detective_stations();
        if n > 5 || n > pool.len() {
            return Err(GameServiceError::TooManyDetectives);
        }
        let (mister_x, stations, mister_x_station) = draw_starts(lobby, data);
        let session = new_session(lobby, data, mister_x, &stations, mister_x_station);
        self.games.insert(lobby_id, session);
        assert(valid_draw(*lobby, *data, mister_x as int, stations@, mister_x_station));
        Ok(())
    }

    pub fn get_game(&self, game_id: u128) -> (r: Result<&Session, GameServiceError>)
        ensures
            match r {
                Ok(s) => self.spec_games().contains_key(game_id) && *s
                    == self.spec_games()[game_id],
                Err(e) => !self.spec_games().contains_key(game_id) && e
                    == GameServiceError::UnknownGame,
            },
    {
        match self.games.get(&game_id) {
            Some(s) => Ok(s),
            None => Err(GameServiceError::UnknownGame),
        }
    }

    /// Takes the game `game_id` out, to be changed and put back.
    pub fn take_game(&mut self, game_id: u128) -> (r: Result<Session, GameServiceError>)
        ensures
            final(self).spec_games() == old(self).spec_games().remove(game_id),
            match r {
                Ok(s) => old(self).spec_games().contains_key(game_id) && s == old(
                    self,
                ).spec_games()[game_id],
                Err(e) => !old(self).spec_games().contains_key(game_id) && e
                    == GameServiceError::UnknownGame,
            },
    {
        match self.games.remove(&game_id) {
            Some(s) => Ok(s),
            None => Err(GameServiceError::UnknownGame),
        }
    }

    pub fn put_game(&mut self, game_id: u128, session: Session)
        ensures
            final(self).spec_games() == old(self).spec_games().insert(game_id, session),
    {
        self.games.insert(game_id, session);
    }

    /// Removes a finished game.
    pub fn remove_game(&mut self, game_id: u128) -> (r: Option<Session>)
        ensures
            final(self).spec_games() == old(self).spec_games().remove(game_id),
            match r {
                Some(s) => old(self).spec_games().contains_key(game_id) && s == old(
                    self,
                ).spec_games()[game_id],
                None => !old(self).spec_games().contains_key(game_id),
            },
    {
        self.games.remove(&game_id)
    }
}

/// A snapshot reaches the fugitive with its station, and each detective
/// player without it unless the round reveals the fugitive or the game is
/// over.
pub proof fn lemma_station_shown_only_on_reveal(
    g: Game,
    l: GameEventListener,
    e: GameEvent,
    show: bool,
)
    requires
        g.is_state_event(e, show),
        show == g.spec_show_mister_x() || g.spec_ended(),
    ensures
        ({
            let fan = l.spec_fan_out(e);
            let dets = l.spec_detective_players();
            &&& fan.len() == dets.len() + 1
            &&& fan[0].to == l.spec_mister_x_player()
            &&& fan[0].packet matches ServerPacketView::GameState(v) && v.station_id is Some
            &&& forall|k: int|
                1 <= k < fan.len() ==> {
                    &&& (#[trigger] fan[k]).to == dets[k - 1]
                    &&& fan[k].packet matches ServerPacketView::GameState(v) && (
                    !g.spec_show_mister_x() && !g.spec_ended() ==> v.station_id is None)
                }
        }),
{
    let fan = l.spec_fan_out(e);
    let dets = l.spec_detective_players();
    assert forall|k: int| 1 <= k < fan.len() implies {
        &&& (#[trigger] fan[k]).to == dets[k - 1]
        &&& fan[k].packet matches ServerPacketView::GameState(v) && (!g.spec_show_mister_x()
            && !g.spec_ended() ==> v.station_id is None)
    } by {
        assert(fan[k] == to_each(dets, fan[k].packet)[k - 1]);
    }
}

} // verus!
