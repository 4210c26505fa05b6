use vstd::prelude::*;
use crate::data::DataService;
use crate::event::{GameEvent, GameStateView, MisterXActionType, Role};
use crate::game::GameError;
use crate::game_service::{
    draw_starts, new_session, outbound_views, spec_session_from, to_each, valid_draw, GameEventListener, GameService, GameServiceError, Outbound, OutboundView,
    ServerPacketView, Session,
};
use crate::lobby::{LobbyService, LobbyServiceError};
use crate::packet::{
    ClientPacket, CreateGamePacket, GamePacket, JoinGamePacket, MoveDetectivePacket,
    MoveMisterXPacket, PacketError, ServerPacket,
};
use crate::random::new_uuid;
use crate::replay::Replay;
use crate::ws_connection::{ConnectionData, WsConnectionService};

verus! {

broadcast use vstd::std_specs::hash::group_hash_axioms;

/// Why a client packet was refused.
#[derive(Clone, Copy, Debug, PartialEq, Eq, Structural)]
pub enum ConnectionError {
    Lobby(LobbyServiceError),
    GameService(GameServiceError),
    Game(GameError),
    GameAlreadyJoined,
    NotAllowedForUser,
    NotInGame,
    NotInLobby,
    IdInUse,
}

impl ConnectionError {
    pub open spec fn spec_message(&self) -> Seq<char> {
        match self {
            ConnectionError::Lobby(_) => "unknown lobby"@,
            ConnectionError::GameService(e) => e.spec_message(),
            ConnectionError::Game(e) => e.spec_message(),
            ConnectionError::GameAlreadyJoined => "game already joined"@,
            ConnectionError::NotAllowedForUser => "not your turn"@,
            ConnectionError::NotInGame => "not in game"@,
            ConnectionError::NotInLobby => "not in lobby"@,
            ConnectionError::IdInUse => "id already in use"@,
        }
    }

    pub fn message(&self) -> (r: String)
        ensures
            r@ == self.spec_message(),
    {
        match self {
            ConnectionError::Lobby(e) => e.message(),
            ConnectionError::GameService(e) => e.message(),
            ConnectionError::Game(e) => e.message(),
            ConnectionError::GameAlreadyJoined => "game already joined".to_string(),
            ConnectionError::NotAllowedForUser => "not your turn".to_string(),
            ConnectionError::NotInGame => "not in game".to_string(),
            ConnectionError::NotInLobby => "not in lobby".to_string(),
            ConnectionError::IdInUse => "id already in use".to_string(),
        }
    }
}

/// What handling one packet produced: packets to send, in order, and the
/// replays of games that ended.
pub struct Reply {
    pub packets: Vec<Outbound>,
    pub replays: Vec<Replay>,
}

/// A single error packet to `to`.
pub open spec fn error_to(to: u128, message: Seq<char>) -> Seq<OutboundView> {
    seq![OutboundView { to, packet: ServerPacketView::Error(message) }]
}

/// Two sessions agree in everything but the storage of their histories.
pub open spec fn same_session(a: Session, b: Session) -> bool {
    &&& a.game.same_state(b.game)
    &&& a.game.spec_events() == b.game.spec_events()
    &&& a.listener == b.listener
}

/// The moves of a `moveMisterX` packet as (station, transport) pairs.
pub open spec fn move_pairs(ms: Seq<MoveMisterXPacket>) -> Seq<(u8, MisterXActionType)> {
    ms.map_values(|m: MoveMisterXPacket| (m.station_id, m.transport_type))
}

/// The packets that the events `evs` become, in order.
pub open spec fn fan_out_all(l: GameEventListener, evs: Seq<GameEvent>) -> Seq<OutboundView>
    decreases evs.len(),
{
    if evs.len() == 0 {
        seq![]
    } else {
        fan_out_all(l, evs.drop_last()) + l.spec_fan_out(evs.last())
    }
}

/// The replays that the events `evs` carry, in order.
pub open spec fn replays_in(evs: Seq<GameEvent>) -> Seq<Replay>
    decreases evs.len(),
{
    if evs.len() == 0 {
        seq![]
    } else {
        replays_in(evs.drop_last()) + match evs.last() {
            GameEvent::GameEnded(r) => seq![r],
            _ => seq![],
        }
    }
}

/// Events without an end of game carry no replay.
pub proof fn lemma_no_replays(evs: Seq<GameEvent>)
    requires
        forall|i: int| 0 <= i < evs.len() ==> !(#[trigger] evs[i] is GameEnded),
    ensures
        replays_in(evs) == Seq::<Replay>::empty(),
    decreases evs.len(),
{
    if evs.len() > 0 {
        lemma_no_replays(evs.drop_last());
        assert(!(evs[evs.len() - 1] is GameEnded));
        assert(replays_in(evs) =~= Seq::<Replay>::empty());
    }
}

/// A running game is sound, not over, and has reported all its events.
pub open spec fn session_sound(s: Session) -> bool {
    &&& s.game.inv()
    &&& !s.game.spec_ended()
    &&& s.game.spec_events().len() == 0
}

/// Every running game is sound.
pub open spec fn games_sound(games: Map<u128, Session>) -> bool {
    forall|id: u128| #[trigger] games.contains_key(id) ==> session_sound(games[id])
}

/// Changing, adding or removing the game `id` keeps the games sound if the
/// game now under `id`, if any, is sound.
pub proof fn lemma_games_sound_update(before: Map<u128, Session>, after: Map<u128, Session>, id: u128)
    requires
        games_sound(before),
        forall|k: u128|
            k != id && #[trigger] after.contains_key(k) ==> before.contains_key(k) && after[k]
                == before[k],
        after.contains_key(id) ==> session_sound(after[id]),
    ensures
        games_sound(after),
{
    assert forall|k: u128| #[trigger] after.contains_key(k) implies session_sound(after[k]) by {
        if k != id {
            assert(before.contains_key(k));
        }
    }
}

/// The whole server: the map, the lobbies, the running games and the open
/// connections.
pub struct AppState {
    data: DataService,
    lobby: LobbyService,
    game: GameService,
    ws_connection: WsConnectionService,
}

impl AppState {
    pub closed spec fn spec_data(&self) -> DataService {
        self.data
    }

    pub closed spec fn spec_lobbies(&self) -> Map<u128, crate::lobby::Lobby> {
        self.lobby.spec_lobbies()
    }

    pub closed spec fn spec_games(&self) -> Map<u128, Session> {
        self.game.spec_games()
    }

    pub closed spec fn spec_connections(&self) -> Map<u128, ConnectionData> {
        self.ws_connection.spec_connections()
    }

    /// Every running game is sound and has reported all its events; no id
    /// names both a lobby and a game; no connection is in both a lobby and
    /// a game.
    pub open spec fn inv(&self) -> bool {
        &&& self.spec_data().inv()
        &&& games_sound(self.spec_games())
        &&& forall|id: u128|
            !(#[trigger] self.spec_lobbies().contains_key(id) && self.spec_games().contains_key(
                id,
            ))
        &&& forall|c: u128|
            #[trigger] self.spec_connections().contains_key(c) ==> !(
            self.spec_connections()[c].lobby_id is Some && self.spec_connections()[c].game_id is Some)
    }

    /// Nothing has changed that a client could observe.
    pub open spec fn unchanged(&self, other: AppState) -> bool {
        &&& self.spec_data() == other.spec_data()
        &&& self.spec_lobbies() == other.spec_lobbies()
        &&& self.spec_connections() == other.spec_connections()
        &&& self.spec_games().dom() == other.spec_games().dom()
        &&& forall|id: u128|
            #[trigger] self.spec_games().contains_key(id) ==> same_session(
                self.spec_games()[id],
                other.spec_games()[id],
            )
    }

    /// Why it is not `connection_id`'s turn in its game, if it is not: it
    /// is in no game, the game is gone, or the game waits for the other
    /// side (or, with `side`, `connection_id` does not play that side).
    pub open spec fn spec_turn_refusal(&self, connection_id: u128, side: Option<Role>) -> Option<
        ConnectionError,
    > {
        let c = self.spec_connections()[connection_id];
        match c.game_id {
            None => Some(ConnectionError::NotInGame),
            Some(g) => if !self.spec_games().contains_key(g) {
                Some(ConnectionError::GameService(GameServiceError::UnknownGame))
            } else {
                let s = self.spec_games()[g];
                let role = s.listener.spec_user_role(connection_id);
                if role != s.game.spec_role() || (side is Some && side != Some(role)) {
                    Some(ConnectionError::NotAllowedForUser)
                } else {
                    None
                }
            },
        }
    }

    /// Why `packet` from `connection_id` is refused, if it is; a
    /// `createGame` is refused only when the drawn id is taken, which is
    /// not known beforehand.
    pub open spec fn spec_refusal(&self, connection_id: u128, packet: ClientPacket) -> Option<
        ConnectionError,
    > {
        let c = self.spec_connections()[connection_id];
        match packet {
            ClientPacket::CreateGame(_) => None,
            ClientPacket::JoinGame(p) => if c.lobby_id is Some || c.game_id is Some {
                Some(ConnectionError::GameAlreadyJoined)
            } else if !self.spec_lobbies().contains_key(p.id) {
                Some(ConnectionError::Lobby(LobbyServiceError::UnknownLobby))
            } else {
                None
            },
            ClientPacket::StartGame => match c.lobby_id {
                None => Some(ConnectionError::NotInLobby),
                Some(l) => if !self.spec_lobbies().contains_key(l) {
                    Some(ConnectionError::Lobby(LobbyServiceError::UnknownLobby))
                } else {
                    let lobby = self.spec_lobbies()[l];
                    let n = lobby.settings.number_of_detectives;
                    if lobby.players@.len() < 2 {
                        Some(ConnectionError::GameService(GameServiceError::NotEnoughPlayers))
                    } else if n > 5 || n > self.spec_data().spec_detective_stations().len() {
                        Some(ConnectionError::GameService(GameServiceError::TooManyDetectives))
                    } else {
                        None
                    }
                },
            },
            ClientPacket::MoveMisterX(ms) => match self.spec_turn_refusal(
                connection_id,
                Some(Role::MisterX),
            ) {
                Some(e) => Some(e),
                None => if self.spec_games()[c.game_id->0].game.spec_x_step(
                    move_pairs(ms@),
                ) is None {
                    Some(ConnectionError::Game(GameError::InvalidMove))
                } else {
                    None
                },
            },
            ClientPacket::MoveDetective(p) => match self.spec_turn_refusal(
                connection_id,
                Some(Role::Detective),
            ) {
                Some(e) => Some(e),
                None => {
                    let g = self.spec_games()[c.game_id->0].game;
                    if exists|k: int|
                        g.first_with_color(p.color@, k) && g.spec_detective_step_ok(
                            k,
                            p.station_id,
                            p.transport_type,
                        ) {
                        None
                    } else {
                        Some(ConnectionError::Game(GameError::InvalidMove))
                    }
                },
            },
            ClientPacket::SubmitMove => match self.spec_turn_refusal(connection_id, None) {
                Some(e) => Some(e),
                None => if !self.spec_games()[c.game_id->0].game.spec_all_moved() {
                    Some(ConnectionError::Game(GameError::NotAllMoved))
                } else {
                    None
                },
            },
        }
    }

    /// What `create_game_with` leaves and answers for the id `id`: a
    /// refusal, changing nothing, if `id` already names a lobby or a game;
    /// else a new empty lobby under `id` and its id sent to the sender.
    pub open spec fn after_create_game_with(
        &self,
        new: AppState,
        connection_id: u128,
        packet: CreateGamePacket,
        id: u128,
        r: Reply,
    ) -> bool {
        &&& r.replays@.len() == 0
        &&& new.spec_data() == self.spec_data()
        &&& new.spec_games() == self.spec_games()
        &&& new.spec_connections() == self.spec_connections()
        &&& if self.spec_lobbies().contains_key(id) || self.spec_games().contains_key(id) {
            &&& new.spec_lobbies() == self.spec_lobbies()
            &&& outbound_views(r.packets@) == error_to(
                connection_id,
                ConnectionError::IdInUse.spec_message(),
            )
        } else {
            &&& outbound_views(r.packets@) == seq![
                OutboundView { to: connection_id, packet: ServerPacketView::Game(id) },
            ]
            &&& new.spec_lobbies().dom() == self.spec_lobbies().dom().insert(id)
            &&& new.spec_lobbies()[id].settings == packet_settings(packet)
            &&& new.spec_lobbies()[id].players@.len() == 0
            &&& forall|k: u128|
                k != id && #[trigger] self.spec_lobbies().contains_key(k)
                    ==> new.spec_lobbies()[k] == self.spec_lobbies()[k]
        }
    }

    /// What `create_game` leaves and answers: what `create_game_with` does
    /// for some drawn id.
    pub open spec fn after_create_game(
        &self,
        new: AppState,
        connection_id: u128,
        packet: CreateGamePacket,
        r: Reply,
    ) -> bool {
        exists|id: u128| #[trigger] self.after_create_game_with(new, connection_id, packet, id, r)
    }

    /// What `join_game` leaves and answers.
    pub open spec fn after_join_game(&self, new: AppState, connection_id: u128, packet: JoinGamePacket, r: Reply) -> bool {
        &&& r.replays@.len() == 0
        &&& match self.spec_refusal(connection_id, ClientPacket::JoinGame(packet)) {
            Some(e) => new.unchanged(*self) && outbound_views(r.packets@)
                == error_to(connection_id, e.spec_message()),
            None => {
                &&& r.packets@.len() == 0
                &&& new.spec_data() == self.spec_data()
                &&& new.spec_games() == self.spec_games()
                &&& new.spec_lobbies().dom() == self.spec_lobbies().dom()
                &&& new.spec_lobbies()[packet.id].settings == self.spec_lobbies()[packet.id].settings
                &&& new.spec_lobbies()[packet.id].players@ == self.spec_lobbies()[packet.id].players@.push(connection_id)
                &&& forall|k: u128|
                    k != packet.id && #[trigger] self.spec_lobbies().contains_key(k)
                        ==> new.spec_lobbies()[k] == self.spec_lobbies()[k]
                &&& new.spec_connections() == self.spec_connections().insert(
                    connection_id,
                    ConnectionData { lobby_id: Some(packet.id), game_id: None },
                )
            },
        }
    }

    /// What `start_game` leaves and answers: what `start_game_with` does
    /// for some draws, possible ones whenever the packet is accepted.
    pub open spec fn after_start_game(&self, new: AppState, connection_id: u128, r: Reply) -> bool {
        exists|x: int, st: Seq<u8>, xs: u8|
            #[trigger] self.after_start_game_with(new, connection_id, x, st, xs, r) && (
            self.spec_refusal(connection_id, ClientPacket::StartGame) is None ==> valid_draw(
                self.spec_lobbies()[self.spec_connections()[connection_id].lobby_id->0],
                self.spec_data(),
                x,
                st,
                xs,
            ))
    }

    /// What `move_mister_x` leaves and answers.
    pub open spec fn after_move_mister_x(&self, new: AppState, connection_id: u128, moves: Vec<MoveMisterXPacket>, r: Reply) -> bool {
        &&& r.replays@.len() == 0
        &&& match self.spec_refusal(connection_id, ClientPacket::MoveMisterX(moves)) {
            Some(e) => new.unchanged(*self) && outbound_views(r.packets@)
                == error_to(connection_id, e.spec_message()),
            None => {
                let g = self.spec_connections()[connection_id].game_id->0;
                &&& r.packets@.len() == 0
                &&& new.spec_data() == self.spec_data()
                &&& new.spec_lobbies() == self.spec_lobbies()
                &&& new.spec_connections() == self.spec_connections()
                &&& new.spec_games().dom() == self.spec_games().dom()
                &&& forall|k: u128|
                    k != g && #[trigger] self.spec_games().contains_key(k)
                        ==> new.spec_games()[k] == self.spec_games()[k]
                &&& new.spec_games()[g].listener == self.spec_games()[g].listener
                &&& self.spec_games()[g].game.spec_moved_mister_x(
                    new.spec_games()[g].game,
                    move_pairs(moves@),
                    Ok(()),
                )
            },
        }
    }

    /// What `move_detective` leaves and answers.
    pub open spec fn after_move_detective(&self, new: AppState, connection_id: u128, packet: MoveDetectivePacket, r: Reply) -> bool {
        &&& r.replays@.len() == 0
        &&& match self.spec_refusal(connection_id, ClientPacket::MoveDetective(packet)) {
            Some(e) => new.unchanged(*self) && outbound_views(r.packets@)
                == error_to(connection_id, e.spec_message()),
            None => {
                let g = self.spec_connections()[connection_id].game_id->0;
                let s = new.spec_games()[g];
                &&& new.spec_data() == self.spec_data()
                &&& new.spec_lobbies() == self.spec_lobbies()
                &&& new.spec_connections() == self.spec_connections()
                &&& new.spec_games().dom() == self.spec_games().dom()
                &&& forall|k: u128|
                    k != g && #[trigger] self.spec_games().contains_key(k)
                        ==> new.spec_games()[k] == self.spec_games()[k]
                &&& s.listener == self.spec_games()[g].listener
                &&& self.spec_games()[g].game.spec_moved_detective(
                    s.game,
                    packet.color@,
                    packet.station_id,
                    packet.transport_type,
                    Ok(()),
                )
                &&& exists|e: GameEvent|
                    #[trigger] s.game.is_state_event(e, s.game.spec_show_mister_x())
                        && outbound_views(r.packets@) == s.listener.spec_fan_out(e)
            },
        }
    }

    /// What `submit_move` leaves and answers.
    pub open spec fn after_submit_move(&self, new: AppState, connection_id: u128, r: Reply) -> bool {
        &&& match self.spec_refusal(connection_id, ClientPacket::SubmitMove) {
            Some(e) => new.unchanged(*self) && outbound_views(r.packets@)
                == error_to(connection_id, e.spec_message()) && r.replays@.len() == 0,
            None => {
                let g = self.spec_connections()[connection_id].game_id->0;
                let s0 = self.spec_games()[g];
                let ended = s0.game.spec_move_ends_game();
                &&& new.spec_data() == self.spec_data()
                &&& new.spec_lobbies() == self.spec_lobbies()
                &&& exists|mid: crate::game::Game, evs: Seq<GameEvent>|
                    #![trigger s0.game.spec_ended_move(mid, Ok(ended)), fan_out_all(s0.listener, evs)]
                    s0.game.spec_ended_move(mid, Ok(ended)) && {
                        &&& evs.len() == 3
                        &&& evs[0] == GameEvent::MoveEnded
                        &&& ended ==> mid.is_ended_event(evs[1], s0.game.spec_winner())
                            && mid.is_state_event(evs[2], true)
                        &&& !ended ==> evs[1] == GameEvent::RoundStarted(mid.spec_role())
                            && mid.is_state_event(evs[2], mid.spec_show_mister_x())
                        &&& outbound_views(r.packets@) == fan_out_all(s0.listener, evs)
                        &&& r.replays@ == replays_in(evs)
                        &&& !ended ==> {
                            let s = new.spec_games()[g];
                            &&& new.spec_games().dom() == self.spec_games().dom()
                            &&& s.listener == s0.listener
                            &&& s.game.same_state(mid)
                            &&& s.game.spec_mister_x() == mid.spec_mister_x()
                            &&& s.game.spec_detectives() == mid.spec_detectives()
                        }
                    }
                &&& ended ==> {
                    &&& new.spec_games() == self.spec_games().remove(g)
                    &&& new.spec_connections().dom() == self.spec_connections().dom()
                    &&& forall|m: u128|
                        #[trigger] self.spec_connections().contains_key(m)
                            ==> new.spec_connections()[m] == if s0.listener.spec_all_players().contains(m) {
                            ConnectionData { game_id: None, ..self.spec_connections()[m] }
                        } else {
                            self.spec_connections()[m]
                        }
                }
                &&& !ended ==> {
                    &&& new.spec_connections() == self.spec_connections()
                    &&& forall|k: u128|
                        k != g && #[trigger] self.spec_games().contains_key(k)
                            ==> new.spec_games()[k] == self.spec_games()[k]
                }
            },
        }
    }

    /// What `start_game_with` leaves and answers for the given draws.
    pub open spec fn after_start_game_with(
        &self,
        new: AppState,
        connection_id: u128,
        mister_x: int,
        detective_stations: Seq<u8>,
        mister_x_station: u8,
        r: Reply,
    ) -> bool {
        &&& r.replays@.len() == 0
        &&& match self.spec_refusal(connection_id, ClientPacket::StartGame) {
            Some(e) => new.unchanged(*self) && outbound_views(r.packets@)
                == error_to(connection_id, e.spec_message()),
            None => {
                let l = self.spec_connections()[connection_id].lobby_id->0;
                let lobby = self.spec_lobbies()[l];
                let s = new.spec_games()[l];
                &&& new.spec_data() == self.spec_data()
                &&& new.spec_lobbies() == self.spec_lobbies().remove(l)
                &&& new.spec_games().dom() == self.spec_games().dom().insert(l)
                &&& forall|k: u128|
                    k != l && #[trigger] self.spec_games().contains_key(k)
                        ==> new.spec_games()[k] == self.spec_games()[k]
                &&& spec_session_from(
                    s,
                    lobby,
                    self.spec_data(),
                    mister_x,
                    detective_stations,
                    mister_x_station,
                )
                &&& new.spec_connections().dom() == self.spec_connections().dom()
                &&& forall|m: u128|
                    #[trigger] self.spec_connections().contains_key(m)
                        ==> new.spec_connections()[m] == if lobby.players@.contains(m) {
                        ConnectionData { lobby_id: None, game_id: Some(l) }
                    } else {
                        self.spec_connections()[m]
                    }
                &&& exists|evs: Seq<GameEvent>|
                    {
                        &&& evs.len() == 3
                        &&& evs[0] == GameEvent::GameStarted
                        &&& evs[1] == GameEvent::RoundStarted(Role::MisterX)
                        &&& s.game.is_state_event(evs[2], s.game.spec_show_mister_x())
                        &&& outbound_views(r.packets@) == #[trigger] fan_out_all(
                            s.listener,
                            evs,
                        )
                    }
            },
        }
    }

    /// A server over `data` with no lobby, game or connection.
    pub fn new(data: DataService) -> (r: AppState)
        requires
            data.inv(),
        ensures
            r.inv(),
            r.spec_data() == data,
            r.spec_lobbies() == Map::<u128, crate::lobby::Lobby>::empty(),
            r.spec_games() == Map::<u128, Session>::empty(),
            r.spec_connections() == Map::<u128, ConnectionData>::empty(),
    {
        AppState {
            data,
            lobby: LobbyService::new(),
            game: GameService::new(),
            ws_connection: WsConnectionService::new(),
        }
    }

    pub fn data(&self) -> (r: &DataService)
        ensures
            *r == self.spec_data(),
    {
        &self.data
    }

    /// Registers a new connection under a fresh random id: what
    /// `connect_with` does with the drawn id.
    pub fn connect(&mut self) -> (r: Option<u128>)
        requires
            old(self).inv(),
        ensures
            final(self).inv(),
            final(self).spec_data() == old(self).spec_data(),
            final(self).spec_lobbies() == old(self).spec_lobbies(),
            final(self).spec_games() == old(self).spec_games(),
            match r {
                Some(id) => !old(self).spec_connections().contains_key(id) && final(self).spec_connections() == old(self).spec_connections().insert(
                    id,
                    ConnectionData { lobby_id: None, game_id: None },
                ),
                None => final(self).spec_connections() == old(self).spec_connections(),
            },
    {
        let id = new_uuid();
        self.connect_with(id)
    }

    /// Registers the connection `id`, in no lobby and no game; `None`,
    /// changing nothing, if `id` is already registered.
    pub fn connect_with(&mut self, id: u128) -> (r: Option<u128>)
        requires
            old(self).inv(),
        ensures
            final(self).inv(),
            final(self).spec_data() == old(self).spec_data(),
            final(self).spec_lobbies() == old(self).spec_lobbies(),
            final(self).spec_games() == old(self).spec_games(),
            r is None <==> old(self).spec_connections().contains_key(id),
            r is None ==> final(self).spec_connections() == old(self).spec_connections(),
            r is Some ==> r == Some(id) && final(self).spec_connections()
                == old(self).spec_connections().insert(
                id,
                ConnectionData { lobby_id: None, game_id: None },
            ),
    {
        match self.ws_connection.get(id) {
            Ok(_) => None,
            Err(_) => {
                self.ws_connection.add_connection(id);
                assert(self.spec_games() == old(self).spec_games());
                assert(self.spec_lobbies() == old(self).spec_lobbies());
                assert forall|c: u128| #[trigger]
                    self.spec_connections().contains_key(c) implies !(
                    self.spec_connections()[c].lobby_id is Some
                        && self.spec_connections()[c].game_id is Some) by {
                    if c != id {
                        assert(old(self).spec_connections().contains_key(c));
                    }
                }
                Some(id)
            },
        }
    }

    /// Forgets a closed connection; its game goes on.
    pub fn disconnect(&mut self, connection_id: u128)
        requires
            old(self).inv(),
        ensures
            final(self).inv(),
            final(self).spec_data() == old(self).spec_data(),
            final(self).spec_lobbies() == old(self).spec_lobbies(),
            final(self).spec_games() == old(self).spec_games(),
            final(self).spec_connections() == old(self).spec_connections().remove(connection_id),
    {
        self.ws_connection.remove_connection(connection_id);
        assert(self.spec_games() == old(self).spec_games());
        assert(self.spec_lobbies() == old(self).spec_lobbies());
        assert forall|c: u128| #[trigger]
            self.spec_connections().contains_key(c) implies !(
            self.spec_connections()[c].lobby_id is Some
                && self.spec_connections()[c].game_id is Some) by {
            assert(old(self).spec_connections().contains_key(c));
        }
    }

    /// The reply to a message that could not be read as a packet.
    pub fn packet_error(connection_id: u128, error: PacketError) -> (r: Reply)
        ensures
            outbound_views(r.packets@) == error_to(connection_id, error.spec_message()),
            r.replays@.len() == 0,
    {
        AppState::error_reply(connection_id, error.message())
    }

    fn error_reply(connection_id: u128, message: String) -> (r: Reply)
        ensures
            outbound_views(r.packets@) == error_to(connection_id, message@),
            r.replays@.len() == 0,
    {
        let mut packets: Vec<Outbound> = Vec::new();
        let o = Outbound { to: connection_id, packet: ServerPacket::from_error(message) };
        packets.push(o);
        assert(outbound_views(packets@) =~= error_to(connection_id, message@));
        Reply { packets, replays: Vec::new() }
    }

    /// `createGame`: draws a random id, then does what `create_game_with`
    /// does with it.
    pub fn create_game(&mut self, connection_id: u128, packet: CreateGamePacket) -> (r: Reply)
        requires
            old(self).inv(),
        ensures
            final(self).inv(),
            old(self).after_create_game(*final(self), connection_id, packet, r),
    {
        let id = new_uuid();
        self.create_game_with(connection_id, packet, id)
    }

    /// `createGame` with the id given: opens an empty lobby under `id` and
    /// tells the sender that id. Refused, changing nothing, if `id` already
    /// names a lobby or a game.
    pub fn create_game_with(&mut self, connection_id: u128, packet: CreateGamePacket, id: u128) -> (r:
        Reply)
        requires
            old(self).inv(),
        ensures
            final(self).inv(),
            old(self).after_create_game_with(*final(self), connection_id, packet, id, r),
    {
        if self.lobby.contains(id) || self.game.contains(id) {
            return AppState::error_reply(connection_id, ConnectionError::IdInUse.message());
        }
        self.lobby.create(packet.number_of_detectives, id);
        assert(self.spec_games() == old(self).spec_games());
        assert(self.spec_connections() == old(self).spec_connections());
        assert forall|k: u128| !(#[trigger] self.spec_lobbies().contains_key(k)
            && self.spec_games().contains_key(k)) by {
            if k != id {
                assert(self.spec_lobbies().contains_key(k) ==> old(self).spec_lobbies().contains_key(k));
            }
        }
        let mut packets: Vec<Outbound> = Vec::new();
        let o = Outbound { to: connection_id, packet: ServerPacket::Game(GamePacket { id }) };
        packets.push(o);
        assert(outbound_views(packets@) =~= seq![
            OutboundView { to: connection_id, packet: ServerPacketView::Game(id) },
        ]);
        Reply { packets, replays: Vec::new() }
    }

    /// `joinGame`: adds the sender to the lobby. Refused if the sender is
    /// in a lobby or a game already, or the lobby does not exist.
    pub fn join_game(&mut self, connection_id: u128, packet: JoinGamePacket) -> (r: Reply)
        requires
            old(self).inv(),
            old(self).spec_connections().contains_key(connection_id),
        ensures
            final(self).inv(),
            old(self).after_join_game(*final(self), connection_id, packet, r),
    {
        let c = match self.ws_connection.get(connection_id) {
            Ok(c) => c,
            Err(_) => {
                return AppState::error_reply(connection_id, ConnectionError::NotInLobby.message());
            },
        };
        if c.lobby_id.is_some() || c.game_id.is_some() {
            return AppState::error_reply(
                connection_id,
                ConnectionError::GameAlreadyJoined.message(),
            );
        }
        match self.lobby.join(connection_id, packet.id) {
            Ok(()) => {},
            Err(e) => {
                return AppState::error_reply(connection_id, ConnectionError::Lobby(e).message());
            },
        }
        let _ = self.ws_connection.set_lobby_id(connection_id, Some(packet.id));
        Reply { packets: Vec::new(), replays: Vec::new() }
    }

    /// Checks that it is `connection_id`'s turn in its game, and for `side`
    /// that it plays that side; gives the game's id.
    fn check_turn(&self, connection_id: u128, side: Option<Role>) -> (r: Result<
        u128,
        ConnectionError,
    >)
        requires
            self.spec_connections().contains_key(connection_id),
        ensures
            match self.spec_turn_refusal(connection_id, side) {
                Some(e) => r == Err::<u128, ConnectionError>(e),
                None => r == Ok::<u128, ConnectionError>(
                    self.spec_connections()[connection_id].game_id->0,
                ),
            },
    {
        let game_id = match self.ws_connection.game_id(connection_id) {
            Ok(Some(g)) => g,
            _ => {
                return Err(ConnectionError::NotInGame);
            },
        };
        let session = match self.game.get_game(game_id) {
            Ok(s) => s,
            Err(e) => {
                return Err(ConnectionError::GameService(e));
            },
        };
        let role = session.listener.get_user_role(connection_id);
        if role != session.game.active_role() {
            return Err(ConnectionError::NotAllowedForUser);
        }
        match side {
            Some(s) => if s != role {
                return Err(ConnectionError::NotAllowedForUser);
            },
            None => {},
        }
        Ok(game_id)
    }

    /// `moveMisterX`: the fugitive's turn, made by the connection that plays
    /// the fugitive while it has the turn. Sends nothing when accepted.
    pub fn move_mister_x(&mut self, connection_id: u128, moves: Vec<MoveMisterXPacket>) -> (r:
        Reply)
        requires
            old(self).inv(),
            old(self).spec_connections().contains_key(connection_id),
        ensures
            final(self).inv(),
            old(self).after_move_mister_x(*final(self), connection_id, moves, r),
    {
        let game_id = match self.check_turn(connection_id, Some(Role::MisterX)) {
            Ok(g) => g,
            Err(e) => {
                return AppState::error_reply(connection_id, e.message());
            },
        };
        let mut pairs: Vec<(u8, MisterXActionType)> = Vec::new();
        let mut i: usize = 0;
        while i < moves.len()
            invariant
                i <= moves@.len(),
                pairs@ == move_pairs(moves@.subrange(0, i as int)),
            decreases moves@.len() - i,
        {
            pairs.push((moves[i].station_id, moves[i].transport_type));
            i = i + 1;
            assert(pairs@ =~= move_pairs(moves@.subrange(0, i as int)));
        }
        assert(moves@.subrange(0, i as int) =~= moves@);
        let ghost before = self.game.spec_games();
        let mut session = match self.game.take_game(game_id) {
            Ok(s) => s,
            Err(e) => {
                return AppState::error_reply(connection_id, ConnectionError::GameService(e).message());
            },
        };
        let result = session.game.move_mister_x(pairs);
        self.game.put_game(game_id, session);
        assert(self.game.spec_games().dom() =~= before.dom());
        assert(self.spec_lobbies() == old(self).spec_lobbies());
        assert(self.spec_connections() == old(self).spec_connections());
        proof {
            lemma_games_sound_update(old(self).spec_games(), self.spec_games(), game_id);
        }
        match result {
            Ok(()) => Reply { packets: Vec::new(), replays: Vec::new() },
            Err(e) => {
                assert(same_session(self.spec_games()[game_id], before[game_id]));
                AppState::error_reply(connection_id, ConnectionError::Game(e).message())
            },
        }
    }

    /// Sends each of `events` through `listener`, in order, and keeps the
    /// replays they carry.
    fn fan_out(listener: &GameEventListener, events: Vec<GameEvent>, reply: &mut Reply)
        ensures
            outbound_views(final(reply).packets@) == outbound_views(old(reply).packets@)
                + fan_out_all(*listener, events@),
            final(reply).replays@ == old(reply).replays@ + replays_in(events@),
    {
        let ghost all = events@;
        let ghost base = outbound_views(reply.packets@);
        let ghost rbase = reply.replays@;
        let mut events = events;
        let ghost mut done: int = 0;
        while events.len() > 0
            invariant
                0 <= done <= all.len(),
                events@ == all.subrange(done, all.len() as int),
                outbound_views(reply.packets@) == base + fan_out_all(
                    *listener,
                    all.subrange(0, done),
                ),
                reply.replays@ == rbase + replays_in(all.subrange(0, done)),
            decreases events@.len(),
        {
            let e = events.remove(0);
            proof {
                assert(all.subrange(0, done + 1).drop_last() =~= all.subrange(0, done));
                assert(all.subrange(0, done + 1).last() == e);
            }
            listener.packets_for(&e, &mut reply.packets);
            match e {
                GameEvent::GameEnded(r) => {
                    reply.replays.push(r);
                },
                _ => {},
            }
            proof {
                done = done + 1;
                assert(events@ =~= all.subrange(done, all.len() as int));
                assert(outbound_views(reply.packets@) =~= base + fan_out_all(
                    *listener,
                    all.subrange(0, done),
                ));
                assert(reply.replays@ =~= rbase + replays_in(all.subrange(0, done)));
            }
        }
        assert(all.subrange(0, done) =~= all);
    }

    /// `startGame`: draws who plays the fugitive and the start stations,
    /// then does what `start_game_with` does with those draws.
    pub fn start_game(&mut self, connection_id: u128) -> (r: Reply)
        requires
            old(self).inv(),
            old(self).spec_connections().contains_key(connection_id),
        ensures
            final(self).inv(),
            old(self).after_start_game(*final(self), connection_id, r),
    {
        if let Ok(c) = self.ws_connection.get(connection_id) {
            if let Some(lobby_id) = c.lobby_id {
                if let Ok(lobby) = self.lobby.get_lobby(lobby_id) {
                    let n = lobby.settings.number_of_detectives;
                    let pool = self.data.detective_stations();
                    if lobby.players.len() >= 2 && n <= 5 && n <= pool.len() {
                        let (mister_x, stations, mister_x_station) = draw_starts(lobby, &self.data);
                        return self.start_game_with(
                            connection_id,
                            mister_x,
                            stations,
                            mister_x_station,
                        );
                    }
                }
            }
        }
        self.start_game_with(connection_id, 0, Vec::new(), 0)
    }

    /// `startGame` with the draws given: turns the sender's lobby into a
    /// running game under the same id, in which member `mister_x` plays the
    /// fugitive from `mister_x_station` and the others the detectives, the
    /// `i`-th detective from `detective_stations[i]`. Every member moves
    /// from the lobby to the game; the game reports its start. Refused if
    /// the sender is in no lobby, the lobby has fewer than two members, or
    /// it asks for more detectives than there are colors or starts.
    pub fn start_game_with(
        &mut self,
        connection_id: u128,
        mister_x: usize,
        detective_stations: Vec<u8>,
        mister_x_station: u8,
    ) -> (r: Reply)
        requires
            old(self).inv(),
            old(self).spec_connections().contains_key(connection_id),
            old(self).spec_refusal(connection_id, ClientPacket::StartGame) is None ==> valid_draw(
                old(self).spec_lobbies()[old(self).spec_connections()[connection_id].lobby_id->0],
                old(self).spec_data(),
                mister_x as int,
                detective_stations@,
                mister_x_station,
            ),
        ensures
            final(self).inv(),
            old(self).after_start_game_with(
                *final(self),
                connection_id,
                mister_x as int,
                detective_stations@,
                mister_x_station,
                r,
            ),
    {
        let c = match self.ws_connection.get(connection_id) {
            Ok(c) => c,
            Err(_) => {
                return AppState::error_reply(connection_id, ConnectionError::NotInLobby.message());
            },
        };
        let lobby_id = match c.lobby_id {
            Some(l) => l,
            None => {
                return AppState::error_reply(connection_id, ConnectionError::NotInLobby.message());
            },
        };
        match self.lobby.get_lobby(lobby_id) {
            Ok(lobby) => {
                let n = lobby.settings.number_of_detectives;
                if lobby.players.len() < 2 {
                    return AppState::error_reply(
                        connection_id,
                        ConnectionError::GameService(GameServiceError::NotEnoughPlayers).message(),
                    );
                }
                if n > 5 || n > self.data.detective_stations().len() {
                    return AppState::error_reply(
                        connection_id,
                        ConnectionError::GameService(GameServiceError::TooManyDetectives).message(),
                    );
                }
            },
            Err(e) => {
                return AppState::error_reply(connection_id, ConnectionError::Lobby(e).message());
            },
        }
        let ghost old_lobbies = self.spec_lobbies();
        let ghost old_games = self.spec_games();
        let ghost old_conns = self.spec_connections();
        let lobby = match self.lobby.close_lobby(lobby_id) {
            Some(l) => l,
            None => {
                return AppState::error_reply(
                    connection_id,
                    ConnectionError::Lobby(LobbyServiceError::UnknownLobby).message(),
                );
            },
        };
        let fresh_session = new_session(
            &lobby,
            &self.data,
            mister_x,
            &detective_stations,
            mister_x_station,
        );
        self.game.put_game(lobby_id, fresh_session);
        let ghost mid_games = self.spec_games();
        let mut i: usize = 0;
        while i < lobby.players.len()
            invariant
                i <= lobby.players@.len(),
                self.spec_data() == old(self).spec_data(),
                self.spec_lobbies() == old_lobbies.remove(lobby_id),
                self.spec_games() == mid_games,
                self.spec_connections().dom() == old_conns.dom(),
                forall|m: u128|
                    #[trigger] old_conns.contains_key(m) ==> self.spec_connections()[m] == if (
                    exists|j: int| 0 <= j < i && lobby.players@[j] == m) {
                        ConnectionData { lobby_id: None, game_id: Some(lobby_id) }
                    } else {
                        old_conns[m]
                    },
            decreases lobby.players@.len() - i,
        {
            let m = lobby.players[i];
            let _ = self.ws_connection.set_game_id(m, Some(lobby_id));
            let _ = self.ws_connection.set_lobby_id(m, None);
            assert forall|m2: u128| #[trigger] old_conns.contains_key(m2) implies self.spec_connections()[m2]
                == if (exists|j: int| 0 <= j < i + 1 && lobby.players@[j] == m2) {
                ConnectionData { lobby_id: None, game_id: Some(lobby_id) }
            } else {
                old_conns[m2]
            } by {
                if m2 == m {
                    assert(lobby.players@[i as int] == m2);
                }
            }
            assert(self.spec_connections().dom() =~= old_conns.dom());
            i = i + 1;
        }
        let mut session = match self.game.take_game(lobby_id) {
            Ok(s) => s,
            Err(e) => {
                return AppState::error_reply(connection_id, ConnectionError::GameService(e).message());
            },
        };
        session.game.start();
        let events = session.game.take_events();
        let ghost evs = events@;
        let mut reply = Reply { packets: Vec::new(), replays: Vec::new() };
        AppState::fan_out(&session.listener, events, &mut reply);
        self.game.put_game(lobby_id, session);
        proof {
            assert(spec_session_from(
                session,
                lobby,
                old(self).spec_data(),
                mister_x as int,
                detective_stations@,
                mister_x_station,
            ));
            assert(self.spec_games().dom() =~= old_games.dom().insert(lobby_id));
            assert(outbound_views(reply.packets@) =~= fan_out_all(session.listener, evs));
            assert(reply.replays@ =~= replays_in(evs));
            lemma_no_replays(evs);
            lemma_games_sound_update(old_games, self.spec_games(), lobby_id);
            assert forall|k: u128| !(#[trigger] self.spec_lobbies().contains_key(k)
                && self.spec_games().contains_key(k)) by {
                if k != lobby_id && self.spec_games().contains_key(k) {
                    assert(old_games.contains_key(k));
                }
            }
            assert forall|c2: u128| #[trigger] self.spec_connections().contains_key(c2) implies !(
            self.spec_connections()[c2].lobby_id is Some
                && self.spec_connections()[c2].game_id is Some) by {
                assert(old_conns.contains_key(c2));
            }
        }
        reply
    }

    /// `moveDetective`: a detective's move, made by a detective player while
    /// the detectives have the turn; the accepted move is shown to all.
    pub fn move_detective(&mut self, connection_id: u128, packet: MoveDetectivePacket) -> (r:
        Reply)
        requires
            old(self).inv(),
            old(self).spec_connections().contains_key(connection_id),
        ensures
            final(self).inv(),
            old(self).after_move_detective(*final(self), connection_id, packet, r),
    {
        let game_id = match self.check_turn(connection_id, Some(Role::Detective)) {
            Ok(g) => g,
            Err(e) => {
                return AppState::error_reply(connection_id, e.message());
            },
        };
        let ghost before = self.game.spec_games();
        let mut session = match self.game.take_game(game_id) {
            Ok(s) => s,
            Err(e) => {
                return AppState::error_reply(connection_id, ConnectionError::GameService(e).message());
            },
        };
        let result = session.game.move_detective(
            packet.color,
            packet.station_id,
            packet.transport_type,
        );
        let ghost mid = session.game;
        let events = session.game.take_events();
        let ghost evs = events@;
        let mut reply = Reply { packets: Vec::new(), replays: Vec::new() };
        if result.is_ok() {
            AppState::fan_out(&session.listener, events, &mut reply);
        }
        let ghost after = session;
        self.game.put_game(game_id, session);
        assert(self.game.spec_games().dom() =~= before.dom());
        assert(self.spec_lobbies() == old(self).spec_lobbies());
        assert(self.spec_connections() == old(self).spec_connections());
        proof {
            lemma_games_sound_update(old(self).spec_games(), self.spec_games(), game_id);
        }
        match result {
            Ok(()) => {
                proof {
                    assert(evs.len() == 1);
                    assert(evs.drop_last() =~= Seq::<GameEvent>::empty());
                    reveal_with_fuel(fan_out_all, 2);
                    lemma_no_replays(evs);
                    assert(evs[0] == mid.spec_events().last());
                    assert(mid.is_state_event(evs[0], mid.spec_show_mister_x()));
                    assert(after.game.is_state_event(evs[0], after.game.spec_show_mister_x()));
                    assert(outbound_views(reply.packets@) =~= after.listener.spec_fan_out(evs[0]));
                    let k = choose|k: int|
                        before[game_id].game.first_with_color(packet.color@, k)
                            && before[game_id].game.spec_detective_step_ok(
                            k,
                            packet.station_id,
                            packet.transport_type,
                        );
                }
                reply
            },
            Err(e) => {
                proof {
                    if exists|k: int|
                        before[game_id].game.first_with_color(packet.color@, k)
                            && before[game_id].game.spec_detective_step_ok(
                            k,
                            packet.station_id,
                            packet.transport_type,
                        ) {
                        let k = choose|k: int|
                            before[game_id].game.first_with_color(packet.color@, k)
                                && before[game_id].game.spec_detective_step_ok(
                                k,
                                packet.station_id,
                                packet.transport_type,
                            );
                        assert(false);
                    }
                    if exists|k: int| before[game_id].game.first_with_color(packet.color@, k) {
                        let k = choose|k: int| before[game_id].game.first_with_color(packet.color@, k);
                        assert(!before[game_id].game.spec_detective_step_ok(
                            k,
                            packet.station_id,
                            packet.transport_type,
                        ));
                    }
                    assert(self.spec_games()[game_id].game.spec_events() =~= before[game_id].game.spec_events());
                }
                assert(same_session(self.spec_games()[game_id], before[game_id]));
                AppState::error_reply(connection_id, ConnectionError::Game(e).message())
            },
        }
    }


    /// `submitMove`: ends the turn of the sender's side. When the game ends
    /// it is closed: its players leave it and its replay is handed out.
    pub fn submit_move(&mut self, connection_id: u128) -> (r: Reply)
        requires
            old(self).inv(),
            old(self).spec_connections().contains_key(connection_id),
        ensures
            final(self).inv(),
            old(self).after_submit_move(*final(self), connection_id, r),
    {
        let game_id = match self.check_turn(connection_id, None) {
            Ok(g) => g,
            Err(e) => {
                return AppState::error_reply(connection_id, e.message());
            },
        };
        let ghost before = self.game.spec_games();
        let ghost old_conns = self.spec_connections();
        let mut session = match self.game.take_game(game_id) {
            Ok(s) => s,
            Err(e) => {
                return AppState::error_reply(connection_id, ConnectionError::GameService(e).message());
            },
        };
        let result = session.game.end_move();
        let ghost mid = session.game;
        let events = session.game.take_events();
        let ghost evs = events@;
        let mut reply = Reply { packets: Vec::new(), replays: Vec::new() };
        match result {
            Err(e) => {
                self.game.put_game(game_id, session);
                assert(self.game.spec_games().dom() =~= before.dom());
                assert(self.spec_lobbies() == old(self).spec_lobbies());
                assert(self.spec_connections() == old(self).spec_connections());
                assert(self.spec_games()[game_id].game.spec_events() =~= before[game_id].game.spec_events());
                proof {
                    lemma_games_sound_update(old(self).spec_games(), self.spec_games(), game_id);
                }
                assert(same_session(self.spec_games()[game_id], before[game_id]));
                AppState::error_reply(connection_id, ConnectionError::Game(e).message())
            },
            Ok(ended) => {
                AppState::fan_out(&session.listener, events, &mut reply);
                assert(outbound_views(reply.packets@) =~= fan_out_all(session.listener, evs));
                assert(reply.replays@ =~= replays_in(evs));
                assert(evs =~= mid.spec_events());
                if ended {
                    let players = session.listener.all_players();
                    let mut i: usize = 0;
                    while i < players.len()
                        invariant
                            i <= players@.len(),
                            self.spec_data() == old(self).spec_data(),
                            self.spec_lobbies() == old(self).spec_lobbies(),
                            self.spec_games() == before.remove(game_id),
                            self.spec_connections().dom() == old_conns.dom(),
                            forall|m: u128|
                                #[trigger] old_conns.contains_key(m) ==> self.spec_connections()[m]
                                    == if (exists|j: int| 0 <= j < i && players@[j] == m) {
                                    ConnectionData { game_id: None, ..old_conns[m] }
                                } else {
                                    old_conns[m]
                                },
                        decreases players@.len() - i,
                    {
                        let m = players[i];
                        let _ = self.ws_connection.set_game_id(m, None);
                        assert forall|m2: u128| #[trigger] old_conns.contains_key(m2) implies self.spec_connections()[m2]
                            == if (exists|j: int| 0 <= j < i + 1 && players@[j] == m2) {
                            ConnectionData { game_id: None, ..old_conns[m2] }
                        } else {
                            old_conns[m2]
                        } by {
                            if m2 == m {
                                assert(players@[i as int] == m2);
                            }
                        }
                        assert(self.spec_connections().dom() =~= old_conns.dom());
                        i = i + 1;
                    }
                    proof {
                        lemma_games_sound_update(old(self).spec_games(), self.spec_games(), game_id);
                    }
                    assert forall|c2: u128| #[trigger] self.spec_connections().contains_key(c2) implies !(
                    self.spec_connections()[c2].lobby_id is Some
                        && self.spec_connections()[c2].game_id is Some) by {
                        assert(old_conns.contains_key(c2));
                    }
                } else {
                    self.game.put_game(game_id, session);
                    assert(self.game.spec_games().dom() =~= before.dom());
                    assert(self.spec_lobbies() == old(self).spec_lobbies());
                    assert(self.spec_connections() == old(self).spec_connections());
                    proof {
                        lemma_games_sound_update(old(self).spec_games(), self.spec_games(), game_id);
                    }
                }
                reply
            },
        }
    }

    /// Handles one packet from `connection_id`. A refused packet changes
    /// nothing and is answered with one error packet to the sender alone.
    pub fn handle_client_packet(&mut self, connection_id: u128, packet: ClientPacket) -> (r:
        Reply)
        requires
            old(self).inv(),
            old(self).spec_connections().contains_key(connection_id),
        ensures
            final(self).inv(),
            match packet {
                ClientPacket::CreateGame(p) => old(self).after_create_game(*final(self), connection_id, p, r),
                ClientPacket::JoinGame(p) => old(self).after_join_game(*final(self), connection_id, p, r),
                ClientPacket::StartGame => old(self).after_start_game(*final(self), connection_id, r),
                ClientPacket::MoveMisterX(ms) => old(self).after_move_mister_x(
                    *final(self),
                    connection_id,
                    ms,
                    r,
                ),
                ClientPacket::MoveDetective(p) => old(self).after_move_detective(
                    *final(self),
                    connection_id,
                    p,
                    r,
                ),
                ClientPacket::SubmitMove => old(self).after_submit_move(*final(self), connection_id, r),
            },
    {
        match packet {
            ClientPacket::CreateGame(p) => self.create_game(connection_id, p),
            ClientPacket::JoinGame(p) => self.join_game(connection_id, p),
            ClientPacket::StartGame => self.start_game(connection_id),
            ClientPacket::MoveMisterX(ms) => self.move_mister_x(connection_id, ms),
            ClientPacket::MoveDetective(p) => self.move_detective(connection_id, p),
            ClientPacket::SubmitMove => self.submit_move(connection_id),
        }
    }

}

/// The settings a `createGame` packet asks for.
pub open spec fn packet_settings(p: CreateGamePacket) -> crate::lobby::Settings {
    crate::lobby::Settings { number_of_detectives: p.number_of_detectives }
}

/// A `submitMove` from a player whose side does not have the turn is
/// refused with "not your turn" (and so changes nothing).
pub proof fn lemma_submit_out_of_turn_refused(st: AppState, connection_id: u128)
    requires
        st.spec_connections().contains_key(connection_id),
        ({
            let c = st.spec_connections()[connection_id];
            &&& c.game_id is Some
            &&& st.spec_games().contains_key(c.game_id->0)
            &&& st.spec_games()[c.game_id->0].listener.spec_user_role(connection_id) != st.spec_games()[c.game_id->0].game.spec_role()
        }),
    ensures
        st.spec_refusal(connection_id, ClientPacket::SubmitMove) == Some(
            ConnectionError::NotAllowedForUser,
        ),
        ConnectionError::NotAllowedForUser.spec_message() == "not your turn"@,
{
}

/// A `joinGame` for an id that names no lobby is refused with "unknown
/// lobby".
pub proof fn lemma_join_unknown_lobby_refused(st: AppState, connection_id: u128, id: u128)
    requires
        st.spec_connections().contains_key(connection_id),
        st.spec_connections()[connection_id] == (ConnectionData { lobby_id: None, game_id: None }),
        !st.spec_lobbies().contains_key(id),
    ensures
        st.spec_refusal(connection_id, ClientPacket::JoinGame(JoinGamePacket { id })) == Some(
            ConnectionError::Lobby(LobbyServiceError::UnknownLobby),
        ),
        ConnectionError::Lobby(LobbyServiceError::UnknownLobby).spec_message() == "unknown lobby"@,
{
}

/// Once a connection has joined a lobby, any further `joinGame` from it
/// is refused with "game already joined".
pub proof fn lemma_second_join_refused(
    before: AppState,
    after: AppState,
    connection_id: u128,
    first: JoinGamePacket,
    second: JoinGamePacket,
)
    requires
        before.spec_connections().contains_key(connection_id),
        before.spec_refusal(connection_id, ClientPacket::JoinGame(first)) is None,
        after.spec_connections() == before.spec_connections().insert(
            connection_id,
            ConnectionData { lobby_id: Some(first.id), game_id: None },
        ),
    ensures
        after.spec_refusal(connection_id, ClientPacket::JoinGame(second)) == Some(
            ConnectionError::GameAlreadyJoined,
        ),
        ConnectionError::GameAlreadyJoined.spec_message() == "game already joined"@,
{
}

/// The packets of a run of events of the game `g` keep the fugitive's
/// station from detective players: every game state in them reaches the
/// fugitive's player with the station, and any other player without it
/// unless the round reveals the fugitive or the game is over.
pub proof fn lemma_packets_hide_station(g: crate::game::Game, l: GameEventListener, evs: Seq<GameEvent>)
    requires
        !l.spec_detective_players().contains(l.spec_mister_x_player()),
        forall|k: int|
            0 <= k < evs.len() ==> match #[trigger] evs[k] {
                GameEvent::GameState(s, b) => g.spec_state(s) && (b ==> g.spec_show_mister_x()
                    || g.spec_ended()),
                _ => true,
            },
    ensures
        forall|k: int|
            0 <= k < fan_out_all(l, evs).len() ==> {
                let o = #[trigger] fan_out_all(l, evs)[k];
                o.packet matches ServerPacketView::GameState(v) ==> {
                    &&& o.to == l.spec_mister_x_player() ==> v.station_id is Some
                    &&& o.to != l.spec_mister_x_player() && !g.spec_show_mister_x()
                        && !g.spec_ended() ==> v.station_id is None
                }
            },
    decreases evs.len(),
{
    if evs.len() > 0 {
        let rest = evs.drop_last();
        assert forall|k: int| 0 <= k < rest.len() implies match #[trigger] rest[k] {
            GameEvent::GameState(s, b) => g.spec_state(s) && (b ==> g.spec_show_mister_x()
                || g.spec_ended()),
            _ => true,
        } by {
            assert(rest[k] == evs[k]);
        }
        lemma_packets_hide_station(g, l, rest);
        let e = evs.last();
        assert(match evs[evs.len() - 1] {
            GameEvent::GameState(s, b) => g.spec_state(s) && (b ==> g.spec_show_mister_x()
                || g.spec_ended()),
            _ => true,
        });
        let head = fan_out_all(l, rest);
        let tail = l.spec_fan_out(e);
        let dets = l.spec_detective_players();
        let x = l.spec_mister_x_player();
        assert(fan_out_all(l, evs) == head + tail);
        assert forall|k: int| 0 <= k < tail.len() implies {
            let o = #[trigger] tail[k];
            o.packet matches ServerPacketView::GameState(v) ==> {
                &&& o.to == x ==> v.station_id is Some
                &&& o.to != x && !g.spec_show_mister_x() && !g.spec_ended() ==> v.station_id is None
            }
        } by {
            if k >= 1 {
                match e {
                    GameEvent::GameStarted => {
                        assert(tail[k] == to_each(dets, ServerPacketView::GameStarted(Role::Detective))[k - 1]);
                    },
                    GameEvent::GameState(s, b) => {
                        assert(tail[k] == to_each(
                            dets,
                            ServerPacketView::GameState(
                                GameStateView {
                                    station_id: if b {
                                        s@.station_id
                                    } else {
                                        None
                                    },
                                    ..s@
                                },
                            ),
                        )[k - 1]);
                        assert(dets.contains(dets[k - 1]));
                        assert(tail[k].to == dets[k - 1]);
                    },
                    _ => {},
                }
            }
            if k < dets.len() {
                match e {
                    GameEvent::RoundStarted(role) => {
                        assert(tail[k] == to_each(dets, ServerPacketView::StartMove(role))[k]);
                    },
                    GameEvent::MoveEnded => {
                        assert(tail[k] == to_each(dets, ServerPacketView::EndMove)[k]);
                    },
                    GameEvent::GameEnded(r) => {
                        assert(tail[k] == to_each(dets, ServerPacketView::GameEnded(r.winner))[k]);
                    },
                    _ => {},
                }
            }
        }
        assert forall|k: int| 0 <= k < fan_out_all(l, evs).len() implies {
            let o = #[trigger] fan_out_all(l, evs)[k];
            o.packet matches ServerPacketView::GameState(v) ==> {
                &&& o.to == x ==> v.station_id is Some
                &&& o.to != x && !g.spec_show_mister_x() && !g.spec_ended() ==> v.station_id is None
            }
        } by {
            if k < head.len() {
                assert(fan_out_all(l, evs)[k] == head[k]);
            } else {
                assert(fan_out_all(l, evs)[k] == tail[k - head.len()]);
            }
        }
    }
}

} // verus!
