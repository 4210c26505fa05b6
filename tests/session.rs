use game::app_state::{AppState, Reply};
use game::data::{Connection, DataService, Round, Station, StationType};
use game::event::{
    DetectiveActionType, DetectiveTransportData, GameState, MisterXAbilityData, MisterXActionType,
    Role,
};
use game::packet::{
    ClientPacket, CreateGamePacket, JoinGamePacket, MoveDetectivePacket, MoveMisterXPacket,
    ServerPacket,
};

fn edge(from: u8, to: u8, mode: StationType) -> Connection {
    Connection { from, to, mode }
}

fn test_connections() -> Vec<Connection> {
    vec![
        edge(100, 106, StationType::Taxi),
        edge(100, 110, StationType::Taxi),
        edge(100, 116, StationType::Taxi),
        edge(101, 107, StationType::Bus),
        edge(101, 117, StationType::Bus),
        edge(102, 108, StationType::Bus),
        edge(102, 118, StationType::Bus),
        edge(103, 109, StationType::Underground),
        edge(103, 109, StationType::Taxi),
        edge(103, 119, StationType::Underground),
        edge(103, 119, StationType::Taxi),
        edge(104, 110, StationType::Taxi),
        edge(104, 120, StationType::Water),
        edge(110, 120, StationType::Bus),
        edge(110, 106, StationType::Bus),
    ]
}

fn test_stations() -> Vec<Station> {
    (0..25)
        .map(|i| Station {
            id: 100 + i,
            pos_x: 0,
            pos_y: 0,
            types: vec![
                StationType::Taxi,
                StationType::Bus,
                StationType::Underground,
                StationType::Water,
            ],
        })
        .collect()
}

fn rounds(count: u8) -> Vec<Round> {
    (1..=count)
        .map(|index| Round {
            index,
            show_mister_x: [3, 8, 13, 18, 24].contains(&index),
        })
        .collect()
}

fn test_data(round_count: u8) -> DataService {
    DataService::new(test_stations(), test_connections(), vec![100, 101, 102, 103], vec![104])
        .with_rounds(rounds(round_count))
}

struct TestGame {
    state: AppState,
    mister_x: u128,
    detective: u128,
    colors: Vec<String>,
    start: Reply,
}

fn lobby_with_two(state: &mut AppState) -> (u128, u128, u128) {
    let a = state.connect().unwrap();
    let b = state.connect().unwrap();
    let reply = state.handle_client_packet(
        a,
        ClientPacket::CreateGame(CreateGamePacket { number_of_detectives: 4 }),
    );
    let id = match &reply.packets[0].packet {
        ServerPacket::Game(g) => g.id,
        other => panic!("expected a game packet, got {:?}", other),
    };
    assert_eq!(reply.packets[0].to, a);
    assert!(state.handle_client_packet(a, ClientPacket::JoinGame(JoinGamePacket { id })).packets.is_empty());
    assert!(state.handle_client_packet(b, ClientPacket::JoinGame(JoinGamePacket { id })).packets.is_empty());
    (a, b, id)
}

fn start_with_rounds(round_count: u8) -> TestGame {
    let mut state = AppState::new(test_data(round_count));
    let (a, b, _) = lobby_with_two(&mut state);
    let start = state.start_game_with(a, 0, vec![100, 101, 102, 103], 104);
    TestGame {
        state,
        mister_x: a,
        detective: b,
        colors: vec!["red".into(), "blue".into(), "green".into(), "yellow".into()],
        start,
    }
}

fn start_game() -> TestGame {
    start_with_rounds(7)
}

fn errors_to(reply: &Reply, to: u128) -> Vec<String> {
    reply
        .packets
        .iter()
        .filter(|o| o.to == to)
        .filter_map(|o| match &o.packet {
            ServerPacket::Error(e) => Some(e.message.clone()),
            _ => None,
        })
        .collect()
}

fn states_to(reply: &Reply, to: u128) -> Vec<GameState> {
    reply
        .packets
        .iter()
        .filter(|o| o.to == to)
        .filter_map(|o| match &o.packet {
            ServerPacket::GameState(s) => Some(s.clone()),
            _ => None,
        })
        .collect()
}

fn last_state_to(reply: &Reply, to: u128) -> GameState {
    states_to(reply, to).pop().expect("a game state")
}

fn kinds_to(reply: &Reply, to: u128) -> Vec<String> {
    reply
        .packets
        .iter()
        .filter(|o| o.to == to)
        .map(|o| o.packet.name())
        .collect()
}

fn winner_to(reply: &Reply, to: u128) -> Option<Role> {
    reply.packets.iter().filter(|o| o.to == to).find_map(|o| match &o.packet {
        ServerPacket::GameEnded(p) => Some(p.winner),
        _ => None,
    })
}

fn start_moves_to(reply: &Reply, to: u128) -> Vec<Role> {
    reply
        .packets
        .iter()
        .filter(|o| o.to == to)
        .filter_map(|o| match &o.packet {
            ServerPacket::StartMove(p) => Some(p.role),
            _ => None,
        })
        .collect()
}

fn x_move(station_id: u8, transport_type: MisterXActionType) -> MoveMisterXPacket {
    MoveMisterXPacket { station_id, transport_type }
}

fn det_type(name: &str) -> DetectiveActionType {
    match name {
        "taxi" => DetectiveActionType::Taxi,
        "bus" => DetectiveActionType::Bus,
        _ => DetectiveActionType::Underground,
    }
}

impl TestGame {
    fn move_x(&mut self, moves: Vec<MoveMisterXPacket>) -> Reply {
        self.state.handle_client_packet(self.mister_x, ClientPacket::MoveMisterX(moves))
    }

    fn submit(&mut self, who: u128) -> Reply {
        self.state.handle_client_packet(who, ClientPacket::SubmitMove)
    }

    fn move_detective(&mut self, who: u128, color: &str, station: u8, kind: &str) -> Reply {
        self.state.handle_client_packet(
            who,
            ClientPacket::MoveDetective(MoveDetectivePacket {
                color: color.to_string(),
                station_id: station,
                transport_type: det_type(kind),
            }),
        )
    }

    fn send_detective_move(&mut self, color_index: usize, station: u8, kind: &str) -> GameState {
        let color = self.colors[color_index].clone();
        let reply = self.move_detective(self.detective, &color, station, kind);
        assert!(errors_to(&reply, self.detective).is_empty(), "{:?}", errors_to(&reply, self.detective));
        last_state_to(&reply, self.detective)
    }

    /// Moves the fugitive once and ends its turn; gives the detectives' view.
    fn full_move_mister_x(&mut self, moves: Vec<MoveMisterXPacket>) -> GameState {
        let reply = self.move_x(moves);
        assert!(reply.packets.is_empty(), "{:?}", errors_to(&reply, self.mister_x));
        let reply = self.submit(self.mister_x);
        assert_eq!(
            kinds_to(&reply, self.detective),
            vec!["[endMove]", "[startMove]", "[gameState]"]
        );
        assert_eq!(start_moves_to(&reply, self.detective), vec![Role::Detective]);
        last_state_to(&reply, self.detective)
    }

    fn full_move_detectives(&mut self, stations: &[u8], kinds: &[&str]) -> Reply {
        for i in 0..4 {
            let _ = self.send_detective_move(i, stations[i], kinds[i]);
        }
        self.submit(self.detective)
    }
}

#[test]
fn correctly_starts_round() {
    let game = start_game();
    let x = &game.start;
    assert_eq!(
        kinds_to(x, game.mister_x),
        vec!["[gameStarted]", "[startMove]", "[gameState]"]
    );
    assert_eq!(start_moves_to(x, game.mister_x), vec![Role::MisterX]);
    assert_eq!(start_moves_to(x, game.detective), vec![Role::MisterX]);
    let roles: Vec<Role> = x
        .packets
        .iter()
        .filter_map(|o| match &o.packet {
            ServerPacket::GameStarted(p) => Some((o.to, p.role)),
            _ => None,
        })
        .map(|(to, role)| {
            assert_eq!(role, if to == game.mister_x { Role::MisterX } else { Role::Detective });
            role
        })
        .collect();
    assert_eq!(roles.len(), 2);

    assert!(last_state_to(x, game.mister_x).mister_x.station_id.is_some());
    let state = last_state_to(x, game.detective);
    assert!(state.mister_x.station_id.is_none());
    assert_eq!(state.players.len(), 4);
    assert_eq!(state.players[0].available_transport.taxi, 10);
    assert_eq!(state.players[0].available_transport.bus, 8);
    assert_eq!(state.players[0].available_transport.underground, 4);
    for i in 1..4 {
        assert_ne!(state.players[0].color, state.players[i].color);
        assert_ne!(state.players[0].station_id, state.players[i].station_id);
    }
    assert_eq!(state.mister_x.abilities.double_move, 2);
    assert_eq!(state.mister_x.abilities.hidden, 2);
    assert_eq!(state.mister_x.moves.len(), 0);
    assert_eq!(state.round, 0);
}

#[test]
fn can_move() {
    let mut game = start_game();
    let state = game.full_move_mister_x(vec![x_move(110, MisterXActionType::Taxi)]);
    assert_eq!(state.mister_x.moves, vec![MisterXActionType::Taxi]);

    let s = game.send_detective_move(0, 106, "taxi");
    assert_eq!(s.players[0].station_id, 106);
    assert_eq!(s.players[0].available_transport.taxi, 9);
    let s = game.send_detective_move(1, 107, "bus");
    assert_eq!(s.players[1].station_id, 107);
    assert_eq!(s.players[1].available_transport.bus, 7);
    let s = game.send_detective_move(2, 108, "bus");
    assert_eq!(s.players[2].station_id, 108);
    assert_eq!(s.players[2].available_transport.bus, 7);
    let s = game.send_detective_move(3, 109, "underground");
    assert_eq!(s.players[3].station_id, 109);
    assert_eq!(s.players[3].available_transport.underground, 3);

    let reply = game.submit(game.detective);
    assert_eq!(kinds_to(&reply, game.mister_x)[0], "[endMove]");
    assert_eq!(kinds_to(&reply, game.detective)[0], "[endMove]");
    assert_eq!(start_moves_to(&reply, game.mister_x), vec![Role::MisterX]);
}

#[test]
fn non_active_can_not_send_or_submit_move() {
    let mut game = start_game();
    let det = game.detective;
    let reply = game
        .state
        .handle_client_packet(det, ClientPacket::MoveMisterX(vec![x_move(110, MisterXActionType::Taxi)]));
    assert_eq!(errors_to(&reply, det), vec!["not your turn"]);
    assert_eq!(reply.packets.len(), 1);

    let reply = game.move_detective(det, "red", 106, "taxi");
    assert_eq!(errors_to(&reply, det), vec!["not your turn"]);

    assert!(game.move_x(vec![x_move(110, MisterXActionType::Taxi)]).packets.is_empty());
    let reply = game.submit(det);
    assert_eq!(errors_to(&reply, det), vec!["not your turn"]);
    assert_eq!(reply.packets.len(), 1);

    let reply = game.submit(game.mister_x);
    assert_eq!(kinds_to(&reply, det), vec!["[endMove]", "[startMove]", "[gameState]"]);

    let x = game.mister_x;
    let reply = game.move_detective(x, "red", 106, "taxi");
    assert_eq!(errors_to(&reply, x), vec!["not your turn"]);
    let reply = game.move_x(vec![x_move(110, MisterXActionType::Taxi)]);
    assert_eq!(errors_to(&reply, x), vec!["not your turn"]);

    let _ = game.send_detective_move(0, 106, "taxi");
    let _ = game.send_detective_move(1, 107, "bus");
    let _ = game.send_detective_move(2, 108, "bus");
    let _ = game.send_detective_move(3, 109, "underground");

    let reply = game.submit(x);
    assert_eq!(errors_to(&reply, x), vec!["not your turn"]);
    let reply = game.submit(det);
    assert_eq!(kinds_to(&reply, x)[0], "[endMove]");
}

#[test]
fn out_of_turn_submit_leaves_the_game_as_it_was() {
    let mut game = start_game();
    game.move_x(vec![x_move(110, MisterXActionType::Taxi)]);
    let det = game.detective;
    let reply = game.submit(det);
    assert_eq!(errors_to(&reply, det), vec!["not your turn"]);
    let state = game.full_move_mister_x(vec![x_move(110, MisterXActionType::Taxi)]);
    assert_eq!(state.round, 0);
    assert_eq!(state.mister_x.moves, vec![MisterXActionType::Taxi]);
}

#[test]
fn can_only_submit_if_all_moved() {
    let mut game = start_game();
    let x = game.mister_x;
    let reply = game.submit(x);
    assert_eq!(errors_to(&reply, x), vec!["not all moved"]);
    let _ = game.full_move_mister_x(vec![x_move(110, MisterXActionType::Taxi)]);

    let det = game.detective;
    let reply = game.submit(det);
    assert_eq!(errors_to(&reply, det), vec!["not all moved"]);
    let moves = [(106, "taxi"), (107, "bus"), (108, "bus")];
    for (i, (station, kind)) in moves.iter().enumerate() {
        let _ = game.send_detective_move(i, *station, kind);
        let reply = game.submit(det);
        assert_eq!(errors_to(&reply, det), vec!["not all moved"]);
    }
    let _ = game.send_detective_move(3, 109, "underground");
    let reply = game.submit(det);
    assert_eq!(kinds_to(&reply, det)[0], "[endMove]");
}

#[test]
fn can_change_move() {
    let mut game = start_game();
    assert!(game.move_x(vec![x_move(120, MisterXActionType::Hidden)]).packets.is_empty());
    let state = game.full_move_mister_x(vec![x_move(110, MisterXActionType::Taxi)]);
    assert_eq!(state.mister_x.moves, vec![MisterXActionType::Taxi]);
    assert_eq!(state.mister_x.abilities.hidden, 2);

    let _ = game.send_detective_move(0, 116, "taxi");
    let s = game.send_detective_move(0, 106, "taxi");
    assert_eq!(s.players[0].station_id, 106);
    assert_eq!(s.players[0].available_transport.taxi, 9);
    let _ = game.send_detective_move(1, 117, "bus");
    let s = game.send_detective_move(1, 107, "bus");
    assert_eq!(s.players[1].station_id, 107);
    assert_eq!(s.players[1].available_transport.bus, 7);
    let _ = game.send_detective_move(2, 108, "bus");
    let s = game.send_detective_move(2, 118, "bus");
    assert_eq!(s.players[2].station_id, 118);
    assert_eq!(s.players[2].available_transport.bus, 7);
    let _ = game.send_detective_move(3, 109, "underground");
    let s = game.send_detective_move(3, 119, "underground");
    assert_eq!(s.players[3].station_id, 119);
    assert_eq!(s.players[3].available_transport.underground, 3);
    let reply = game.submit(game.detective);
    assert_eq!(kinds_to(&reply, game.detective)[0], "[endMove]");
}

#[test]
fn can_double_move() {
    let mut game = start_game();
    let x = game.mister_x;
    let reply = game.move_x(vec![]);
    assert_eq!(errors_to(&reply, x), vec!["invalid move"]);
    let three = vec![
        x_move(110, MisterXActionType::Taxi),
        x_move(110, MisterXActionType::Taxi),
        x_move(110, MisterXActionType::Taxi),
    ];
    let reply = game.move_x(three);
    assert_eq!(errors_to(&reply, x), vec!["invalid move"]);

    let state = game.full_move_mister_x(vec![
        x_move(110, MisterXActionType::Taxi),
        x_move(120, MisterXActionType::Hidden),
    ]);
    assert_eq!(state.mister_x.moves, vec![MisterXActionType::Taxi, MisterXActionType::Hidden]);
    assert_eq!(state.mister_x.abilities.double_move, 1);
    assert_eq!(state.mister_x.abilities.hidden, 1);
}

#[test]
fn can_move_hidden() {
    let mut game = start_game();
    let state = game.full_move_mister_x(vec![x_move(120, MisterXActionType::Hidden)]);
    assert_eq!(state.mister_x.moves, vec![MisterXActionType::Hidden]);
    assert_eq!(state.mister_x.abilities.hidden, 1);
}

#[test]
fn can_only_do_valid_moves() {
    let mut game = start_game();
    let x = game.mister_x;
    let reply = game.move_x(vec![x_move(110, MisterXActionType::Bus)]);
    assert_eq!(errors_to(&reply, x), vec!["invalid move"]);
    assert_eq!(reply.packets.len(), 1);
    let reply = game.move_x(vec![x_move(106, MisterXActionType::Taxi)]);
    assert_eq!(errors_to(&reply, x), vec!["invalid move"]);

    assert!(game.move_x(vec![x_move(110, MisterXActionType::Hidden)]).packets.is_empty());
    let det = game.detective;
    let reply = game.submit(det);
    assert_eq!(errors_to(&reply, det), vec!["not your turn"]);
    let _ = game.full_move_mister_x(vec![x_move(110, MisterXActionType::Hidden)]);

    let reply = game.move_detective(det, "red", 106, "underground");
    assert_eq!(errors_to(&reply, det), vec!["invalid move"]);
    let reply = game.move_detective(det, "red", 107, "bus");
    assert_eq!(errors_to(&reply, det), vec!["invalid move"]);
    let reply = game.move_detective(det, "black", 106, "taxi");
    assert_eq!(errors_to(&reply, det), vec!["invalid move"]);
    let _ = game.send_detective_move(0, 106, "taxi");
}

#[test]
fn invalid_edge_leaves_state_unchanged() {
    let mut game = start_game();
    let x = game.mister_x;
    let reply = game.move_x(vec![x_move(110, MisterXActionType::Bus)]);
    assert_eq!(errors_to(&reply, x), vec!["invalid move"]);
    let reply = game.submit(x);
    assert_eq!(errors_to(&reply, x), vec!["not all moved"]);
    let state = game.full_move_mister_x(vec![x_move(110, MisterXActionType::Taxi)]);
    assert_eq!(state.mister_x.moves, vec![MisterXActionType::Taxi]);
}

#[test]
fn refused_change_keeps_the_earlier_move() {
    let mut game = start_game();
    let x = game.mister_x;
    assert!(game.move_x(vec![x_move(110, MisterXActionType::Taxi)]).packets.is_empty());
    let reply = game.move_x(vec![x_move(106, MisterXActionType::Taxi)]);
    assert_eq!(errors_to(&reply, x), vec!["invalid move"]);
    let reply = game.submit(x);
    let state = last_state_to(&reply, x);
    assert_eq!(state.mister_x.station_id, Some(110));
}

#[test]
fn mister_x_hidden() {
    let mut game = start_game();
    game.full_move_mister_x(vec![x_move(110, MisterXActionType::Hidden)]);
    game.full_move_detectives(&[106, 107, 108, 109], &["taxi", "bus", "bus", "taxi"]);
    let state = game.full_move_mister_x(vec![x_move(104, MisterXActionType::Hidden)]);
    assert_eq!(state.mister_x.abilities.hidden, 0);
    game.full_move_detectives(&[100, 101, 102, 103], &["taxi", "bus", "bus", "taxi"]);

    let x = game.mister_x;
    let reply = game.move_x(vec![x_move(110, MisterXActionType::Hidden)]);
    assert_eq!(errors_to(&reply, x), vec!["invalid move"]);
    let reply = game.move_x(vec![x_move(120, MisterXActionType::Hidden)]);
    assert_eq!(errors_to(&reply, x), vec!["invalid move"]);
    assert!(game.move_x(vec![x_move(110, MisterXActionType::Taxi)]).packets.is_empty());
}

#[test]
fn two_hidden_moves_need_two_tokens() {
    let mut game = start_game();
    game.full_move_mister_x(vec![x_move(120, MisterXActionType::Hidden)]);
    game.full_move_detectives(&[106, 107, 108, 109], &["taxi", "bus", "bus", "taxi"]);
    let x = game.mister_x;
    let reply = game.move_x(vec![
        x_move(110, MisterXActionType::Hidden),
        x_move(104, MisterXActionType::Hidden),
    ]);
    assert_eq!(errors_to(&reply, x), vec!["invalid move"]);
}

#[test]
fn mister_x_double() {
    let mut game = start_game();
    let double = || vec![x_move(110, MisterXActionType::Taxi), x_move(104, MisterXActionType::Taxi)];
    game.full_move_mister_x(double());
    game.full_move_detectives(&[106, 107, 108, 109], &["taxi", "bus", "bus", "taxi"]);
    let state = game.full_move_mister_x(double());
    assert_eq!(state.mister_x.abilities.double_move, 0);
    game.full_move_detectives(&[100, 101, 102, 103], &["taxi", "bus", "bus", "taxi"]);

    let x = game.mister_x;
    let reply = game.move_x(double());
    assert_eq!(errors_to(&reply, x), vec!["invalid move"]);
}

#[test]
fn detective_undeground() {
    let mut game = start_game();
    for _ in 0..2 {
        game.full_move_mister_x(vec![x_move(110, MisterXActionType::Taxi)]);
        game.full_move_detectives(&[106, 107, 108, 109], &["taxi", "bus", "bus", "underground"]);
        game.full_move_mister_x(vec![x_move(104, MisterXActionType::Taxi)]);
        game.full_move_detectives(&[100, 101, 102, 103], &["taxi", "bus", "bus", "underground"]);
    }
    game.full_move_mister_x(vec![x_move(110, MisterXActionType::Taxi)]);
    let det = game.detective;
    let reply = game.move_detective(det, "yellow", 109, "underground");
    assert_eq!(errors_to(&reply, det), vec!["invalid move"]);
    let state = game.send_detective_move(3, 109, "taxi");
    assert_eq!(state.players[3].available_transport.underground, 0);
}

#[test]
fn shows_mister_x() {
    let mut game = start_game();
    let det = game.detective;
    let state = game.full_move_mister_x(vec![x_move(110, MisterXActionType::Taxi)]);
    assert!(state.mister_x.station_id.is_none());
    let reply = game.full_move_detectives(&[106, 107, 108, 109], &["taxi", "bus", "bus", "taxi"]);
    assert!(last_state_to(&reply, det).mister_x.station_id.is_none());

    let state = game.full_move_mister_x(vec![x_move(104, MisterXActionType::Taxi)]);
    assert!(state.mister_x.station_id.is_none());
    game.full_move_detectives(&[100, 101, 102, 103], &["taxi", "bus", "bus", "taxi"]);

    let state = game.full_move_mister_x(vec![x_move(110, MisterXActionType::Taxi)]);
    assert_eq!(state.mister_x.station_id, Some(110));
    let moved = game.send_detective_move(0, 106, "taxi");
    assert_eq!(moved.mister_x.station_id, Some(110));
    let _ = game.send_detective_move(1, 107, "bus");
    let _ = game.send_detective_move(2, 108, "bus");
    let _ = game.send_detective_move(3, 109, "taxi");
    let reply = game.submit(det);
    assert!(last_state_to(&reply, det).mister_x.station_id.is_none());

    let state = game.full_move_mister_x(vec![x_move(104, MisterXActionType::Taxi)]);
    assert!(state.mister_x.station_id.is_none());
}

#[test]
fn mister_x_always_sees_own_station() {
    let mut game = start_game();
    let x = game.mister_x;
    let reply = game.move_x(vec![x_move(110, MisterXActionType::Taxi)]);
    assert!(reply.packets.is_empty());
    let reply = game.submit(x);
    for state in states_to(&reply, x) {
        assert_eq!(state.mister_x.station_id, Some(110));
    }
    let reply = game.full_move_detectives(&[106, 107, 108, 109], &["taxi", "bus", "bus", "taxi"]);
    for state in states_to(&reply, x) {
        assert_eq!(state.mister_x.station_id, Some(110));
    }
}

#[test]
fn can_lose_after_detective_move() {
    let mut game = start_game();
    let _ = game.full_move_mister_x(vec![x_move(110, MisterXActionType::Hidden)]);
    let reply = game.full_move_detectives(&[110, 107, 108, 109], &["taxi", "bus", "bus", "underground"]);
    assert_eq!(winner_to(&reply, game.detective), Some(Role::Detective));
    assert_eq!(winner_to(&reply, game.mister_x), Some(Role::Detective));
    assert_eq!(reply.replays.len(), 1);
    assert_eq!(reply.replays[0].winner, Role::Detective);
    let last = last_state_to(&reply, game.detective);
    assert_eq!(last.mister_x.station_id, Some(110));
}

#[test]
fn happy_taxi_opener() {
    let mut state = AppState::new(test_data(7));
    let a = state.connect().unwrap();
    let b = state.connect().unwrap();
    let reply = state.handle_client_packet(
        a,
        ClientPacket::CreateGame(CreateGamePacket { number_of_detectives: 1 }),
    );
    let id = match &reply.packets[0].packet {
        ServerPacket::Game(g) => g.id,
        _ => panic!("expected a game packet"),
    };
    state.handle_client_packet(a, ClientPacket::JoinGame(JoinGamePacket { id }));
    state.handle_client_packet(b, ClientPacket::JoinGame(JoinGamePacket { id }));
    let start = state.start_game_with(a, 0, vec![100], 104);
    assert_eq!(last_state_to(&start, b).players.len(), 1);
    let mut game = TestGame {
        state,
        mister_x: a,
        detective: b,
        colors: vec!["red".into()],
        start,
    };
    let _ = game.full_move_mister_x(vec![x_move(110, MisterXActionType::Taxi)]);
    let _ = game.send_detective_move(0, 110, "taxi");
    let reply = game.submit(game.detective);
    assert_eq!(winner_to(&reply, game.detective), Some(Role::Detective));
    assert_eq!(winner_to(&reply, game.mister_x), Some(Role::Detective));
    let kinds = kinds_to(&reply, game.detective);
    assert_eq!(kinds, vec!["[endMove]", "[gameEnded]", "[gameState]"]);
}

#[test]
fn can_lose_after_mister_x_move() {
    let mut game = start_game();
    let _ = game.full_move_mister_x(vec![x_move(110, MisterXActionType::Hidden)]);
    let _ = game.full_move_detectives(&[106, 107, 108, 109], &["taxi", "bus", "bus", "underground"]);
    let x = game.mister_x;
    assert!(game.move_x(vec![x_move(106, MisterXActionType::Bus)]).packets.is_empty());
    let reply = game.submit(x);
    assert_eq!(winner_to(&reply, game.detective), Some(Role::Detective));
    assert_eq!(winner_to(&reply, x), Some(Role::Detective));
}

#[test]
fn can_lose() {
    let mut game = start_game();
    for round in 0..7 {
        let to = if round % 2 == 0 { 110 } else { 104 };
        let _ = game.full_move_mister_x(vec![x_move(to, MisterXActionType::Taxi)]);
        let (stations, kinds) = if round % 2 == 0 {
            ([116, 117, 118, 119], ["taxi", "bus", "bus", "taxi"])
        } else {
            ([100, 101, 102, 103], ["taxi", "bus", "bus", "taxi"])
        };
        let reply = game.full_move_detectives(&stations, &kinds);
        if round == 6 {
            assert_eq!(winner_to(&reply, game.detective), Some(Role::MisterX));
            assert_eq!(reply.replays.len(), 1);
            assert_eq!(reply.replays[0].winner, Role::MisterX);
            assert_eq!(reply.replays[0].mister_x_starting_station, 104);
            assert_eq!(reply.replays[0].actions.len(), 7 * 5);
        } else {
            assert_eq!(winner_to(&reply, game.detective), None);
        }
    }
}

#[test]
fn timeout_of_rounds() {
    let mut game = start_with_rounds(24);
    let data = DataService::new(test_stations(), test_connections(), vec![100, 101, 102, 103], vec![104])
        .with_starting_resources(
            DetectiveTransportData { taxi: 50, bus: 50, underground: 50 },
            MisterXAbilityData { double_move: 2, hidden: 2 },
        );
    let mut state = AppState::new(data);
    let (a, b, _) = lobby_with_two(&mut state);
    let start = state.start_game_with(a, 0, vec![100, 101, 102, 103], 104);
    game.state = state;
    game.mister_x = a;
    game.detective = b;
    game.start = start;
    for round in 0..24 {
        let to = if round % 2 == 0 { 110 } else { 104 };
        let _ = game.full_move_mister_x(vec![x_move(to, MisterXActionType::Taxi)]);
        let (stations, kinds) = if round % 2 == 0 {
            ([116, 117, 118, 119], ["taxi", "bus", "bus", "taxi"])
        } else {
            ([100, 101, 102, 103], ["taxi", "bus", "bus", "taxi"])
        };
        let reply = game.full_move_detectives(&stations, &kinds);
        if round == 23 {
            assert_eq!(winner_to(&reply, game.mister_x), Some(Role::MisterX));
        } else {
            assert_eq!(winner_to(&reply, game.mister_x), None);
        }
    }
}

#[test]
fn sends_error_after_finished_game() {
    let mut game = start_game();
    let _ = game.full_move_mister_x(vec![x_move(110, MisterXActionType::Taxi)]);
    let reply = game.full_move_detectives(&[110, 107, 108, 109], &["taxi", "bus", "bus", "taxi"]);
    assert_eq!(winner_to(&reply, game.mister_x), Some(Role::Detective));
    let x = game.mister_x;
    let reply = game.move_x(vec![x_move(104, MisterXActionType::Taxi)]);
    assert_eq!(errors_to(&reply, x), vec!["not in game"]);
    let reply = game.submit(game.detective);
    assert_eq!(errors_to(&reply, game.detective), vec!["not in game"]);
}

#[test]
fn sends_error() {
    let mut state = AppState::new(test_data(7));
    let a = state.connect().unwrap();
    let reply = state.handle_client_packet(a, ClientPacket::SubmitMove);
    assert_eq!(errors_to(&reply, a), vec!["not in game"]);
    let reply = state.handle_client_packet(
        a,
        ClientPacket::MoveMisterX(vec![x_move(110, MisterXActionType::Taxi)]),
    );
    assert_eq!(errors_to(&reply, a), vec!["not in game"]);
    let reply = state.handle_client_packet(a, ClientPacket::StartGame);
    assert_eq!(errors_to(&reply, a), vec!["not in lobby"]);
}

#[test]
fn create_game_can_start_game() {
    let mut state = AppState::new(test_data(7));
    let (a, b, _) = lobby_with_two(&mut state);
    let reply = state.handle_client_packet(b, ClientPacket::StartGame);
    let started: Vec<u128> = reply
        .packets
        .iter()
        .filter(|o| matches!(o.packet, ServerPacket::GameStarted(_)))
        .map(|o| o.to)
        .collect();
    assert_eq!(started.len(), 2);
    assert!(started.contains(&a) && started.contains(&b));
    let x = reply
        .packets
        .iter()
        .find_map(|o| match &o.packet {
            ServerPacket::GameStarted(p) if p.role == Role::MisterX => Some(o.to),
            _ => None,
        })
        .unwrap();
    let state_x = last_state_to(&reply, x);
    let station = state_x.mister_x.station_id.unwrap();
    assert_eq!(station, 104);
    let det_stations: Vec<u8> = state_x.players.iter().map(|p| p.station_id).collect();
    let mut sorted = det_stations.clone();
    sorted.sort();
    assert_eq!(sorted, vec![100, 101, 102, 103]);
    let colors: Vec<String> = state_x.players.iter().map(|p| p.color.clone()).collect();
    assert_eq!(colors, vec!["red", "blue", "green", "yellow"]);
}

#[test]
fn create_game_can_not_join_game_twice() {
    let mut state = AppState::new(test_data(7));
    let (a, _, id) = lobby_with_two(&mut state);
    let reply = state.handle_client_packet(a, ClientPacket::JoinGame(JoinGamePacket { id }));
    assert_eq!(errors_to(&reply, a), vec!["game already joined"]);
}

#[test]
fn create_game_can_not_join_unknown_game() {
    let mut state = AppState::new(test_data(7));
    let a = state.connect().unwrap();
    let reply = state.handle_client_packet(a, ClientPacket::JoinGame(JoinGamePacket { id: 7 }));
    assert_eq!(errors_to(&reply, a), vec!["unknown lobby"]);
    assert_eq!(reply.packets.len(), 1);
}

#[test]
fn create_game_can_not_start_game_without_enough_players() {
    let mut state = AppState::new(test_data(7));
    let a = state.connect().unwrap();
    let reply = state.handle_client_packet(
        a,
        ClientPacket::CreateGame(CreateGamePacket { number_of_detectives: 4 }),
    );
    let id = match &reply.packets[0].packet {
        ServerPacket::Game(g) => g.id,
        _ => panic!("expected a game packet"),
    };
    state.handle_client_packet(a, ClientPacket::JoinGame(JoinGamePacket { id }));
    let reply = state.handle_client_packet(a, ClientPacket::StartGame);
    assert_eq!(errors_to(&reply, a), vec!["game does not have enough players"]);
}

#[test]
fn too_many_detectives_are_refused() {
    let mut state = AppState::new(test_data(7));
    let a = state.connect().unwrap();
    let b = state.connect().unwrap();
    let reply = state.handle_client_packet(
        a,
        ClientPacket::CreateGame(CreateGamePacket { number_of_detectives: 6 }),
    );
    let id = match &reply.packets[0].packet {
        ServerPacket::Game(g) => g.id,
        _ => panic!("expected a game packet"),
    };
    state.handle_client_packet(a, ClientPacket::JoinGame(JoinGamePacket { id }));
    state.handle_client_packet(b, ClientPacket::JoinGame(JoinGamePacket { id }));
    let reply = state.handle_client_packet(a, ClientPacket::StartGame);
    assert_eq!(errors_to(&reply, a), vec!["too many detectives"]);
}

#[test]
fn can_not_join_started_game() {
    let mut game = start_game();
    let c = game.state.connect().unwrap();
    let id = match &game.state.handle_client_packet(
        c,
        ClientPacket::CreateGame(CreateGamePacket { number_of_detectives: 1 }),
    ).packets[0].packet
    {
        ServerPacket::Game(g) => g.id,
        _ => panic!("expected a game packet"),
    };
    assert_ne!(id, 0);
    let x = game.mister_x;
    let reply = game.state.handle_client_packet(x, ClientPacket::JoinGame(JoinGamePacket { id }));
    assert_eq!(errors_to(&reply, x), vec!["game already joined"]);
}

#[test]
fn disconnected_player_leaves_game_running() {
    let mut game = start_game();
    game.state.disconnect(game.detective);
    assert!(game.move_x(vec![x_move(110, MisterXActionType::Taxi)]).packets.is_empty());
    let reply = game.submit(game.mister_x);
    assert_eq!(start_moves_to(&reply, game.mister_x), vec![Role::Detective]);
}

#[test]
fn ids_in_use_are_refused() {
    let mut state = AppState::new(test_data(7));
    assert_eq!(state.connect_with(5), Some(5));
    assert_eq!(state.connect_with(5), None);
    let reply = state.create_game_with(5, CreateGamePacket { number_of_detectives: 2 }, 77);
    assert!(matches!(&reply.packets[0].packet, ServerPacket::Game(g) if g.id == 77));
    let reply = state.create_game_with(5, CreateGamePacket { number_of_detectives: 2 }, 77);
    assert_eq!(errors_to(&reply, 5), vec!["id already in use"]);
    assert_eq!(reply.packets.len(), 1);
    let reply = state.handle_client_packet(5, ClientPacket::JoinGame(JoinGamePacket { id: 77 }));
    assert!(reply.packets.is_empty());
}
