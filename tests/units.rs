use game::app_state::AppState;
use game::bot::{
    detective_turn, join_packets, mister_x_turn, BotRuntime, BotStep, DetectiveAction, DetectiveMove,
    MisterXAction, MisterXMove,
};
use game::character::{ActionTypeTrait, Character};
use game::data::{Connection, StationType};
use game::detective::{self, Detective};
use game::event::{
    DetectiveActionType, DetectiveTransportData, GameEvent, MisterXAbilityData, MisterXActionType,
    Role,
};
use game::game::{Game, GameError};
use game::game_service::GameEventListener;
use game::map_utils::{all_valid_detective_moves, all_valid_mister_x_moves, has_connection};
use game::mister_x::{self, MisterX, MoveData};
use game::packet::{
    client_frame_kind, server_frame_kind, ClientPacketKind, GameEndedPacket, PacketError,
    ServerPacket, ServerPacketKind,
};
use game::packet::{ClientPacket, GameStartedPacket, StartMovePacket};
use game::replay;

fn edge(from: u8, to: u8, mode: StationType) -> Connection {
    Connection { from, to, mode }
}

fn map() -> Vec<Connection> {
    vec![
        edge(104, 110, StationType::Taxi),
        edge(104, 120, StationType::Water),
        edge(110, 120, StationType::Bus),
        edge(110, 106, StationType::Bus),
        edge(103, 109, StationType::Underground),
        edge(109, 103, StationType::Taxi),
    ]
}

#[test]
fn matches_by_transport() {
    assert!(DetectiveActionType::Taxi.matches(&StationType::Taxi));
    assert!(!DetectiveActionType::Taxi.matches(&StationType::Bus));
    assert!(!DetectiveActionType::Underground.matches(&StationType::Water));
    assert!(MisterXActionType::Hidden.matches(&StationType::Water));
    assert!(MisterXActionType::Hidden.matches(&StationType::Bus));
    assert!(!MisterXActionType::Bus.matches(&StationType::Water));
    assert!(MisterXActionType::Underground.matches(&StationType::Underground));
}

#[test]
fn edges_work_in_both_orientations() {
    let m = map();
    assert!(has_connection(&m, 110, 104, &MisterXActionType::Taxi));
    assert!(has_connection(&m, 103, 109, &DetectiveActionType::Taxi));
    assert!(has_connection(&m, 120, 104, &MisterXActionType::Hidden));
    assert!(!has_connection(&m, 104, 120, &MisterXActionType::Bus));
    assert!(!has_connection(&m, 104, 106, &MisterXActionType::Hidden));
}

#[test]
fn detective_moves_follow_tickets() {
    let m = map();
    let all = DetectiveTransportData { taxi: 1, bus: 1, underground: 1 };
    assert_eq!(
        all_valid_detective_moves(&m, 110, &all),
        vec![(104, DetectiveActionType::Taxi), (120, DetectiveActionType::Bus), (106, DetectiveActionType::Bus)]
    );
    let no_bus = DetectiveTransportData { taxi: 1, bus: 0, underground: 0 };
    assert_eq!(all_valid_detective_moves(&m, 110, &no_bus), vec![(104, DetectiveActionType::Taxi)]);
    assert_eq!(all_valid_detective_moves(&m, 120, &all), vec![(110, DetectiveActionType::Bus)]);
    let none = DetectiveTransportData { taxi: 0, bus: 0, underground: 0 };
    assert!(all_valid_detective_moves(&m, 110, &none).is_empty());
}

#[test]
fn mister_x_moves_follow_abilities() {
    let m = map();
    let with_hidden = MisterXAbilityData { double_move: 2, hidden: 1 };
    assert_eq!(
        all_valid_mister_x_moves(&m, 104, &with_hidden),
        vec![
            (110, MisterXActionType::Taxi),
            (110, MisterXActionType::Hidden),
            (120, MisterXActionType::Hidden),
        ]
    );
    let without = MisterXAbilityData { double_move: 2, hidden: 0 };
    assert_eq!(all_valid_mister_x_moves(&m, 104, &without), vec![(110, MisterXActionType::Taxi)]);
}

#[test]
fn detective_counts_tickets() {
    let mut d = Detective::new(100, "red".to_string());
    assert_eq!(d.color(), "red");
    assert_eq!((d.taxi(), d.bus(), d.underground()), (10, 8, 4));
    d.add_action(detective::Action { station: 106, action_type: DetectiveActionType::Taxi });
    d.add_action(detective::Action { station: 107, action_type: DetectiveActionType::Bus });
    assert_eq!((d.taxi(), d.bus(), d.underground()), (9, 7, 4));
    assert_eq!(d.station_id(), 107);
    assert_eq!(d.start_station(), 100);
    assert_eq!(d.action_types(), vec![DetectiveActionType::Taxi, DetectiveActionType::Bus]);
    assert_eq!(d.trim_actions(2), None);
    assert_eq!(
        d.trim_actions(1),
        Some(detective::Action { station: 107, action_type: DetectiveActionType::Bus })
    );
    assert_eq!(d.station_id(), 106);
    assert_eq!(d.number_of_actions(), 1);
}

#[test]
fn detective_without_tickets_can_not_move() {
    let tickets = DetectiveTransportData { taxi: 1, bus: 0, underground: 2 };
    let mut d = Detective::with_tickets(100, "blue".to_string(), tickets);
    assert!(d.can_do_action(&DetectiveActionType::Taxi));
    assert!(!d.can_do_action(&DetectiveActionType::Bus));
    d.add_action(detective::Action { station: 106, action_type: DetectiveActionType::Taxi });
    assert!(!d.can_do_action(&DetectiveActionType::Taxi));
    assert_eq!(d.tickets(), DetectiveTransportData { taxi: 0, bus: 0, underground: 2 });
}

#[test]
fn mister_x_counts_abilities() {
    let mut x = MisterX::new(104);
    assert_eq!((x.hidden(), x.double_moves()), (2, 2));
    x.add_action(mister_x::Action::Double(
        MoveData { station: 110, action_type: MisterXActionType::Taxi },
        MoveData { station: 120, action_type: MisterXActionType::Hidden },
    ));
    assert_eq!((x.hidden(), x.double_moves()), (1, 1));
    assert_eq!(x.station_id(), 120);
    assert_eq!(x.action_types(), vec![MisterXActionType::Taxi, MisterXActionType::Hidden]);
    x.add_action(mister_x::Action::Single(MoveData {
        station: 104,
        action_type: MisterXActionType::Hidden,
    }));
    assert_eq!(x.hidden(), 0);
    assert!(!x.can_do_action(&MisterXActionType::Hidden));
    assert!(x.can_do_action(&MisterXActionType::Bus));
    assert_eq!(x.abilities(), MisterXAbilityData { double_move: 1, hidden: 0 });
    x.trim_actions(1);
    assert_eq!(x.hidden(), 1);
    assert_eq!(x.station_id(), 120);
}

fn small_game() -> Game {
    let rounds = vec![
        game::data::Round { index: 1, show_mister_x: false },
        game::data::Round { index: 2, show_mister_x: true },
    ];
    Game::new(vec![("red".to_string(), 103)], 104, map(), rounds)
}

#[test]
fn game_reports_its_start() {
    let mut g = small_game();
    g.start();
    let events = g.take_events();
    assert_eq!(events.len(), 3);
    assert!(matches!(events[0], GameEvent::GameStarted));
    assert!(matches!(events[1], GameEvent::RoundStarted(Role::MisterX)));
    match &events[2] {
        GameEvent::GameState(s, show) => {
            assert!(!show);
            assert_eq!(s.mister_x.station_id, Some(104));
            assert_eq!(s.players[0].station_id, 103);
        },
        _ => panic!("expected a game state"),
    }
    assert!(g.take_events().is_empty());
}

#[test]
fn game_refuses_unknown_color() {
    let mut g = small_game();
    g.start();
    assert_eq!(g.move_mister_x(vec![(110, MisterXActionType::Taxi)]), Ok(()));
    assert_eq!(g.end_move(), Ok(false));
    assert_eq!(
        g.move_detective("black".to_string(), 109, DetectiveActionType::Taxi),
        Err(GameError::InvalidMove)
    );
    assert_eq!(g.move_detective("red".to_string(), 109, DetectiveActionType::Taxi), Ok(()));
    assert_eq!(g.end_move(), Ok(false));
    assert_eq!(g.round(), 1);
    assert_eq!(g.active_role(), Role::MisterX);
    assert!(g.should_show_mister_x());
}

#[test]
fn game_ends_after_last_round_with_replay() {
    let mut g = small_game();
    g.start();
    for (x_to, det_to) in [(110, 109), (104, 103)] {
        assert_eq!(g.move_mister_x(vec![(x_to, MisterXActionType::Taxi)]), Ok(()));
        assert_eq!(g.end_move(), Ok(false));
        assert_eq!(g.move_detective("red".to_string(), det_to, DetectiveActionType::Taxi), Ok(()));
        let ended = g.end_move();
        assert_eq!(ended, Ok(x_to == 104));
    }
    assert!(g.is_ended());
    let events = g.take_events();
    let replay = events
        .iter()
        .find_map(|e| match e {
            GameEvent::GameEnded(r) => Some(r.clone()),
            _ => None,
        })
        .unwrap();
    assert_eq!(replay.winner, Role::MisterX);
    assert_eq!(replay.mister_x_starting_station, 104);
    assert_eq!(replay.detective_starting_stations, vec![("red".to_string(), 103)]);
    assert_eq!(replay.actions.len(), 4);
    assert!(matches!(replay.actions[0], replay::Action::MisterX { station: 110, .. }));
    assert!(matches!(&replay.actions[1], replay::Action::Detective { station: 109, color, .. } if color == "red"));
    match events.last().unwrap() {
        GameEvent::GameState(s, show) => {
            assert!(show);
            assert_eq!(s.round, 2);
        },
        _ => panic!("expected a final game state"),
    }
}

#[test]
fn stuck_detective_may_pass() {
    let rounds = vec![game::data::Round { index: 1, show_mister_x: false }, game::data::Round { index: 2, show_mister_x: false }];
    let mut g = Game::new(vec![("red".to_string(), 50)], 104, map(), rounds);
    g.start();
    assert_eq!(g.move_mister_x(vec![(110, MisterXActionType::Taxi)]), Ok(()));
    assert_eq!(g.end_move(), Ok(false));
    assert_eq!(g.end_move(), Ok(false));
    assert_eq!(g.active_role(), Role::MisterX);
}

#[test]
fn game_error_messages() {
    assert_eq!(GameError::InvalidMove.message(), "invalid move");
    assert_eq!(GameError::NotAllMoved.message(), "not all moved");
}

#[test]
fn handels_unknown_packet() {
    assert_eq!(client_frame_kind(&"[dance]".to_string(), true), Err(PacketError::UnknownPacket));
    assert_eq!(PacketError::UnknownPacket.message(), "unknown packet");
    let reply = AppState::packet_error(5, PacketError::UnknownPacket);
    assert_eq!(reply.packets.len(), 1);
    assert_eq!(reply.packets[0].to, 5);
    assert!(matches!(&reply.packets[0].packet, ServerPacket::Error(e) if e.message == "unknown packet"));
}

#[test]
fn handels_invalid_packet() {
    assert_eq!(client_frame_kind(&"[joinGame]".to_string(), false), Err(PacketError::InvalidPacket));
    assert_eq!(PacketError::InvalidPacket.message(), "invalid packet");
    assert_eq!(client_frame_kind(&"[startGame]".to_string(), false), Ok(ClientPacketKind::StartGame));
    assert_eq!(client_frame_kind(&"[submitMove]".to_string(), false), Ok(ClientPacketKind::SubmitMove));
    assert_eq!(client_frame_kind(&"[moveMisterX]".to_string(), true), Ok(ClientPacketKind::MoveMisterX));
}

#[test]
fn server_packet_names_read_back() {
    let packets = vec![
        ServerPacket::EndMove,
        ServerPacket::GameEnded(GameEndedPacket { winner: Role::Detective }),
        ServerPacket::from_error("x".to_string()),
    ];
    for p in packets {
        assert_eq!(server_frame_kind(&p.name()), Some(p.kind()));
    }
    assert_eq!(ServerPacket::EndMove.name(), "[endMove]");
    assert_eq!(server_frame_kind(&"[gameState]".to_string()), Some(ServerPacketKind::GameState));
    assert_eq!(server_frame_kind(&"gameState".to_string()), None);
}

#[test]
fn listener_knows_roles() {
    let l = GameEventListener::new(vec![1, 2], 3);
    assert_eq!(l.get_user_role(3), Role::MisterX);
    assert_eq!(l.get_user_role(1), Role::Detective);
    assert_eq!(l.all_players(), vec![1, 2, 3]);
}

#[test]
fn bot_turns_become_packets() {
    let single = MisterXAction {
        first_move: MisterXMove { station: 110, action_type: MisterXActionType::Taxi },
        second_move: None,
    };
    let packets = single.to_packets();
    assert_eq!(packets.len(), 1);
    assert_eq!((packets[0].station_id, packets[0].transport_type), (110, MisterXActionType::Taxi));
    let double = MisterXAction {
        first_move: MisterXMove { station: 110, action_type: MisterXActionType::Taxi },
        second_move: Some(MisterXMove { station: 120, action_type: MisterXActionType::Hidden }),
    };
    let packets = double.to_packets();
    assert_eq!(packets.len(), 2);
    assert_eq!((packets[1].station_id, packets[1].transport_type), (120, MisterXActionType::Hidden));
    let det = DetectiveAction {
        moves: vec![
            DetectiveMove { color: "red".to_string(), station: 106, action_type: DetectiveActionType::Taxi },
            DetectiveMove { color: "blue".to_string(), station: 107, action_type: DetectiveActionType::Bus },
        ],
    };
    let packets = det.to_packets();
    assert_eq!(packets.len(), 2);
    assert_eq!(packets[1].color, "blue");
    assert_eq!(packets[1].station_id, 107);
    assert_eq!(packets[1].transport_type, DetectiveActionType::Bus);
}

#[test]
fn replay_reproduces_final_positions() {
    let rounds = vec![
        game::data::Round { index: 1, show_mister_x: false },
        game::data::Round { index: 2, show_mister_x: false },
        game::data::Round { index: 3, show_mister_x: false },
    ];
    let connections = vec![
        edge(104, 110, StationType::Taxi),
        edge(110, 120, StationType::Bus),
        edge(103, 109, StationType::Taxi),
        edge(109, 119, StationType::Bus),
        edge(50, 51, StationType::Taxi),
    ];
    let mut g = Game::new(vec![("red".to_string(), 103), ("blue".to_string(), 50)], 104, connections, rounds);
    g.start();
    assert_eq!(
        g.move_mister_x(vec![(110, MisterXActionType::Taxi), (120, MisterXActionType::Bus)]),
        Ok(())
    );
    assert_eq!(g.end_move(), Ok(false));
    assert_eq!(g.move_detective("red".to_string(), 109, DetectiveActionType::Taxi), Ok(()));
    assert_eq!(g.move_detective("blue".to_string(), 51, DetectiveActionType::Taxi), Ok(()));
    assert_eq!(g.end_move(), Ok(false));
    assert_eq!(g.move_mister_x(vec![(110, MisterXActionType::Bus)]), Ok(()));
    assert_eq!(g.end_move(), Ok(false));
    assert_eq!(g.move_detective("red".to_string(), 119, DetectiveActionType::Bus), Ok(()));
    assert_eq!(g.move_detective("blue".to_string(), 50, DetectiveActionType::Taxi), Ok(()));
    assert_eq!(g.end_move(), Ok(false));
    assert_eq!(g.move_mister_x(vec![(120, MisterXActionType::Bus)]), Ok(()));
    assert_eq!(g.end_move(), Ok(false));
    assert_eq!(g.move_detective("red".to_string(), 109, DetectiveActionType::Bus), Ok(()));
    assert_eq!(g.move_detective("blue".to_string(), 51, DetectiveActionType::Taxi), Ok(()));
    assert_eq!(g.end_move(), Ok(true));
    let replay = g
        .take_events()
        .into_iter()
        .find_map(|e| match e {
            GameEvent::GameEnded(r) => Some(r),
            _ => None,
        })
        .unwrap();
    assert_eq!(replay.winner, Role::MisterX);
    assert_eq!(replay.actions.len(), 4 + 6);
    let mut x = replay.mister_x_starting_station;
    let mut dets: Vec<(String, u8)> = replay.detective_starting_stations.clone();
    for a in &replay.actions {
        match a {
            replay::Action::MisterX { station, .. } => x = *station,
            replay::Action::Detective { color, station, .. } => {
                for d in dets.iter_mut() {
                    if &d.0 == color {
                        d.1 = *station;
                    }
                }
            },
        }
    }
    assert_eq!(x, g.mister_x().station_id());
    assert_eq!(x, 120);
    assert_eq!(dets, vec![("red".to_string(), 109), ("blue".to_string(), 51)]);
    for (i, d) in g.detectives().iter().enumerate() {
        assert_eq!(dets[i].1, d.station_id());
    }
}

#[test]
fn bot_runtime_decides_on_its_own_turn() {
    let joins = join_packets(42);
    assert!(matches!(joins[0], ClientPacket::JoinGame(p) if p.id == 42));
    assert!(matches!(joins[1], ClientPacket::StartGame));

    let mut bot = BotRuntime::new();
    assert!(matches!(
        bot.on_packet(ServerPacket::GameStarted(GameStartedPacket { role: Role::Detective })),
        BotStep::Wait
    ));
    assert_eq!(bot.role(), Some(Role::Detective));
    let state = || small_state();
    assert!(matches!(bot.on_packet(ServerPacket::StartMove(StartMovePacket { role: Role::MisterX })), BotStep::Wait));
    assert!(matches!(bot.on_packet(ServerPacket::GameState(state())), BotStep::Wait));
    assert!(matches!(bot.on_packet(ServerPacket::StartMove(StartMovePacket { role: Role::Detective })), BotStep::Wait));
    match bot.on_packet(ServerPacket::GameState(state())) {
        BotStep::Decide(s) => assert_eq!(s.round, 3),
        other => panic!("expected a decision, got {:?}", other),
    }
    assert!(matches!(bot.on_packet(ServerPacket::GameState(state())), BotStep::Wait));
    assert!(matches!(
        bot.on_packet(ServerPacket::GameEnded(GameEndedPacket { winner: Role::MisterX })),
        BotStep::Finished(Role::MisterX)
    ));

    let turn = mister_x_turn(&MisterXAction {
        first_move: MisterXMove { station: 110, action_type: MisterXActionType::Taxi },
        second_move: None,
    });
    assert_eq!(turn.len(), 2);
    assert!(matches!(&turn[0], ClientPacket::MoveMisterX(ms) if ms.len() == 1 && ms[0].station_id == 110));
    assert!(matches!(turn[1], ClientPacket::SubmitMove));
    let turn = detective_turn(&DetectiveAction {
        moves: vec![DetectiveMove { color: "red".to_string(), station: 106, action_type: DetectiveActionType::Taxi }],
    });
    assert_eq!(turn.len(), 2);
    assert!(matches!(&turn[0], ClientPacket::MoveDetective(p) if p.color == "red" && p.station_id == 106));
    assert!(matches!(turn[1], ClientPacket::SubmitMove));
}

fn small_state() -> game::event::GameState {
    game::event::GameState {
        players: vec![],
        mister_x: game::event::MisterXData {
            station_id: None,
            abilities: MisterXAbilityData { double_move: 2, hidden: 2 },
            moves: vec![],
        },
        round: 3,
    }
}
