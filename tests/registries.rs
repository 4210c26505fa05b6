use game::lobby::{LobbyService, LobbyServiceError};
use game::ws_connection::{ConnectionData, WsConnectionService, WsConnectionServiceError};

#[test]
fn connections_track_lobby_and_game() {
    let mut c = WsConnectionService::new();
    assert_eq!(c.lobby_id(1), Err(WsConnectionServiceError::UnknownConnection));
    assert_eq!(c.set_game_id(1, Some(3)), Err(WsConnectionServiceError::UnknownConnection));
    c.add_connection(1);
    assert_eq!(c.get(1), Ok(ConnectionData { lobby_id: None, game_id: None }));
    assert_eq!(c.set_lobby_id(1, Some(9)), Ok(()));
    assert_eq!(c.lobby_id(1), Ok(Some(9)));
    assert_eq!(c.set_game_id(1, Some(9)), Ok(()));
    assert_eq!(c.set_lobby_id(1, None), Ok(()));
    assert_eq!(c.get(1), Ok(ConnectionData { lobby_id: None, game_id: Some(9) }));
    assert_eq!(c.game_id(1), Ok(Some(9)));
    c.remove_connection(1);
    assert_eq!(c.game_id(1), Err(WsConnectionServiceError::UnknownConnection));
}

#[test]
fn lobbies_gather_members() {
    let mut l = LobbyService::new();
    assert_eq!(l.join(5, 77).unwrap_err(), LobbyServiceError::UnknownLobby);
    assert_eq!(LobbyServiceError::UnknownLobby.message(), "unknown lobby");
    l.create(3, 77);
    assert!(l.contains(77));
    assert_eq!(l.join(5, 77), Ok(()));
    assert_eq!(l.join(6, 77), Ok(()));
    let lobby = l.get_lobby(77).unwrap();
    assert_eq!(lobby.players, vec![5, 6]);
    assert_eq!(lobby.settings.number_of_detectives, 3);
    let closed = l.close_lobby(77).unwrap();
    assert_eq!(closed.players, vec![5, 6]);
    assert!(!l.contains(77));
    assert!(l.close_lobby(77).is_none());
}
