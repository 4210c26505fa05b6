use std::collections::HashMap;
use vstd::prelude::*;

verus! {

broadcast use vstd::std_specs::hash::group_hash_axioms;

/// What a lobby was created with.
#[derive(Clone, Copy, Debug, PartialEq, Eq, Structural)]
pub struct Settings {
    pub number_of_detectives: usize,
}

/// A game being gathered: its settings and the connections that joined, in
/// order.
#[derive(Debug)]
pub struct Lobby {
    pub settings: Settings,
    pub players: Vec<u128>,
}

#[derive(Clone, Copy, Debug, PartialEq, Eq, Structural)]
pub enum LobbyServiceError {
    UnknownLobby,
}

impl LobbyServiceError {
    pub fn message(&self) -> (r: String)
        ensures
            r@ == "unknown lobby"@,
    {
        "unknown lobby".to_string()
    }
}

/// The open lobbies, by id.
pub struct LobbyService {
    lobbies: HashMap<u128, Lobby>,
}

impl LobbyService {
    pub closed spec fn spec_lobbies(&self) -> Map<u128, Lobby> {
        self.lobbies@
    }

    pub fn new() -> (r: LobbyService)
        ensures
            r.spec_lobbies() == Map::<u128, Lobby>::empty(),
    {
        LobbyService { lobbies: HashMap::new() }
    }

    pub fn contains(&self, lobby_id: u128) -> (r: bool)
        ensures
            r == self.spec_lobbies().contains_key(lobby_id),
    {
        self.lobbies.contains_key(&lobby_id)
    }

    /// Opens an empty lobby under the unused id `lobby_id`.
    pub fn create(&mut self, number_of_detectives: usize, lobby_id: u128)
        requires
            !old(self).spec_lobbies().contains_key(lobby_id),
        ensures
            final(self).spec_lobbies().dom() == old(self).spec_lobbies().dom().insert(lobby_id),
            final(self).spec_lobbies()[lobby_id].settings.number_of_detectives
                == number_of_detectives,
            final(self).spec_lobbies()[lobby_id].players@ == Seq::<u128>::empty(),
            forall|k: u128|
                k != lobby_id && #[trigger] old(self).spec_lobbies().contains_key(k)
                    ==> final(self).spec_lobbies()[k] == old(self).spec_lobbies()[k],
    {
        self.lobbies.insert(
            lobby_id,
            Lobby { settings: Settings { number_of_detectives }, players: Vec::new() },
        );
    }

    pub fn get_lobby(&self, lobby_id: u128) -> (r: Result<&Lobby, LobbyServiceError>)
        ensures
            match r {
                Ok(l) => self.spec_lobbies().contains_key(lobby_id) && *l
                    == self.spec_lobbies()[lobby_id],
                Err(e) => !self.spec_lobbies().contains_key(lobby_id) && e
                    == LobbyServiceError::UnknownLobby,
            },
    {
        match self.lobbies.get(&lobby_id) {
            Some(l) => Ok(l),
            None => Err(LobbyServiceError::UnknownLobby),
        }
    }

    /// Adds `connection_id` to the members of the lobby `lobby_id`.
    pub fn join(&mut self, connection_id: u128, lobby_id: u128) -> (r: Result<
        (),
        LobbyServiceError,
    >)
        ensures
            old(self).spec_lobbies().contains_key(lobby_id) ==> {
                &&& r is Ok
                &&& final(self).spec_lobbies().dom() == old(self).spec_lobbies().dom()
                &&& final(self).spec_lobbies()[lobby_id].settings == old(
                    self,
                ).spec_lobbies()[lobby_id].settings
                &&& final(self).spec_lobbies()[lobby_id].players@ == old(
                    self,
                ).spec_lobbies()[lobby_id].players@.push(connection_id)
                &&& forall|k: u128|
                    k != lobby_id && #[trigger] old(self).spec_lobbies().contains_key(k)
                        ==> final(self).spec_lobbies()[k] == old(self).spec_lobbies()[k]
            },
            !old(self).spec_lobbies().contains_key(lobby_id) ==> r == Err::<(), LobbyServiceError>(
                LobbyServiceError::UnknownLobby,
            ) && final(self).spec_lobbies() == old(self).spec_lobbies(),
    {
        match self.lobbies.remove(&lobby_id) {
            Some(lobby) => {
                let mut lobby = lobby;
                lobby.players.push(connection_id);
                self.lobbies.insert(lobby_id, lobby);
                Ok(())
            },
            None => Err(LobbyServiceError::UnknownLobby),
        }
    }

    /// Closes the lobby `lobby_id` and hands it out, if it is open.
    pub fn close_lobby(&mut self, lobby_id: u128) -> (r: Option<Lobby>)
        ensures
            final(self).spec_lobbies() == old(self).spec_lobbies().remove(lobby_id),
            match r {
                Some(l) => old(self).spec_lobbies().contains_key(lobby_id) && l == old(
                    self,
                ).spec_lobbies()[lobby_id],
                None => !old(self).spec_lobbies().contains_key(lobby_id),
            },
    {
        self.lobbies.remove(&lobby_id)
    }
}

} // verus!
