use std::collections::HashMap;
use vstd::prelude::*;

verus! {

broadcast use vstd::std_specs::hash::group_hash_axioms;

/// What the server knows of one connection: the lobby or the game it is in.
#[derive(Clone, Copy, Debug, PartialEq, Eq, Structural)]
pub struct ConnectionData {
    pub lobby_id: Option<u128>,
    pub game_id: Option<u128>,
}

#[derive(Clone, Copy, Debug, PartialEq, Eq, Structural)]
pub enum WsConnectionServiceError {
    UnknownConnection,
}

/// The open connections, by id.
pub struct WsConnectionService {
    connections: HashMap<u128, ConnectionData>,
}

impl WsConnectionService {
    pub closed spec fn spec_connections(&self) -> Map<u128, ConnectionData> {
        self.connections@
    }

    pub fn new() -> (r: WsConnectionService)
        ensures
            r.spec_connections() == Map::<u128, ConnectionData>::empty(),
    {
        WsConnectionService { connections: HashMap::new() }
    }

    /// Records a new connection, in no lobby and no game.
    pub fn add_connection(&mut self, connection_id: u128)
        ensures
            final(self).spec_connections() == old(self).spec_connections().insert(
                connection_id,
                ConnectionData { lobby_id: None, game_id: None },
            ),
    {
        self.connections.insert(connection_id, ConnectionData { lobby_id: None, game_id: None });
    }

    /// Forgets a closed connection.
    pub fn remove_connection(&mut self, connection_id: u128)
        ensures
            final(self).spec_connections() == old(self).spec_connections().remove(connection_id),
    {
        self.connections.remove(&connection_id);
    }

    pub fn get(&self, connection_id: u128) -> (r: Result<ConnectionData, WsConnectionServiceError>)
        ensures
            match r {
                Ok(d) => self.spec_connections().contains_key(connection_id) && d
                    == self.spec_connections()[connection_id],
                Err(_) => !self.spec_connections().contains_key(connection_id),
            },
    {
        match self.connections.get(&connection_id) {
            Some(d) => Ok(*d),
            None => Err(WsConnectionServiceError::UnknownConnection),
        }
    }

    pub fn lobby_id(&self, connection_id: u128) -> (r: Result<
        Option<u128>,
        WsConnectionServiceError,
    >)
        ensures
            match r {
                Ok(l) => self.spec_connections().contains_key(connection_id) && l
                    == self.spec_connections()[connection_id].lobby_id,
                Err(_) => !self.spec_connections().contains_key(connection_id),
            },
    {
        match self.connections.get(&connection_id) {
            Some(d) => Ok(d.lobby_id),
            None => Err(WsConnectionServiceError::UnknownConnection),
        }
    }

    pub fn game_id(&self, connection_id: u128) -> (r: Result<
        Option<u128>,
        WsConnectionServiceError,
    >)
        ensures
            match r {
                Ok(g) => self.spec_connections().contains_key(connection_id) && g
                    == self.spec_connections()[connection_id].game_id,
                Err(_) => !self.spec_connections().contains_key(connection_id),
            },
    {
        match self.connections.get(&connection_id) {
            Some(d) => Ok(d.game_id),
            None => Err(WsConnectionServiceError::UnknownConnection),
        }
    }

    pub fn set_lobby_id(&mut self, connection_id: u128, lobby_id: Option<u128>) -> (r: Result<
        (),
        WsConnectionServiceError,
    >)
        ensures
            old(self).spec_connections().contains_key(connection_id) ==> (r is Ok)
                && final(self).spec_connections() == old(self).spec_connections().insert(
                connection_id,
                ConnectionData { lobby_id, ..old(self).spec_connections()[connection_id] },
            ),
            !old(self).spec_connections().contains_key(connection_id) ==> (r is Err)
                && final(self).spec_connections() == old(self).spec_connections(),
    {
        match self.connections.get(&connection_id) {
            Some(d) => {
                let updated = ConnectionData { lobby_id, game_id: d.game_id };
                self.connections.insert(connection_id, updated);
                Ok(())
            },
            None => Err(WsConnectionServiceError::UnknownConnection),
        }
    }

    pub fn set_game_id(&mut self, connection_id: u128, game_id: Option<u128>) -> (r: Result<
        (),
        WsConnectionServiceError,
    >)
        ensures
            old(self).spec_connections().contains_key(connection_id) ==> (r is Ok)
                && final(self).spec_connections() == old(self).spec_connections().insert(
                connection_id,
                ConnectionData { game_id, ..old(self).spec_connections()[connection_id] },
            ),
            !old(self).spec_connections().contains_key(connection_id) ==> (r is Err)
                && final(self).spec_connections() == old(self).spec_connections(),
    {
        match self.connections.get(&connection_id) {
            Some(d) => {
                let updated = ConnectionData { lobby_id: d.lobby_id, game_id };
                self.connections.insert(connection_id, updated);
                Ok(())
            },
            None => Err(WsConnectionServiceError::UnknownConnection),
        }
    }
}

} // verus!
