use vstd::prelude::*;
use crate::event::{DetectiveActionType, GameState, MisterXActionType, Role};

verus! {

#[derive(Clone, Debug)]
pub struct ErrorPacket {
    pub message: String,
}

#[derive(Clone, Copy, Debug, PartialEq, Eq, Structural)]
pub struct CreateGamePacket {
    pub number_of_detectives: usize,
}

/// The id of a new lobby, as the 128 bits of its UUID.
#[derive(Clone, Copy, Debug, PartialEq, Eq, Structural)]
pub struct GamePacket {
    pub id: u128,
}

#[derive(Clone, Copy, Debug, PartialEq, Eq, Structural)]
pub struct JoinGamePacket {
    pub id: u128,
}

#[derive(Clone, Copy, Debug, PartialEq, Eq, Structural)]
pub struct GameStartedPacket {
    pub role: Role,
}

#[derive(Clone, Copy, Debug, PartialEq, Eq, Structural)]
pub struct StartMovePacket {
    pub role: Role,
}

#[derive(Clone, Copy, Debug, PartialEq, Eq, Structural)]
pub struct MoveMisterXPacket {
    pub station_id: u8,
    pub transport_type: MisterXActionType,
}

#[derive(Clone, Debug)]
pub struct MoveDetectivePacket {
    pub color: String,
    pub station_id: u8,
    pub transport_type: DetectiveActionType,
}

#[derive(Clone, Copy, Debug, PartialEq, Eq, Structural)]
pub struct GameEndedPacket {
    pub winner: Role,
}

/// Why an inbound message could not be read as a packet.
#[derive(Clone, Copy, Debug, PartialEq, Eq, Structural)]
pub enum PacketError {
    UnknownPacket,
    InvalidPacket,
}

impl PacketError {
    pub open spec fn spec_message(&self) -> Seq<char> {
        match self {
            PacketError::UnknownPacket => "unknown packet"@,
            PacketError::InvalidPacket => "invalid packet"@,
        }
    }

    pub fn message(&self) -> (r: String)
        ensures
            r@ == self.spec_message(),
    {
        match self {
            PacketError::UnknownPacket => "unknown packet".to_string(),
            PacketError::InvalidPacket => "invalid packet".to_string(),
        }
    }
}

/// A packet from the server to a client.
#[derive(Clone, Debug)]
pub enum ServerPacket {
    Error(ErrorPacket),
    Game(GamePacket),
    GameStarted(GameStartedPacket),
    StartMove(StartMovePacket),
    GameState(GameState),
    EndMove,
    GameEnded(GameEndedPacket),
}

/// The kinds of server packets, without their payloads.
#[derive(Clone, Copy, Debug, PartialEq, Eq, Structural)]
pub enum ServerPacketKind {
    Error,
    Game,
    GameStarted,
    StartMove,
    GameState,
    EndMove,
    GameEnded,
}

/// The kinds of client packets, without their payloads.
#[derive(Clone, Copy, Debug, PartialEq, Eq, Structural)]
pub enum ClientPacketKind {
    CreateGame,
    JoinGame,
    StartGame,
    MoveMisterX,
    MoveDetective,
    SubmitMove,
}

/// A packet from a client to the server.
#[derive(Clone, Debug)]
pub enum ClientPacket {
    CreateGame(CreateGamePacket),
    JoinGame(JoinGamePacket),
    StartGame,
    MoveMisterX(Vec<MoveMisterXPacket>),
    MoveDetective(MoveDetectivePacket),
    SubmitMove,
}

/// The frame name of a server packet kind, brackets included.
pub open spec fn server_name(k: ServerPacketKind) -> Seq<char> {
    match k {
        ServerPacketKind::Error => "[error]"@,
        ServerPacketKind::Game => "[game]"@,
        ServerPacketKind::GameStarted => "[gameStarted]"@,
        ServerPacketKind::StartMove => "[startMove]"@,
        ServerPacketKind::GameState => "[gameState]"@,
        ServerPacketKind::EndMove => "[endMove]"@,
        ServerPacketKind::GameEnded => "[gameEnded]"@,
    }
}

/// The frame name of a client packet kind, brackets included.
pub open spec fn client_name(k: ClientPacketKind) -> Seq<char> {
    match k {
        ClientPacketKind::CreateGame => "[createGame]"@,
        ClientPacketKind::JoinGame => "[joinGame]"@,
        ClientPacketKind::StartGame => "[startGame]"@,
        ClientPacketKind::MoveMisterX => "[moveMisterX]"@,
        ClientPacketKind::MoveDetective => "[moveDetective]"@,
        ClientPacketKind::SubmitMove => "[submitMove]"@,
    }
}

/// Whether packets of kind `k` carry a payload.
pub open spec fn client_has_payload(k: ClientPacketKind) -> bool {
    !(k == ClientPacketKind::StartGame || k == ClientPacketKind::SubmitMove)
}

pub open spec fn server_has_payload(k: ServerPacketKind) -> bool {
    k != ServerPacketKind::EndMove
}

impl ServerPacket {
    pub open spec fn spec_kind(&self) -> ServerPacketKind {
        match self {
            ServerPacket::Error(_) => ServerPacketKind::Error,
            ServerPacket::Game(_) => ServerPacketKind::Game,
            ServerPacket::GameStarted(_) => ServerPacketKind::GameStarted,
            ServerPacket::StartMove(_) => ServerPacketKind::StartMove,
            ServerPacket::GameState(_) => ServerPacketKind::GameState,
            ServerPacket::EndMove => ServerPacketKind::EndMove,
            ServerPacket::GameEnded(_) => ServerPacketKind::GameEnded,
        }
    }

    pub fn kind(&self) -> (r: ServerPacketKind)
        ensures
            r == self.spec_kind(),
    {
        match self {
            ServerPacket::Error(_) => ServerPacketKind::Error,
            ServerPacket::Game(_) => ServerPacketKind::Game,
            ServerPacket::GameStarted(_) => ServerPacketKind::GameStarted,
            ServerPacket::StartMove(_) => ServerPacketKind::StartMove,
            ServerPacket::GameState(_) => ServerPacketKind::GameState,
            ServerPacket::EndMove => ServerPacketKind::EndMove,
            ServerPacket::GameEnded(_) => ServerPacketKind::GameEnded,
        }
    }

    /// The frame name of this packet, brackets included.
    pub fn name(&self) -> (r: String)
        ensures
            r@ == server_name(self.spec_kind()),
    {
        server_kind_name(self.kind())
    }

    /// An error packet that carries `message`.
    pub fn from_error(message: String) -> (r: ServerPacket)
        ensures
            r matches ServerPacket::Error(e) && e.message@ == message@,
    {
        ServerPacket::Error(ErrorPacket { message })
    }
}

pub fn server_kind_name(k: ServerPacketKind) -> (r: String)
    ensures
        r@ == server_name(k),
{
    match k {
        ServerPacketKind::Error => "[error]".to_string(),
        ServerPacketKind::Game => "[game]".to_string(),
        ServerPacketKind::GameStarted => "[gameStarted]".to_string(),
        ServerPacketKind::StartMove => "[startMove]".to_string(),
        ServerPacketKind::GameState => "[gameState]".to_string(),
        ServerPacketKind::EndMove => "[endMove]".to_string(),
        ServerPacketKind::GameEnded => "[gameEnded]".to_string(),
    }
}

pub fn client_kind_name(k: ClientPacketKind) -> (r: String)
    ensures
        r@ == client_name(k),
{
    match k {
        ClientPacketKind::CreateGame => "[createGame]".to_string(),
        ClientPacketKind::JoinGame => "[joinGame]".to_string(),
        ClientPacketKind::StartGame => "[startGame]".to_string(),
        ClientPacketKind::MoveMisterX => "[moveMisterX]".to_string(),
        ClientPacketKind::MoveDetective => "[moveDetective]".to_string(),
        ClientPacketKind::SubmitMove => "[submitMove]".to_string(),
    }
}

impl ClientPacket {
    pub open spec fn spec_kind(&self) -> ClientPacketKind {
        match self {
            ClientPacket::CreateGame(_) => ClientPacketKind::CreateGame,
            ClientPacket::JoinGame(_) => ClientPacketKind::JoinGame,
            ClientPacket::StartGame => ClientPacketKind::StartGame,
            ClientPacket::MoveMisterX(_) => ClientPacketKind::MoveMisterX,
            ClientPacket::MoveDetective(_) => ClientPacketKind::MoveDetective,
            ClientPacket::SubmitMove => ClientPacketKind::SubmitMove,
        }
    }

    pub fn kind(&self) -> (r: ClientPacketKind)
        ensures
            r == self.spec_kind(),
    {
        match self {
            ClientPacket::CreateGame(_) => ClientPacketKind::CreateGame,
            ClientPacket::JoinGame(_) => ClientPacketKind::JoinGame,
            ClientPacket::StartGame => ClientPacketKind::StartGame,
            ClientPacket::MoveMisterX(_) => ClientPacketKind::MoveMisterX,
            ClientPacket::MoveDetective(_) => ClientPacketKind::MoveDetective,
            ClientPacket::SubmitMove => ClientPacketKind::SubmitMove,
        }
    }

    /// The frame name of this packet, brackets included.
    pub fn name(&self) -> (r: String)
        ensures
            r@ == client_name(self.spec_kind()),
    {
        client_kind_name(self.kind())
    }
}

/// The server packet kind a frame name stands for, if any.
pub open spec fn spec_server_kind(name: Seq<char>) -> Option<ServerPacketKind> {
    if name == server_name(ServerPacketKind::Error) {
        Some(ServerPacketKind::Error)
    } else if name == server_name(ServerPacketKind::Game) {
        Some(ServerPacketKind::Game)
    } else if name == server_name(ServerPacketKind::GameStarted) {
        Some(ServerPacketKind::GameStarted)
    } else if name == server_name(ServerPacketKind::StartMove) {
        Some(ServerPacketKind::StartMove)
    } else if name == server_name(ServerPacketKind::GameState) {
        Some(ServerPacketKind::GameState)
    } else if name == server_name(ServerPacketKind::EndMove) {
        Some(ServerPacketKind::EndMove)
    } else if name == server_name(ServerPacketKind::GameEnded) {
        Some(ServerPacketKind::GameEnded)
    } else {
        None
    }
}

/// The client packet kind a frame name stands for, if any.
pub open spec fn spec_client_kind(name: Seq<char>) -> Option<ClientPacketKind> {
    if name == client_name(ClientPacketKind::CreateGame) {
        Some(ClientPacketKind::CreateGame)
    } else if name == client_name(ClientPacketKind::JoinGame) {
        Some(ClientPacketKind::JoinGame)
    } else if name == client_name(ClientPacketKind::StartGame) {
        Some(ClientPacketKind::StartGame)
    } else if name == client_name(ClientPacketKind::MoveMisterX) {
        Some(ClientPacketKind::MoveMisterX)
    } else if name == client_name(ClientPacketKind::MoveDetective) {
        Some(ClientPacketKind::MoveDetective)
    } else if name == client_name(ClientPacketKind::SubmitMove) {
        Some(ClientPacketKind::SubmitMove)
    } else {
        None
    }
}

/// Reads the head of a client frame: its name (the text before the first
/// space) and whether a payload follows. An unknown name is
/// `UnknownPacket`; a known one that needs a payload and has none is
/// `InvalidPacket`.
pub fn client_frame_kind(name: &String, has_payload: bool) -> (r: Result<
    ClientPacketKind,
    PacketError,
>)
    ensures
        match spec_client_kind(name@) {
            None => r == Err::<ClientPacketKind, PacketError>(PacketError::UnknownPacket),
            Some(k) => if client_has_payload(k) && !has_payload {
                r == Err::<ClientPacketKind, PacketError>(PacketError::InvalidPacket)
            } else {
                r == Ok::<ClientPacketKind, PacketError>(k)
            },
        },
{
    let kinds = [
        ClientPacketKind::CreateGame,
        ClientPacketKind::JoinGame,
        ClientPacketKind::StartGame,
        ClientPacketKind::MoveMisterX,
        ClientPacketKind::MoveDetective,
        ClientPacketKind::SubmitMove,
    ];
    let mut i: usize = 0;
    while i < 6
        invariant
            i <= 6,
            kinds@ == seq![
                ClientPacketKind::CreateGame,
                ClientPacketKind::JoinGame,
                ClientPacketKind::StartGame,
                ClientPacketKind::MoveMisterX,
                ClientPacketKind::MoveDetective,
                ClientPacketKind::SubmitMove,
            ],
            forall|j: int| 0 <= j < i ==> name@ != client_name(#[trigger] kinds@[j]),
        decreases 6 - i,
    {
        let k = kinds[i];
        if *name == client_kind_name(k) {
            let payload = !(k == ClientPacketKind::StartGame || k == ClientPacketKind::SubmitMove);
            proof {
                lemma_client_names_distinct();
            }
            if payload && !has_payload {
                return Err(PacketError::InvalidPacket);
            }
            return Ok(k);
        }
        i = i + 1;
    }
    assert(spec_client_kind(name@) is None) by {
        assert(name@ != client_name(kinds@[0]));
        assert(name@ != client_name(kinds@[1]));
        assert(name@ != client_name(kinds@[2]));
        assert(name@ != client_name(kinds@[3]));
        assert(name@ != client_name(kinds@[4]));
        assert(name@ != client_name(kinds@[5]));
    }
    Err(PacketError::UnknownPacket)
}

/// Reads the name of a server frame, as a client does.
pub fn server_frame_kind(name: &String) -> (r: Option<ServerPacketKind>)
    ensures
        r == spec_server_kind(name@),
{
    let kinds = [
        ServerPacketKind::Error,
        ServerPacketKind::Game,
        ServerPacketKind::GameStarted,
        ServerPacketKind::StartMove,
        ServerPacketKind::GameState,
        ServerPacketKind::EndMove,
        ServerPacketKind::GameEnded,
    ];
    let mut i: usize = 0;
    while i < 7
        invariant
            i <= 7,
            kinds@ == seq![
                ServerPacketKind::Error,
                ServerPacketKind::Game,
                ServerPacketKind::GameStarted,
                ServerPacketKind::StartMove,
                ServerPacketKind::GameState,
                ServerPacketKind::EndMove,
                ServerPacketKind::GameEnded,
            ],
            forall|j: int| 0 <= j < i ==> name@ != server_name(#[trigger] kinds@[j]),
        decreases 7 - i,
    {
        let k = kinds[i];
        if *name == server_kind_name(k) {
            proof {
                lemma_server_names_distinct();
            }
            return Some(k);
        }
        i = i + 1;
    }
    assert(spec_server_kind(name@) is None) by {
        assert(name@ != server_name(kinds@[0]));
        assert(name@ != server_name(kinds@[1]));
        assert(name@ != server_name(kinds@[2]));
        assert(name@ != server_name(kinds@[3]));
        assert(name@ != server_name(kinds@[4]));
        assert(name@ != server_name(kinds@[5]));
        assert(name@ != server_name(kinds@[6]));
    }
    None
}

/// No two client packet kinds share a frame name.
pub proof fn lemma_client_names_distinct()
    ensures
        forall|a: ClientPacketKind, b: ClientPacketKind|
            client_name(a) == client_name(b) ==> a == b,
{
    reveal_strlit("[createGame]");
    reveal_strlit("[joinGame]");
    reveal_strlit("[startGame]");
    reveal_strlit("[moveMisterX]");
    reveal_strlit("[moveDetective]");
    reveal_strlit("[submitMove]");
    assert forall|a: ClientPacketKind, b: ClientPacketKind|
        client_name(a) == client_name(b) implies a == b by {
        if a != b {
            assert(client_name(a).len() != client_name(b).len() || client_name(a)[1]
                != client_name(b)[1] || client_name(a)[2] != client_name(b)[2]);
        }
    }
}

/// No two server packet kinds share a frame name.
pub proof fn lemma_server_names_distinct()
    ensures
        forall|a: ServerPacketKind, b: ServerPacketKind|
            server_name(a) == server_name(b) ==> a == b,
{
    reveal_strlit("[error]");
    reveal_strlit("[game]");
    reveal_strlit("[gameStarted]");
    reveal_strlit("[startMove]");
    reveal_strlit("[gameState]");
    reveal_strlit("[endMove]");
    reveal_strlit("[gameEnded]");
    assert forall|a: ServerPacketKind, b: ServerPacketKind|
        server_name(a) == server_name(b) implies a == b by {
        if a != b {
            assert(server_name(a).len() != server_name(b).len() || server_name(a)[1]
                != server_name(b)[1] || server_name(a)[5] != server_name(b)[5]);
        }
    }
}

/// Every server packet is read back, by its frame name, as its own kind.
pub proof fn lemma_server_name_round_trip(p: ServerPacket)
    ensures
        spec_server_kind(server_name(p.spec_kind())) == Some(p.spec_kind()),
{
    lemma_server_names_distinct();
}

/// Every client packet is read back, by its frame name, as its own kind.
pub proof fn lemma_client_name_round_trip(p: ClientPacket)
    ensures
        spec_client_kind(client_name(p.spec_kind())) == Some(p.spec_kind()),
{
    lemma_client_names_distinct();
}

} // verus!
