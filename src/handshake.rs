//! The first exchange on a new connection: a request to create a game or to
//! join one, answered with at most one reply.

use vstd::prelude::*;
use crate::game::Player;
use crate::packets::{GameId, Packet};
use crate::registry::{generate_new_game_id, Registry, ID_SPACE};

verus! {

/// What becomes of a connection whose first message was accepted.
pub enum Action<S> {
    /// The connection waits under `game_id`; the caller registers it once
    /// the reply is sent.
    CreateGame { game_id: GameId },
    /// The connection joins the session that waited, which is now out of the
    /// registry.
    JoinGame { other: S },
}

/// Why a connection is closed after its first message.
#[derive(Debug, Clone, Copy, PartialEq, Eq, Structural)]
pub enum HandshakeError {
    /// No game waits under the requested identifier.
    GameNotFound,
    /// The first message was neither a create nor a join request.
    UnexpectedFirstMessage,
}

/// The reply to send, if any, and what becomes of the connection.
pub struct Step<S> {
    pub reply: Option<Packet>,
    pub outcome: Result<Action<S>, HandshakeError>,
}

/// Decides the reply to a connection's first message and updates the
/// registry: a create request gets a fresh identifier and icon X; a join
/// request takes the waiting session out and gets icon O, or is told the game
/// is not found; anything else is refused without a reply.
pub fn handle_connection<S>(request: &Packet, joinable_games: &mut Registry<S>) -> (r: Step<S>)
    requires
        request is CreateGameRequest ==> old(joinable_games)@.len() < ID_SPACE,
    ensures
        match *request {
            Packet::CreateGameRequest => {
                &&& final(joinable_games)@ == old(joinable_games)@
                &&& r.outcome is Ok
                &&& r.outcome->Ok_0 is CreateGame
                &&& !old(joinable_games)@.contains_key(r.outcome->Ok_0->CreateGame_game_id.value())
                &&& r.reply == Some(
                    Packet::GameCreatedResponse {
                        game_id: r.outcome->Ok_0->CreateGame_game_id,
                        player_icon: Player::X,
                    },
                )
            },
            Packet::JoinGameRequest { game_id } => {
                &&& final(joinable_games)@ == old(joinable_games)@.remove(game_id.value())
                &&& if old(joinable_games)@.contains_key(game_id.value()) {
                    &&& r.reply == Some(Packet::GameJoinedResponse { player_icon: Player::O })
                    &&& r.outcome is Ok
                    &&& r.outcome->Ok_0 is JoinGame
                    &&& r.outcome->Ok_0->JoinGame_other == old(joinable_games)@[game_id.value()]
                } else {
                    &&& r.reply == Some(Packet::GameNotFoundResponse)
                    &&& r.outcome == Err::<Action<S>, HandshakeError>(HandshakeError::GameNotFound)
                }
            },
            _ => {
                &&& final(joinable_games)@ == old(joinable_games)@
                &&& r.reply is None
                &&& r.outcome == Err::<Action<S>, HandshakeError>(HandshakeError::UnexpectedFirstMessage)
            },
        },
{
    match request {
        Packet::CreateGameRequest => {
            let game_id = generate_new_game_id(joinable_games);
            Step {
                reply: Some(Packet::GameCreatedResponse { game_id, player_icon: Player::X }),
                outcome: Ok(Action::CreateGame { game_id }),
            }
        },
        Packet::JoinGameRequest { game_id } => {
            match joinable_games.claim(game_id) {
                None => Step {
                    reply: Some(Packet::GameNotFoundResponse),
                    outcome: Err(HandshakeError::GameNotFound),
                },
                Some(other) => Step {
                    reply: Some(Packet::GameJoinedResponse { player_icon: Player::O }),
                    outcome: Ok(Action::JoinGame { other }),
                },
            }
        },
        _ => Step { reply: None, outcome: Err(HandshakeError::UnexpectedFirstMessage) },
    }
}

} // verus!
