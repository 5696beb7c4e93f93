use onlinetictactoe::framing::{decode_frame, encode_frame};
use onlinetictactoe::game::Player;
use onlinetictactoe::handshake::{handle_connection, Action, HandshakeError};
use onlinetictactoe::packets::{GameId, Packet};
use onlinetictactoe::registry::{first_free, generate_new_game_id, lowest_free, Registry};
use onlinetictactoe::serialization::SerializationError;

#[test]
fn claim_succeeds_once() {
    let mut registry: Registry<&str> = Registry::new();
    let id = GameId([1, 2, 3]);
    registry.register(id, "waiting");
    assert!(registry.contains(&id));
    assert_eq!(registry.len(), 1);
    assert_eq!(registry.claim(&id), Some("waiting"));
    assert_eq!(registry.claim(&id), None);
    assert_eq!(registry.claim(&id), None);
    assert!(!registry.contains(&id));
    assert_eq!(registry.len(), 0);
}

#[test]
fn register_replaces() {
    let mut registry: Registry<u32> = Registry::new();
    let id = GameId([9, 9, 9]);
    registry.register(id, 1);
    registry.register(id, 2);
    assert_eq!(registry.len(), 1);
    assert_eq!(registry.claim(&id), Some(2));
}

#[test]
fn generated_ids_are_free() {
    let mut registry: Registry<usize> = Registry::new();
    for i in 0..200 {
        let id = generate_new_game_id(&registry);
        assert!(!registry.contains(&id));
        registry.register(id, i);
    }
    assert_eq!(registry.len(), 200);
}

#[test]
fn create_then_join_scenario() {
    let mut registry: Registry<&str> = Registry::new();
    let step = handle_connection(&Packet::CreateGameRequest, &mut registry);
    let game_id = match step.outcome {
        Ok(Action::CreateGame { game_id }) => game_id,
        _ => panic!("create was not accepted"),
    };
    match step.reply {
        Some(Packet::GameCreatedResponse { game_id: replied, player_icon }) => {
            assert_eq!(replied, game_id);
            assert_eq!(player_icon, Player::X);
        }
        other => panic!("unexpected reply {:?}", other),
    }
    let text = game_id.to_string();
    assert_eq!(text.len(), 5);
    registry.register(game_id, "client A");
    assert!(registry.contains(&game_id));

    let join = Packet::JoinGameRequest { game_id: GameId::from_string(&text).unwrap() };
    let step = handle_connection(&join, &mut registry);
    assert!(matches!(step.reply, Some(Packet::GameJoinedResponse { player_icon: Player::O })));
    match step.outcome {
        Ok(Action::JoinGame { other }) => assert_eq!(other, "client A"),
        _ => panic!("join was not accepted"),
    }
    assert!(!registry.contains(&game_id));

    let step = handle_connection(&join, &mut registry);
    assert!(matches!(step.reply, Some(Packet::GameNotFoundResponse)));
    assert!(matches!(step.outcome, Err(HandshakeError::GameNotFound)));
}

#[test]
fn unexpected_first_message() {
    let mut registry: Registry<u8> = Registry::new();
    registry.register(GameId([0, 0, 1]), 5);
    let step = handle_connection(&Packet::YourTurnNotification, &mut registry);
    assert!(step.reply.is_none());
    assert!(matches!(step.outcome, Err(HandshakeError::UnexpectedFirstMessage)));
    assert_eq!(registry.len(), 1);
}

#[test]
fn frames() {
    let bytes = encode_frame(&Packet::GameJoinedResponse { player_icon: Player::O });
    assert_eq!(bytes, vec![4, 2]);
    assert!(matches!(decode_frame(&bytes), Ok(Packet::GameJoinedResponse { player_icon: Player::O })));
    assert_eq!(decode_frame(&[]).unwrap_err(), SerializationError::TruncatedInput);
    assert_eq!(decode_frame(&[13]).unwrap_err(), SerializationError::UnknownMessageType);
}

#[test]
fn first_free_takes_the_first_uncollided_draw() {
    let mut registry: Registry<u8> = Registry::new();
    let taken = GameId([1, 1, 1]);
    registry.register(taken, 0);
    registry.register(GameId([2, 2, 2]), 0);
    let draws = [taken, GameId([2, 2, 2]), GameId([3, 3, 3]), GameId([4, 4, 4])];
    assert_eq!(first_free(&registry, &draws), Some(GameId([3, 3, 3])));
    assert_eq!(first_free(&registry, &draws[..2]), None);
    assert_eq!(first_free(&registry, &[]), None);
    assert_eq!(first_free(&registry, &[GameId([9, 0, 0]), taken]), Some(GameId([9, 0, 0])));
}

#[test]
fn lowest_free_scans_upward() {
    let mut registry: Registry<u8> = Registry::new();
    assert_eq!(lowest_free(&registry), GameId([0, 0, 0]));
    registry.register(GameId([0, 0, 0]), 0);
    registry.register(GameId([0, 0, 1]), 0);
    registry.register(GameId([0, 0, 3]), 0);
    assert_eq!(lowest_free(&registry), GameId([0, 0, 2]));
    registry.register(GameId([0, 0, 2]), 0);
    assert_eq!(lowest_free(&registry), GameId([0, 0, 4]));
}
