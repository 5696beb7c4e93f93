use onlinetictactoe::game::{Grid, Player, Pos};
use onlinetictactoe::packets::{get_base32_value, GameId, Packet};
use onlinetictactoe::serialization::{deserialize_flags, serialize_flags, SerializationError};

fn round_trip(packet: Packet) -> Packet {
    let mut buffer = [0u8; 16];
    let written = packet.serialize(&mut buffer).unwrap();
    let (read, decoded) = Packet::deserialize(&buffer[..written]).unwrap();
    assert_eq!(read, written);
    decoded
}

#[test]
fn player_ids() {
    assert_eq!(Player::NONE.id(), 0);
    assert_eq!(Player::X.id(), 1);
    assert_eq!(Player::O.id(), 2);
    assert_eq!(Player::from_id(1), Ok(Player::X));
    assert_eq!(Player::from_id(2), Ok(Player::O));
    assert_eq!(Player::from_id(0), Ok(Player::NONE));
    assert_eq!(Player::from_id(3), Err(SerializationError::InvalidEnumValue));
}

#[test]
fn player_byte_three_is_invalid() {
    assert_eq!(Player::deserialize(&[3]), Err(SerializationError::InvalidEnumValue));
    assert_eq!(Player::deserialize(&[]), Err(SerializationError::TruncatedInput));
    assert_eq!(Player::deserialize(&[2, 9]), Ok((1, Player::O)));
}

#[test]
fn board_scenario_encoding() {
    let mut cells = [[Player::NONE; 3]; 3];
    cells[0][0] = Player::X;
    cells[0][1] = Player::O;
    let grid = Grid { cells };
    let mut buffer = [0xAAu8; 4];
    assert_eq!(grid.serialize(&mut buffer), Ok(3));
    // X (1) at bit offset 0 and O (2) at bit offset 2.
    assert_eq!(buffer, [0b001001, 0x00, 0x00, 0xAA]);
    let (n, back) = Grid::deserialize(&buffer).unwrap();
    assert_eq!(n, 3);
    assert_eq!(back.cells, cells);
    let (_, swapped) = Grid::deserialize(&[0b000110, 0x00, 0x00]).unwrap();
    assert_eq!(swapped.cells[0], [Player::O, Player::X, Player::NONE]);
}

#[test]
fn board_full_packing() {
    let grid = Grid {
        cells: [
            [Player::O, Player::O, Player::O],
            [Player::NONE, Player::X, Player::NONE],
            [Player::X, Player::NONE, Player::O],
        ],
    };
    let mut buffer = [0u8; 3];
    grid.serialize(&mut buffer).unwrap();
    assert_eq!(buffer, [0b101010, 0b000100, 0b100001]);
    assert_eq!(Grid::deserialize(&buffer).unwrap().1.cells, grid.cells);
}

#[test]
fn board_decode_ignores_high_bits_and_rejects_three() {
    let (_, grid) = Grid::deserialize(&[0b1100_0001, 0, 0]).unwrap();
    assert_eq!(grid.cells[0], [Player::X, Player::NONE, Player::NONE]);
    assert_eq!(Grid::deserialize(&[0b0011_0000, 0, 0]).unwrap_err(), SerializationError::InvalidEnumValue);
    assert_eq!(Grid::deserialize(&[0, 0, 0b11]).unwrap_err(), SerializationError::InvalidEnumValue);
    assert_eq!(Grid::deserialize(&[0, 0]).unwrap_err(), SerializationError::TruncatedInput);
}

#[test]
fn board_encode_needs_three_bytes() {
    let grid = Grid { cells: [[Player::X; 3]; 3] };
    let mut buffer = [7u8; 2];
    assert_eq!(grid.serialize(&mut buffer), Err(SerializationError::TruncatedInput));
    assert_eq!(buffer, [7, 7]);
}

#[test]
fn coordinate_scenario() {
    let mut buffer = [0u8; 1];
    assert_eq!(Pos { x: 2, y: 1 }.serialize(&mut buffer), Ok(1));
    assert_eq!(buffer, [0x21]);
    assert_eq!(Pos::deserialize(&[0x21]), Ok((1, Pos { x: 2, y: 1 })));
    assert_eq!(Pos::deserialize(&[0xF0]), Ok((1, Pos { x: 15, y: 0 })));
    assert_eq!(Pos::deserialize(&[]), Err(SerializationError::TruncatedInput));
}

#[test]
fn place_request_scenario() {
    let mut buffer = [0u8; 2];
    let packet = Packet::PlaceRequest { p: Pos { x: 2, y: 1 } };
    assert_eq!(packet.serialize(&mut buffer), Ok(2));
    assert_eq!(buffer, [9, 0x21]);
    match round_trip(packet) {
        Packet::PlaceRequest { p } => assert_eq!(p, Pos { x: 2, y: 1 }),
        other => panic!("unexpected {:?}", other),
    }
}

#[test]
fn flags_pack_one_bit_each() {
    let mut buffer = [0u8; 1];
    assert_eq!(serialize_flags(&mut buffer, &[true, false, true]), Ok(1));
    assert_eq!(buffer, [0b101]);
    assert_eq!(deserialize_flags(&buffer, 3), Ok((1, vec![true, false, true])));
    assert_eq!(deserialize_flags(&[], 1), Err(SerializationError::TruncatedInput));
    let mut empty: [u8; 0] = [];
    assert_eq!(serialize_flags(&mut empty, &[true]), Err(SerializationError::TruncatedInput));
}

#[test]
fn game_id_binary_is_identity() {
    let id = GameId([0x12, 0x34, 0x56]);
    let mut buffer = [0u8; 3];
    assert_eq!(id.serialize(&mut buffer), Ok(3));
    assert_eq!(buffer, [0x12, 0x34, 0x56]);
    assert_eq!(GameId::deserialize(&[0x12, 0x34, 0x56, 0x99]), Ok((3, id)));
    assert_eq!(GameId::deserialize(&[1, 2]), Err(SerializationError::TruncatedInput));
    assert_eq!(id.key(), 0x123456);
}

#[test]
fn game_id_text_values() {
    assert_eq!(GameId([0, 0, 0]).to_string(), "AAAAA");
    assert_eq!(GameId([0xFF, 0xFF, 0xFF]).to_string(), "7777P");
    assert_eq!(GameId([0x08, 0x00, 0x00]).to_string(), "BAAAA");
    assert_eq!(GameId([0x00, 0x00, 0x01]).to_string(), "AAAAB");
    assert_eq!(GameId([0x00, 0x00, 0x1F]).to_string(), "AAABP");
    assert_eq!(GameId::from_string("BAAAA"), Ok(GameId([0x08, 0, 0])));
    assert_eq!(GameId::from_string("AAAAB"), Ok(GameId([0, 0, 1])));
    assert_eq!(GameId::from_string("7777P"), Ok(GameId([0xFF, 0xFF, 0xFF])));
    assert_eq!(GameId::from_string("AAAAQ"), Ok(GameId([0, 0, 0])));
}

#[test]
fn game_id_text_round_trip() {
    for value in [0u32, 1, 2, 31, 32, 0x123456, 0xABCDEF, 0x7FFFFF, 0xFFFFFF, 0x010203] {
        let id = GameId([(value >> 16) as u8, (value >> 8) as u8, value as u8]);
        let text = id.to_string();
        assert_eq!(text.chars().count(), 5);
        assert!(text.chars().all(|c| c.is_ascii_uppercase() || ('2'..='7').contains(&c)));
        assert!(get_base32_value(&text.chars().last().unwrap()).unwrap() < 16);
        assert_eq!(GameId::from_string(&text), Ok(id));
    }
}

#[test]
fn game_id_text_rejections() {
    assert_eq!(GameId::from_string(""), Err(()));
    assert_eq!(GameId::from_string("AAAA"), Err(()));
    assert_eq!(GameId::from_string("AAAAAA"), Err(()));
    assert_eq!(GameId::from_string("AAAA1"), Err(()));
    assert_eq!(GameId::from_string("AAAA8"), Err(()));
    assert_eq!(GameId::from_string("aaaaa"), Err(()));
    assert_eq!(GameId::from_string("AA AA"), Err(()));
    assert_eq!(GameId::from_string("AAAA\u{c4}"), Err(()));
    assert_eq!(GameId::from_string("AAA\u{c4}"), Err(()));
}

#[test]
fn base32_values() {
    assert_eq!(get_base32_value(&'A'), Ok(0));
    assert_eq!(get_base32_value(&'Z'), Ok(25));
    assert_eq!(get_base32_value(&'2'), Ok(26));
    assert_eq!(get_base32_value(&'7'), Ok(31));
    assert_eq!(get_base32_value(&'8'), Err(()));
    assert_eq!(get_base32_value(&'a'), Err(()));
}

#[test]
fn every_message_round_trips() {
    let id = GameId([1, 2, 3]);
    match round_trip(Packet::CreateGameRequest) {
        Packet::CreateGameRequest => {}
        other => panic!("unexpected {:?}", other),
    }
    match round_trip(Packet::GameCreatedResponse { game_id: id, player_icon: Player::X }) {
        Packet::GameCreatedResponse { game_id, player_icon } => {
            assert_eq!(game_id, id);
            assert_eq!(player_icon, Player::X);
        }
        other => panic!("unexpected {:?}", other),
    }
    match round_trip(Packet::JoinGameRequest { game_id: id }) {
        Packet::JoinGameRequest { game_id } => assert_eq!(game_id, id),
        other => panic!("unexpected {:?}", other),
    }
    assert!(matches!(round_trip(Packet::GameNotFoundResponse), Packet::GameNotFoundResponse));
    assert!(matches!(
        round_trip(Packet::GameJoinedResponse { player_icon: Player::O }),
        Packet::GameJoinedResponse { player_icon: Player::O }
    ));
    assert!(matches!(round_trip(Packet::GameStartNotification), Packet::GameStartNotification));
    assert!(matches!(
        round_trip(Packet::GameEndNotification { winner: Player::NONE }),
        Packet::GameEndNotification { winner: Player::NONE }
    ));
    let cells = [[Player::X, Player::O, Player::NONE], [Player::O; 3], [Player::X; 3]];
    match round_trip(Packet::GridUpdate { grid: Grid { cells } }) {
        Packet::GridUpdate { grid } => assert_eq!(grid.cells, cells),
        other => panic!("unexpected {:?}", other),
    }
    assert!(matches!(round_trip(Packet::YourTurnNotification), Packet::YourTurnNotification));
    assert!(matches!(round_trip(Packet::PlaceResponse { success: true }), Packet::PlaceResponse { success: true }));
    assert!(matches!(round_trip(Packet::PlaceResponse { success: false }), Packet::PlaceResponse { success: false }));
}

#[test]
fn message_layouts() {
    let mut buffer = [0u8; 8];
    let created = Packet::GameCreatedResponse { game_id: GameId([7, 8, 9]), player_icon: Player::X };
    assert_eq!(created.serialize(&mut buffer), Ok(5));
    assert_eq!(buffer[..5], [2, 7, 8, 9, 1]);
    assert_eq!(Packet::GameNotFoundResponse.serialize(&mut buffer), Ok(1));
    assert_eq!(buffer[0], 11);
    assert_eq!(Packet::PlaceResponse { success: true }.serialize(&mut buffer), Ok(2));
    assert_eq!(buffer[..2], [10, 1]);
    let mut small = [0u8; 4];
    assert_eq!(created.serialize(&mut small), Err(SerializationError::TruncatedInput));
    assert_eq!(small, [0, 0, 0, 0]);
}

#[test]
fn unknown_message_types() {
    assert_eq!(Packet::deserialize(&[0]).unwrap_err(), SerializationError::UnknownMessageType);
    assert_eq!(Packet::deserialize(&[12, 1, 2]).unwrap_err(), SerializationError::UnknownMessageType);
    assert_eq!(Packet::deserialize(&[255]).unwrap_err(), SerializationError::UnknownMessageType);
}

#[test]
fn truncated_messages() {
    assert_eq!(Packet::deserialize(&[]).unwrap_err(), SerializationError::TruncatedInput);
    assert_eq!(Packet::deserialize(&[2, 1, 2, 3]).unwrap_err(), SerializationError::TruncatedInput);
    assert_eq!(Packet::deserialize(&[3, 1, 2]).unwrap_err(), SerializationError::TruncatedInput);
    assert_eq!(Packet::deserialize(&[7, 0, 0]).unwrap_err(), SerializationError::TruncatedInput);
    assert_eq!(Packet::deserialize(&[10]).unwrap_err(), SerializationError::TruncatedInput);
    assert_eq!(Packet::deserialize(&[4, 3]).unwrap_err(), SerializationError::InvalidEnumValue);
}

#[test]
fn decode_consumes_only_the_message() {
    let (n, packet) = Packet::deserialize(&[3, 4, 5, 6, 1, 1]).unwrap();
    assert_eq!(n, 4);
    match packet {
        Packet::JoinGameRequest { game_id } => assert_eq!(game_id, GameId([4, 5, 6])),
        other => panic!("unexpected {:?}", other),
    }
    assert!(matches!(Packet::deserialize(&[1, 99]), Ok((1, Packet::CreateGameRequest))));
}
