//! Game identifiers with their base32 text form, and the protocol messages.

use vstd::prelude::*;
use crate::game::{lemma_grid_round_trip, lemma_player_round_trip, lemma_pos_round_trip, Grid, Player, Pos};
use crate::serialization::lemma_flags_bits;
use crate::serialization::{check_buffer_size, deserialize_flags, flag_bit, flags_byte, serialize_flags, SerializationError};

verus! {

/// Relies on rand::random: three bytes drawn from the thread-local
/// generator; nothing is known of which ones.
#[verifier::external_body]
fn random_bytes() -> [u8; 3] {
    rand::random::<[u8; 3]>()
}

/// Relies on String::push: appends one character.
#[verifier::external_body]
fn push_char(s: &mut String, c: char)
    ensures
        final(s)@ == old(s)@.push(c),
{
    s.push(c)
}

/// Symbol `d` (0..32) of the alphabet A-Z, 2-7.
pub open spec fn base32_symbol(d: u8) -> char {
    if d < 26 {
        (65 + d) as char
    } else {
        (50 + d - 26) as char
    }
}

/// Whether `c` belongs to the alphabet A-Z, 2-7.
pub open spec fn is_base32_symbol(c: char) -> bool {
    ('A' <= c && c <= 'Z') || ('2' <= c && c <= '7')
}

/// Position of `c` in the alphabet, for a symbol of it.
pub open spec fn base32_value(c: char) -> u8 {
    if 'A' <= c && c <= 'Z' {
        (c as int - 65) as u8
    } else {
        (c as int - 50 + 26) as u8
    }
}

fn base32_char(d: u8) -> (c: char)
    requires
        d < 32,
    ensures
        c == base32_symbol(d),
        is_base32_symbol(c),
        base32_value(c) == d,
{
    if d < 26 {
        (65u8 + d) as char
    } else {
        (50u8 + (d - 26)) as char
    }
}

/// Position of `c` in the alphabet A-Z, 2-7.
pub fn get_base32_value(c: &char) -> (r: Result<u8, ()>)
    ensures
        r is Ok <==> is_base32_symbol(*c),
        r is Ok ==> r->Ok_0 < 32 && r->Ok_0 == base32_value(*c) && base32_symbol(r->Ok_0) == *c,
{
    let c = *c;
    if 'A' <= c && c <= 'Z' {
        Ok((c as u32 - 65) as u8)
    } else if '2' <= c && c <= '7' {
        Ok((c as u32 - 50 + 26) as u8)
    } else {
        Err(())
    }
}

/// A game identifier: 24 bits, kept as three bytes.
#[derive(Debug, Clone, Copy, PartialEq, Eq, Hash)]
pub struct GameId(pub [u8; 3]);

/// Digit `k` (0..5) of the text form of the 24-bit value `v`: four 5-bit
/// groups, most significant first, then the low four bits, so that the top
/// bit of the last digit is always 0.
pub open spec fn text_digit(v: u32, k: u32) -> u8 {
    if k < 4 {
        ((v >> (19 - 5 * k) as u32) & 31u32) as u8
    } else {
        (v & 15u32) as u8
    }
}

/// The five symbols of a text form are all in the alphabet.
pub open spec fn valid_text(s: Seq<char>) -> bool {
    s.len() == 5 && forall|i: int| 0 <= i < 5 ==> is_base32_symbol(#[trigger] s[i])
}

/// The 24-bit value that a valid text form spells: four 5-bit digits, most
/// significant first, then the low four bits of the last digit.
pub open spec fn text_value(s: Seq<char>) -> u32 {
    ((base32_value(s[0]) as u32) << 19u32) | ((base32_value(s[1]) as u32) << 14u32) | ((
    base32_value(s[2]) as u32) << 9u32) | ((base32_value(s[3]) as u32) << 4u32) | ((base32_value(
        s[4],
    ) as u32) & 15u32)
}

impl GameId {
    /// The identifier as a 24-bit number, first byte most significant.
    pub open spec fn value(self) -> u32 {
        ((self.0[0] as u32) << 16u32) | ((self.0[1] as u32) << 8u32) | (self.0[2] as u32)
    }

    pub open spec fn from_value(v: u32) -> GameId {
        GameId([(v >> 16u32) as u8, (v >> 8u32) as u8, v as u8])
    }

    pub open spec fn bytes(self) -> Seq<u8> {
        self.0@
    }

    /// The text form: five symbols, one per digit of `value()`.
    pub open spec fn spec_to_text(self) -> Seq<char> {
        Seq::new(5, |k: int| base32_symbol(text_digit(self.value(), k as u32)))
    }

    pub open spec fn spec_from_text(s: Seq<char>) -> Result<GameId, ()> {
        if valid_text(s) {
            Ok(GameId::from_value(text_value(s)))
        } else {
            Err(())
        }
    }

    /// The identifier as a 24-bit number.
    pub fn key(&self) -> (r: u32)
        ensures
            r == self.value(),
            r < 0x100_0000,
    {
        let (a, b, c) = (self.0[0], self.0[1], self.0[2]);
        assert(((a as u32) << 16u32) | ((b as u32) << 8u32) | (c as u32) < 0x100_0000u32)
            by (bit_vector);
        ((a as u32) << 16u32) | ((b as u32) << 8u32) | (c as u32)
    }

    /// Reads the five-symbol text form; fails on any other length or on a
    /// character outside the alphabet.
    pub fn from_string(string: &str) -> (r: Result<Self, ()>)
        ensures
            r == GameId::spec_from_text(string@),
            r is Ok <==> valid_text(string@),
    {
        if string.unicode_len() != 5 {
            return Err(());
        }
        let mut digits: Vec<u8> = Vec::new();
        let mut i: usize = 0;
        while i < 5
            invariant
                i <= 5,
                string@.len() == 5,
                digits@.len() == i,
                forall|k: int| 0 <= k < i ==> is_base32_symbol(#[trigger] string@[k]),
                forall|k: int| 0 <= k < i ==> digits@[k] == base32_value(#[trigger] string@[k]) && digits@[k] < 32,
            decreases 5 - i,
        {
            let c = string.get_char(i);
            match get_base32_value(&c) {
                Ok(d) => digits.push(d),
                Err(_) => {
                    assert(!is_base32_symbol(string@[i as int]));
                    return Err(());
                },
            }
            i += 1;
        }
        let (v0, v1, v2, v3, v4) = (digits[0], digits[1], digits[2], digits[3], digits[4]);
        let r0: u8 = (v0 << 3u8) | (v1 >> 2u8);
        let r1: u8 = (v1 << 6u8) | (v2 << 1u8) | (v3 >> 4u8);
        let r2: u8 = (v3 << 4u8) | (v4 & 0x0Fu8);
        let ghost t = text_value(string@);
        assert(r0 == (t >> 16u32) as u8 && r1 == (t >> 8u32) as u8 && r2 == t as u8) by (bit_vector)
            requires
                v0 < 32u8 && v1 < 32u8 && v2 < 32u8 && v3 < 32u8 && v4 < 32u8,
                t == ((v0 as u32) << 19u32) | ((v1 as u32) << 14u32) | ((v2 as u32) << 9u32) | ((v3 as u32) << 4u32) | ((v4 as u32) & 15u32),
                r0 == (v0 << 3u8) | (v1 >> 2u8),
                r1 == (v1 << 6u8) | (v2 << 1u8) | (v3 >> 4u8),
                r2 == (v3 << 4u8) | (v4 & 0x0Fu8);
        let id = GameId([r0, r1, r2]);
        assert(id.0 =~= GameId::from_value(t).0);
        Ok(id)
    }

    /// A random identifier.
    pub fn random() -> GameId {
        GameId(random_bytes())
    }

    pub open spec fn spec_serialize(self) -> Seq<u8> {
        self.0@
    }

    pub open spec fn spec_deserialize(buffer: Seq<u8>) -> Result<(usize, GameId), SerializationError> {
        if buffer.len() < 3 {
            Err(SerializationError::TruncatedInput)
        } else {
            Ok((3, GameId([buffer[0], buffer[1], buffer[2]])))
        }
    }

    /// Copies the three bytes into the start of `buffer`.
    pub fn serialize(&self, buffer: &mut [u8]) -> (r: Result<usize, SerializationError>)
        ensures
            r is Ok <==> old(buffer)@.len() >= 3,
            r is Ok ==> r->Ok_0 == 3 && final(buffer)@ == self.spec_serialize() + old(buffer)@.skip(3),
            r is Err ==> r->Err_0 == SerializationError::TruncatedInput && final(buffer)@ == old(buffer)@,
    {
        check_buffer_size(buffer, 3)?;
        buffer[0] = self.0[0];
        buffer[1] = self.0[1];
        buffer[2] = self.0[2];
        assert(buffer@ =~= self.spec_serialize() + old(buffer)@.skip(3));
        Ok(3)
    }

    pub fn deserialize(buffer: &[u8]) -> (r: Result<(usize, Self), SerializationError>)
        ensures
            r == GameId::spec_deserialize(buffer@),
    {
        check_buffer_size(buffer, 3)?;
        let id = GameId([buffer[0], buffer[1], buffer[2]]);
        assert(id.0 =~= [buffer@[0], buffer@[1], buffer@[2]]);
        Ok((3, id))
    }

    /// The five-symbol text form.
    pub fn to_string(&self) -> (r: String)
        ensures
            r@ == self.spec_to_text(),
            valid_text(r@),
            base32_value(r@[4]) < 16,
    {
        let (a, b, c) = (self.0[0], self.0[1], self.0[2]);
        let d0: u8 = a >> 3u8;
        let d1: u8 = ((a & 0b111u8) << 2u8) | (b >> 6u8);
        let d2: u8 = (b & 0b111110u8) >> 1u8;
        let d3: u8 = ((b & 0b1u8) << 4u8) | (c >> 4u8);
        let d4: u8 = c & 0b1111u8;
        let ghost v = self.value();
        assert(d0 == ((v >> 19u32) & 31u32) as u8 && d1 == ((v >> 14u32) & 31u32) as u8
            && d2 == ((v >> 9u32) & 31u32) as u8 && d3 == ((v >> 4u32) & 31u32) as u8
            && d4 == (v & 15u32) as u8 && d0 < 32 && d1 < 32 && d2 < 32 && d3 < 32 && d4 < 16)
            by (bit_vector)
            requires
                v == ((a as u32) << 16u32) | ((b as u32) << 8u32) | (c as u32),
                d0 == a >> 3u8,
                d1 == ((a & 0b111u8) << 2u8) | (b >> 6u8),
                d2 == (b & 0b111110u8) >> 1u8,
                d3 == ((b & 0b1u8) << 4u8) | (c >> 4u8),
                d4 == c & 0b1111u8;
        assert(d0 == text_digit(v, 0) && d1 == text_digit(v, 1) && d2 == text_digit(v, 2)
            && d3 == text_digit(v, 3) && d4 == text_digit(v, 4));
        let mut result = String::new();
        push_char(&mut result, base32_char(d0));
        push_char(&mut result, base32_char(d1));
        push_char(&mut result, base32_char(d2));
        push_char(&mut result, base32_char(d3));
        push_char(&mut result, base32_char(d4));
        assert(result@ =~= self.spec_to_text());
        result
    }
}

/// Reading an identifier's text form gives the identifier back, and the text
/// form is five symbols of the alphabet.
pub proof fn lemma_text_round_trip(id: GameId)
    ensures
        valid_text(id.spec_to_text()),
        base32_value(id.spec_to_text()[4]) < 16,
        GameId::spec_from_text(id.spec_to_text()) == Ok::<GameId, ()>(id),
{
    let s = id.spec_to_text();
    let v = id.value();
    let (a, b, c) = (id.0[0], id.0[1], id.0[2]);
    let (d0, d1, d2, d3, d4) = (text_digit(v, 0), text_digit(v, 1), text_digit(v, 2), text_digit(v, 3), text_digit(v, 4));
    assert(d0 == ((v >> 19u32) & 31u32) as u8 && d1 == ((v >> 14u32) & 31u32) as u8
        && d2 == ((v >> 9u32) & 31u32) as u8 && d3 == ((v >> 4u32) & 31u32) as u8
        && d4 == (v & 15u32) as u8);
    assert(d0 < 32 && d1 < 32 && d2 < 32 && d3 < 32 && d4 < 16) by (bit_vector)
        requires
            d0 == ((v >> 19u32) & 31u32) as u8,
            d1 == ((v >> 14u32) & 31u32) as u8,
            d2 == ((v >> 9u32) & 31u32) as u8,
            d3 == ((v >> 4u32) & 31u32) as u8,
            d4 == (v & 15u32) as u8;
    assert forall|i: int| 0 <= i < 5 implies is_base32_symbol(#[trigger] s[i])
        && base32_value(s[i]) == text_digit(v, i as u32) by {
        let d = text_digit(v, i as u32);
        assert(d < 32);
        lemma_symbol_value(d);
    }
    let t = text_value(s);
    assert(t == v && (t >> 16u32) as u8 == a && (t >> 8u32) as u8 == b && t as u8 == c) by (bit_vector)
        requires
            v == ((a as u32) << 16u32) | ((b as u32) << 8u32) | (c as u32),
            t == ((d0 as u32) << 19u32) | ((d1 as u32) << 14u32) | ((d2 as u32) << 9u32) | ((d3 as u32) << 4u32) | ((d4 as u32) & 15u32),
            d0 == ((v >> 19u32) & 31u32) as u8,
            d1 == ((v >> 14u32) & 31u32) as u8,
            d2 == ((v >> 9u32) & 31u32) as u8,
            d3 == ((v >> 4u32) & 31u32) as u8,
            d4 == (v & 15u32) as u8;
    assert(GameId::from_value(t).0 =~= id.0);
}

/// Each symbol of the alphabet maps back to its position.
pub proof fn lemma_symbol_value(d: u8)
    requires
        d < 32,
    ensures
        is_base32_symbol(base32_symbol(d)),
        base32_value(base32_symbol(d)) == d,
{
}

/// Identifier decoding inverts identifier encoding.
pub proof fn lemma_game_id_round_trip(id: GameId, rest: Seq<u8>)
    ensures
        GameId::spec_deserialize(id.spec_serialize() + rest) == Ok::<(usize, GameId), SerializationError>((3, id)),
{
    let b = id.spec_serialize() + rest;
    assert(id.0 =~= [b[0], b[1], b[2]]);
}

/// A protocol message.
#[derive(Debug, Clone, Copy)]
pub enum Packet {
    CreateGameRequest,
    GameCreatedResponse { game_id: GameId, player_icon: Player },
    JoinGameRequest { game_id: GameId },
    GameNotFoundResponse,
    GameJoinedResponse { player_icon: Player },
    GameStartNotification,
    GameEndNotification { winner: Player },
    GridUpdate { grid: Grid },
    YourTurnNotification,
    PlaceRequest { p: Pos },
    PlaceResponse { success: bool },
}

/// Prepends the tag's byte count to a field decoding's consumed length.
pub open spec fn after_tag<T>(r: Result<(usize, T), SerializationError>, f: spec_fn(T) -> Packet) -> Result<(usize, Packet), SerializationError> {
    match r {
        Ok((n, v)) => Ok(((n + 1) as usize, f(v))),
        Err(e) => Err(e),
    }
}

impl Packet {
    /// The discriminant byte written before the fields.
    pub open spec fn spec_type_id(self) -> u8 {
        match self {
            Packet::CreateGameRequest => 1,
            Packet::GameCreatedResponse { .. } => 2,
            Packet::JoinGameRequest { .. } => 3,
            Packet::GameNotFoundResponse => 11,
            Packet::GameJoinedResponse { .. } => 4,
            Packet::GameStartNotification => 5,
            Packet::GameEndNotification { .. } => 6,
            Packet::GridUpdate { .. } => 7,
            Packet::YourTurnNotification => 8,
            Packet::PlaceRequest { .. } => 9,
            Packet::PlaceResponse { .. } => 10,
        }
    }

    /// Every field lies within its declared range.
    pub open spec fn wf(self) -> bool {
        match self {
            Packet::PlaceRequest { p } => p.wf(),
            _ => true,
        }
    }

    /// The encoded fields, in declaration order.
    pub open spec fn spec_payload(self) -> Seq<u8> {
        match self {
            Packet::GameCreatedResponse { game_id, player_icon } => game_id.spec_serialize()
                + player_icon.spec_serialize(),
            Packet::JoinGameRequest { game_id } => game_id.spec_serialize(),
            Packet::GameJoinedResponse { player_icon } => player_icon.spec_serialize(),
            Packet::GameEndNotification { winner } => winner.spec_serialize(),
            Packet::GridUpdate { grid } => grid.spec_serialize(),
            Packet::PlaceRequest { p } => p.spec_serialize(),
            Packet::PlaceResponse { success } => seq![flags_byte(seq![success])],
            _ => Seq::empty(),
        }
    }

    pub open spec fn spec_serialize(self) -> Seq<u8> {
        seq![self.spec_type_id()] + self.spec_payload()
    }

    pub open spec fn spec_deserialize(buffer: Seq<u8>) -> Result<(usize, Packet), SerializationError> {
        if buffer.len() < 1 {
            Err(SerializationError::TruncatedInput)
        } else {
            let rest = buffer.skip(1);
            let t = buffer[0];
            if t == 1 {
                Ok((1, Packet::CreateGameRequest))
            } else if t == 2 {
                match GameId::spec_deserialize(rest) {
                    Err(e) => Err(e),
                    Ok((n, game_id)) => match Player::spec_deserialize(rest.skip(n as int)) {
                        Err(e) => Err(e),
                        Ok((m, player_icon)) => Ok(
                            ((1 + n + m) as usize, Packet::GameCreatedResponse { game_id, player_icon }),
                        ),
                    },
                }
            } else if t == 3 {
                after_tag(GameId::spec_deserialize(rest), |game_id| Packet::JoinGameRequest { game_id })
            } else if t == 11 {
                Ok((1, Packet::GameNotFoundResponse))
            } else if t == 4 {
                after_tag(Player::spec_deserialize(rest), |player_icon| Packet::GameJoinedResponse { player_icon })
            } else if t == 5 {
                Ok((1, Packet::GameStartNotification))
            } else if t == 6 {
                after_tag(Player::spec_deserialize(rest), |winner| Packet::GameEndNotification { winner })
            } else if t == 7 {
                after_tag(Grid::spec_deserialize(rest), |grid| Packet::GridUpdate { grid })
            } else if t == 8 {
                Ok((1, Packet::YourTurnNotification))
            } else if t == 9 {
                after_tag(Pos::spec_deserialize(rest), |p| Packet::PlaceRequest { p })
            } else if t == 10 {
                if rest.len() < 1 {
                    Err(SerializationError::TruncatedInput)
                } else {
                    Ok((2, Packet::PlaceResponse { success: flag_bit(rest[0], 0) }))
                }
            } else {
                Err(SerializationError::UnknownMessageType)
            }
        }
    }

    pub fn type_id(&self) -> (r: u8)
        ensures
            r == self.spec_type_id(),
    {
        match self {
            Packet::CreateGameRequest => 1,
            Packet::GameCreatedResponse { .. } => 2,
            Packet::JoinGameRequest { .. } => 3,
            Packet::GameNotFoundResponse => 11,
            Packet::GameJoinedResponse { .. } => 4,
            Packet::GameStartNotification => 5,
            Packet::GameEndNotification { .. } => 6,
            Packet::GridUpdate { .. } => 7,
            Packet::YourTurnNotification => 8,
            Packet::PlaceRequest { .. } => 9,
            Packet::PlaceResponse { .. } => 10,
        }
    }

    /// Writes the discriminant and then each field into the start of `buffer`.
    pub fn serialize(&self, buffer: &mut [u8]) -> (r: Result<usize, SerializationError>)
        ensures
            r is Ok <==> old(buffer)@.len() >= self.spec_serialize().len(),
            r is Ok ==> r->Ok_0 == self.spec_serialize().len() && final(buffer)@ == self.spec_serialize() + old(buffer)@.skip(r->Ok_0 as int),
            r is Err ==> r->Err_0 == SerializationError::TruncatedInput && final(buffer)@ == old(buffer)@,
    {
        check_buffer_size(buffer, 1)?;
        let size: usize = match self {
            Packet::GameCreatedResponse { .. } => 5,
            Packet::JoinGameRequest { .. } => 4,
            Packet::GridUpdate { .. } => 4,
            Packet::GameJoinedResponse { .. } | Packet::GameEndNotification { .. } | Packet::PlaceRequest { .. } | Packet::PlaceResponse { .. } => 2,
            _ => 1,
        };
        check_buffer_size(buffer, size)?;
        buffer[0] = self.type_id();
        let ghost tagged = buffer@;
        let (_, rest) = buffer.split_at_mut(1);
        match self {
            Packet::GameCreatedResponse { game_id, player_icon } => {
                let (first, second) = rest.split_at_mut(3);
                game_id.serialize(first)?;
                player_icon.serialize(second)?;
            },
            Packet::JoinGameRequest { game_id } => {
                game_id.serialize(rest)?;
            },
            Packet::GameJoinedResponse { player_icon } => {
                player_icon.serialize(rest)?;
            },
            Packet::GameEndNotification { winner } => {
                winner.serialize(rest)?;
            },
            Packet::GridUpdate { grid } => {
                grid.serialize(rest)?;
            },
            Packet::PlaceRequest { p } => {
                p.serialize(rest)?;
            },
            Packet::PlaceResponse { success } => {
                let flags = [*success];
                serialize_flags(rest, &flags)?;
                assert(flags@ =~= seq![*success]);
            },
            _ => {},
        }
        assert(buffer@ =~= self.spec_serialize() + old(buffer)@.skip(size as int));
        Ok(size)
    }

    /// Reads one message from the start of `buffer`; bytes after it are left
    /// alone.
    pub fn deserialize(buffer: &[u8]) -> (r: Result<(usize, Packet), SerializationError>)
        ensures
            r == Packet::spec_deserialize(buffer@),
    {
        check_buffer_size(buffer, 1)?;
        let type_id = buffer[0];
        let (_, rest) = buffer.split_at(1);
        assert(rest@ =~= buffer@.skip(1));
        match type_id {
            1 => Ok((1, Packet::CreateGameRequest)),
            2 => {
                let (size, game_id) = GameId::deserialize(rest)?;
                let (_, after) = rest.split_at(size);
                assert(after@ =~= rest@.skip(size as int));
                let (size2, player_icon) = Player::deserialize(after)?;
                Ok((1 + size + size2, Packet::GameCreatedResponse { game_id, player_icon }))
            },
            3 => {
                let (size, game_id) = GameId::deserialize(rest)?;
                Ok((1 + size, Packet::JoinGameRequest { game_id }))
            },
            11 => Ok((1, Packet::GameNotFoundResponse)),
            4 => {
                let (size, player_icon) = Player::deserialize(rest)?;
                Ok((1 + size, Packet::GameJoinedResponse { player_icon }))
            },
            5 => Ok((1, Packet::GameStartNotification)),
            6 => {
                let (size, winner) = Player::deserialize(rest)?;
                Ok((1 + size, Packet::GameEndNotification { winner }))
            },
            7 => {
                let (size, grid) = Grid::deserialize(rest)?;
                Ok((1 + size, Packet::GridUpdate { grid }))
            },
            8 => Ok((1, Packet::YourTurnNotification)),
            9 => {
                let (size, p) = Pos::deserialize(rest)?;
                Ok((1 + size, Packet::PlaceRequest { p }))
            },
            10 => {
                let (size, flags) = deserialize_flags(rest, 1)?;
                Ok((1 + size, Packet::PlaceResponse { success: flags[0] }))
            },
            _ => Err(SerializationError::UnknownMessageType),
        }
    }
}

/// Every message whose fields lie in their ranges decodes from its encoding,
/// whatever follows it, consuming exactly the encoding.
pub proof fn lemma_packet_round_trip(p: Packet, rest: Seq<u8>)
    requires
        p.wf(),
    ensures
        Packet::spec_deserialize(p.spec_serialize() + rest) == Ok::<(usize, Packet), SerializationError>(
            (p.spec_serialize().len() as usize, p),
        ),
{
    let b = p.spec_serialize() + rest;
    let tail = p.spec_payload() + rest;
    assert(b.skip(1) =~= tail);
    match p {
        Packet::GameCreatedResponse { game_id, player_icon } => {
            assert(tail =~= game_id.spec_serialize() + (player_icon.spec_serialize() + rest));
            lemma_game_id_round_trip(game_id, player_icon.spec_serialize() + rest);
            assert(tail.skip(3) =~= player_icon.spec_serialize() + rest);
            lemma_player_round_trip(player_icon, rest);
        },
        Packet::JoinGameRequest { game_id } => lemma_game_id_round_trip(game_id, rest),
        Packet::GameJoinedResponse { player_icon } => lemma_player_round_trip(player_icon, rest),
        Packet::GameEndNotification { winner } => lemma_player_round_trip(winner, rest),
        Packet::GridUpdate { grid } => lemma_grid_round_trip(grid, rest),
        Packet::PlaceRequest { p } => lemma_pos_round_trip(p, rest),
        Packet::PlaceResponse { success } => {
            lemma_flags_bits(seq![success]);
            assert(flag_bit(flags_byte(seq![success]), 0) == seq![success][0]);
        },
        _ => {},
    }
}

/// A buffer shorter than a value's encoding is refused as truncated: an empty
/// buffer for a message or a cell owner, fewer than three bytes for a grid or
/// an identifier, and any proper prefix of a message's encoding.
pub proof fn lemma_truncated(p: Packet, k: int, short: Seq<u8>)
    requires
        p.wf(),
        0 <= k < p.spec_serialize().len(),
    ensures
        Packet::spec_deserialize(p.spec_serialize().take(k)) == Err::<(usize, Packet), SerializationError>(
            SerializationError::TruncatedInput,
        ),
        short.len() < 1 ==> Packet::spec_deserialize(short) == Err::<(usize, Packet), SerializationError>(
            SerializationError::TruncatedInput,
        ),
        short.len() < 1 ==> Player::spec_deserialize(short) == Err::<(usize, Player), SerializationError>(
            SerializationError::TruncatedInput,
        ),
        short.len() < 1 ==> Pos::spec_deserialize(short) == Err::<(usize, Pos), SerializationError>(
            SerializationError::TruncatedInput,
        ),
        short.len() < 3 ==> Grid::spec_deserialize(short) == Err::<(usize, Grid), SerializationError>(
            SerializationError::TruncatedInput,
        ),
        short.len() < 3 ==> GameId::spec_deserialize(short) == Err::<(usize, GameId), SerializationError>(
            SerializationError::TruncatedInput,
        ),
{
    let b = p.spec_serialize().take(k);
    if k >= 1 {
        let tail = b.skip(1);
        assert(tail =~= p.spec_payload().take(k - 1));
        if p is GameCreatedResponse && k - 1 >= 3 {
            assert(tail.skip(3).len() == 0);
        }
    }
}

/// The byte 3 is no cell owner, and a discriminant outside the catalogue
/// (0 among them) names no message.
pub proof fn lemma_invalid_bytes(t: u8, rest: Seq<u8>)
    ensures
        Player::spec_deserialize(seq![3u8] + rest) == Err::<(usize, Player), SerializationError>(
            SerializationError::InvalidEnumValue,
        ),
        (t == 0 || t > 11) ==> Packet::spec_deserialize(seq![t] + rest) == Err::<(usize, Packet), SerializationError>(
            SerializationError::UnknownMessageType,
        ),
{
    assert((seq![3u8] + rest)[0] == 3u8);
    assert((seq![t] + rest)[0] == t);
}

} // verus!
