//! Board values: cell owners, the 3x3 grid and coordinates, with their
//! binary encodings.

use vstd::prelude::*;
use crate::serialization::{check_buffer_size, SerializationError};

verus! {

/// Owner of a board cell.
#[derive(Debug, Clone, Copy, PartialEq, Eq, Structural)]
pub enum Player {
    NONE,
    X,
    O,
}

impl Player {
    /// The 2-bit wire value: 0, 1 or 2.
    pub open spec fn spec_id(self) -> u8 {
        match self {
            Player::NONE => 0,
            Player::X => 1,
            Player::O => 2,
        }
    }

    /// The player whose wire value is `id`, if any.
    pub open spec fn spec_from_id(id: u8) -> Result<Player, SerializationError> {
        if id == 0 {
            Ok(Player::NONE)
        } else if id == 1 {
            Ok(Player::X)
        } else if id == 2 {
            Ok(Player::O)
        } else {
            Err(SerializationError::InvalidEnumValue)
        }
    }

    pub fn id(&self) -> (r: u8)
        ensures
            r == self.spec_id(),
            r < 3,
    {
        match self {
            Player::NONE => 0,
            Player::X => 1,
            Player::O => 2,
        }
    }

    pub fn from_id(id: u8) -> (r: Result<Self, SerializationError>)
        ensures
            r == Player::spec_from_id(id),
            r is Ok <==> id < 3,
            r is Ok ==> r->Ok_0.spec_id() == id,
    {
        match id {
            0 => Ok(Player::NONE),
            1 => Ok(Player::X),
            2 => Ok(Player::O),
            _ => Err(SerializationError::InvalidEnumValue),
        }
    }

    pub open spec fn spec_serialize(self) -> Seq<u8> {
        seq![self.spec_id()]
    }

    pub open spec fn spec_deserialize(buffer: Seq<u8>) -> Result<(usize, Player), SerializationError> {
        if buffer.len() < 1 {
            Err(SerializationError::TruncatedInput)
        } else {
            match Player::spec_from_id(buffer[0]) {
                Ok(p) => Ok((1, p)),
                Err(e) => Err(e),
            }
        }
    }

    /// Writes the wire value into the first byte of `buffer`.
    pub fn serialize(&self, buffer: &mut [u8]) -> (r: Result<usize, SerializationError>)
        ensures
            r is Ok <==> old(buffer)@.len() >= 1,
            r is Ok ==> r->Ok_0 == 1 && final(buffer)@ == self.spec_serialize() + old(buffer)@.skip(1),
            r is Err ==> r->Err_0 == SerializationError::TruncatedInput && final(buffer)@ == old(buffer)@,
    {
        check_buffer_size(buffer, 1)?;
        buffer[0] = self.id();
        assert(buffer@ =~= self.spec_serialize() + old(buffer)@.skip(1));
        Ok(1)
    }

    pub fn deserialize(buffer: &[u8]) -> (r: Result<(usize, Self), SerializationError>)
        ensures
            r == Player::spec_deserialize(buffer@),
    {
        check_buffer_size(buffer, 1)?;
        let p = Player::from_id(buffer[0])?;
        Ok((1, p))
    }
}

/// The 3x3 board, row-major.
#[derive(Debug, Clone, Copy)]
pub struct Grid {
    pub cells: [[Player; 3]; 3],
}

/// The 2-bit field `j` (0, 1 or 2) of a packed row byte.
pub open spec fn cell_field(b: u8, j: u8) -> u8 {
    (b >> (2 * j)) & 3
}

/// Player for a 2-bit field already known to be valid.
pub open spec fn player_of(v: u8) -> Player {
    if v == 1 {
        Player::X
    } else if v == 2 {
        Player::O
    } else {
        Player::NONE
    }
}

/// A row packed as cell[0] | cell[1] << 2 | cell[2] << 4.
pub open spec fn row_byte(row: [Player; 3]) -> u8 {
    row[0].spec_id() | (row[1].spec_id() << 2u8) | (row[2].spec_id() << 4u8)
}

pub open spec fn row_valid(b: u8) -> bool {
    cell_field(b, 0) < 3 && cell_field(b, 1) < 3 && cell_field(b, 2) < 3
}

pub open spec fn row_of(b: u8) -> [Player; 3] {
    [player_of(cell_field(b, 0)), player_of(cell_field(b, 1)), player_of(cell_field(b, 2))]
}

proof fn lemma_row_fields(a: u8, b: u8, c: u8)
    requires
        a < 3,
        b < 3,
        c < 3,
    ensures
        cell_field(a | (b << 2u8) | (c << 4u8), 0) == a,
        cell_field(a | (b << 2u8) | (c << 4u8), 1) == b,
        cell_field(a | (b << 2u8) | (c << 4u8), 2) == c,
{
    assert(((a | (b << 2u8) | (c << 4u8)) >> 0u8) & 3 == a) by (bit_vector)
        requires a < 3u8, b < 3u8, c < 3u8;
    assert(((a | (b << 2u8) | (c << 4u8)) >> 2u8) & 3 == b) by (bit_vector)
        requires a < 3u8, b < 3u8, c < 3u8;
    assert(((a | (b << 2u8) | (c << 4u8)) >> 4u8) & 3 == c) by (bit_vector)
        requires a < 3u8, b < 3u8, c < 3u8;
}

/// Decoding a packed row gives the row back.
pub proof fn lemma_row_round_trip(row: [Player; 3])
    ensures
        row_valid(row_byte(row)),
        row_of(row_byte(row)) == row,
{
    lemma_row_fields(row[0].spec_id(), row[1].spec_id(), row[2].spec_id());
    let r = row_of(row_byte(row));
    assert(r[0] == row[0] && r[1] == row[1] && r[2] == row[2]);
    assert(r@ =~= row@);
}

impl Grid {
    pub open spec fn spec_serialize(self) -> Seq<u8> {
        seq![row_byte(self.cells[0]), row_byte(self.cells[1]), row_byte(self.cells[2])]
    }

    pub open spec fn spec_deserialize(buffer: Seq<u8>) -> Result<(usize, Grid), SerializationError> {
        if buffer.len() < 3 {
            Err(SerializationError::TruncatedInput)
        } else if !(row_valid(buffer[0]) && row_valid(buffer[1]) && row_valid(buffer[2])) {
            Err(SerializationError::InvalidEnumValue)
        } else {
            Ok((3, Grid { cells: [row_of(buffer[0]), row_of(buffer[1]), row_of(buffer[2])] }))
        }
    }

    /// Writes the three packed rows into the first three bytes of `buffer`.
    pub fn serialize(&self, buffer: &mut [u8]) -> (r: Result<usize, SerializationError>)
        ensures
            r is Ok <==> old(buffer)@.len() >= 3,
            r is Ok ==> r->Ok_0 == 3 && final(buffer)@ == self.spec_serialize() + old(buffer)@.skip(3),
            r is Err ==> r->Err_0 == SerializationError::TruncatedInput && final(buffer)@ == old(buffer)@,
    {
        check_buffer_size(buffer, 3)?;
        let mut i: usize = 0;
        while i < 3
            invariant
                0 <= i <= 3,
                buffer@.len() == old(buffer)@.len(),
                old(buffer)@.len() >= 3,
                forall|k: int| 0 <= k < i ==> buffer@[k] == row_byte(self.cells[k]),
                forall|k: int| 3 <= k < buffer@.len() ==> buffer@[k] == old(buffer)@[k],
            decreases 3 - i,
        {
            let row = &self.cells[i];
            let value: u8 = row[0].id() | (row[1].id() << 2u8) | (row[2].id() << 4u8);
            buffer[i] = value;
            i += 1;
        }
        assert(buffer@ =~= self.spec_serialize() + old(buffer)@.skip(3));
        Ok(3)
    }

    pub fn deserialize(buffer: &[u8]) -> (r: Result<(usize, Self), SerializationError>)
        ensures
            r == Grid::spec_deserialize(buffer@),
    {
        check_buffer_size(buffer, 3)?;
        let mut cells = [[Player::NONE; 3]; 3];
        let mut i: usize = 0;
        while i < 3
            invariant
                0 <= i <= 3,
                buffer@.len() >= 3,
                forall|k: int| 0 <= k < i ==> row_valid(#[trigger] buffer@[k]),
                forall|k: int| 0 <= k < i ==> cells[k] == row_of(#[trigger] buffer@[k]),
            decreases 3 - i,
        {
            let value = buffer[i];
            let mut row = [Player::NONE; 3];
            let mut j: u8 = 0;
            while j < 3
                invariant
                    0 <= j <= 3,
                    i < 3,
                    buffer@.len() >= 3,
                    value == buffer@[i as int],
                    forall|m: u8| m < j ==> #[trigger] cell_field(value, m) < 3,
                    forall|m: u8| m < j ==> row[m as int] == player_of(#[trigger] cell_field(value, m)),
                decreases 3 - j,
            {
                let field: u8 = (value >> (2 * j)) & 0b11;
                assert(field == cell_field(value, j));
                match Player::from_id(field) {
                    Ok(p) => {
                        row[j as usize] = p;
                    },
                    Err(e) => {
                        assert(!row_valid(buffer@[i as int]));
                        return Err(e);
                    },
                }
                j += 1;
            }
            assert(row =~= row_of(value));
            cells[i] = row;
            i += 1;
        }
        let g = Grid { cells };
        assert(g.cells =~= [row_of(buffer@[0]), row_of(buffer@[1]), row_of(buffer@[2])]);
        Ok((3, g))
    }
}

/// Grid decoding inverts grid encoding.
pub proof fn lemma_grid_round_trip(g: Grid, rest: Seq<u8>)
    ensures
        Grid::spec_deserialize(g.spec_serialize() + rest) == Ok::<(usize, Grid), SerializationError>((3, g)),
{
    lemma_row_round_trip(g.cells[0]);
    lemma_row_round_trip(g.cells[1]);
    lemma_row_round_trip(g.cells[2]);
    let b = g.spec_serialize() + rest;
    assert(b[0] == row_byte(g.cells[0]) && b[1] == row_byte(g.cells[1]) && b[2] == row_byte(g.cells[2]));
    assert(g.cells =~= [row_of(b[0]), row_of(b[1]), row_of(b[2])]);
}

/// A board coordinate; each component fits in four bits on the wire.
#[derive(Debug, Clone, Copy, PartialEq, Eq, Structural)]
pub struct Pos {
    pub x: u8,
    pub y: u8,
}

impl Pos {
    /// Both components fit in their 4-bit fields.
    pub open spec fn wf(self) -> bool {
        self.x < 16 && self.y < 16
    }

    pub open spec fn spec_serialize(self) -> Seq<u8> {
        seq![(self.x << 4u8) | (self.y & 0x0Fu8)]
    }

    pub open spec fn spec_deserialize(buffer: Seq<u8>) -> Result<(usize, Pos), SerializationError> {
        if buffer.len() < 1 {
            Err(SerializationError::TruncatedInput)
        } else {
            Ok((1, Pos { x: buffer[0] >> 4u8, y: buffer[0] & 0x0Fu8 }))
        }
    }

    /// Writes x << 4 | y into the first byte of `buffer`.
    pub fn serialize(&self, buffer: &mut [u8]) -> (r: Result<usize, SerializationError>)
        ensures
            r is Ok <==> old(buffer)@.len() >= 1,
            r is Ok ==> r->Ok_0 == 1 && final(buffer)@ == self.spec_serialize() + old(buffer)@.skip(1),
            r is Err ==> r->Err_0 == SerializationError::TruncatedInput && final(buffer)@ == old(buffer)@,
    {
        check_buffer_size(buffer, 1)?;
        buffer[0] = (self.x << 4u8) | (self.y & 0x0F);
        assert(buffer@ =~= self.spec_serialize() + old(buffer)@.skip(1));
        Ok(1)
    }

    pub fn deserialize(buffer: &[u8]) -> (r: Result<(usize, Self), SerializationError>)
        ensures
            r == Pos::spec_deserialize(buffer@),
    {
        check_buffer_size(buffer, 1)?;
        Ok((1, Pos { x: buffer[0] >> 4u8, y: buffer[0] & 0x0F }))
    }
}

/// Coordinate decoding inverts coordinate encoding for components below 16.
pub proof fn lemma_pos_round_trip(p: Pos, rest: Seq<u8>)
    requires
        p.wf(),
    ensures
        Pos::spec_deserialize(p.spec_serialize() + rest) == Ok::<(usize, Pos), SerializationError>((1, p)),
{
    let (x, y) = (p.x, p.y);
    assert(((x << 4u8) | (y & 0x0Fu8)) >> 4u8 == x) by (bit_vector)
        requires x < 16u8;
    assert(((x << 4u8) | (y & 0x0Fu8)) & 0x0Fu8 == y) by (bit_vector)
        requires y < 16u8;
    assert((p.spec_serialize() + rest)[0] == (x << 4u8) | (y & 0x0Fu8));
}

/// A cell owner decodes to itself.
pub proof fn lemma_player_round_trip(p: Player, rest: Seq<u8>)
    ensures
        Player::spec_deserialize(p.spec_serialize() + rest) == Ok::<(usize, Player), SerializationError>((1, p)),
{
    assert((p.spec_serialize() + rest)[0] == p.spec_id());
}

} // verus!
