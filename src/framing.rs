//! Whole messages on a byte channel: one message per write and per read.

use vstd::prelude::*;
use crate::packets::Packet;
use crate::serialization::SerializationError;

verus! {

/// Size of the scratch buffer that a message is encoded into; every message
/// fits in it.
pub const FRAME_CAPACITY: usize = 1024;

/// Every message encodes to at most five bytes.
pub proof fn lemma_encoding_fits(p: Packet)
    ensures
        1 <= p.spec_serialize().len() <= 5,
{
    match p {
        Packet::GameCreatedResponse { game_id, .. } => assert(game_id.0@.len() == 3),
        Packet::JoinGameRequest { game_id } => assert(game_id.0@.len() == 3),
        _ => {},
    }
}

/// The bytes to write for `packet`: its encoding, made in a scratch buffer of
/// `FRAME_CAPACITY` bytes.
pub fn encode_frame(packet: &Packet) -> (r: Vec<u8>)
    ensures
        r@ == packet.spec_serialize(),
{
    proof {
        lemma_encoding_fits(*packet);
    }
    let mut buf: Vec<u8> = vec![0u8; FRAME_CAPACITY];
    let size = match packet.serialize(buf.as_mut_slice()) {
        Ok(n) => n,
        Err(_) => 0,
    };
    buf.truncate(size);
    assert(buf@ =~= packet.spec_serialize());
    buf
}

/// The message that one read delivered; what follows it in `bytes` is
/// ignored.
pub fn decode_frame(bytes: &[u8]) -> (r: Result<Packet, SerializationError>)
    ensures
        match Packet::spec_deserialize(bytes@) {
            Ok((_, p)) => r == Ok::<Packet, SerializationError>(p),
            Err(e) => r == Err::<Packet, SerializationError>(e),
        },
{
    let (_, packet) = Packet::deserialize(bytes)?;
    Ok(packet)
}

} // verus!
