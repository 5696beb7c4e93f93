//! Errors and shared helpers of the binary codec.

use vstd::prelude::*;

verus! {

/// Why a value could not be written to or read from a buffer.
#[derive(Debug, Clone, Copy, PartialEq, Eq, Structural)]
pub enum SerializationError {
    /// The buffer is shorter than the value's encoding.
    TruncatedInput,
    /// A cell owner byte outside {0, 1, 2}.
    InvalidEnumValue,
    /// A message discriminant that names no message.
    UnknownMessageType,
}

/// Fails with `TruncatedInput` when `buffer` holds fewer than `size` bytes.
pub fn check_buffer_size(buffer: &[u8], size: usize) -> (r: Result<(), SerializationError>)
    ensures
        r is Ok <==> buffer@.len() >= size,
        r is Err ==> r == Err::<(), SerializationError>(SerializationError::TruncatedInput),
{
    if buffer.len() < size {
        Err(SerializationError::TruncatedInput)
    } else {
        Ok(())
    }
}

/// Whether bit `i` of `b` is set.
pub open spec fn flag_bit(b: u8, i: u8) -> bool {
    (b >> i) & 1u8 == 1u8
}

/// Flags packed one per bit, the first flag in bit 0.
pub open spec fn flags_byte(flags: Seq<bool>) -> u8
    decreases flags.len(),
{
    if flags.len() == 0 {
        0
    } else {
        let n = (flags.len() - 1) as u8;
        flags_byte(flags.drop_last()) | (if flags.last() { 1u8 << n } else { 0u8 })
    }
}

proof fn lemma_set_bit(v: u8, n: u8, i: u8)
    by (bit_vector)
    requires
        n < 8,
        i < 8,
    ensures
        (((v | (1u8 << n)) >> i) & 1u8 == 1u8) == (i == n || (v >> i) & 1u8 == 1u8),
{
}

proof fn lemma_zero_bits(i: u8)
    by (bit_vector)
    ensures
        (0u8 >> i) & 1u8 != 1u8,
{
}

/// Bit `i` of the packed byte is flag `i`; the bits above the last flag are clear.
pub proof fn lemma_flags_bits(flags: Seq<bool>)
    requires
        flags.len() <= 8,
    ensures
        forall|i: u8| i < flags.len() ==> flag_bit(flags_byte(flags), i) == flags[i as int],
        forall|i: u8| flags.len() <= i < 8 ==> !flag_bit(flags_byte(flags), i),
    decreases flags.len(),
{
    if flags.len() == 0 {
        assert forall|i: u8| flags.len() <= i < 8 implies !flag_bit(flags_byte(flags), i) by {
            lemma_zero_bits(i);
        }
    } else {
        let init = flags.drop_last();
        lemma_flags_bits(init);
        let n = (flags.len() - 1) as u8;
        let v = flags_byte(init);
        assert(flags_byte(flags) == v | (if flags.last() { 1u8 << n } else { 0u8 }));
        assert forall|i: u8| i < 8 implies flag_bit(flags_byte(flags), i) == (if i < flags.len() {
            flags[i as int]
        } else {
            false
        }) by {
            if flags.last() {
                lemma_set_bit(v, n, i);
            } else {
                assert(v | 0u8 == v) by (bit_vector);
            }
            if i < n {
                assert(init[i as int] == flags[i as int]);
                assert(flag_bit(v, i) == init[i as int]);
            } else {
                assert(!flag_bit(v, i));
            }
        }
    }
}

/// Writes `flags` packed into the first byte of `buffer`.
pub fn serialize_flags(buffer: &mut [u8], flags: &[bool]) -> (r: Result<usize, SerializationError>)
    requires
        flags@.len() <= 8,
    ensures
        r is Ok <==> old(buffer)@.len() >= 1,
        r is Ok ==> r->Ok_0 == 1 && final(buffer)@ == seq![flags_byte(flags@)] + old(buffer)@.skip(1),
        r is Err ==> r->Err_0 == SerializationError::TruncatedInput && final(buffer)@ == old(buffer)@,
{
    check_buffer_size(buffer, 1)?;
    let mut value: u8 = 0;
    let mut i: usize = 0;
    while i < flags.len()
        invariant
            i <= flags@.len() <= 8,
            value == flags_byte(flags@.take(i as int)),
        decreases flags@.len() - i,
    {
        assert(flags@.take(i + 1).drop_last() =~= flags@.take(i as int));
        if flags[i] {
            value = value | (1u8 << (i as u8));
        } else {
            assert(value | 0u8 == value) by (bit_vector);
        }
        i += 1;
    }
    assert(flags@.take(i as int) =~= flags@);
    buffer[0] = value;
    assert(buffer@ =~= seq![flags_byte(flags@)] + old(buffer)@.skip(1));
    Ok(1)
}

/// Reads `count` flags from the first byte of `buffer`.
pub fn deserialize_flags(buffer: &[u8], count: usize) -> (r: Result<(usize, Vec<bool>), SerializationError>)
    requires
        count <= 8,
    ensures
        r is Ok <==> buffer@.len() >= 1,
        r is Err ==> r->Err_0 == SerializationError::TruncatedInput,
        r is Ok ==> r->Ok_0.0 == 1 && r->Ok_0.1@ == Seq::new(count as nat, |i: int| flag_bit(buffer@[0], i as u8)),
{
    check_buffer_size(buffer, 1)?;
    let value = buffer[0];
    let mut flags: Vec<bool> = Vec::new();
    let mut i: usize = 0;
    while i < count
        invariant
            i <= count <= 8,
            value == buffer@[0],
            flags@ == Seq::new(i as nat, |k: int| flag_bit(value, k as u8)),
        decreases count - i,
    {
        flags.push((value >> (i as u8)) & 1 == 1);
        i += 1;
        assert(flags@ =~= Seq::new(i as nat, |k: int| flag_bit(value, k as u8)));
    }
    Ok((1, flags))
}

} // verus!
