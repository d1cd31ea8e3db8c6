use vstd::prelude::*;

verus! {

/// Bit `j` of a byte string, bytes little-endian, bit 0 the lowest bit of byte 0.
pub open spec fn bit_at(data: Seq<u8>, j: int) -> bool {
    (data[j / 8] >> ((j % 8) as u8)) & 1u8 == 1u8
}

proof fn lemma_byte_set_bit(b: u8, i: u8)
    requires
        i < 8,
    ensures
        ((b | (1u8 << i)) >> i) & 1u8 == 1u8,
        ((b & !(1u8 << i)) >> i) & 1u8 == 0u8,
        forall|k: u8|
            k < 8 && k != i ==> ((b | (1u8 << i)) >> k) & 1u8 == (b >> k) & 1u8 && ((b & !(1u8
                << i)) >> k) & 1u8 == (b >> k) & 1u8,
{
    assert(((b | (1u8 << i)) >> i) & 1u8 == 1u8) by (bit_vector)
        requires
            i < 8,
    ;
    assert(((b & !(1u8 << i)) >> i) & 1u8 == 0u8) by (bit_vector)
        requires
            i < 8,
    ;
    assert(forall|k: u8|
        k < 8 && k != i ==> ((b | (1u8 << i)) >> k) & 1u8 == (b >> k) & 1u8 && ((b & !(1u8 << i))
            >> k) & 1u8 == (b >> k) & 1u8) by (bit_vector)
        requires
            i < 8,
    ;
}

pub proof fn lemma_uniform_byte_bits(b: u8)
    ensures
        b == 0u8 ==> forall|k: u8| k < 8 ==> #[trigger] ((b >> k) & 1u8) == 0u8,
        b == 0xffu8 ==> forall|k: u8| k < 8 ==> #[trigger] ((b >> k) & 1u8) == 1u8,
{
    assert(forall|k: u8| k < 8 ==> #[trigger] ((0u8 >> k) & 1u8) == 0u8) by (bit_vector);
    assert(forall|k: u8| k < 8 ==> #[trigger] ((0xffu8 >> k) & 1u8) == 1u8) by (bit_vector);
}

/// Reads bit `j`.
pub fn get_bit(data: &Vec<u8>, j: usize) -> (r: bool)
    requires
        j / 8 < data@.len(),
    ensures
        r == bit_at(data@, j as int),
{
    let byte = data[j / 8];
    (byte >> ((j % 8) as u8)) & 1u8 == 1u8
}

/// Writes bit `j`; every other bit keeps its value.
pub fn set_bit(data: &mut Vec<u8>, j: usize, val: bool)
    requires
        j / 8 < old(data)@.len(),
    ensures
        final(data)@.len() == old(data)@.len(),
        bit_at(final(data)@, j as int) == val,
        forall|k: int|
            0 <= k < 8 * old(data)@.len() && k != j ==> bit_at(final(data)@, k) == bit_at(
                old(data)@,
                k,
            ),
{
    let byte_idx = j / 8;
    let bit = (j % 8) as u8;
    let old_byte = data[byte_idx];
    let new_byte = if val {
        old_byte | (1u8 << bit)
    } else {
        old_byte & !(1u8 << bit)
    };
    data.set(byte_idx, new_byte);
    proof {
        lemma_byte_set_bit(old_byte, bit);
        assert forall|k: int| 0 <= k < 8 * old(data)@.len() && k != j implies bit_at(
            final(data)@,
            k,
        ) == bit_at(old(data)@, k) by {
            if k / 8 == byte_idx {
                assert(((k % 8) as u8) != bit);
            }
        }
    }
}

} // verus!
