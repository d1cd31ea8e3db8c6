use vstd::prelude::*;

use super::bits::{bit_at, get_bit, lemma_uniform_byte_bits, set_bit};

verus! {

/// Number of bytes that hold `bits` bits.
pub open spec fn bytes_for(bits: int) -> int {
    (bits + 7) / 8
}

/// A fixed-length sequence of bits packed eight to a byte.
#[derive(Debug)]
pub struct BitBuffer {
    data: Vec<u8>,
    bit_len: usize,
}

impl View for BitBuffer {
    type V = Seq<bool>;

    closed spec fn view(&self) -> Seq<bool> {
        Seq::new(self.bit_len as nat, |j: int| bit_at(self.data@, j))
    }
}

impl BitBuffer {
    pub closed spec fn wf(&self) -> bool {
        self.data@.len() == bytes_for(self.bit_len as int)
    }

    /// `bit_len` bits, all set to `initial_val`.
    pub fn new(bit_len: usize, initial_val: bool) -> (b: Self)
        ensures
            b.wf(),
            b@ == Seq::new(bit_len as nat, |j: int| initial_val),
    {
        let default_val = match initial_val {
            true => 0xFFu8,
            false => 0u8,
        };
        let n = bit_len / 8 + if bit_len % 8 == 0 {
            0
        } else {
            1
        };
        let mut data: Vec<u8> = Vec::with_capacity(n);
        let mut i: usize = 0;
        while i < n
            invariant
                i <= n,
                data@.len() == i,
                forall|k: int| 0 <= k < i ==> data@[k] == default_val,
            decreases n - i,
        {
            data.push(default_val);
            i = i + 1;
        }
        let b = BitBuffer { data, bit_len };
        proof {
            lemma_uniform_byte_bits(default_val);
            assert forall|j: int| 0 <= j < bit_len implies #[trigger] bit_at(b.data@, j)
                == initial_val by {
                assert(b.data@[j / 8] == default_val);
                let k = (j % 8) as u8;
                assert((default_val >> k) & 1u8 == (if initial_val { 1u8 } else { 0u8 }));
            }
            assert(b@ =~= Seq::new(bit_len as nat, |j: int| initial_val));
        }
        b
    }

    /// Sets bit `i` to `val`.
    pub fn set(&mut self, i: usize, val: bool)
        requires
            old(self).wf(),
            i < old(self)@.len(),
        ensures
            final(self).wf(),
            final(self)@ == old(self)@.update(i as int, val),
    {
        set_bit(&mut self.data, i, val);
        assert(self@ =~= old(self)@.update(i as int, val));
    }

    /// Bit `i`.
    pub fn get(&self, i: usize) -> (r: bool)
        requires
            self.wf(),
            i < self@.len(),
        ensures
            r == self@[i as int],
    {
        get_bit(&self.data, i)
    }
}

/// `set(i, val)` is read back by `get(i)`, and every other bit reads as before, across byte
/// boundaries alike (the buffer's view is one bit per position).
pub proof fn law_bit_read_after_write(bits: Seq<bool>, i: int, val: bool, j: int)
    requires
        0 <= i < bits.len(),
        0 <= j < bits.len(),
    ensures
        bits.update(i, val)[i] == val,
        j != i ==> bits.update(i, val)[j] == bits[j],
        bits.update(i, val).len() == bits.len(),
{
}

} // verus!
