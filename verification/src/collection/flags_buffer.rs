use vstd::prelude::*;

use super::bits::{bit_at, get_bit, set_bit};

verus! {

/// A set of flags that fits in `BITS` low bits of a `u64`.
pub trait Flags: Copy {
    /// Number of meaningful bits per element; a `FlagsBuffer` takes 1 to 56.
    const BITS: u32;

    /// The flags as raw bits.
    spec fn bits_of(self) -> u64;

    /// The flags that raw `bits` stand for.
    spec fn flags_of(bits: u64) -> Self;

    fn to_bits(self) -> (r: u64)
        ensures
            r == self.bits_of(),
    ;

    fn from_bits(bits: u64) -> (r: Self)
        ensures
            r == Self::flags_of(bits),
    ;
}

/// The `n` low bits set.
pub open spec fn low_mask(n: u32) -> u64 {
    ((1u64 << n) - 1) as u64
}

/// Value of the `n` bits of `data` from bit `start` on, bit `start` the lowest.
pub open spec fn bits_value(data: Seq<u8>, start: int, n: nat) -> u64
    decreases n,
{
    if n == 0 {
        0
    } else {
        bits_value(data, start, (n - 1) as nat) | ((if bit_at(data, start + n - 1) {
            1u64
        } else {
            0u64
        }) << ((n - 1) as u64))
    }
}

proof fn lemma_mask_step(val: u64, n: u64)
    requires
        1 <= n <= 56,
    ensures
        (val & (((1u64 << ((n - 1) as u64)) - 1) as u64)) | (((val >> ((n - 1) as u64)) & 1u64) << ((
        n - 1) as u64)) == val & (((1u64 << n) - 1) as u64),
        (val & (((1u64 << ((n - 1) as u64)) - 1) as u64)) < (1u64 << ((n - 1) as u64)),
{
    assert((val & (((1u64 << ((n - 1) as u64)) - 1) as u64)) | (((val >> ((n - 1) as u64)) & 1u64)
        << ((n - 1) as u64)) == val & (((1u64 << n) - 1) as u64)) by (bit_vector)
        requires
            1 <= n <= 56,
    ;
    assert((val & (((1u64 << ((n - 1) as u64)) - 1) as u64)) < (1u64 << ((n - 1) as u64)))
        by (bit_vector)
        requires
            1 <= n <= 56,
    ;
}

/// When bits `start ..< start + n` of `data` are the low bits of `val`, they read back as
/// `val` masked to `n` bits.
proof fn lemma_bits_value_of(data: Seq<u8>, start: int, n: nat, val: u64)
    requires
        n <= 56,
        forall|k: int|
            0 <= k < n ==> #[trigger] bit_at(data, start + k) == ((val >> (k as u64)) & 1u64
                == 1u64),
    ensures
        bits_value(data, start, n) == val & (((1u64 << (n as u64)) - 1) as u64),
    decreases n,
{
    if n == 0 {
        assert(val & (((1u64 << 0u64) - 1) as u64) == 0) by (bit_vector);
    } else {
        lemma_bits_value_of(data, start, (n - 1) as nat, val);
        let m = (n - 1) as u64;
        assert(bit_at(data, start + m) == ((val >> m) & 1u64 == 1u64));
        assert(((val >> m) & 1u64) == 0u64 || ((val >> m) & 1u64) == 1u64) by (bit_vector);
        lemma_mask_step(val, n as u64);
    }
}

/// Bits outside `start ..< start + n` do not change the value read there.
proof fn lemma_bits_value_frame(a: Seq<u8>, b: Seq<u8>, start: int, n: nat)
    requires
        forall|k: int| start <= k < start + n ==> bit_at(a, k) == bit_at(b, k),
    ensures
        bits_value(a, start, n) == bits_value(b, start, n),
    decreases n,
{
    if n > 0 {
        lemma_bits_value_frame(a, b, start, (n - 1) as nat);
        assert(bit_at(a, start + n - 1) == bit_at(b, start + n - 1));
    }
}

/// The value read from `n` bits fits in `n` bits.
proof fn lemma_bits_value_masked(data: Seq<u8>, start: int, n: nat)
    requires
        n <= 56,
    ensures
        bits_value(data, start, n) & (((1u64 << (n as u64)) - 1) as u64) == bits_value(
            data,
            start,
            n,
        ),
    decreases n,
{
    let v = bits_value(data, start, n);
    if n == 0 {
        assert(0u64 & (((1u64 << 0u64) - 1) as u64) == 0) by (bit_vector);
    } else {
        lemma_bits_value_masked(data, start, (n - 1) as nat);
        let m = (n - 1) as u64;
        let p = bits_value(data, start, (n - 1) as nat);
        let b: u64 = if bit_at(data, start + n - 1) {
            1u64
        } else {
            0u64
        };
        assert(v == p | (b << m));
        assert((p & (((1u64 << m) - 1) as u64)) == p ==> b <= 1 ==> (p | (b << m)) & (((1u64 << (
        m + 1)) - 1) as u64) == p | (b << m)) by (bit_vector)
            requires
                m < 56,
        ;
    }
}

/// Packed array of `len` flag sets, `F::BITS` bits each, in a byte buffer.
#[derive(Debug)]
pub struct FlagsBuffer<F: Flags> {
    data: Vec<u8>,
    len: usize,
    _p: core::marker::PhantomData<F>,
}

impl<F: Flags> View for FlagsBuffer<F> {
    type V = Seq<u64>;

    /// The raw bits of each element.
    closed spec fn view(&self) -> Seq<u64> {
        Seq::new(self.len as nat, |i: int| bits_value(self.data@, i * F::BITS, F::BITS as nat))
    }
}

/// Bytes a buffer of `len` elements of `bits` bits occupies, with seven bytes of padding.
pub open spec fn buffer_bytes(len: int, bits: int) -> int {
    (len * bits + 7) / 8 + 7
}

impl<F: Flags> FlagsBuffer<F> {
    pub closed spec fn wf(&self) -> bool {
        &&& 1 <= F::BITS <= 56
        &&& self.len * F::BITS + 64 <= usize::MAX
        &&& self.data@.len() == buffer_bytes(self.len as int, F::BITS as int)
    }

    /// The `F::BITS` low bits set.
    pub fn mask() -> (m: u64)
        requires
            1 <= F::BITS <= 56,
        ensures
            m == low_mask(F::BITS),
    {
        let b = F::BITS;
        assert((1u64 << b) >= 1) by (bit_vector)
            requires
                1 <= b <= 56,
        ;
        (1u64 << b) - 1
    }

    fn get_bits(&self, i: usize) -> (r: u64)
        requires
            self.wf(),
            i < self.len,
        ensures
            r == self@[i as int],
    {
        let b = F::BITS as usize;
        assert(i * b <= self.len * b) by (nonlinear_arith)
            requires
                i < self.len,
        ;
        let start = i * b;
        let mut v: u64 = 0;
        let mut k: usize = 0;
        proof {
            assert(i * b + b <= self.len * b) by (nonlinear_arith)
                requires
                    i < self.len,
            ;
        }
        while k < b
            invariant
                self.wf(),
                b == F::BITS,
                start == i * b,
                start + b <= self.len * b,
                k <= b,
                v == bits_value(self.data@, start as int, k as nat),
            decreases b - k,
        {
            let bit = get_bit(&self.data, start + k);
            v = v | ((if bit {
                1u64
            } else {
                0u64
            }) << (k as u64));
            k = k + 1;
        }
        v
    }

    fn set_bits(&mut self, i: usize, val: u64)
        requires
            old(self).wf(),
            i < old(self).len,
        ensures
            final(self).wf(),
            final(self).len == old(self).len,
            final(self)@ == old(self)@.update(i as int, val & low_mask(F::BITS)),
    {
        let b = F::BITS as usize;
        assert(i * b <= self.len * b) by (nonlinear_arith)
            requires
                i < self.len,
        ;
        let start = i * b;
        let ghost old_data = self.data@;
        proof {
            assert(i * b + b <= self.len * b) by (nonlinear_arith)
                requires
                    i < self.len,
            ;
        }
        let mut k: usize = 0;
        while k < b
            invariant
                self.wf(),
                self.len == old(self).len,
                b == F::BITS,
                start == i * b,
                start + b <= self.len * b,
                k <= b,
                self.data@.len() == old_data.len(),
                forall|q: int|
                    0 <= q < k ==> #[trigger] bit_at(self.data@, start + q) == ((val >> (q as u64))
                        & 1u64 == 1u64),
                forall|j: int|
                    0 <= j < 8 * old_data.len() && !(start <= j < start + k) ==> bit_at(
                        self.data@,
                        j,
                    ) == bit_at(old_data, j),
            decreases b - k,
        {
            let ghost before = self.data@;
            set_bit(&mut self.data, start + k, (val >> (k as u64)) & 1u64 == 1u64);
            proof {
                assert forall|q: int| 0 <= q < k + 1 implies #[trigger] bit_at(
                    self.data@,
                    start + q,
                ) == ((val >> (q as u64)) & 1u64 == 1u64) by {
                    if q < k {
                        assert(bit_at(self.data@, start + q) == bit_at(before, start + q));
                    }
                }
            }
            k = k + 1;
        }
        proof {
            lemma_bits_value_of(self.data@, start as int, b as nat, val);
            let n = self.len as int;
            assert forall|s: int| 0 <= s < n && s != i implies #[trigger] bits_value(
                self.data@,
                s * b,
                b as nat,
            ) == bits_value(old_data, s * b, b as nat) by {
                assert forall|j: int| s * b <= j < s * b + b implies bit_at(self.data@, j)
                    == bit_at(old_data, j) by {
                    if s < i {
                        assert(s * b + b <= i * b) by (nonlinear_arith)
                            requires
                                s < i,
                                b >= 1,
                        ;
                    } else {
                        assert(i * b + b <= s * b) by (nonlinear_arith)
                            requires
                                i < s,
                                b >= 1,
                        ;
                    }
                    assert(s * b + b <= n * b) by (nonlinear_arith)
                        requires
                            s < n,
                            b >= 1,
                    ;
                }
                lemma_bits_value_frame(self.data@, old_data, s * b, b as nat);
            }
            assert(self@ =~= old(self)@.update(i as int, val & low_mask(F::BITS)));
        }
    }

    /// `len` elements, each `initial` (masked to `F::BITS` bits).
    pub fn new(len: usize, initial: F) -> (r: Self)
        requires
            1 <= F::BITS <= 56,
            len * F::BITS + 64 <= usize::MAX,
        ensures
            r.wf(),
            r@ == Seq::new(len as nat, |i: int| initial.bits_of() & low_mask(F::BITS)),
    {
        let total_bits = len * (F::BITS as usize);
        let bytes = total_bits / 8 + (if total_bits % 8 == 0 {
            0
        } else {
            1
        }) + 7;
        let mut data: Vec<u8> = Vec::with_capacity(bytes);
        let mut i: usize = 0;
        while i < bytes
            invariant
                i <= bytes,
                data@.len() == i,
                forall|k: int| 0 <= k < i ==> data@[k] == 0u8,
            decreases bytes - i,
        {
            data.push(0u8);
            i = i + 1;
        }
        let mut buf = FlagsBuffer { data, len, _p: core::marker::PhantomData };
        proof {
            assert(forall|k: u8| k < 8 ==> #[trigger] ((0u8 >> k) & 1u8) == 0u8) by (bit_vector);
            assert(forall|k: u64| #[trigger] ((0u64 >> k) & 1u64) == 0u64) by (bit_vector);
            assert forall|s: int| 0 <= s < len implies #[trigger] bits_value(
                buf.data@,
                s * F::BITS,
                F::BITS as nat,
            ) == 0 by {
                assert forall|k: int| 0 <= k < F::BITS implies #[trigger] bit_at(
                    buf.data@,
                    s * F::BITS + k,
                ) == ((0u64 >> (k as u64)) & 1u64 == 1u64) by {
                    assert(s * F::BITS + k < len * F::BITS) by (nonlinear_arith)
                        requires
                            0 <= s < len,
                            0 <= k < F::BITS,
                    ;
                    assert((0u64 >> (k as u64)) & 1u64 == 0u64);
                }
                lemma_bits_value_of(buf.data@, s * F::BITS, F::BITS as nat, 0u64);
                assert(0u64 & (((1u64 << (F::BITS as u64)) - 1) as u64) == 0) by (bit_vector);
            }
        }
        let bits = initial.to_bits();
        if bits != 0 {
            let mut j: usize = 0;
            while j < len
                invariant
                    buf.wf(),
                    buf.len == len,
                    j <= len,
                    bits == initial.bits_of(),
                    forall|s: int| 0 <= s < j ==> #[trigger] buf@[s] == bits & low_mask(F::BITS),
                    forall|s: int| j <= s < len ==> #[trigger] buf@[s] == 0,
                decreases len - j,
            {
                buf.set_bits(j, bits);
                j = j + 1;
            }
            assert(buf@ =~= Seq::new(len as nat, |i: int| initial.bits_of() & low_mask(F::BITS)));
        } else {
            assert(0u64 & (((1u64 << (F::BITS as u64)) - 1) as u64) == 0) by (bit_vector);
            assert(buf@ =~= Seq::new(len as nat, |i: int| initial.bits_of() & low_mask(F::BITS)));
        }
        buf
    }

    pub fn len(&self) -> (r: usize)
        requires
            self.wf(),
        ensures
            r == self@.len(),
    {
        self.len
    }

    pub fn is_empty(&self) -> (r: bool)
        requires
            self.wf(),
        ensures
            r == (self@.len() == 0),
    {
        self.len == 0
    }

    /// Element `i`.
    pub fn get(&self, i: usize) -> (r: F)
        requires
            self.wf(),
            i < self@.len(),
        ensures
            r == F::flags_of(self@[i as int]),
    {
        F::from_bits(self.get_bits(i))
    }

    /// Overwrites element `i` with `flag`.
    pub fn set(&mut self, i: usize, flag: F)
        requires
            old(self).wf(),
            i < old(self)@.len(),
        ensures
            final(self).wf(),
            final(self)@ == old(self)@.update(i as int, flag.bits_of() & low_mask(F::BITS)),
    {
        self.set_bits(i, flag.to_bits());
    }

    /// ORs `flag` into element `i`; its other bits stay.
    pub fn add(&mut self, i: usize, flag: F)
        requires
            old(self).wf(),
            i < old(self)@.len(),
        ensures
            final(self).wf(),
            final(self)@ == old(self)@.update(
                i as int,
                old(self)@[i as int] | (flag.bits_of() & low_mask(F::BITS)),
            ),
    {
        let raw = self.get_bits(i);
        let add = flag.to_bits() & Self::mask();
        proof {
            let b = F::BITS as u64;
            lemma_bits_value_masked(self.data@, i * F::BITS, F::BITS as nat);
            assert((raw & (((1u64 << b) - 1) as u64)) == raw ==> ((raw | (add & (((1u64 << b)
                - 1) as u64))) & (((1u64 << b) - 1) as u64)) == (raw | (add & (((1u64 << b)
                - 1) as u64)))) by (bit_vector)
                requires
                    1 <= b <= 56,
            ;
            let fb = flag.bits_of();
            assert(add & (((1u64 << b) - 1) as u64) == add) by (bit_vector)
                requires
                    add == fb & (((1u64 << b) - 1) as u64),
                    1 <= b <= 56,
            ;
        }
        self.set_bits(i, raw | add);
    }

    /// Clears the bits of `flag` in element `i`; its other bits stay.
    pub fn remove(&mut self, i: usize, flag: F)
        requires
            old(self).wf(),
            i < old(self)@.len(),
        ensures
            final(self).wf(),
            final(self)@ == old(self)@.update(
                i as int,
                old(self)@[i as int] & !(flag.bits_of() & low_mask(F::BITS)),
            ),
    {
        let raw = self.get_bits(i);
        let rm = flag.to_bits() & Self::mask();
        proof {
            let b = F::BITS as u64;
            lemma_bits_value_masked(self.data@, i * F::BITS, F::BITS as nat);
            assert((raw & (((1u64 << b) - 1) as u64)) == raw ==> ((raw & !rm) & (((1u64 << b)
                - 1) as u64)) == (raw & !rm)) by (bit_vector)
                requires
                    1 <= b <= 56,
            ;
        }
        self.set_bits(i, raw & !rm);
    }

    /// Whether element `i` has every bit of `flag` set.
    pub fn contains(&self, i: usize, flag: F) -> (r: bool)
        requires
            self.wf(),
            i < self@.len(),
        ensures
            r == (self@[i as int] & (flag.bits_of() & low_mask(F::BITS)) == flag.bits_of()
                & low_mask(F::BITS)),
    {
        let want = flag.to_bits() & Self::mask();
        (self.get_bits(i) & want) == want
    }
}

} // verus!
