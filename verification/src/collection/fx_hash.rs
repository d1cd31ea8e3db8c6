use vstd::prelude::*;

verus! {

/// Multiplier of the Fx hash (the rustc-hash / Firefox hash).
pub const FX_MUL: u64 = 0x517c_c1b7_2722_0a95;

/// One Fx mixing step: rotate the state left by five bits, xor the word in,
/// multiply (wrapping) by `FX_MUL`.
pub open spec fn fx_mix(state: u64, word: u64) -> u64 {
    (((state << 5u64) | (state >> 59u64)) ^ word).wrapping_mul(FX_MUL)
}

/// Little-endian value of the first `n` bytes of `b` (at most eight of them).
pub open spec fn le_word(b: Seq<u8>, n: nat) -> u64
    decreases n,
{
    if n == 0 {
        0
    } else {
        le_word(b, (n - 1) as nat) | ((b[n - 1] as u64) << (((n - 1) * 8) as u64))
    }
}

/// State after feeding `b` to the hasher in eight-byte little-endian words,
/// the last partial word zero-extended.
pub open spec fn fx_bytes(state: u64, b: Seq<u8>) -> u64
    decreases b.len(),
{
    if b.len() >= 8 {
        fx_bytes(fx_mix(state, le_word(b, 8)), b.skip(8))
    } else if b.len() == 0 {
        state
    } else {
        fx_mix(state, le_word(b, b.len()))
    }
}

/// Hash of a string, as std's `Hash for str` feeds it: its UTF-8 bytes, then `0xff`.
pub open spec fn fx_str_hash(s: Seq<char>) -> u64 {
    fx_mix(fx_bytes(0, vstd::utf8::encode_utf8(s)), 0xff)
}

/// The Fx hasher: a single 64-bit state word.
pub struct FxHasher(pub u64);

impl FxHasher {
    pub fn new() -> (h: FxHasher)
        ensures
            h.0 == 0,
    {
        FxHasher(0)
    }

    /// Mixes one word into the state.
    pub fn mix(&mut self, val: u64)
        ensures
            final(self).0 == fx_mix(old(self).0, val),
    {
        let s = self.0;
        self.0 = (((s << 5u64) | (s >> 59u64)) ^ val).wrapping_mul(FX_MUL);
    }

    pub fn write_u64(&mut self, i: u64)
        ensures
            final(self).0 == fx_mix(old(self).0, i),
    {
        self.mix(i)
    }

    pub fn write_u16(&mut self, i: u16)
        ensures
            final(self).0 == fx_mix(old(self).0, i as u64),
    {
        self.mix(i as u64)
    }

    pub fn write_u32(&mut self, i: u32)
        ensures
            final(self).0 == fx_mix(old(self).0, i as u64),
    {
        self.mix(i as u64)
    }

    pub fn write_usize(&mut self, i: usize)
        ensures
            final(self).0 == fx_mix(old(self).0, i as u64),
    {
        self.mix(i as u64)
    }

    pub fn write_i8(&mut self, i: i8)
        ensures
            final(self).0 == fx_mix(old(self).0, i as u64),
    {
        self.mix(i as u64)
    }

    pub fn write_i16(&mut self, i: i16)
        ensures
            final(self).0 == fx_mix(old(self).0, i as u64),
    {
        self.mix(i as u64)
    }

    pub fn write_i32(&mut self, i: i32)
        ensures
            final(self).0 == fx_mix(old(self).0, i as u64),
    {
        self.mix(i as u64)
    }

    pub fn write_i64(&mut self, i: i64)
        ensures
            final(self).0 == fx_mix(old(self).0, i as u64),
    {
        self.mix(i as u64)
    }

    pub fn write_isize(&mut self, i: isize)
        ensures
            final(self).0 == fx_mix(old(self).0, i as u64),
    {
        self.mix(i as u64)
    }

    pub fn write_u8(&mut self, i: u8)
        ensures
            final(self).0 == fx_mix(old(self).0, i as u64),
    {
        self.mix(i as u64)
    }

    /// Feeds a byte string: full eight-byte words first, then the rest.
    pub fn write(&mut self, bytes: &[u8])
        ensures
            final(self).0 == fx_bytes(old(self).0, bytes@),
    {
        let n = bytes.len();
        let mut i: usize = 0;
        assert(bytes@.skip(0) =~= bytes@);
        while n - i >= 8
            invariant
                n == bytes@.len(),
                i <= n,
                fx_bytes(self.0, bytes@.skip(i as int)) == fx_bytes(old(self).0, bytes@),
            decreases n - i,
        {
            let w = read_le_word(bytes, i, 8);
            proof {
                assert(bytes@.skip(i as int).skip(8) =~= bytes@.skip(i + 8));
            }
            self.mix(w);
            i = i + 8;
        }
        if i < n {
            let w = read_le_word(bytes, i, n - i);
            self.mix(w);
        }
    }

    /// Feeds a string as std's `Hash for str` does: its UTF-8 bytes, then `0xff`.
    pub fn write_str(&mut self, s: &str)
        ensures
            final(self).0 == fx_mix(fx_bytes(old(self).0, vstd::utf8::encode_utf8(s@)), 0xff),
    {
        self.write(s.as_bytes());
        self.write_u8(0xffu8);
    }

    pub fn finish(&self) -> (h: u64)
        ensures
            h == self.0,
    {
        self.0
    }
}

/// Little-endian word of `bytes[start .. start + n]`.
fn read_le_word(bytes: &[u8], start: usize, n: usize) -> (w: u64)
    requires
        start + n <= bytes@.len(),
        n <= 8,
    ensures
        w == le_word(bytes@.skip(start as int), n as nat),
{
    let ghost b = bytes@.skip(start as int);
    let mut v: u64 = 0;
    let mut k: usize = 0;
    while k < n
        invariant
            k <= n,
            n <= 8,
            start + n <= bytes.len(),
            b == bytes@.skip(start as int),
            v == le_word(b, k as nat),
        decreases n - k,
    {
        let byte = bytes[start + k];
        assert(b[k as int] == byte);
        v = v | ((byte as u64) << ((k * 8) as u64));
        k = k + 1;
    }
    v
}

/// Keys of an `XyHashMap`: hashed with the Fx hasher, compared by their view.
pub trait XyKey: View + Sized {
    /// The hash of a key, as a function of its view.
    spec fn hash_of(key: Self::V) -> u64;

    fn fx_hash(&self) -> (h: u64)
        ensures
            h == Self::hash_of(self@),
    ;

    fn key_eq(&self, other: &Self) -> (b: bool)
        ensures
            b == (self@ == other@),
    ;
}

impl XyKey for u64 {
    open spec fn hash_of(key: u64) -> u64 {
        fx_mix(0, key)
    }

    fn fx_hash(&self) -> (h: u64) {
        let mut st = FxHasher::new();
        st.write_u64(*self);
        st.finish()
    }

    fn key_eq(&self, other: &Self) -> (b: bool) {
        *self == *other
    }
}

impl XyKey for u32 {
    open spec fn hash_of(key: u32) -> u64 {
        fx_mix(0, key as u64)
    }

    fn fx_hash(&self) -> (h: u64) {
        let mut st = FxHasher::new();
        st.write_u32(*self);
        st.finish()
    }

    fn key_eq(&self, other: &Self) -> (b: bool) {
        *self == *other
    }
}

impl XyKey for usize {
    open spec fn hash_of(key: usize) -> u64 {
        fx_mix(0, key as u64)
    }

    fn fx_hash(&self) -> (h: u64) {
        let mut st = FxHasher::new();
        st.write_usize(*self);
        st.finish()
    }

    fn key_eq(&self, other: &Self) -> (b: bool) {
        *self == *other
    }
}

impl XyKey for i32 {
    open spec fn hash_of(key: i32) -> u64 {
        fx_mix(0, key as u64)
    }

    fn fx_hash(&self) -> (h: u64) {
        let mut st = FxHasher::new();
        st.write_i32(*self);
        st.finish()
    }

    fn key_eq(&self, other: &Self) -> (b: bool) {
        *self == *other
    }
}

impl XyKey for i64 {
    open spec fn hash_of(key: i64) -> u64 {
        fx_mix(0, key as u64)
    }

    fn fx_hash(&self) -> (h: u64) {
        let mut st = FxHasher::new();
        st.write_i64(*self);
        st.finish()
    }

    fn key_eq(&self, other: &Self) -> (b: bool) {
        *self == *other
    }
}

/// Byte-wise equality of two strings; equal bytes mean equal strings.
pub fn str_eq(a: &str, b: &str) -> (r: bool)
    ensures
        r == (a@ == b@),
{
    let x = a.as_bytes();
    let y = b.as_bytes();
    proof {
        vstd::utf8::encode_utf8_decode_utf8(a@);
        vstd::utf8::encode_utf8_decode_utf8(b@);
    }
    assert(x@ == vstd::utf8::encode_utf8(a@));
    assert(y@ == vstd::utf8::encode_utf8(b@));
    if x.len() != y.len() {
        return false;
    }
    let mut i: usize = 0;
    while i < x.len()
        invariant
            x@.len() == y@.len(),
            x@ == vstd::utf8::encode_utf8(a@),
            y@ == vstd::utf8::encode_utf8(b@),
            i <= x@.len(),
            forall|j: int| 0 <= j < i ==> x@[j] == y@[j],
        decreases x@.len() - i,
    {
        if x[i] != y[i] {
            return false;
        }
        i = i + 1;
    }
    assert(x@ =~= y@);
    true
}

fn str_hash(s: &str) -> (h: u64)
    ensures
        h == fx_str_hash(s@),
{
    let mut st = FxHasher::new();
    st.write_str(s);
    st.finish()
}

impl<'a> XyKey for &'a str {
    open spec fn hash_of(key: Seq<char>) -> u64 {
        fx_str_hash(key)
    }

    fn fx_hash(&self) -> (h: u64) {
        str_hash(*self)
    }

    fn key_eq(&self, other: &Self) -> (b: bool) {
        str_eq(*self, *other)
    }
}

impl XyKey for String {
    open spec fn hash_of(key: Seq<char>) -> u64 {
        fx_str_hash(key)
    }

    fn fx_hash(&self) -> (h: u64) {
        str_hash(self.as_str())
    }

    fn key_eq(&self, other: &Self) -> (b: bool) {
        str_eq(self.as_str(), other.as_str())
    }
}

} // verus!
