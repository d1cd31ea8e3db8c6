use vstd::prelude::*;

use super::flags_buffer::{low_mask, Flags};

verus! {

/// A set of flags stored in a `u8`. `ALL` is the union of the declared flags and `COUNT`
/// their number.
#[derive(Clone, Copy, PartialEq, Eq, Hash, Debug)]
pub struct FlagSet8<const ALL: u8, const COUNT: usize>(pub u8);

impl<const ALL: u8, const COUNT: usize> FlagSet8<ALL, COUNT> {
    /// Number of declared flags.
    pub fn flag_count() -> (r: usize)
        ensures
            r == COUNT,
    {
        COUNT
    }

    pub fn empty() -> (r: Self)
        ensures
            r.0 == 0,
    {
        FlagSet8(0)
    }

    /// Every declared flag.
    pub fn all() -> (r: Self)
        ensures
            r.0 == ALL,
    {
        FlagSet8(ALL)
    }

    pub fn bits(self) -> (r: u8)
        ensures
            r == self.0,
    {
        self.0
    }

    pub fn from_bits(bits: u8) -> (r: Self)
        ensures
            r.0 == bits,
    {
        FlagSet8(bits)
    }

    /// Every flag of `other` is set in `self`.
    pub fn contains(self, other: Self) -> (r: bool)
        ensures
            r == (self.0 & other.0 == other.0),
    {
        (self.0 & other.0) == other.0
    }

    /// Some flag of `other` is set in `self`.
    pub fn intersects(self, other: Self) -> (r: bool)
        ensures
            r == (self.0 & other.0 != 0),
    {
        (self.0 & other.0) != 0
    }

    pub fn insert(&mut self, other: Self)
        ensures
            final(self).0 == old(self).0 | other.0,
    {
        self.0 = self.0 | other.0;
    }

    pub fn remove(&mut self, other: Self)
        ensures
            final(self).0 == old(self).0 & !other.0,
    {
        self.0 = self.0 & !other.0;
    }

    pub fn toggle(&mut self, other: Self)
        ensures
            final(self).0 == old(self).0 ^ other.0,
    {
        self.0 = self.0 ^ other.0;
    }

    pub fn is_empty(self) -> (r: bool)
        ensures
            r == (self.0 == 0),
    {
        self.0 == 0
    }

    /// After inserting `b`, the set contains `b`.
    pub proof fn law_insert_contains(a: Self, b: Self)
        ensures
            (a.0 | b.0) & b.0 == b.0,
    {
        let (x, y) = (a.0, b.0);
        assert((x | y) & y == y) by (bit_vector);
    }

    /// After removing `b`, the set shares no flag with `b` and keeps its other flags.
    pub proof fn law_remove_clears(a: Self, b: Self)
        ensures
            (a.0 & !b.0) & b.0 == 0,
            (a.0 & !b.0) | (a.0 & b.0) == a.0,
    {
        let (x, y) = (a.0, b.0);
        assert((x & !y) & y == 0) by (bit_vector);
        assert((x & !y) | (x & y) == x) by (bit_vector);
    }

    /// Toggling `b` twice restores the set.
    pub proof fn law_toggle_twice(a: Self, b: Self)
        ensures
            (a.0 ^ b.0) ^ b.0 == a.0,
    {
        let (x, y) = (a.0, b.0);
        assert((x ^ y) ^ y == x) by (bit_vector);
    }
}

impl<const ALL: u8, const COUNT: usize> vstd::std_specs::ops::BitOrSpecImpl for FlagSet8<ALL, COUNT> {
    open spec fn obeys_bitor_spec() -> bool {
        true
    }

    open spec fn bitor_req(self, rhs: Self) -> bool {
        true
    }

    open spec fn bitor_spec(self, rhs: Self) -> Self {
        FlagSet8(self.0 | rhs.0)
    }
}

impl<const ALL: u8, const COUNT: usize> core::ops::BitOr for FlagSet8<ALL, COUNT> {
    type Output = Self;

    fn bitor(self, rhs: Self) -> (r: Self)
        ensures
            r.0 == self.0 | rhs.0,
    {
        FlagSet8(self.0 | rhs.0)
    }
}

impl<const ALL: u8, const COUNT: usize> vstd::std_specs::ops::BitAndSpecImpl for FlagSet8<ALL, COUNT> {
    open spec fn obeys_bitand_spec() -> bool {
        true
    }

    open spec fn bitand_req(self, rhs: Self) -> bool {
        true
    }

    open spec fn bitand_spec(self, rhs: Self) -> Self {
        FlagSet8(self.0 & rhs.0)
    }
}

impl<const ALL: u8, const COUNT: usize> core::ops::BitAnd for FlagSet8<ALL, COUNT> {
    type Output = Self;

    fn bitand(self, rhs: Self) -> (r: Self)
        ensures
            r.0 == self.0 & rhs.0,
    {
        FlagSet8(self.0 & rhs.0)
    }
}

impl<const ALL: u8, const COUNT: usize> vstd::std_specs::ops::BitXorSpecImpl for FlagSet8<ALL, COUNT> {
    open spec fn obeys_bitxor_spec() -> bool {
        true
    }

    open spec fn bitxor_req(self, rhs: Self) -> bool {
        true
    }

    open spec fn bitxor_spec(self, rhs: Self) -> Self {
        FlagSet8(self.0 ^ rhs.0)
    }
}

impl<const ALL: u8, const COUNT: usize> core::ops::BitXor for FlagSet8<ALL, COUNT> {
    type Output = Self;

    fn bitxor(self, rhs: Self) -> (r: Self)
        ensures
            r.0 == self.0 ^ rhs.0,
    {
        FlagSet8(self.0 ^ rhs.0)
    }
}

impl<const ALL: u8, const COUNT: usize> vstd::std_specs::ops::NotSpecImpl for FlagSet8<ALL, COUNT> {
    open spec fn obeys_not_spec() -> bool {
        true
    }

    open spec fn not_req(self) -> bool {
        true
    }

    open spec fn not_spec(self) -> Self {
        FlagSet8(!self.0)
    }
}

impl<const ALL: u8, const COUNT: usize> core::ops::Not for FlagSet8<ALL, COUNT> {
    type Output = Self;

    fn not(self) -> (r: Self)
        ensures
            r.0 == !self.0,
    {
        FlagSet8(!self.0)
    }
}

impl<const ALL: u8, const COUNT: usize> core::ops::BitOrAssign for FlagSet8<ALL, COUNT> {
    fn bitor_assign(&mut self, rhs: Self)
        ensures
            final(self).0 == old(self).0 | rhs.0,
    {
        self.0 = self.0 | rhs.0;
    }
}

impl<const ALL: u8, const COUNT: usize> core::ops::BitAndAssign for FlagSet8<ALL, COUNT> {
    fn bitand_assign(&mut self, rhs: Self)
        ensures
            final(self).0 == old(self).0 & rhs.0,
    {
        self.0 = self.0 & rhs.0;
    }
}

impl<const ALL: u8, const COUNT: usize> Flags for FlagSet8<ALL, COUNT> {
    /// Position of the highest declared bit, plus one.
    const BITS: u32 = ((ALL >> 0u8) as u32 + 255) / 256
        + ((ALL >> 1u8) as u32 + 255) / 256
        + ((ALL >> 2u8) as u32 + 255) / 256
        + ((ALL >> 3u8) as u32 + 255) / 256
        + ((ALL >> 4u8) as u32 + 255) / 256
        + ((ALL >> 5u8) as u32 + 255) / 256
        + ((ALL >> 6u8) as u32 + 255) / 256
        + ((ALL >> 7u8) as u32 + 255) / 256;
    open spec fn bits_of(self) -> u64 {
        self.0 as u64
    }

    open spec fn flags_of(bits: u64) -> Self {
        FlagSet8(bits as u8)
    }

    fn to_bits(self) -> (r: u64) {
        self.0 as u64
    }

    fn from_bits(bits: u64) -> (r: Self) {
        FlagSet8(bits as u8)
    }
}

impl<const ALL: u8, const COUNT: usize> FlagSet8<ALL, COUNT> {
    /// A set of declared flags survives a `FlagsBuffer`: cut to `BITS` bits and read back,
    /// it is the same set.
    pub proof fn law_buffer_round_trip(f: Self)
        requires
            f.0 & !ALL == 0,
        ensures
            Self::flags_of(f.bits_of() & low_mask(<Self as Flags>::BITS)) == f,
    {
        let a: u8 = ALL;
        let x: u8 = f.0;
        let b: u32 = <Self as Flags>::BITS;
        assert(b == ((a >> 0u8) as u32 + 255) / 256 + ((a >> 1u8) as u32 + 255) / 256 + ((a
            >> 2u8) as u32 + 255) / 256 + ((a >> 3u8) as u32 + 255) / 256 + ((a >> 4u8) as u32
            + 255) / 256 + ((a >> 5u8) as u32 + 255) / 256 + ((a >> 6u8) as u32 + 255) / 256 + ((a
            >> 7u8) as u32 + 255) / 256);
        assert(((x as u64) & (((1u64 << b) - 1) as u64)) as u8 == x) by (bit_vector)
            requires
                x & !a == 0,
                b == ((a >> 0u8) as u32 + 255) / 256 + ((a >> 1u8) as u32 + 255) / 256 + ((a
                    >> 2u8) as u32 + 255) / 256 + ((a >> 3u8) as u32 + 255) / 256 + ((a >> 4u8)
                    as u32 + 255) / 256 + ((a >> 5u8) as u32 + 255) / 256 + ((a >> 6u8) as u32
                    + 255) / 256 + ((a >> 7u8) as u32 + 255) / 256,
        ;
    }
}

/// A set of flags stored in a `u16`. `ALL` is the union of the declared flags and `COUNT`
/// their number.
#[derive(Clone, Copy, PartialEq, Eq, Hash, Debug)]
pub struct FlagSet16<const ALL: u16, const COUNT: usize>(pub u16);

impl<const ALL: u16, const COUNT: usize> FlagSet16<ALL, COUNT> {
    /// Number of declared flags.
    pub fn flag_count() -> (r: usize)
        ensures
            r == COUNT,
    {
        COUNT
    }

    pub fn empty() -> (r: Self)
        ensures
            r.0 == 0,
    {
        FlagSet16(0)
    }

    /// Every declared flag.
    pub fn all() -> (r: Self)
        ensures
            r.0 == ALL,
    {
        FlagSet16(ALL)
    }

    pub fn bits(self) -> (r: u16)
        ensures
            r == self.0,
    {
        self.0
    }

    pub fn from_bits(bits: u16) -> (r: Self)
        ensures
            r.0 == bits,
    {
        FlagSet16(bits)
    }

    /// Every flag of `other` is set in `self`.
    pub fn contains(self, other: Self) -> (r: bool)
        ensures
            r == (self.0 & other.0 == other.0),
    {
        (self.0 & other.0) == other.0
    }

    /// Some flag of `other` is set in `self`.
    pub fn intersects(self, other: Self) -> (r: bool)
        ensures
            r == (self.0 & other.0 != 0),
    {
        (self.0 & other.0) != 0
    }

    pub fn insert(&mut self, other: Self)
        ensures
            final(self).0 == old(self).0 | other.0,
    {
        self.0 = self.0 | other.0;
    }

    pub fn remove(&mut self, other: Self)
        ensures
            final(self).0 == old(self).0 & !other.0,
    {
        self.0 = self.0 & !other.0;
    }

    pub fn toggle(&mut self, other: Self)
        ensures
            final(self).0 == old(self).0 ^ other.0,
    {
        self.0 = self.0 ^ other.0;
    }

    pub fn is_empty(self) -> (r: bool)
        ensures
            r == (self.0 == 0),
    {
        self.0 == 0
    }

    /// After inserting `b`, the set contains `b`.
    pub proof fn law_insert_contains(a: Self, b: Self)
        ensures
            (a.0 | b.0) & b.0 == b.0,
    {
        let (x, y) = (a.0, b.0);
        assert((x | y) & y == y) by (bit_vector);
    }

    /// After removing `b`, the set shares no flag with `b` and keeps its other flags.
    pub proof fn law_remove_clears(a: Self, b: Self)
        ensures
            (a.0 & !b.0) & b.0 == 0,
            (a.0 & !b.0) | (a.0 & b.0) == a.0,
    {
        let (x, y) = (a.0, b.0);
        assert((x & !y) & y == 0) by (bit_vector);
        assert((x & !y) | (x & y) == x) by (bit_vector);
    }

    /// Toggling `b` twice restores the set.
    pub proof fn law_toggle_twice(a: Self, b: Self)
        ensures
            (a.0 ^ b.0) ^ b.0 == a.0,
    {
        let (x, y) = (a.0, b.0);
        assert((x ^ y) ^ y == x) by (bit_vector);
    }
}

impl<const ALL: u16, const COUNT: usize> vstd::std_specs::ops::BitOrSpecImpl for FlagSet16<ALL, COUNT> {
    open spec fn obeys_bitor_spec() -> bool {
        true
    }

    open spec fn bitor_req(self, rhs: Self) -> bool {
        true
    }

    open spec fn bitor_spec(self, rhs: Self) -> Self {
        FlagSet16(self.0 | rhs.0)
    }
}

impl<const ALL: u16, const COUNT: usize> core::ops::BitOr for FlagSet16<ALL, COUNT> {
    type Output = Self;

    fn bitor(self, rhs: Self) -> (r: Self)
        ensures
            r.0 == self.0 | rhs.0,
    {
        FlagSet16(self.0 | rhs.0)
    }
}

impl<const ALL: u16, const COUNT: usize> vstd::std_specs::ops::BitAndSpecImpl for FlagSet16<ALL, COUNT> {
    open spec fn obeys_bitand_spec() -> bool {
        true
    }

    open spec fn bitand_req(self, rhs: Self) -> bool {
        true
    }

    open spec fn bitand_spec(self, rhs: Self) -> Self {
        FlagSet16(self.0 & rhs.0)
    }
}

impl<const ALL: u16, const COUNT: usize> core::ops::BitAnd for FlagSet16<ALL, COUNT> {
    type Output = Self;

    fn bitand(self, rhs: Self) -> (r: Self)
        ensures
            r.0 == self.0 & rhs.0,
    {
        FlagSet16(self.0 & rhs.0)
    }
}

impl<const ALL: u16, const COUNT: usize> vstd::std_specs::ops::BitXorSpecImpl for FlagSet16<ALL, COUNT> {
    open spec fn obeys_bitxor_spec() -> bool {
        true
    }

    open spec fn bitxor_req(self, rhs: Self) -> bool {
        true
    }

    open spec fn bitxor_spec(self, rhs: Self) -> Self {
        FlagSet16(self.0 ^ rhs.0)
    }
}

impl<const ALL: u16, const COUNT: usize> core::ops::BitXor for FlagSet16<ALL, COUNT> {
    type Output = Self;

    fn bitxor(self, rhs: Self) -> (r: Self)
        ensures
            r.0 == self.0 ^ rhs.0,
    {
        FlagSet16(self.0 ^ rhs.0)
    }
}

impl<const ALL: u16, const COUNT: usize> vstd::std_specs::ops::NotSpecImpl for FlagSet16<ALL, COUNT> {
    open spec fn obeys_not_spec() -> bool {
        true
    }

    open spec fn not_req(self) -> bool {
        true
    }

    open spec fn not_spec(self) -> Self {
        FlagSet16(!self.0)
    }
}

impl<const ALL: u16, const COUNT: usize> core::ops::Not for FlagSet16<ALL, COUNT> {
    type Output = Self;

    fn not(self) -> (r: Self)
        ensures
            r.0 == !self.0,
    {
        FlagSet16(!self.0)
    }
}

impl<const ALL: u16, const COUNT: usize> core::ops::BitOrAssign for FlagSet16<ALL, COUNT> {
    fn bitor_assign(&mut self, rhs: Self)
        ensures
            final(self).0 == old(self).0 | rhs.0,
    {
        self.0 = self.0 | rhs.0;
    }
}

impl<const ALL: u16, const COUNT: usize> core::ops::BitAndAssign for FlagSet16<ALL, COUNT> {
    fn bitand_assign(&mut self, rhs: Self)
        ensures
            final(self).0 == old(self).0 & rhs.0,
    {
        self.0 = self.0 & rhs.0;
    }
}

impl<const ALL: u16, const COUNT: usize> Flags for FlagSet16<ALL, COUNT> {
    /// Position of the highest declared bit, plus one.
    const BITS: u32 = ((ALL >> 0u8) as u32 + 65535) / 65536
        + ((ALL >> 1u8) as u32 + 65535) / 65536
        + ((ALL >> 2u8) as u32 + 65535) / 65536
        + ((ALL >> 3u8) as u32 + 65535) / 65536
        + ((ALL >> 4u8) as u32 + 65535) / 65536
        + ((ALL >> 5u8) as u32 + 65535) / 65536
        + ((ALL >> 6u8) as u32 + 65535) / 65536
        + ((ALL >> 7u8) as u32 + 65535) / 65536
        + ((ALL >> 8u8) as u32 + 65535) / 65536
        + ((ALL >> 9u8) as u32 + 65535) / 65536
        + ((ALL >> 10u8) as u32 + 65535) / 65536
        + ((ALL >> 11u8) as u32 + 65535) / 65536
        + ((ALL >> 12u8) as u32 + 65535) / 65536
        + ((ALL >> 13u8) as u32 + 65535) / 65536
        + ((ALL >> 14u8) as u32 + 65535) / 65536
        + ((ALL >> 15u8) as u32 + 65535) / 65536;
    open spec fn bits_of(self) -> u64 {
        self.0 as u64
    }

    open spec fn flags_of(bits: u64) -> Self {
        FlagSet16(bits as u16)
    }

    fn to_bits(self) -> (r: u64) {
        self.0 as u64
    }

    fn from_bits(bits: u64) -> (r: Self) {
        FlagSet16(bits as u16)
    }
}

impl<const ALL: u16, const COUNT: usize> FlagSet16<ALL, COUNT> {
    /// A set of declared flags survives a `FlagsBuffer`: cut to `BITS` bits and read back,
    /// it is the same set.
    pub proof fn law_buffer_round_trip(f: Self)
        requires
            f.0 & !ALL == 0,
        ensures
            Self::flags_of(f.bits_of() & low_mask(<Self as Flags>::BITS)) == f,
    {
        let a: u16 = ALL;
        let x: u16 = f.0;
        let b: u32 = <Self as Flags>::BITS;
        assert(b == ((a >> 0u8) as u32 + 65535) / 65536
            + ((a >> 1u8) as u32 + 65535) / 65536
            + ((a >> 2u8) as u32 + 65535) / 65536
            + ((a >> 3u8) as u32 + 65535) / 65536
            + ((a >> 4u8) as u32 + 65535) / 65536
            + ((a >> 5u8) as u32 + 65535) / 65536
            + ((a >> 6u8) as u32 + 65535) / 65536
            + ((a >> 7u8) as u32 + 65535) / 65536
            + ((a >> 8u8) as u32 + 65535) / 65536
            + ((a >> 9u8) as u32 + 65535) / 65536
            + ((a >> 10u8) as u32 + 65535) / 65536
            + ((a >> 11u8) as u32 + 65535) / 65536
            + ((a >> 12u8) as u32 + 65535) / 65536
            + ((a >> 13u8) as u32 + 65535) / 65536
            + ((a >> 14u8) as u32 + 65535) / 65536
            + ((a >> 15u8) as u32 + 65535) / 65536);
        assert(((x as u64) & (((1u64 << b) - 1) as u64)) as u16 == x) by (bit_vector)
            requires
                x & !a == 0,
                b == ((a >> 0u8) as u32 + 65535) / 65536
                    + ((a >> 1u8) as u32 + 65535) / 65536
                    + ((a >> 2u8) as u32 + 65535) / 65536
                    + ((a >> 3u8) as u32 + 65535) / 65536
                    + ((a >> 4u8) as u32 + 65535) / 65536
                    + ((a >> 5u8) as u32 + 65535) / 65536
                    + ((a >> 6u8) as u32 + 65535) / 65536
                    + ((a >> 7u8) as u32 + 65535) / 65536
                    + ((a >> 8u8) as u32 + 65535) / 65536
                    + ((a >> 9u8) as u32 + 65535) / 65536
                    + ((a >> 10u8) as u32 + 65535) / 65536
                    + ((a >> 11u8) as u32 + 65535) / 65536
                    + ((a >> 12u8) as u32 + 65535) / 65536
                    + ((a >> 13u8) as u32 + 65535) / 65536
                    + ((a >> 14u8) as u32 + 65535) / 65536
                    + ((a >> 15u8) as u32 + 65535) / 65536,
        ;
    }
}

/// A set of flags stored in a `u32`. `ALL` is the union of the declared flags and `COUNT`
/// their number.
#[derive(Clone, Copy, PartialEq, Eq, Hash, Debug)]
pub struct FlagSet32<const ALL: u32, const COUNT: usize>(pub u32);

impl<const ALL: u32, const COUNT: usize> FlagSet32<ALL, COUNT> {
    /// Number of declared flags.
    pub fn flag_count() -> (r: usize)
        ensures
            r == COUNT,
    {
        COUNT
    }

    pub fn empty() -> (r: Self)
        ensures
            r.0 == 0,
    {
        FlagSet32(0)
    }

    /// Every declared flag.
    pub fn all() -> (r: Self)
        ensures
            r.0 == ALL,
    {
        FlagSet32(ALL)
    }

    pub fn bits(self) -> (r: u32)
        ensures
            r == self.0,
    {
        self.0
    }

    pub fn from_bits(bits: u32) -> (r: Self)
        ensures
            r.0 == bits,
    {
        FlagSet32(bits)
    }

    /// Every flag of `other` is set in `self`.
    pub fn contains(self, other: Self) -> (r: bool)
        ensures
            r == (self.0 & other.0 == other.0),
    {
        (self.0 & other.0) == other.0
    }

    /// Some flag of `other` is set in `self`.
    pub fn intersects(self, other: Self) -> (r: bool)
        ensures
            r == (self.0 & other.0 != 0),
    {
        (self.0 & other.0) != 0
    }

    pub fn insert(&mut self, other: Self)
        ensures
            final(self).0 == old(self).0 | other.0,
    {
        self.0 = self.0 | other.0;
    }

    pub fn remove(&mut self, other: Self)
        ensures
            final(self).0 == old(self).0 & !other.0,
    {
        self.0 = self.0 & !other.0;
    }

    pub fn toggle(&mut self, other: Self)
        ensures
            final(self).0 == old(self).0 ^ other.0,
    {
        self.0 = self.0 ^ other.0;
    }

    pub fn is_empty(self) -> (r: bool)
        ensures
            r == (self.0 == 0),
    {
        self.0 == 0
    }

    /// After inserting `b`, the set contains `b`.
    pub proof fn law_insert_contains(a: Self, b: Self)
        ensures
            (a.0 | b.0) & b.0 == b.0,
    {
        let (x, y) = (a.0, b.0);
        assert((x | y) & y == y) by (bit_vector);
    }

    /// After removing `b`, the set shares no flag with `b` and keeps its other flags.
    pub proof fn law_remove_clears(a: Self, b: Self)
        ensures
            (a.0 & !b.0) & b.0 == 0,
            (a.0 & !b.0) | (a.0 & b.0) == a.0,
    {
        let (x, y) = (a.0, b.0);
        assert((x & !y) & y == 0) by (bit_vector);
        assert((x & !y) | (x & y) == x) by (bit_vector);
    }

    /// Toggling `b` twice restores the set.
    pub proof fn law_toggle_twice(a: Self, b: Self)
        ensures
            (a.0 ^ b.0) ^ b.0 == a.0,
    {
        let (x, y) = (a.0, b.0);
        assert((x ^ y) ^ y == x) by (bit_vector);
    }
}

impl<const ALL: u32, const COUNT: usize> vstd::std_specs::ops::BitOrSpecImpl for FlagSet32<ALL, COUNT> {
    open spec fn obeys_bitor_spec() -> bool {
        true
    }

    open spec fn bitor_req(self, rhs: Self) -> bool {
        true
    }

    open spec fn bitor_spec(self, rhs: Self) -> Self {
        FlagSet32(self.0 | rhs.0)
    }
}

impl<const ALL: u32, const COUNT: usize> core::ops::BitOr for FlagSet32<ALL, COUNT> {
    type Output = Self;

    fn bitor(self, rhs: Self) -> (r: Self)
        ensures
            r.0 == self.0 | rhs.0,
    {
        FlagSet32(self.0 | rhs.0)
    }
}

impl<const ALL: u32, const COUNT: usize> vstd::std_specs::ops::BitAndSpecImpl for FlagSet32<ALL, COUNT> {
    open spec fn obeys_bitand_spec() -> bool {
        true
    }

    open spec fn bitand_req(self, rhs: Self) -> bool {
        true
    }

    open spec fn bitand_spec(self, rhs: Self) -> Self {
        FlagSet32(self.0 & rhs.0)
    }
}

impl<const ALL: u32, const COUNT: usize> core::ops::BitAnd for FlagSet32<ALL, COUNT> {
    type Output = Self;

    fn bitand(self, rhs: Self) -> (r: Self)
        ensures
            r.0 == self.0 & rhs.0,
    {
        FlagSet32(self.0 & rhs.0)
    }
}

impl<const ALL: u32, const COUNT: usize> vstd::std_specs::ops::BitXorSpecImpl for FlagSet32<ALL, COUNT> {
    open spec fn obeys_bitxor_spec() -> bool {
        true
    }

    open spec fn bitxor_req(self, rhs: Self) -> bool {
        true
    }

    open spec fn bitxor_spec(self, rhs: Self) -> Self {
        FlagSet32(self.0 ^ rhs.0)
    }
}

impl<const ALL: u32, const COUNT: usize> core::ops::BitXor for FlagSet32<ALL, COUNT> {
    type Output = Self;

    fn bitxor(self, rhs: Self) -> (r: Self)
        ensures
            r.0 == self.0 ^ rhs.0,
    {
        FlagSet32(self.0 ^ rhs.0)
    }
}

impl<const ALL: u32, const COUNT: usize> vstd::std_specs::ops::NotSpecImpl for FlagSet32<ALL, COUNT> {
    open spec fn obeys_not_spec() -> bool {
        true
    }

    open spec fn not_req(self) -> bool {
        true
    }

    open spec fn not_spec(self) -> Self {
        FlagSet32(!self.0)
    }
}

impl<const ALL: u32, const COUNT: usize> core::ops::Not for FlagSet32<ALL, COUNT> {
    type Output = Self;

    fn not(self) -> (r: Self)
        ensures
            r.0 == !self.0,
    {
        FlagSet32(!self.0)
    }
}

impl<const ALL: u32, const COUNT: usize> core::ops::BitOrAssign for FlagSet32<ALL, COUNT> {
    fn bitor_assign(&mut self, rhs: Self)
        ensures
            final(self).0 == old(self).0 | rhs.0,
    {
        self.0 = self.0 | rhs.0;
    }
}

impl<const ALL: u32, const COUNT: usize> core::ops::BitAndAssign for FlagSet32<ALL, COUNT> {
    fn bitand_assign(&mut self, rhs: Self)
        ensures
            final(self).0 == old(self).0 & rhs.0,
    {
        self.0 = self.0 & rhs.0;
    }
}

impl<const ALL: u32, const COUNT: usize> Flags for FlagSet32<ALL, COUNT> {
    /// Position of the highest declared bit, plus one.
    const BITS: u32 = (((ALL >> 0u8) as u64 + 4294967295) / 4294967296) as u32
        + (((ALL >> 1u8) as u64 + 4294967295) / 4294967296) as u32
        + (((ALL >> 2u8) as u64 + 4294967295) / 4294967296) as u32
        + (((ALL >> 3u8) as u64 + 4294967295) / 4294967296) as u32
        + (((ALL >> 4u8) as u64 + 4294967295) / 4294967296) as u32
        + (((ALL >> 5u8) as u64 + 4294967295) / 4294967296) as u32
        + (((ALL >> 6u8) as u64 + 4294967295) / 4294967296) as u32
        + (((ALL >> 7u8) as u64 + 4294967295) / 4294967296) as u32
        + (((ALL >> 8u8) as u64 + 4294967295) / 4294967296) as u32
        + (((ALL >> 9u8) as u64 + 4294967295) / 4294967296) as u32
        + (((ALL >> 10u8) as u64 + 4294967295) / 4294967296) as u32
        + (((ALL >> 11u8) as u64 + 4294967295) / 4294967296) as u32
        + (((ALL >> 12u8) as u64 + 4294967295) / 4294967296) as u32
        + (((ALL >> 13u8) as u64 + 4294967295) / 4294967296) as u32
        + (((ALL >> 14u8) as u64 + 4294967295) / 4294967296) as u32
        + (((ALL >> 15u8) as u64 + 4294967295) / 4294967296) as u32
        + (((ALL >> 16u8) as u64 + 4294967295) / 4294967296) as u32
        + (((ALL >> 17u8) as u64 + 4294967295) / 4294967296) as u32
        + (((ALL >> 18u8) as u64 + 4294967295) / 4294967296) as u32
        + (((ALL >> 19u8) as u64 + 4294967295) / 4294967296) as u32
        + (((ALL >> 20u8) as u64 + 4294967295) / 4294967296) as u32
        + (((ALL >> 21u8) as u64 + 4294967295) / 4294967296) as u32
        + (((ALL >> 22u8) as u64 + 4294967295) / 4294967296) as u32
        + (((ALL >> 23u8) as u64 + 4294967295) / 4294967296) as u32
        + (((ALL >> 24u8) as u64 + 4294967295) / 4294967296) as u32
        + (((ALL >> 25u8) as u64 + 4294967295) / 4294967296) as u32
        + (((ALL >> 26u8) as u64 + 4294967295) / 4294967296) as u32
        + (((ALL >> 27u8) as u64 + 4294967295) / 4294967296) as u32
        + (((ALL >> 28u8) as u64 + 4294967295) / 4294967296) as u32
        + (((ALL >> 29u8) as u64 + 4294967295) / 4294967296) as u32
        + (((ALL >> 30u8) as u64 + 4294967295) / 4294967296) as u32
        + (((ALL >> 31u8) as u64 + 4294967295) / 4294967296) as u32;
    open spec fn bits_of(self) -> u64 {
        self.0 as u64
    }

    open spec fn flags_of(bits: u64) -> Self {
        FlagSet32(bits as u32)
    }

    fn to_bits(self) -> (r: u64) {
        self.0 as u64
    }

    fn from_bits(bits: u64) -> (r: Self) {
        FlagSet32(bits as u32)
    }
}

impl<const ALL: u32, const COUNT: usize> FlagSet32<ALL, COUNT> {
    /// A set of declared flags survives a `FlagsBuffer`: cut to `BITS` bits and read back,
    /// it is the same set.
    pub proof fn law_buffer_round_trip(f: Self)
        requires
            f.0 & !ALL == 0,
        ensures
            Self::flags_of(f.bits_of() & low_mask(<Self as Flags>::BITS)) == f,
    {
        let a: u32 = ALL;
        let x: u32 = f.0;
        let b: u32 = <Self as Flags>::BITS;
        assert(b == (((a >> 0u8) as u64 + 4294967295) / 4294967296) as u32
            + (((a >> 1u8) as u64 + 4294967295) / 4294967296) as u32
            + (((a >> 2u8) as u64 + 4294967295) / 4294967296) as u32
            + (((a >> 3u8) as u64 + 4294967295) / 4294967296) as u32
            + (((a >> 4u8) as u64 + 4294967295) / 4294967296) as u32
            + (((a >> 5u8) as u64 + 4294967295) / 4294967296) as u32
            + (((a >> 6u8) as u64 + 4294967295) / 4294967296) as u32
            + (((a >> 7u8) as u64 + 4294967295) / 4294967296) as u32
            + (((a >> 8u8) as u64 + 4294967295) / 4294967296) as u32
            + (((a >> 9u8) as u64 + 4294967295) / 4294967296) as u32
            + (((a >> 10u8) as u64 + 4294967295) / 4294967296) as u32
            + (((a >> 11u8) as u64 + 4294967295) / 4294967296) as u32
            + (((a >> 12u8) as u64 + 4294967295) / 4294967296) as u32
            + (((a >> 13u8) as u64 + 4294967295) / 4294967296) as u32
            + (((a >> 14u8) as u64 + 4294967295) / 4294967296) as u32
            + (((a >> 15u8) as u64 + 4294967295) / 4294967296) as u32
            + (((a >> 16u8) as u64 + 4294967295) / 4294967296) as u32
            + (((a >> 17u8) as u64 + 4294967295) / 4294967296) as u32
            + (((a >> 18u8) as u64 + 4294967295) / 4294967296) as u32
            + (((a >> 19u8) as u64 + 4294967295) / 4294967296) as u32
            + (((a >> 20u8) as u64 + 4294967295) / 4294967296) as u32
            + (((a >> 21u8) as u64 + 4294967295) / 4294967296) as u32
            + (((a >> 22u8) as u64 + 4294967295) / 4294967296) as u32
            + (((a >> 23u8) as u64 + 4294967295) / 4294967296) as u32
            + (((a >> 24u8) as u64 + 4294967295) / 4294967296) as u32
            + (((a >> 25u8) as u64 + 4294967295) / 4294967296) as u32
            + (((a >> 26u8) as u64 + 4294967295) / 4294967296) as u32
            + (((a >> 27u8) as u64 + 4294967295) / 4294967296) as u32
            + (((a >> 28u8) as u64 + 4294967295) / 4294967296) as u32
            + (((a >> 29u8) as u64 + 4294967295) / 4294967296) as u32
            + (((a >> 30u8) as u64 + 4294967295) / 4294967296) as u32
            + (((a >> 31u8) as u64 + 4294967295) / 4294967296) as u32);
        assert(((x as u64) & (((1u64 << b) - 1) as u64)) as u32 == x) by (bit_vector)
            requires
                x & !a == 0,
                b == (((a >> 0u8) as u64 + 4294967295) / 4294967296) as u32
                    + (((a >> 1u8) as u64 + 4294967295) / 4294967296) as u32
                    + (((a >> 2u8) as u64 + 4294967295) / 4294967296) as u32
                    + (((a >> 3u8) as u64 + 4294967295) / 4294967296) as u32
                    + (((a >> 4u8) as u64 + 4294967295) / 4294967296) as u32
                    + (((a >> 5u8) as u64 + 4294967295) / 4294967296) as u32
                    + (((a >> 6u8) as u64 + 4294967295) / 4294967296) as u32
                    + (((a >> 7u8) as u64 + 4294967295) / 4294967296) as u32
                    + (((a >> 8u8) as u64 + 4294967295) / 4294967296) as u32
                    + (((a >> 9u8) as u64 + 4294967295) / 4294967296) as u32
                    + (((a >> 10u8) as u64 + 4294967295) / 4294967296) as u32
                    + (((a >> 11u8) as u64 + 4294967295) / 4294967296) as u32
                    + (((a >> 12u8) as u64 + 4294967295) / 4294967296) as u32
                    + (((a >> 13u8) as u64 + 4294967295) / 4294967296) as u32
                    + (((a >> 14u8) as u64 + 4294967295) / 4294967296) as u32
                    + (((a >> 15u8) as u64 + 4294967295) / 4294967296) as u32
                    + (((a >> 16u8) as u64 + 4294967295) / 4294967296) as u32
                    + (((a >> 17u8) as u64 + 4294967295) / 4294967296) as u32
                    + (((a >> 18u8) as u64 + 4294967295) / 4294967296) as u32
                    + (((a >> 19u8) as u64 + 4294967295) / 4294967296) as u32
                    + (((a >> 20u8) as u64 + 4294967295) / 4294967296) as u32
                    + (((a >> 21u8) as u64 + 4294967295) / 4294967296) as u32
                    + (((a >> 22u8) as u64 + 4294967295) / 4294967296) as u32
                    + (((a >> 23u8) as u64 + 4294967295) / 4294967296) as u32
                    + (((a >> 24u8) as u64 + 4294967295) / 4294967296) as u32
                    + (((a >> 25u8) as u64 + 4294967295) / 4294967296) as u32
                    + (((a >> 26u8) as u64 + 4294967295) / 4294967296) as u32
                    + (((a >> 27u8) as u64 + 4294967295) / 4294967296) as u32
                    + (((a >> 28u8) as u64 + 4294967295) / 4294967296) as u32
                    + (((a >> 29u8) as u64 + 4294967295) / 4294967296) as u32
                    + (((a >> 30u8) as u64 + 4294967295) / 4294967296) as u32
                    + (((a >> 31u8) as u64 + 4294967295) / 4294967296) as u32,
        ;
    }
}

/// A set of flags stored in a `u64`. `ALL` is the union of the declared flags and `COUNT`
/// their number.
#[derive(Clone, Copy, PartialEq, Eq, Hash, Debug)]
pub struct FlagSet64<const ALL: u64, const COUNT: usize>(pub u64);

impl<const ALL: u64, const COUNT: usize> FlagSet64<ALL, COUNT> {
    /// Number of declared flags.
    pub fn flag_count() -> (r: usize)
        ensures
            r == COUNT,
    {
        COUNT
    }

    pub fn empty() -> (r: Self)
        ensures
            r.0 == 0,
    {
        FlagSet64(0)
    }

    /// Every declared flag.
    pub fn all() -> (r: Self)
        ensures
            r.0 == ALL,
    {
        FlagSet64(ALL)
    }

    pub fn bits(self) -> (r: u64)
        ensures
            r == self.0,
    {
        self.0
    }

    pub fn from_bits(bits: u64) -> (r: Self)
        ensures
            r.0 == bits,
    {
        FlagSet64(bits)
    }

    /// Every flag of `other` is set in `self`.
    pub fn contains(self, other: Self) -> (r: bool)
        ensures
            r == (self.0 & other.0 == other.0),
    {
        (self.0 & other.0) == other.0
    }

    /// Some flag of `other` is set in `self`.
    pub fn intersects(self, other: Self) -> (r: bool)
        ensures
            r == (self.0 & other.0 != 0),
    {
        (self.0 & other.0) != 0
    }

    pub fn insert(&mut self, other: Self)
        ensures
            final(self).0 == old(self).0 | other.0,
    {
        self.0 = self.0 | other.0;
    }

    pub fn remove(&mut self, other: Self)
        ensures
            final(self).0 == old(self).0 & !other.0,
    {
        self.0 = self.0 & !other.0;
    }

    pub fn toggle(&mut self, other: Self)
        ensures
            final(self).0 == old(self).0 ^ other.0,
    {
        self.0 = self.0 ^ other.0;
    }

    pub fn is_empty(self) -> (r: bool)
        ensures
            r == (self.0 == 0),
    {
        self.0 == 0
    }

    /// After inserting `b`, the set contains `b`.
    pub proof fn law_insert_contains(a: Self, b: Self)
        ensures
            (a.0 | b.0) & b.0 == b.0,
    {
        let (x, y) = (a.0, b.0);
        assert((x | y) & y == y) by (bit_vector);
    }

    /// After removing `b`, the set shares no flag with `b` and keeps its other flags.
    pub proof fn law_remove_clears(a: Self, b: Self)
        ensures
            (a.0 & !b.0) & b.0 == 0,
            (a.0 & !b.0) | (a.0 & b.0) == a.0,
    {
        let (x, y) = (a.0, b.0);
        assert((x & !y) & y == 0) by (bit_vector);
        assert((x & !y) | (x & y) == x) by (bit_vector);
    }

    /// Toggling `b` twice restores the set.
    pub proof fn law_toggle_twice(a: Self, b: Self)
        ensures
            (a.0 ^ b.0) ^ b.0 == a.0,
    {
        let (x, y) = (a.0, b.0);
        assert((x ^ y) ^ y == x) by (bit_vector);
    }
}

impl<const ALL: u64, const COUNT: usize> vstd::std_specs::ops::BitOrSpecImpl for FlagSet64<ALL, COUNT> {
    open spec fn obeys_bitor_spec() -> bool {
        true
    }

    open spec fn bitor_req(self, rhs: Self) -> bool {
        true
    }

    open spec fn bitor_spec(self, rhs: Self) -> Self {
        FlagSet64(self.0 | rhs.0)
    }
}

impl<const ALL: u64, const COUNT: usize> core::ops::BitOr for FlagSet64<ALL, COUNT> {
    type Output = Self;

    fn bitor(self, rhs: Self) -> (r: Self)
        ensures
            r.0 == self.0 | rhs.0,
    {
        FlagSet64(self.0 | rhs.0)
    }
}

impl<const ALL: u64, const COUNT: usize> vstd::std_specs::ops::BitAndSpecImpl for FlagSet64<ALL, COUNT> {
    open spec fn obeys_bitand_spec() -> bool {
        true
    }

    open spec fn bitand_req(self, rhs: Self) -> bool {
        true
    }

    open spec fn bitand_spec(self, rhs: Self) -> Self {
        FlagSet64(self.0 & rhs.0)
    }
}

impl<const ALL: u64, const COUNT: usize> core::ops::BitAnd for FlagSet64<ALL, COUNT> {
    type Output = Self;

    fn bitand(self, rhs: Self) -> (r: Self)
        ensures
            r.0 == self.0 & rhs.0,
    {
        FlagSet64(self.0 & rhs.0)
    }
}

impl<const ALL: u64, const COUNT: usize> vstd::std_specs::ops::BitXorSpecImpl for FlagSet64<ALL, COUNT> {
    open spec fn obeys_bitxor_spec() -> bool {
        true
    }

    open spec fn bitxor_req(self, rhs: Self) -> bool {
        true
    }

    open spec fn bitxor_spec(self, rhs: Self) -> Self {
        FlagSet64(self.0 ^ rhs.0)
    }
}

impl<const ALL: u64, const COUNT: usize> core::ops::BitXor for FlagSet64<ALL, COUNT> {
    type Output = Self;

    fn bitxor(self, rhs: Self) -> (r: Self)
        ensures
            r.0 == self.0 ^ rhs.0,
    {
        FlagSet64(self.0 ^ rhs.0)
    }
}

impl<const ALL: u64, const COUNT: usize> vstd::std_specs::ops::NotSpecImpl for FlagSet64<ALL, COUNT> {
    open spec fn obeys_not_spec() -> bool {
        true
    }

    open spec fn not_req(self) -> bool {
        true
    }

    open spec fn not_spec(self) -> Self {
        FlagSet64(!self.0)
    }
}

impl<const ALL: u64, const COUNT: usize> core::ops::Not for FlagSet64<ALL, COUNT> {
    type Output = Self;

    fn not(self) -> (r: Self)
        ensures
            r.0 == !self.0,
    {
        FlagSet64(!self.0)
    }
}

impl<const ALL: u64, const COUNT: usize> core::ops::BitOrAssign for FlagSet64<ALL, COUNT> {
    fn bitor_assign(&mut self, rhs: Self)
        ensures
            final(self).0 == old(self).0 | rhs.0,
    {
        self.0 = self.0 | rhs.0;
    }
}

impl<const ALL: u64, const COUNT: usize> core::ops::BitAndAssign for FlagSet64<ALL, COUNT> {
    fn bitand_assign(&mut self, rhs: Self)
        ensures
            final(self).0 == old(self).0 & rhs.0,
    {
        self.0 = self.0 & rhs.0;
    }
}

impl<const ALL: u64, const COUNT: usize> Flags for FlagSet64<ALL, COUNT> {
    /// Position of the highest declared bit, plus one.
    const BITS: u32 = (((ALL >> 0u8) as u128 + 18446744073709551615) / 18446744073709551616) as u32
        + (((ALL >> 1u8) as u128 + 18446744073709551615) / 18446744073709551616) as u32
        + (((ALL >> 2u8) as u128 + 18446744073709551615) / 18446744073709551616) as u32
        + (((ALL >> 3u8) as u128 + 18446744073709551615) / 18446744073709551616) as u32
        + (((ALL >> 4u8) as u128 + 18446744073709551615) / 18446744073709551616) as u32
        + (((ALL >> 5u8) as u128 + 18446744073709551615) / 18446744073709551616) as u32
        + (((ALL >> 6u8) as u128 + 18446744073709551615) / 18446744073709551616) as u32
        + (((ALL >> 7u8) as u128 + 18446744073709551615) / 18446744073709551616) as u32
        + (((ALL >> 8u8) as u128 + 18446744073709551615) / 18446744073709551616) as u32
        + (((ALL >> 9u8) as u128 + 18446744073709551615) / 18446744073709551616) as u32
        + (((ALL >> 10u8) as u128 + 18446744073709551615) / 18446744073709551616) as u32
        + (((ALL >> 11u8) as u128 + 18446744073709551615) / 18446744073709551616) as u32
        + (((ALL >> 12u8) as u128 + 18446744073709551615) / 18446744073709551616) as u32
        + (((ALL >> 13u8) as u128 + 18446744073709551615) / 18446744073709551616) as u32
        + (((ALL >> 14u8) as u128 + 18446744073709551615) / 18446744073709551616) as u32
        + (((ALL >> 15u8) as u128 + 18446744073709551615) / 18446744073709551616) as u32
        + (((ALL >> 16u8) as u128 + 18446744073709551615) / 18446744073709551616) as u32
        + (((ALL >> 17u8) as u128 + 18446744073709551615) / 18446744073709551616) as u32
        + (((ALL >> 18u8) as u128 + 18446744073709551615) / 18446744073709551616) as u32
        + (((ALL >> 19u8) as u128 + 18446744073709551615) / 18446744073709551616) as u32
        + (((ALL >> 20u8) as u128 + 18446744073709551615) / 18446744073709551616) as u32
        + (((ALL >> 21u8) as u128 + 18446744073709551615) / 18446744073709551616) as u32
        + (((ALL >> 22u8) as u128 + 18446744073709551615) / 18446744073709551616) as u32
        + (((ALL >> 23u8) as u128 + 18446744073709551615) / 18446744073709551616) as u32
        + (((ALL >> 24u8) as u128 + 18446744073709551615) / 18446744073709551616) as u32
        + (((ALL >> 25u8) as u128 + 18446744073709551615) / 18446744073709551616) as u32
        + (((ALL >> 26u8) as u128 + 18446744073709551615) / 18446744073709551616) as u32
        + (((ALL >> 27u8) as u128 + 18446744073709551615) / 18446744073709551616) as u32
        + (((ALL >> 28u8) as u128 + 18446744073709551615) / 18446744073709551616) as u32
        + (((ALL >> 29u8) as u128 + 18446744073709551615) / 18446744073709551616) as u32
        + (((ALL >> 30u8) as u128 + 18446744073709551615) / 18446744073709551616) as u32
        + (((ALL >> 31u8) as u128 + 18446744073709551615) / 18446744073709551616) as u32
        + (((ALL >> 32u8) as u128 + 18446744073709551615) / 18446744073709551616) as u32
        + (((ALL >> 33u8) as u128 + 18446744073709551615) / 18446744073709551616) as u32
        + (((ALL >> 34u8) as u128 + 18446744073709551615) / 18446744073709551616) as u32
        + (((ALL >> 35u8) as u128 + 18446744073709551615) / 18446744073709551616) as u32
        + (((ALL >> 36u8) as u128 + 18446744073709551615) / 18446744073709551616) as u32
        + (((ALL >> 37u8) as u128 + 18446744073709551615) / 18446744073709551616) as u32
        + (((ALL >> 38u8) as u128 + 18446744073709551615) / 18446744073709551616) as u32
        + (((ALL >> 39u8) as u128 + 18446744073709551615) / 18446744073709551616) as u32
        + (((ALL >> 40u8) as u128 + 18446744073709551615) / 18446744073709551616) as u32
        + (((ALL >> 41u8) as u128 + 18446744073709551615) / 18446744073709551616) as u32
        + (((ALL >> 42u8) as u128 + 18446744073709551615) / 18446744073709551616) as u32
        + (((ALL >> 43u8) as u128 + 18446744073709551615) / 18446744073709551616) as u32
        + (((ALL >> 44u8) as u128 + 18446744073709551615) / 18446744073709551616) as u32
        + (((ALL >> 45u8) as u128 + 18446744073709551615) / 18446744073709551616) as u32
        + (((ALL >> 46u8) as u128 + 18446744073709551615) / 18446744073709551616) as u32
        + (((ALL >> 47u8) as u128 + 18446744073709551615) / 18446744073709551616) as u32
        + (((ALL >> 48u8) as u128 + 18446744073709551615) / 18446744073709551616) as u32
        + (((ALL >> 49u8) as u128 + 18446744073709551615) / 18446744073709551616) as u32
        + (((ALL >> 50u8) as u128 + 18446744073709551615) / 18446744073709551616) as u32
        + (((ALL >> 51u8) as u128 + 18446744073709551615) / 18446744073709551616) as u32
        + (((ALL >> 52u8) as u128 + 18446744073709551615) / 18446744073709551616) as u32
        + (((ALL >> 53u8) as u128 + 18446744073709551615) / 18446744073709551616) as u32
        + (((ALL >> 54u8) as u128 + 18446744073709551615) / 18446744073709551616) as u32
        + (((ALL >> 55u8) as u128 + 18446744073709551615) / 18446744073709551616) as u32
        + (((ALL >> 56u8) as u128 + 18446744073709551615) / 18446744073709551616) as u32
        + (((ALL >> 57u8) as u128 + 18446744073709551615) / 18446744073709551616) as u32
        + (((ALL >> 58u8) as u128 + 18446744073709551615) / 18446744073709551616) as u32
        + (((ALL >> 59u8) as u128 + 18446744073709551615) / 18446744073709551616) as u32
        + (((ALL >> 60u8) as u128 + 18446744073709551615) / 18446744073709551616) as u32
        + (((ALL >> 61u8) as u128 + 18446744073709551615) / 18446744073709551616) as u32
        + (((ALL >> 62u8) as u128 + 18446744073709551615) / 18446744073709551616) as u32
        + (((ALL >> 63u8) as u128 + 18446744073709551615) / 18446744073709551616) as u32;
    open spec fn bits_of(self) -> u64 {
        self.0 as u64
    }

    open spec fn flags_of(bits: u64) -> Self {
        FlagSet64(bits)
    }

    fn to_bits(self) -> (r: u64) {
        self.0 as u64
    }

    fn from_bits(bits: u64) -> (r: Self) {
        FlagSet64(bits)
    }
}

impl<const ALL: u64, const COUNT: usize> FlagSet64<ALL, COUNT> {
    /// A set of declared flags survives a `FlagsBuffer`: cut to `BITS` bits and read back,
    /// it is the same set.
    #[verifier::rlimit(100)]
    pub proof fn law_buffer_round_trip(f: Self)
        requires
            f.0 & !ALL == 0,
        ensures
            Self::flags_of(f.bits_of() & low_mask(<Self as Flags>::BITS)) == f,
    {
        let a: u64 = ALL;
        let x: u64 = f.0;
        let b: u32 = <Self as Flags>::BITS;
        assert(b == (((a >> 0u8) as u128 + 18446744073709551615) / 18446744073709551616) as u32
            + (((a >> 1u8) as u128 + 18446744073709551615) / 18446744073709551616) as u32
            + (((a >> 2u8) as u128 + 18446744073709551615) / 18446744073709551616) as u32
            + (((a >> 3u8) as u128 + 18446744073709551615) / 18446744073709551616) as u32
            + (((a >> 4u8) as u128 + 18446744073709551615) / 18446744073709551616) as u32
            + (((a >> 5u8) as u128 + 18446744073709551615) / 18446744073709551616) as u32
            + (((a >> 6u8) as u128 + 18446744073709551615) / 18446744073709551616) as u32
            + (((a >> 7u8) as u128 + 18446744073709551615) / 18446744073709551616) as u32
            + (((a >> 8u8) as u128 + 18446744073709551615) / 18446744073709551616) as u32
            + (((a >> 9u8) as u128 + 18446744073709551615) / 18446744073709551616) as u32
            + (((a >> 10u8) as u128 + 18446744073709551615) / 18446744073709551616) as u32
            + (((a >> 11u8) as u128 + 18446744073709551615) / 18446744073709551616) as u32
            + (((a >> 12u8) as u128 + 18446744073709551615) / 18446744073709551616) as u32
            + (((a >> 13u8) as u128 + 18446744073709551615) / 18446744073709551616) as u32
            + (((a >> 14u8) as u128 + 18446744073709551615) / 18446744073709551616) as u32
            + (((a >> 15u8) as u128 + 18446744073709551615) / 18446744073709551616) as u32
            + (((a >> 16u8) as u128 + 18446744073709551615) / 18446744073709551616) as u32
            + (((a >> 17u8) as u128 + 18446744073709551615) / 18446744073709551616) as u32
            + (((a >> 18u8) as u128 + 18446744073709551615) / 18446744073709551616) as u32
            + (((a >> 19u8) as u128 + 18446744073709551615) / 18446744073709551616) as u32
            + (((a >> 20u8) as u128 + 18446744073709551615) / 18446744073709551616) as u32
            + (((a >> 21u8) as u128 + 18446744073709551615) / 18446744073709551616) as u32
            + (((a >> 22u8) as u128 + 18446744073709551615) / 18446744073709551616) as u32
            + (((a >> 23u8) as u128 + 18446744073709551615) / 18446744073709551616) as u32
            + (((a >> 24u8) as u128 + 18446744073709551615) / 18446744073709551616) as u32
            + (((a >> 25u8) as u128 + 18446744073709551615) / 18446744073709551616) as u32
            + (((a >> 26u8) as u128 + 18446744073709551615) / 18446744073709551616) as u32
            + (((a >> 27u8) as u128 + 18446744073709551615) / 18446744073709551616) as u32
            + (((a >> 28u8) as u128 + 18446744073709551615) / 18446744073709551616) as u32
            + (((a >> 29u8) as u128 + 18446744073709551615) / 18446744073709551616) as u32
            + (((a >> 30u8) as u128 + 18446744073709551615) / 18446744073709551616) as u32
            + (((a >> 31u8) as u128 + 18446744073709551615) / 18446744073709551616) as u32
            + (((a >> 32u8) as u128 + 18446744073709551615) / 18446744073709551616) as u32
            + (((a >> 33u8) as u128 + 18446744073709551615) / 18446744073709551616) as u32
            + (((a >> 34u8) as u128 + 18446744073709551615) / 18446744073709551616) as u32
            + (((a >> 35u8) as u128 + 18446744073709551615) / 18446744073709551616) as u32
            + (((a >> 36u8) as u128 + 18446744073709551615) / 18446744073709551616) as u32
            + (((a >> 37u8) as u128 + 18446744073709551615) / 18446744073709551616) as u32
            + (((a >> 38u8) as u128 + 18446744073709551615) / 18446744073709551616) as u32
            + (((a >> 39u8) as u128 + 18446744073709551615) / 18446744073709551616) as u32
            + (((a >> 40u8) as u128 + 18446744073709551615) / 18446744073709551616) as u32
            + (((a >> 41u8) as u128 + 18446744073709551615) / 18446744073709551616) as u32
            + (((a >> 42u8) as u128 + 18446744073709551615) / 18446744073709551616) as u32
            + (((a >> 43u8) as u128 + 18446744073709551615) / 18446744073709551616) as u32
            + (((a >> 44u8) as u128 + 18446744073709551615) / 18446744073709551616) as u32
            + (((a >> 45u8) as u128 + 18446744073709551615) / 18446744073709551616) as u32
            + (((a >> 46u8) as u128 + 18446744073709551615) / 18446744073709551616) as u32
            + (((a >> 47u8) as u128 + 18446744073709551615) / 18446744073709551616) as u32
            + (((a >> 48u8) as u128 + 18446744073709551615) / 18446744073709551616) as u32
            + (((a >> 49u8) as u128 + 18446744073709551615) / 18446744073709551616) as u32
            + (((a >> 50u8) as u128 + 18446744073709551615) / 18446744073709551616) as u32
            + (((a >> 51u8) as u128 + 18446744073709551615) / 18446744073709551616) as u32
            + (((a >> 52u8) as u128 + 18446744073709551615) / 18446744073709551616) as u32
            + (((a >> 53u8) as u128 + 18446744073709551615) / 18446744073709551616) as u32
            + (((a >> 54u8) as u128 + 18446744073709551615) / 18446744073709551616) as u32
            + (((a >> 55u8) as u128 + 18446744073709551615) / 18446744073709551616) as u32
            + (((a >> 56u8) as u128 + 18446744073709551615) / 18446744073709551616) as u32
            + (((a >> 57u8) as u128 + 18446744073709551615) / 18446744073709551616) as u32
            + (((a >> 58u8) as u128 + 18446744073709551615) / 18446744073709551616) as u32
            + (((a >> 59u8) as u128 + 18446744073709551615) / 18446744073709551616) as u32
            + (((a >> 60u8) as u128 + 18446744073709551615) / 18446744073709551616) as u32
            + (((a >> 61u8) as u128 + 18446744073709551615) / 18446744073709551616) as u32
            + (((a >> 62u8) as u128 + 18446744073709551615) / 18446744073709551616) as u32
            + (((a >> 63u8) as u128 + 18446744073709551615) / 18446744073709551616) as u32);
        assert(x & (((1u64 << b) - 1) as u64) == x) by (bit_vector)
            requires
                x & !a == 0,
                b == (((a >> 0u8) as u128 + 18446744073709551615) / 18446744073709551616) as u32
                    + (((a >> 1u8) as u128 + 18446744073709551615) / 18446744073709551616) as u32
                    + (((a >> 2u8) as u128 + 18446744073709551615) / 18446744073709551616) as u32
                    + (((a >> 3u8) as u128 + 18446744073709551615) / 18446744073709551616) as u32
                    + (((a >> 4u8) as u128 + 18446744073709551615) / 18446744073709551616) as u32
                    + (((a >> 5u8) as u128 + 18446744073709551615) / 18446744073709551616) as u32
                    + (((a >> 6u8) as u128 + 18446744073709551615) / 18446744073709551616) as u32
                    + (((a >> 7u8) as u128 + 18446744073709551615) / 18446744073709551616) as u32
                    + (((a >> 8u8) as u128 + 18446744073709551615) / 18446744073709551616) as u32
                    + (((a >> 9u8) as u128 + 18446744073709551615) / 18446744073709551616) as u32
                    + (((a >> 10u8) as u128 + 18446744073709551615) / 18446744073709551616) as u32
                    + (((a >> 11u8) as u128 + 18446744073709551615) / 18446744073709551616) as u32
                    + (((a >> 12u8) as u128 + 18446744073709551615) / 18446744073709551616) as u32
                    + (((a >> 13u8) as u128 + 18446744073709551615) / 18446744073709551616) as u32
                    + (((a >> 14u8) as u128 + 18446744073709551615) / 18446744073709551616) as u32
                    + (((a >> 15u8) as u128 + 18446744073709551615) / 18446744073709551616) as u32
                    + (((a >> 16u8) as u128 + 18446744073709551615) / 18446744073709551616) as u32
                    + (((a >> 17u8) as u128 + 18446744073709551615) / 18446744073709551616) as u32
                    + (((a >> 18u8) as u128 + 18446744073709551615) / 18446744073709551616) as u32
                    + (((a >> 19u8) as u128 + 18446744073709551615) / 18446744073709551616) as u32
                    + (((a >> 20u8) as u128 + 18446744073709551615) / 18446744073709551616) as u32
                    + (((a >> 21u8) as u128 + 18446744073709551615) / 18446744073709551616) as u32
                    + (((a >> 22u8) as u128 + 18446744073709551615) / 18446744073709551616) as u32
                    + (((a >> 23u8) as u128 + 18446744073709551615) / 18446744073709551616) as u32
                    + (((a >> 24u8) as u128 + 18446744073709551615) / 18446744073709551616) as u32
                    + (((a >> 25u8) as u128 + 18446744073709551615) / 18446744073709551616) as u32
                    + (((a >> 26u8) as u128 + 18446744073709551615) / 18446744073709551616) as u32
                    + (((a >> 27u8) as u128 + 18446744073709551615) / 18446744073709551616) as u32
                    + (((a >> 28u8) as u128 + 18446744073709551615) / 18446744073709551616) as u32
                    + (((a >> 29u8) as u128 + 18446744073709551615) / 18446744073709551616) as u32
                    + (((a >> 30u8) as u128 + 18446744073709551615) / 18446744073709551616) as u32
                    + (((a >> 31u8) as u128 + 18446744073709551615) / 18446744073709551616) as u32
                    + (((a >> 32u8) as u128 + 18446744073709551615) / 18446744073709551616) as u32
                    + (((a >> 33u8) as u128 + 18446744073709551615) / 18446744073709551616) as u32
                    + (((a >> 34u8) as u128 + 18446744073709551615) / 18446744073709551616) as u32
                    + (((a >> 35u8) as u128 + 18446744073709551615) / 18446744073709551616) as u32
                    + (((a >> 36u8) as u128 + 18446744073709551615) / 18446744073709551616) as u32
                    + (((a >> 37u8) as u128 + 18446744073709551615) / 18446744073709551616) as u32
                    + (((a >> 38u8) as u128 + 18446744073709551615) / 18446744073709551616) as u32
                    + (((a >> 39u8) as u128 + 18446744073709551615) / 18446744073709551616) as u32
                    + (((a >> 40u8) as u128 + 18446744073709551615) / 18446744073709551616) as u32
                    + (((a >> 41u8) as u128 + 18446744073709551615) / 18446744073709551616) as u32
                    + (((a >> 42u8) as u128 + 18446744073709551615) / 18446744073709551616) as u32
                    + (((a >> 43u8) as u128 + 18446744073709551615) / 18446744073709551616) as u32
                    + (((a >> 44u8) as u128 + 18446744073709551615) / 18446744073709551616) as u32
                    + (((a >> 45u8) as u128 + 18446744073709551615) / 18446744073709551616) as u32
                    + (((a >> 46u8) as u128 + 18446744073709551615) / 18446744073709551616) as u32
                    + (((a >> 47u8) as u128 + 18446744073709551615) / 18446744073709551616) as u32
                    + (((a >> 48u8) as u128 + 18446744073709551615) / 18446744073709551616) as u32
                    + (((a >> 49u8) as u128 + 18446744073709551615) / 18446744073709551616) as u32
                    + (((a >> 50u8) as u128 + 18446744073709551615) / 18446744073709551616) as u32
                    + (((a >> 51u8) as u128 + 18446744073709551615) / 18446744073709551616) as u32
                    + (((a >> 52u8) as u128 + 18446744073709551615) / 18446744073709551616) as u32
                    + (((a >> 53u8) as u128 + 18446744073709551615) / 18446744073709551616) as u32
                    + (((a >> 54u8) as u128 + 18446744073709551615) / 18446744073709551616) as u32
                    + (((a >> 55u8) as u128 + 18446744073709551615) / 18446744073709551616) as u32
                    + (((a >> 56u8) as u128 + 18446744073709551615) / 18446744073709551616) as u32
                    + (((a >> 57u8) as u128 + 18446744073709551615) / 18446744073709551616) as u32
                    + (((a >> 58u8) as u128 + 18446744073709551615) / 18446744073709551616) as u32
                    + (((a >> 59u8) as u128 + 18446744073709551615) / 18446744073709551616) as u32
                    + (((a >> 60u8) as u128 + 18446744073709551615) / 18446744073709551616) as u32
                    + (((a >> 61u8) as u128 + 18446744073709551615) / 18446744073709551616) as u32
                    + (((a >> 62u8) as u128 + 18446744073709551615) / 18446744073709551616) as u32
                    + (((a >> 63u8) as u128 + 18446744073709551615) / 18446744073709551616) as u32,
        ;
    }
}

} // verus!
