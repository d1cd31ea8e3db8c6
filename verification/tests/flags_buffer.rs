use xynok_std::{FlagSet16, FlagSet8, Flags, FlagsBuffer};

type Perms = FlagSet8<0b0111, 3>;

const READ: Perms = FlagSet8(1 << 0);
const WRITE: Perms = FlagSet8(1 << 1);
const EXECUTE: Perms = FlagSet8(1 << 2);

type Wide = FlagSet16<{ (1 << 0) | (1 << 4) | (1 << 8) | (1 << 11) }, 4>;

const A: Wide = FlagSet16(1 << 0);
const B: Wide = FlagSet16(1 << 4);
const C: Wide = FlagSet16(1 << 8);
const D: Wide = FlagSet16(1 << 11);

#[test]
fn auto_impl_bits_uses_highest_used_bit()
{
    // Perms highest bit = EXECUTE (1 << 2) → BITS = 3
    assert_eq!(<Perms as Flags>::BITS, 3);
    // Wide highest bit = D (1 << 11) → BITS = 12
    assert_eq!(<Wide as Flags>::BITS, 12);
}

#[test]
fn new_zero_initial_is_empty_everywhere()
{
    let buf = FlagsBuffer::<Perms>::new(10, Perms::empty());
    for i in 0..10
    {
        assert!(buf.get(i).is_empty(), "slot {i} should be empty");
    }
}

#[test]
fn new_non_zero_initial_fills_all()
{
    let init = READ | WRITE;
    let buf = FlagsBuffer::<Perms>::new(10, init);
    for i in 0..10
    {
        assert_eq!(buf.get(i), init, "slot {i} should be RW");
    }
}

#[test]
fn add_empty_slot()
{
    let mut buf = FlagsBuffer::<Perms>::new(8, Perms::empty());
    buf.set(3, READ | EXECUTE);
    buf.add(3, Perms::empty());
    assert_eq!(buf.get(3), READ | EXECUTE);
}

#[test]
fn set_and_get_single_slot()
{
    let mut buf = FlagsBuffer::<Perms>::new(8, Perms::empty());
    buf.set(3, READ | EXECUTE);
    assert_eq!(buf.get(3), READ | EXECUTE);
}

#[test]
fn flags_buffer_set_does_not_affect_neighbours()
{
    let mut buf = FlagsBuffer::<Perms>::new(16, Perms::empty());
    buf.set(5, Perms::all());
    for i in 0..16
    {
        if i == 5
        {
            assert_eq!(buf.get(i), Perms::all());
        }
        else
        {
            assert!(buf.get(i).is_empty(), "slot {i} should still be empty");
        }
    }
}

#[test]
fn overwrite_clears_old_bits()
{
    let mut buf = FlagsBuffer::<Perms>::new(8, Perms::empty());
    buf.set(3, Perms::all());
    buf.set(3, READ);
    assert_eq!(buf.get(3), READ);
}

#[test]
fn cross_byte_boundary_3bits()
{
    // 3 bits/element → slot 2 occupies bits 6..9 (crosses byte 0/1)
    let mut buf = FlagsBuffer::<Perms>::new(8, Perms::empty());
    buf.set(2, Perms::all());
    assert_eq!(buf.get(2), Perms::all());
    for i in 0..8
    {
        if i != 2
        {
            assert!(buf.get(i).is_empty(), "slot {i} leaked");
        }
    }
}

#[test]
fn wide_12bits_cross_byte()
{
    // 12 bits/element always crosses bytes for at least some slots.
    let mut buf = FlagsBuffer::<Wide>::new(8, Wide::empty());
    let v = A | B | C | D;
    for i in 0..8
    {
        buf.set(i, v);
    }
    for i in 0..8
    {
        assert_eq!(buf.get(i), v, "slot {i} mismatch");
    }
}

#[test]
fn wide_alternating_pattern_isolates_slots()
{
    let mut buf = FlagsBuffer::<Wide>::new(8, Wide::empty());
    for i in 0..8
    {
        if i % 2 == 0
        {
            buf.set(i, A | C);
        }
        else
        {
            buf.set(i, B | D);
        }
    }
    for i in 0..8
    {
        let expected = if i % 2 == 0 { A | C } else { B | D };
        assert_eq!(buf.get(i), expected, "slot {i}");
    }
}

#[test]
fn non_multiple_of_8_total_bits()
{
    // 5 slots * 3 bits = 15 bits → 2 bytes allocated, slot 4 ends at bit 14.
    let mut buf = FlagsBuffer::<Perms>::new(5, Perms::empty());
    buf.set(4, Perms::all());
    assert_eq!(buf.get(4), Perms::all());
    for i in 0..4
    {
        assert!(buf.get(i).is_empty());
    }
}

#[test]
fn add_flag_preserves_other_bits()
{
    let mut buf = FlagsBuffer::<Perms>::new(8, Perms::empty());
    buf.set(3, READ);
    buf.add(3, EXECUTE);
    assert_eq!(buf.get(3), READ | EXECUTE);
}

#[test]
fn remove_flag_clears_only_targeted_bits()
{
    let mut buf = FlagsBuffer::<Perms>::new(8, Perms::empty());
    buf.set(3, Perms::all());
    buf.remove(3, WRITE);
    assert_eq!(buf.get(3), READ | EXECUTE);
}

#[test]
fn set_flag_overrides_whole_slot()
{
    let mut buf = FlagsBuffer::<Perms>::new(8, Perms::empty());
    buf.set(3, Perms::all());
    buf.set(3, WRITE);
    assert_eq!(buf.get(3), WRITE);
    buf.set(3, Perms::empty());
    assert!(buf.get(3).is_empty());
}

#[test]
fn add_flag_cross_byte_does_not_leak()
{
    // slot 2 with 3 bits/element occupies bits 6..9 → crosses byte boundary.
    let mut buf = FlagsBuffer::<Perms>::new(8, Perms::empty());
    buf.set(1, Perms::all());
    buf.set(3, Perms::all());
    buf.add(2, WRITE);
    assert_eq!(buf.get(2), WRITE);
    assert_eq!(buf.get(1), Perms::all(), "neighbour 1 corrupted");
    assert_eq!(buf.get(3), Perms::all(), "neighbour 3 corrupted");
}

#[test]
fn contains_checks_all_requested_bits()
{
    let mut buf = FlagsBuffer::<Perms>::new(4, Perms::empty());
    buf.set(0, READ | WRITE);
    assert!(buf.contains(0, READ));
    assert!(buf.contains(0, WRITE));
    assert!(buf.contains(0, READ | WRITE));
    assert!(!buf.contains(0, EXECUTE));
    assert!(!buf.contains(0, READ | EXECUTE));
}

#[test]
fn len_and_is_empty()
{
    let a = FlagsBuffer::<Perms>::new(0, Perms::empty());
    assert_eq!(a.len(), 0);
    assert!(a.is_empty());

    let b = FlagsBuffer::<Perms>::new(7, Perms::empty());
    assert_eq!(b.len(), 7);
    assert!(!b.is_empty());
}
