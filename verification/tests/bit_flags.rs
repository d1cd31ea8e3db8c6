use xynok_std::collection::describe_flags;
use xynok_std::{FlagSet64, FlagSet8, Flags};

type Perms = FlagSet8<0b0111, 3>;

const READ: Perms = FlagSet8(1 << 0);
const WRITE: Perms = FlagSet8(1 << 1);
const EXECUTE: Perms = FlagSet8(1 << 2);

// How `Perms` is shown: by the names of its declared flags.
fn debug_text(p: Perms) -> String
{
    describe_flags(p.bits() as u64, &["READ", "WRITE", "EXECUTE"], &[READ.bits() as u64, WRITE.bits() as u64, EXECUTE.bits() as u64])
}

#[test]
fn empty_has_no_bits()
{
    assert_eq!(Perms::empty().bits(), 0);
    assert!(Perms::empty().is_empty());
}

#[test]
fn all_ors_every_flag()
{
    assert_eq!(Perms::all().bits(), 0b0111);
    assert!(!Perms::all().is_empty());
}

#[test]
fn from_bits_roundtrips()
{
    let p = Perms::from_bits(0b0101);
    assert_eq!(p.bits(), 0b0101);
}

#[test]
fn contains_exact_and_subset()
{
    let rw = READ | WRITE;
    assert!(rw.contains(READ));
    assert!(rw.contains(WRITE));
    assert!(!rw.contains(EXECUTE));
    assert!(rw.contains(rw));
}

#[test]
fn intersects_any_overlap()
{
    let rw = READ | WRITE;
    let rx = READ | EXECUTE;
    assert!(rw.intersects(rx));
    assert!(!WRITE.intersects(EXECUTE));
}

#[test]
fn insert_sets_bits()
{
    let mut p = READ;
    p.insert(WRITE);
    assert!(p.contains(READ));
    assert!(p.contains(WRITE));
}

#[test]
fn remove_clears_bits()
{
    let mut p = READ | WRITE;
    p.remove(READ);
    assert!(!p.contains(READ));
    assert!(p.contains(WRITE));
}

#[test]
fn toggle_flips_bits()
{
    let mut p = READ;
    p.toggle(READ);
    assert!(p.is_empty());
    p.toggle(WRITE);
    assert!(p.contains(WRITE));
}

#[test]
fn bitand_operator()
{
    let result = (READ | WRITE) & READ;
    assert_eq!(result, READ);
}

#[test]
fn bitxor_operator()
{
    let result = (READ | WRITE) ^ READ;
    assert_eq!(result, WRITE);
}

#[test]
fn not_operator_inverts()
{
    let inverted = !Perms::empty();
    assert_eq!(inverted.bits(), !0u8);
}

#[test]
fn bitor_assign_operator()
{
    let mut p = READ;
    p |= WRITE;
    assert!(p.contains(READ | WRITE));
}

#[test]
fn bitand_assign_operator()
{
    let mut p = READ | WRITE;
    p &= READ;
    assert_eq!(p, READ);
}

#[test]
fn flag_count_matches_declared()
{
    assert_eq!(Perms::flag_count(), 3);
}

#[test]
fn copy_clone_equality()
{
    let a = READ;
    let b = a;
    assert_eq!(a, b);
}

#[test]
fn debug_prints_flag_names()
{
    assert_eq!(debug_text(READ), "READ");
    assert_eq!(debug_text(READ | WRITE), "READ | WRITE");
    assert_eq!(debug_text(Perms::empty()), "0x0");
}

#[test]
fn debug_shows_unnamed_bits_in_hex()
{
    assert_eq!(debug_text(Perms::from_bits(0b1010_0001)), "READ | 0xa0");
    assert_eq!(debug_text(Perms::from_bits(0xf0)), "0xf0");
    assert_eq!(debug_text(Perms::all()), "READ | WRITE | EXECUTE");
}

#[test]
fn flag_set_64_uses_the_high_bits()
{
    type Big = FlagSet64<{ (1u64 << 40) | (1u64 << 2) }, 2>;
    let hi = Big::from_bits(1u64 << 40);
    let lo = Big::from_bits(1u64 << 2);
    let both = hi | lo;
    assert!(both.contains(hi) && both.contains(lo));
    assert_eq!(Big::all().bits(), (1u64 << 40) | (1u64 << 2));
    assert_eq!(<Big as Flags>::BITS, 41);
    assert_eq!((!Big::empty()).bits(), u64::MAX);
}
