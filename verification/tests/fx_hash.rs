use xynok_std::collection::{str_eq, FxHasher, XyKey};

#[test]
fn fx_mix_of_one_word_is_the_multiplier_times_word()
{
    let mut h = FxHasher::new();
    h.write_u64(1);
    assert_eq!(h.finish(), 0x517c_c1b7_2722_0a95);
    h.write_u8(2);
    assert_eq!(h.finish(), 0x6a4b_e67f_f98f_abc8);
}

#[test]
fn fx_write_packs_bytes_little_endian_in_words()
{
    let mut h = FxHasher::new();
    h.write(&[1, 2, 3]);
    assert_eq!(h.finish(), 0x9025_a56b_8af6_3495);

    let mut h = FxHasher::new();
    h.write(&[1, 2, 3, 4, 5, 6, 7, 8, 9]);
    assert_eq!(h.finish(), 0xcd94_3b11_5336_6ac4);

    let mut h = FxHasher::new();
    h.write(&[]);
    assert_eq!(h.finish(), 0);
}

#[test]
fn fx_str_hash_ends_with_ff_marker()
{
    let mut h = FxHasher::new();
    h.write_str("a");
    assert_eq!(h.finish(), 0xaa44_c3c5_b8e2_2aff);
    assert_eq!("a".to_string().fx_hash(), 0xaa44_c3c5_b8e2_2aff);
    assert_eq!(1u64.fx_hash(), 0x517c_c1b7_2722_0a95);
}

#[test]
fn str_eq_compares_contents()
{
    assert!(str_eq("toml", "toml"));
    assert!(!str_eq("toml", "tom"));
    assert!(!str_eq("", "x"));
    assert!(str_eq("", ""));
}
