use vstd::prelude::*;

verus! {

/// The lower-case hex digit of `d` (`d < 16`).
pub open spec fn hex_digit(d: int) -> char {
    if d < 10 {
        (48 + d) as char
    } else {
        (87 + d) as char
    }
}

/// `n` in lower-case hex, without prefix or leading zeros (`"0"` for zero).
pub open spec fn hex_text(n: nat) -> Seq<char>
    decreases n,
{
    if n < 16 {
        seq![hex_digit(n as int)]
    } else {
        hex_text(n / 16) + seq![hex_digit((n % 16) as int)]
    }
}

/// The separator between two parts of a flag description.
pub open spec fn separator() -> Seq<char> {
    seq![' ', '|', ' ']
}

/// The description after the first `i` named flags: the text so far, the bits no name has
/// consumed yet, and whether no part was written.
pub open spec fn named_parts(bits: u64, names: Seq<Seq<char>>, values: Seq<u64>, i: nat) -> (
    Seq<char>,
    u64,
    bool,
)
    decreases i,
{
    if i == 0 {
        (Seq::empty(), bits, true)
    } else {
        let (text, rest, first) = named_parts(bits, names, values, (i - 1) as nat);
        let v = values[i - 1];
        if rest & v == v && v != 0 {
            (text + (if first {
                Seq::empty()
            } else {
                separator()
            }) + names[i - 1], rest & !v, false)
        } else {
            (text, rest, first)
        }
    }
}

/// How a flag set with raw `bits` is shown: the name of each declared flag whose bits are all
/// still set, in declaration order (a shown flag consumes its bits), joined by `" | "`; bits
/// left over, or an empty description, are shown last as `0x` and lower-case hex.
pub open spec fn flag_text(bits: u64, names: Seq<Seq<char>>, values: Seq<u64>) -> Seq<char> {
    let (text, rest, first) = named_parts(bits, names, values, values.len());
    if rest != 0 || first {
        text + (if first {
            Seq::empty()
        } else {
            separator()
        }) + seq!['0', 'x'] + hex_text(rest as nat)
    } else {
        text
    }
}

/// With no bit set, no declared flag is shown: the first `i` flags leave the text empty.
proof fn lemma_no_bits_no_names(names: Seq<Seq<char>>, values: Seq<u64>, i: nat)
    requires
        i <= values.len(),
    ensures
        named_parts(0, names, values, i) == (Seq::<char>::empty(), 0u64, true),
    decreases i,
{
    if i > 0 {
        lemma_no_bits_no_names(names, values, (i - 1) as nat);
        let v = values[i - 1];
        assert(0u64 & v == v ==> v == 0) by (bit_vector);
    }
}

/// An empty flag set is shown as `0x0`, whatever flags are declared.
pub proof fn law_empty_shows_zero(names: Seq<Seq<char>>, values: Seq<u64>)
    ensures
        flag_text(0, names, values) == seq!['0', 'x', '0'],
{
    lemma_no_bits_no_names(names, values, values.len());
    assert(hex_text(0) == seq![hex_digit(0)]);
    assert(Seq::<char>::empty() + Seq::<char>::empty() + seq!['0', 'x'] + seq!['0'] =~= seq!['0', 'x', '0']);
}

/// Appends the lower-case hex digit of `d` to `text`.
fn append_hex_digit(text: &mut String, d: u64)
    requires
        d < 16,
    ensures
        final(text)@ == old(text)@ + seq![hex_digit(d as int)],
{
    match d {
        0 => {
            proof {
                reveal_strlit("0");
            }
            text.append("0");
        },
        1 => {
            proof {
                reveal_strlit("1");
            }
            text.append("1");
        },
        2 => {
            proof {
                reveal_strlit("2");
            }
            text.append("2");
        },
        3 => {
            proof {
                reveal_strlit("3");
            }
            text.append("3");
        },
        4 => {
            proof {
                reveal_strlit("4");
            }
            text.append("4");
        },
        5 => {
            proof {
                reveal_strlit("5");
            }
            text.append("5");
        },
        6 => {
            proof {
                reveal_strlit("6");
            }
            text.append("6");
        },
        7 => {
            proof {
                reveal_strlit("7");
            }
            text.append("7");
        },
        8 => {
            proof {
                reveal_strlit("8");
            }
            text.append("8");
        },
        9 => {
            proof {
                reveal_strlit("9");
            }
            text.append("9");
        },
        10 => {
            proof {
                reveal_strlit("a");
            }
            text.append("a");
        },
        11 => {
            proof {
                reveal_strlit("b");
            }
            text.append("b");
        },
        12 => {
            proof {
                reveal_strlit("c");
            }
            text.append("c");
        },
        13 => {
            proof {
                reveal_strlit("d");
            }
            text.append("d");
        },
        14 => {
            proof {
                reveal_strlit("e");
            }
            text.append("e");
        },
        15 => {
            proof {
                reveal_strlit("f");
            }
            text.append("f");
        },
        _ => {},
    }
}

/// Appends `n` in lower-case hex to `text`, most significant digit first.
fn append_hex(text: &mut String, n: u64)
    ensures
        final(text)@ == old(text)@ + hex_text(n as nat),
    decreases n,
{
    if n >= 16 {
        append_hex(text, n / 16);
    }
    append_hex_digit(text, n % 16);
    proof {
        if n >= 16 {
            assert(hex_text(n as nat) == hex_text((n / 16) as nat) + seq![hex_digit((n % 16) as int)]);
        }
    }
    assert(text@ =~= old(text)@ + hex_text(n as nat));
}

/// Describes the flag set with raw `bits` by the names of its declared flags (`names[k]` is
/// the name of the flag with bits `values[k]`), as `flag_text` states.
pub fn describe_flags(bits: u64, names: &[&str], values: &[u64]) -> (s: String)
    requires
        names@.len() == values@.len(),
    ensures
        s@ == flag_text(bits, names@.map_values(|n: &str| n@), values@),
{
    let ghost name_views = names@.map_values(|n: &str| n@);
    let mut text = String::new();
    let mut rest: u64 = bits;
    let mut first: bool = true;
    let mut i: usize = 0;
    proof {
        reveal_strlit(" | ");
        reveal_strlit("0x");
    }
    while i < values.len()
        invariant
            i <= values@.len(),
            names@.len() == values@.len(),
            name_views == names@.map_values(|n: &str| n@),
            (text@, rest, first) == named_parts(bits, name_views, values@, i as nat),
            " | "@ == separator(),
        decreases values@.len() - i,
    {
        let v: u64 = values[i];
        if rest & v == v && v != 0 {
            if !first {
                text.append(" | ");
            }
            text.append(names[i]);
            rest = rest & !v;
            first = false;
        }
        i = i + 1;
    }
    if rest != 0 || first {
        if !first {
            text.append(" | ");
        }
        text.append("0x");
        append_hex(&mut text, rest);
    }
    text
}

} // verus!
