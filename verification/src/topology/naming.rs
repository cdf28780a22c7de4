use vstd::prelude::*;

verus! {

/// The character of a decimal or hexadecimal digit below 16 (lower case).
pub open spec fn spec_digit_char(d: nat) -> char {
    if d < 10 {
        ((48 + d) as u32) as char
    } else {
        ((87 + d) as u32) as char
    }
}

/// The decimal representation of `n`, without leading zeros.
pub open spec fn spec_decimal(n: nat) -> Seq<char>
    decreases n,
{
    if n < 10 {
        seq![spec_digit_char(n)]
    } else {
        spec_decimal(n / 10) + seq![spec_digit_char(n % 10)]
    }
}

/// The lower-case hexadecimal representation of `n`, without leading zeros.
pub open spec fn spec_hex(n: nat) -> Seq<char>
    decreases n,
{
    if n < 16 {
        seq![spec_digit_char(n)]
    } else {
        spec_hex(n / 16) + seq![spec_digit_char(n % 16)]
    }
}

/// Lower-case hexadecimal, padded with zeros to at least two digits.
pub open spec fn spec_hex_two(n: nat) -> Seq<char> {
    if n < 16 {
        seq!['0'] + spec_hex(n)
    } else {
        spec_hex(n)
    }
}

/// The bus id `0000:0<id>:00.0` given to devices of a synthetic full mesh.
pub open spec fn spec_short_bus_id(id: usize) -> Seq<char> {
    seq!['0', '0', '0', '0', ':', '0'] + spec_decimal(id as nat) + seq![':', '0', '0', '.', '0']
}

/// The bus id `0000:<id as two hex digits>:00.0` given to manually discovered devices.
pub open spec fn spec_hex_bus_id(id: usize) -> Seq<char> {
    seq!['0', '0', '0', '0', ':'] + spec_hex_two(id as nat) + seq![':', '0', '0', '.', '0']
}

/// The one-character string of digit `d`.
fn digit_str(d: usize) -> (r: &'static str)
    requires
        d < 16,
    ensures
        r@ == seq![spec_digit_char(d as nat)],
{
    match d {
        0 => {
            proof {
                reveal_strlit("0");
            }
            "0"
        },
        1 => {
            proof {
                reveal_strlit("1");
            }
            "1"
        },
        2 => {
            proof {
                reveal_strlit("2");
            }
            "2"
        },
        3 => {
            proof {
                reveal_strlit("3");
            }
            "3"
        },
        4 => {
            proof {
                reveal_strlit("4");
            }
            "4"
        },
        5 => {
            proof {
                reveal_strlit("5");
            }
            "5"
        },
        6 => {
            proof {
                reveal_strlit("6");
            }
            "6"
        },
        7 => {
            proof {
                reveal_strlit("7");
            }
            "7"
        },
        8 => {
            proof {
                reveal_strlit("8");
            }
            "8"
        },
        9 => {
            proof {
                reveal_strlit("9");
            }
            "9"
        },
        10 => {
            proof {
                reveal_strlit("a");
            }
            "a"
        },
        11 => {
            proof {
                reveal_strlit("b");
            }
            "b"
        },
        12 => {
            proof {
                reveal_strlit("c");
            }
            "c"
        },
        13 => {
            proof {
                reveal_strlit("d");
            }
            "d"
        },
        14 => {
            proof {
                reveal_strlit("e");
            }
            "e"
        },
        _ => {
            proof {
                reveal_strlit("f");
            }
            "f"
        },
    }
}

/// Appends the decimal representation of `n` to `s`.
fn append_decimal(s: &mut String, n: usize)
    ensures
        final(s)@ == old(s)@ + spec_decimal(n as nat),
    decreases n,
{
    let ghost start = s@;
    if n >= 10 {
        append_decimal(s, n / 10);
    }
    s.append(digit_str(n % 10));
    assert(s@ =~= start + spec_decimal(n as nat));
}

/// Appends the lower-case hexadecimal representation of `n` to `s`.
fn append_hex(s: &mut String, n: usize)
    ensures
        final(s)@ == old(s)@ + spec_hex(n as nat),
    decreases n,
{
    let ghost start = s@;
    if n >= 16 {
        append_hex(s, n / 16);
    }
    s.append(digit_str(n % 16));
    assert(s@ =~= start + spec_hex(n as nat));
}

/// `n` in decimal, without leading zeros.
pub(crate) fn decimal(n: usize) -> (r: String)
    ensures
        r@ == spec_decimal(n as nat),
{
    let mut s = String::new();
    append_decimal(&mut s, n);
    assert(s@ =~= spec_decimal(n as nat));
    s
}

/// `n` in lower-case hexadecimal, padded with zeros to at least two digits.
fn hex_two(n: usize) -> (r: String)
    ensures
        r@ == spec_hex_two(n as nat),
{
    let mut s = if n < 16 {
        proof {
            reveal_strlit("0");
        }
        String::from_str("0")
    } else {
        String::new()
    };
    append_hex(&mut s, n);
    assert(s@ =~= spec_hex_two(n as nat));
    s
}

/// The bus id `0000:0<id>:00.0` of a device of a synthetic full mesh.
pub(crate) fn pci_bus_id_short(id: usize) -> (r: String)
    ensures
        r@ == spec_short_bus_id(id),
{
    let mut s = String::from_str("0000:0");
    s.append(decimal(id).as_str());
    s.append(":00.0");
    proof {
        reveal_strlit("0000:0");
        reveal_strlit(":00.0");
    }
    assert(s@ =~= spec_short_bus_id(id));
    s
}

/// The bus id `0000:<id as two hex digits>:00.0` of a manually discovered device.
pub(crate) fn pci_bus_id_hex(id: usize) -> (r: String)
    ensures
        r@ == spec_hex_bus_id(id),
{
    let mut s = String::from_str("0000:");
    s.append(hex_two(id).as_str());
    s.append(":00.0");
    proof {
        reveal_strlit("0000:");
        reveal_strlit(":00.0");
    }
    assert(s@ =~= spec_hex_bus_id(id));
    s
}

} // verus!
