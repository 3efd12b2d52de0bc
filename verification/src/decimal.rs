//! Decimal rendering of the numbers the pipeline puts into engine arguments
//! and persisted documents: plain base-10 integers, and millisecond counts
//! rendered as seconds with up to three places after the point.

use vstd::prelude::*;
use vstd::string::*;

verus! {

/// One decimal digit as a character.
pub open spec fn digit_char(d: int) -> char {
    if d == 0 {
        '0'
    } else if d == 1 {
        '1'
    } else if d == 2 {
        '2'
    } else if d == 3 {
        '3'
    } else if d == 4 {
        '4'
    } else if d == 5 {
        '5'
    } else if d == 6 {
        '6'
    } else if d == 7 {
        '7'
    } else if d == 8 {
        '8'
    } else {
        '9'
    }
}

/// Base-10 rendering of a natural number, most significant digit first.
pub open spec fn dec_digits(n: nat) -> Seq<char>
    decreases n,
{
    if n < 10 {
        seq![digit_char(n as int)]
    } else {
        dec_digits(n / 10).push(digit_char((n % 10) as int))
    }
}

/// Base-10 rendering of an integer, with a leading minus sign when negative.
pub open spec fn dec_int(v: int) -> Seq<char> {
    if v < 0 {
        "-"@ + dec_digits((-v) as nat)
    } else {
        dec_digits(v as nat)
    }
}

/// A non-negative count of milliseconds rendered as seconds: the whole part,
/// then the shortest fraction that is still exact (none for a whole number of
/// seconds, one to three digits otherwise).
pub open spec fn ms_seconds_nat(n: nat) -> Seq<char> {
    let whole = n / 1000;
    let frac = n % 1000;
    if frac == 0 {
        dec_digits(whole)
    } else if frac % 100 == 0 {
        dec_digits(whole) + "."@ + seq![digit_char(frac as int / 100)]
    } else if frac % 10 == 0 {
        dec_digits(whole) + "."@
            + seq![digit_char(frac as int / 100), digit_char((frac as int / 10) % 10)]
    } else {
        dec_digits(whole) + "."@
            + seq![
            digit_char(frac as int / 100),
            digit_char((frac as int / 10) % 10),
            digit_char(frac as int % 10),
        ]
    }
}

/// A signed count of milliseconds rendered as seconds.
pub open spec fn ms_seconds(ms: int) -> Seq<char> {
    if ms < 0 {
        "-"@ + ms_seconds_nat((-ms) as nat)
    } else {
        ms_seconds_nat(ms as nat)
    }
}

/// One hexadecimal digit as a (lower-case) character.
pub open spec fn hex_char(d: int) -> char {
    if d < 10 {
        digit_char(d)
    } else if d == 10 {
        'a'
    } else if d == 11 {
        'b'
    } else if d == 12 {
        'c'
    } else if d == 13 {
        'd'
    } else if d == 14 {
        'e'
    } else {
        'f'
    }
}

/// The hexadecimal digit `d` as a one-character string slice.
pub(crate) fn hex_str(d: u8) -> (r: &'static str)
    requires
        d <= 15,
    ensures
        r@ == seq![hex_char(d as int)],
{
    if d <= 9 {
        digit_str(d)
    } else {
        match d {
            10 => {
                proof {
                    reveal_strlit("a");
                    assert("a"@ =~= seq![hex_char(10int)]);
                }
                "a"
            },
            11 => {
                proof {
                    reveal_strlit("b");
                    assert("b"@ =~= seq![hex_char(11int)]);
                }
                "b"
            },
            12 => {
                proof {
                    reveal_strlit("c");
                    assert("c"@ =~= seq![hex_char(12int)]);
                }
                "c"
            },
            13 => {
                proof {
                    reveal_strlit("d");
                    assert("d"@ =~= seq![hex_char(13int)]);
                }
                "d"
            },
            14 => {
                proof {
                    reveal_strlit("e");
                    assert("e"@ =~= seq![hex_char(14int)]);
                }
                "e"
            },
            _ => {
                proof {
                    reveal_strlit("f");
                    assert("f"@ =~= seq![hex_char(15int)]);
                }
                "f"
            },
        }
    }
}

/// The decimal digit `d` as a one-character string slice.
pub(crate) fn digit_str(d: u8) -> (r: &'static str)
    requires
        d <= 9,
    ensures
        r@ == seq![digit_char(d as int)],
{
    match d {
        0 => {
            proof {
                reveal_strlit("0");
                assert("0"@ =~= seq![digit_char(0int)]);
            }
            "0"
        },
        1 => {
            proof {
                reveal_strlit("1");
                assert("1"@ =~= seq![digit_char(1int)]);
            }
            "1"
        },
        2 => {
            proof {
                reveal_strlit("2");
                assert("2"@ =~= seq![digit_char(2int)]);
            }
            "2"
        },
        3 => {
            proof {
                reveal_strlit("3");
                assert("3"@ =~= seq![digit_char(3int)]);
            }
            "3"
        },
        4 => {
            proof {
                reveal_strlit("4");
                assert("4"@ =~= seq![digit_char(4int)]);
            }
            "4"
        },
        5 => {
            proof {
                reveal_strlit("5");
                assert("5"@ =~= seq![digit_char(5int)]);
            }
            "5"
        },
        6 => {
            proof {
                reveal_strlit("6");
                assert("6"@ =~= seq![digit_char(6int)]);
            }
            "6"
        },
        7 => {
            proof {
                reveal_strlit("7");
                assert("7"@ =~= seq![digit_char(7int)]);
            }
            "7"
        },
        8 => {
            proof {
                reveal_strlit("8");
                assert("8"@ =~= seq![digit_char(8int)]);
            }
            "8"
        },
        _ => {
            proof {
                reveal_strlit("9");
                assert("9"@ =~= seq![digit_char(9int)]);
            }
            "9"
        },
    }
}

/// Renders `n` in base 10.
pub fn fmt_u64(n: u64) -> (r: String)
    ensures
        r@ == dec_digits(n as nat),
    decreases n,
{
    if n < 10 {
        String::from_str(digit_str(n as u8))
    } else {
        let mut r = fmt_u64(n / 10);
        r.append(digit_str((n % 10) as u8));
        proof {
            assert(r@ =~= dec_digits(n as nat));
        }
        r
    }
}

/// Renders `v` in base 10, with a minus sign when negative.
pub fn fmt_i64(v: i64) -> (r: String)
    requires
        v != i64::MIN,
    ensures
        r@ == dec_int(v as int),
{
    if v < 0 {
        let mut r = String::from_str("-");
        let digits = fmt_u64((-v) as u64);
        r.append(digits.as_str());
        proof {
            assert(r@ =~= dec_int(v as int));
        }
        r
    } else {
        fmt_u64(v as u64)
    }
}

/// Renders a non-negative millisecond count as seconds.
fn fmt_ms_nat(n: u64) -> (r: String)
    ensures
        r@ == ms_seconds_nat(n as nat),
{
    let whole = n / 1000;
    let frac = n % 1000;
    let mut r = fmt_u64(whole);
    if frac == 0 {
        return r;
    }
    r.append(".");
    let d0 = (frac / 100) as u8;
    let d1 = ((frac / 10) % 10) as u8;
    let d2 = (frac % 10) as u8;
    if frac % 100 == 0 {
        r.append(digit_str(d0));
    } else if frac % 10 == 0 {
        r.append(digit_str(d0));
        r.append(digit_str(d1));
    } else {
        r.append(digit_str(d0));
        r.append(digit_str(d1));
        r.append(digit_str(d2));
    }
    proof {
        assert(r@ =~= ms_seconds_nat(n as nat));
    }
    r
}

/// Renders a signed millisecond count as seconds, millisecond precision.
pub fn fmt_ms(ms: i64) -> (r: String)
    requires
        ms != i64::MIN,
    ensures
        r@ == ms_seconds(ms as int),
{
    if ms < 0 {
        let mut r = String::from_str("-");
        let digits = fmt_ms_nat((-ms) as u64);
        r.append(digits.as_str());
        proof {
            assert(r@ =~= ms_seconds(ms as int));
        }
        r
    } else {
        fmt_ms_nat(ms as u64)
    }
}

} // verus!
