//! Parsing of the numbers in a persisted export document: plain base-10
//! integers and seconds with up to three decimal places, read back as whole
//! milliseconds.  The round-trip lemmas show that every number the renderer
//! in [`crate::decimal`] emits is read back unchanged.

use vstd::prelude::*;
use vstd::arithmetic::div_mod::{lemma_fundamental_div_mod, lemma_div_denominator};
use crate::decimal::{digit_char, dec_digits, dec_int, ms_seconds, ms_seconds_nat};

verus! {

/// Powers of ten.
pub open spec fn pow10(k: nat) -> int
    decreases k,
{
    if k == 0 {
        1
    } else {
        10 * pow10((k - 1) as nat)
    }
}

pub proof fn lemma_pow10_15()
    ensures
        pow10(15) == 1000000000000000,
{
    reveal_with_fuel(pow10, 17);
}

pub proof fn lemma_pow10_monotone(a: nat, b: nat)
    requires
        a <= b,
    ensures
        1 <= pow10(a) <= pow10(b),
    decreases b,
{
    if b == 0 {
    } else if a == b {
        lemma_pow10_monotone((a - 1) as nat, (b - 1) as nat);
    } else {
        lemma_pow10_monotone(a, (b - 1) as nat);
    }
}

/// A decimal digit character.
pub open spec fn is_dec_digit(c: char) -> bool {
    48 <= c as u32 <= 57
}

/// The numeric value of a decimal digit character.
pub open spec fn digit_value(c: char) -> int {
    c as u32 - 48
}

pub proof fn lemma_digit_char_value(d: int)
    requires
        0 <= d <= 9,
    ensures
        is_dec_digit(digit_char(d)),
        digit_value(digit_char(d)) == d,
{
}

/// Every character of a base-10 rendering is a digit, and there is at least
/// one.
pub proof fn lemma_dec_digits_are_digits(n: nat)
    ensures
        dec_digits(n).len() >= 1,
        forall|k: int| 0 <= k < dec_digits(n).len() ==> is_dec_digit(#[trigger] dec_digits(n)[k]),
    decreases n,
{
    if n < 10 {
        lemma_digit_char_value(n as int);
    } else {
        lemma_dec_digits_are_digits(n / 10);
        lemma_digit_char_value((n % 10) as int);
    }
}

/// A number below `10^k` renders in at most `k` digits.
pub proof fn lemma_dec_digits_len(n: nat, k: nat)
    requires
        n < pow10(k),
        k >= 1,
    ensures
        dec_digits(n).len() <= k,
    decreases n,
{
    if n < 10 {
    } else {
        assert(pow10(k) == 10 * pow10((k - 1) as nat));
        lemma_pow10_monotone(0, (k - 1) as nat);
        if k == 1 {
            assert(pow10(1) == 10 * pow10(0));
            assert(false);
        }
        lemma_fundamental_div_mod(n as int, 10);
        lemma_dec_digits_len(n / 10, (k - 1) as nat);
    }
}

/// The end of the digit run starting at `i`.
pub open spec fn digits_end(s: Seq<char>, i: int) -> int
    decreases s.len() - i,
    when 0 <= i <= s.len()
{
    if i < s.len() && is_dec_digit(s[i]) {
        digits_end(s, i + 1)
    } else {
        i
    }
}

/// The base-10 value of `s[i..j]`.
pub open spec fn digits_value(s: Seq<char>, i: int, j: int) -> int
    decreases j - i,
    when i <= j
{
    if i < j {
        digits_value(s, i, j - 1) * 10 + digit_value(s[j - 1])
    } else {
        0
    }
}

pub proof fn lemma_digits_end_bounds(s: Seq<char>, i: int)
    requires
        0 <= i <= s.len(),
    ensures
        i <= digits_end(s, i) <= s.len(),
    decreases s.len() - i,
{
    if i < s.len() && is_dec_digit(s[i]) {
        lemma_digits_end_bounds(s, i + 1);
    }
}

/// The digit run starting at `i` ends exactly where the digits end.
pub proof fn lemma_digits_end_exact(s: Seq<char>, i: int, j: int)
    requires
        0 <= i <= j <= s.len(),
        forall|k: int| i <= k < j ==> is_dec_digit(#[trigger] s[k]),
        j == s.len() || !is_dec_digit(s[j]),
    ensures
        digits_end(s, i) == j,
    decreases j - i,
{
    if i < j {
        lemma_digits_end_exact(s, i + 1, j);
    }
}

/// Skipping over known digits does not change where the run ends.
pub proof fn lemma_digits_end_skip(s: Seq<char>, i: int, j: int)
    requires
        0 <= i <= j <= s.len(),
        forall|k: int| i <= k < j ==> is_dec_digit(#[trigger] s[k]),
    ensures
        digits_end(s, i) == digits_end(s, j),
    decreases j - i,
{
    if i < j {
        lemma_digits_end_skip(s, i + 1, j);
    }
}

/// Where `s[i..]` begins with the base-10 rendering of `n`, the digit run has
/// that value.
pub proof fn lemma_dec_digits_value(n: nat, s: Seq<char>, i: int)
    requires
        0 <= i,
        i + dec_digits(n).len() <= s.len(),
        s.subrange(i, i + dec_digits(n).len()) == dec_digits(n),
    ensures
        digits_value(s, i, i + dec_digits(n).len()) == n,
    decreases n,
{
    let d = dec_digits(n);
    let l = d.len() as int;
    if n < 10 {
        lemma_digit_char_value(n as int);
        assert(s[i] == s.subrange(i, i + 1)[0]);
        assert(digits_value(s, i, i) == 0);
        assert(digits_value(s, i, i + 1) == digits_value(s, i, i) * 10 + digit_value(s[i]));
    } else {
        let dp = dec_digits(n / 10);
        assert(d == dp.push(digit_char((n % 10) as int)));
        assert(s.subrange(i, i + l - 1) =~= dp) by {
            assert(forall|k: int|
                0 <= k < l - 1 ==> #[trigger] s.subrange(i, i + l - 1)[k] == s.subrange(
                    i,
                    i + l,
                )[k]);
        }
        lemma_dec_digits_value(n / 10, s, i);
        assert(dp.len() == l - 1);
        assert(digits_value(s, i, i + l - 1) == n / 10);
        assert(s[i + l - 1] == s.subrange(i, i + l)[l - 1]);
        assert(s[i + l - 1] == digit_char((n % 10) as int));
        lemma_digit_char_value((n % 10) as int);
        lemma_fundamental_div_mod(n as int, 10);
        assert(digits_value(s, i, i + l) == digits_value(s, i, i + l - 1) * 10 + digit_value(
            s[i + l - 1],
        ));
    }
}

/// The scale a fraction of `flen` digits is worth in milliseconds.
pub open spec fn frac_scale(flen: int) -> int {
    if flen == 1 {
        100
    } else if flen == 2 {
        10
    } else {
        1
    }
}

/// An unsigned seconds number at `i`: a digit run (the whole seconds), then
/// optionally a point and one to three fraction digits.  Yields milliseconds
/// and the position after the number; refuses an absent or over-long run.
pub open spec fn parse_unsigned_ms_at(s: Seq<char>, i: int) -> Option<(int, int)> {
    let wend = digits_end(s, i);
    if wend == i || wend - i > 15 {
        None
    } else {
        let whole = digits_value(s, i, wend);
        if wend < s.len() && s[wend] == '.' {
            let fend = digits_end(s, wend + 1);
            let flen = fend - (wend + 1);
            if flen < 1 || flen > 3 {
                None
            } else {
                Some(
                    (whole * 1000 + digits_value(s, wend + 1, fend) * frac_scale(flen), fend),
                )
            }
        } else {
            Some((whole * 1000, wend))
        }
    }
}

/// A signed seconds number at `i`.
pub open spec fn parse_ms_at(s: Seq<char>, i: int) -> Option<(int, int)> {
    if i < s.len() && s[i] == '-' {
        match parse_unsigned_ms_at(s, i + 1) {
            Some((v, e)) => Some((-v, e)),
            None => None,
        }
    } else {
        parse_unsigned_ms_at(s, i)
    }
}

/// An unsigned whole number at `i`.
pub open spec fn parse_unsigned_int_at(s: Seq<char>, i: int) -> Option<(int, int)> {
    let wend = digits_end(s, i);
    if wend == i || wend - i > 15 {
        None
    } else {
        Some((digits_value(s, i, wend), wend))
    }
}

/// A signed whole number at `i`.
pub open spec fn parse_int_at(s: Seq<char>, i: int) -> Option<(int, int)> {
    if i < s.len() && s[i] == '-' {
        match parse_unsigned_int_at(s, i + 1) {
            Some((v, e)) => Some((-v, e)),
            None => None,
        }
    } else {
        parse_unsigned_int_at(s, i)
    }
}

/// Scans the digit run from `j` on, with the digits `[start, j)` already
/// worth `acc`.
fn scan_digits_rec(s: &str, start: usize, j: usize, acc: u64, len: usize) -> (r: Option<
    (u64, usize),
>)
    requires
        start <= j <= len,
        len == s@.len(),
        j - start <= 15,
        forall|k: int| start <= k < j ==> is_dec_digit(#[trigger] s@[k]),
        acc as int == digits_value(s@, start as int, j as int),
        (acc as int) < pow10((j - start) as nat),
    ensures
        match r {
            Some(p) => {
                &&& start < p.1 <= len
                &&& p.1 == digits_end(s@, start as int)
                &&& p.1 - start <= 15
                &&& p.0 as int == digits_value(s@, start as int, p.1 as int)
                &&& (p.0 as int) < pow10((p.1 - start) as nat)
            },
            None => digits_end(s@, start as int) == start || digits_end(s@, start as int) - start
                > 15,
        },
    decreases len - j,
{
    if j < len {
        let c = s.get_char(j);
        let v32 = c as u32;
        if 48 <= v32 && v32 <= 57 {
            if j - start == 15 {
                proof {
                    lemma_digits_end_skip(s@, start as int, j as int);
                    assert(digits_end(s@, j as int) == digits_end(s@, j as int + 1));
                    lemma_digits_end_bounds(s@, j as int + 1);
                }
                return None;
            }
            proof {
                assert(pow10((j + 1 - start) as nat) == 10 * pow10((j - start) as nat));
                lemma_pow10_monotone((j - start) as nat, 14);
                lemma_pow10_15();
                assert(pow10(15nat) == 10 * pow10(14nat));
            }
            let acc2 = acc * 10 + (v32 - 48) as u64;
            proof {
                assert(digits_value(s@, start as int, j as int + 1) == digits_value(
                    s@,
                    start as int,
                    j as int,
                ) * 10 + digit_value(s@[j as int]));
            }
            return scan_digits_rec(s, start, j + 1, acc2, len);
        }
    }
    proof {
        lemma_digits_end_exact(s@, start as int, j as int);
    }
    if j == start {
        None
    } else {
        Some((acc, j))
    }
}

/// Scans the digit run starting at `start`: its value and end, or nothing
/// when the run is absent or longer than the parser accepts.
fn scan_digits(s: &str, start: usize, len: usize) -> (r: Option<(u64, usize)>)
    requires
        start <= len,
        len == s@.len(),
    ensures
        match r {
            Some(p) => {
                &&& start < p.1 <= len
                &&& p.1 == digits_end(s@, start as int)
                &&& p.1 - start <= 15
                &&& p.0 as int == digits_value(s@, start as int, p.1 as int)
                &&& (p.0 as int) < pow10((p.1 - start) as nat)
            },
            None => digits_end(s@, start as int) == start || digits_end(s@, start as int) - start
                > 15,
        },
{
    scan_digits_rec(s, start, start, 0, len)
}

/// Parses an unsigned seconds number into milliseconds.
fn parse_unsigned_ms_from(s: &str, i: usize, len: usize) -> (r: Option<(i64, usize)>)
    requires
        i <= len,
        len == s@.len(),
    ensures
        match r {
            Some(p) => i < p.1 <= len && 0 <= p.0 && parse_unsigned_ms_at(s@, i as int) == Some(
                (p.0 as int, p.1 as int),
            ),
            None => parse_unsigned_ms_at(s@, i as int) is None,
        },
{
    match scan_digits(s, i, len) {
        None => None,
        Some((whole, wend)) => {
            proof {
                lemma_pow10_monotone((wend - i) as nat, 15);
                lemma_pow10_15();
            }
            if wend < len && s.get_char(wend) == '.' {
                match scan_digits(s, wend + 1, len) {
                    None => None,
                    Some((frac, fend)) => {
                        let flen = fend - (wend + 1);
                        if flen > 3 {
                            None
                        } else {
                            proof {
                                lemma_pow10_monotone((fend - (wend + 1)) as nat, 3);
                                reveal_with_fuel(pow10, 5);
                                assert(pow10(3nat) == 1000);
                            }
                            let scale: u64 = if flen == 1 {
                                100
                            } else if flen == 2 {
                                10
                            } else {
                                1
                            };
                            let ms = whole * 1000 + frac * scale;
                            Some((ms as i64, fend))
                        }
                    },
                }
            } else {
                let ms = whole * 1000;
                Some((ms as i64, wend))
            }
        },
    }
}

/// Parses a signed seconds number into milliseconds.
pub(crate) fn parse_ms_from(s: &str, i: usize, len: usize) -> (r: Option<(i64, usize)>)
    requires
        i <= len,
        len == s@.len(),
    ensures
        match r {
            Some(p) => i < p.1 <= len && parse_ms_at(s@, i as int) == Some(
                (p.0 as int, p.1 as int),
            ),
            None => parse_ms_at(s@, i as int) is None,
        },
{
    let neg = i < len && s.get_char(i) == '-';
    let i0 = if neg {
        i + 1
    } else {
        i
    };
    match parse_unsigned_ms_from(s, i0, len) {
        None => None,
        Some((v, e)) => Some(
            (
                if neg {
                    -v
                } else {
                    v
                },
                e,
            ),
        ),
    }
}

/// Parses a signed whole number.
pub(crate) fn parse_int_from(s: &str, i: usize, len: usize) -> (r: Option<(i64, usize)>)
    requires
        i <= len,
        len == s@.len(),
    ensures
        match r {
            Some(p) => i < p.1 <= len && parse_int_at(s@, i as int) == Some(
                (p.0 as int, p.1 as int),
            ),
            None => parse_int_at(s@, i as int) is None,
        },
{
    let neg = i < len && s.get_char(i) == '-';
    let i0 = if neg {
        i + 1
    } else {
        i
    };
    match scan_digits(s, i0, len) {
        None => None,
        Some((v, e)) => {
            proof {
                lemma_pow10_monotone((e - i0) as nat, 15);
                lemma_pow10_15();
            }
            let value = v as i64;
            Some(
                (
                    if neg {
                        -value
                    } else {
                        value
                    },
                    e,
                ),
            )
        },
    }
}

/// A parsed number always ends after where it starts and inside the text.
pub proof fn lemma_parse_ms_at_advances(s: Seq<char>, i: int)
    requires
        0 <= i <= s.len(),
    ensures
        match parse_ms_at(s, i) {
            Some(p) => i < p.1 <= s.len(),
            None => true,
        },
{
    lemma_digits_end_bounds(s, i);
    if i < s.len() && s[i] == '-' {
        lemma_digits_end_bounds(s, i + 1);
        let wend = digits_end(s, i + 1);
        if wend < s.len() && s[wend] == '.' {
            lemma_digits_end_bounds(s, wend + 1);
        }
    } else {
        let wend = digits_end(s, i);
        if wend < s.len() && s[wend] == '.' {
            lemma_digits_end_bounds(s, wend + 1);
        }
    }
}

/// An unsigned base-10 rendering parses back to its value: the digit run of
/// `pre + dec_digits(n) + suf` at `pre.len()` is exactly the rendering, worth
/// `n`, when what follows is no digit.
proof fn lemma_unsigned_int_round_trip(n: nat, pre: Seq<char>, suf: Seq<char>)
    requires
        n < 1000000000000000,
        suf.len() > 0 ==> !is_dec_digit(suf[0]),
    ensures
        parse_unsigned_int_at(pre + dec_digits(n) + suf, pre.len() as int) == Some(
            (n as int, (pre.len() + dec_digits(n).len()) as int),
        ),
{
    let w = dec_digits(n);
    let lw = w.len() as int;
    let s = pre + w + suf;
    let i = pre.len() as int;
    lemma_dec_digits_are_digits(n);
    lemma_pow10_15();
    lemma_dec_digits_len(n, 15);
    assert(forall|k: int| 0 <= k < lw ==> s[i + k] == w[k]);
    assert(forall|k: int| i <= k < i + lw ==> is_dec_digit(#[trigger] s[k]));
    assert(i + lw == s.len() || !is_dec_digit(s[i + lw]));
    lemma_digits_end_exact(s, i, i + lw);
    assert(s.subrange(i, i + lw) =~= w);
    lemma_dec_digits_value(n, s, i);
}

/// A signed base-10 rendering parses back to its value.
pub proof fn lemma_int_round_trip(v: int, pre: Seq<char>, suf: Seq<char>)
    requires
        -1000000000000000 < v < 1000000000000000,
        suf.len() > 0 ==> !is_dec_digit(suf[0]),
    ensures
        parse_int_at(pre + dec_int(v) + suf, pre.len() as int) == Some(
            (v, (pre.len() + dec_int(v).len()) as int),
        ),
{
    reveal_strlit("-");
    let s = pre + dec_int(v) + suf;
    let i = pre.len() as int;
    if v < 0 {
        let n = (-v) as nat;
        assert(dec_int(v) == "-"@ + dec_digits(n));
        assert(s[i] == '-');
        lemma_unsigned_int_round_trip(n, pre + "-"@, suf);
        assert(pre + dec_int(v) + suf =~= (pre + "-"@) + dec_digits(n) + suf);
        assert((pre + "-"@).len() == pre.len() + 1);
    } else {
        let n = v as nat;
        lemma_unsigned_int_round_trip(n, pre, suf);
        lemma_dec_digits_are_digits(n);
        assert(s[i] == dec_digits(n)[0]);
        assert(s[i] != '-');
    }
}

/// An unsigned milliseconds-as-seconds rendering parses back to its value
/// when what follows is neither a digit nor a point.
proof fn lemma_unsigned_ms_round_trip(n: nat, pre: Seq<char>, suf: Seq<char>)
    requires
        n < 1000000000000000000,
        suf.len() > 0 ==> (!is_dec_digit(suf[0]) && suf[0] != '.'),
    ensures
        parse_unsigned_ms_at(pre + ms_seconds_nat(n) + suf, pre.len() as int) == Some(
            (n as int, (pre.len() + ms_seconds_nat(n).len()) as int),
        ),
{
    reveal_strlit(".");
    let r = ms_seconds_nat(n);
    let s = pre + r + suf;
    let i = pre.len() as int;
    let whole = n / 1000;
    let f = (n % 1000) as int;
    let w = dec_digits(whole);
    let lw = w.len() as int;
    lemma_dec_digits_are_digits(whole);
    lemma_pow10_15();
    lemma_fundamental_div_mod(n as int, 1000);
    assert(whole < pow10(15));
    lemma_dec_digits_len(whole, 15);
    assert(forall|k: int| 0 <= k < r.len() ==> s[i + k] == r[k]);
    assert(forall|k: int| 0 <= k < lw ==> r[k] == w[k]);
    assert(forall|k: int| i <= k < i + lw ==> is_dec_digit(#[trigger] s[k]));
    assert(s.subrange(i, i + lw) =~= w);
    lemma_dec_digits_value(whole, s, i);
    if f == 0 {
        assert(r == w);
        assert(i + lw == s.len() || !is_dec_digit(s[i + lw]));
        lemma_digits_end_exact(s, i, i + lw);
        assert(i + lw == s.len() || s[i + lw] != '.');
        assert(whole * 1000 == n);
    } else {
        let a = f / 100;
        let b = (f / 10) % 10;
        let c = f % 10;
        lemma_digit_char_value(a);
        lemma_digit_char_value(b);
        lemma_digit_char_value(c);
        // f == 100 * a + 10 * b + c
        lemma_fundamental_div_mod(f, 10);
        lemma_fundamental_div_mod(f / 10, 10);
        lemma_div_denominator(f, 10, 10);
        assert(f == 100 * a + 10 * b + c);
        let d: Seq<char> = if f % 100 == 0 {
            seq![digit_char(a)]
        } else if f % 10 == 0 {
            seq![digit_char(a), digit_char(b)]
        } else {
            seq![digit_char(a), digit_char(b), digit_char(c)]
        };
        let fl = d.len() as int;
        assert(r == w + "."@ + d);
        assert(r[lw] == '.');
        assert(s[i + lw] == '.');
        assert(!is_dec_digit('.'));
        lemma_digits_end_exact(s, i, i + lw);
        // the fraction digit run
        let fs = i + lw + 1;
        assert(forall|k: int| 0 <= k < fl ==> s[fs + k] == d[k]);
        assert(forall|k: int| fs <= k < fs + fl ==> is_dec_digit(#[trigger] s[k]));
        assert(fs + fl == s.len() || !is_dec_digit(s[fs + fl]));
        lemma_digits_end_exact(s, fs, fs + fl);
        assert(digits_value(s, fs, fs) == 0);
        if f % 100 == 0 {
            assert(digits_value(s, fs, fs + 1) == a);
            lemma_fundamental_div_mod(f, 100);
            assert(a * frac_scale(1) == f);
        } else if f % 10 == 0 {
            assert(digits_value(s, fs, fs + 1) == a);
            assert(digits_value(s, fs, fs + 2) == a * 10 + b);
            assert((a * 10 + b) * frac_scale(2) == f);
        } else {
            assert(digits_value(s, fs, fs + 1) == a);
            assert(digits_value(s, fs, fs + 2) == a * 10 + b);
            assert(digits_value(s, fs, fs + 3) == (a * 10 + b) * 10 + c);
            assert(((a * 10 + b) * 10 + c) * frac_scale(3) == f);
        }
        assert(whole * 1000 + f == n);
        assert(r.len() == lw + 1 + fl);
    }
}

/// A rendered seconds number starts with a digit or a minus sign.
pub proof fn lemma_ms_first_char(m: int)
    ensures
        ms_seconds(m).len() >= 1,
        is_dec_digit(ms_seconds(m)[0]) || ms_seconds(m)[0] == '-',
{
    reveal_strlit("-");
    if m < 0 {
        assert(ms_seconds(m)[0] == '-');
    } else {
        let n = m as nat;
        lemma_dec_digits_are_digits(n / 1000);
        assert(ms_seconds_nat(n)[0] == dec_digits(n / 1000)[0]);
    }
}

/// A signed milliseconds-as-seconds rendering parses back to its value when
/// what follows is neither a digit nor a point.
pub proof fn lemma_ms_round_trip(m: int, pre: Seq<char>, suf: Seq<char>)
    requires
        -1000000000000000000 < m < 1000000000000000000,
        suf.len() > 0 ==> (!is_dec_digit(suf[0]) && suf[0] != '.'),
    ensures
        parse_ms_at(pre + ms_seconds(m) + suf, pre.len() as int) == Some(
            (m, (pre.len() + ms_seconds(m).len()) as int),
        ),
{
    reveal_strlit("-");
    let s = pre + ms_seconds(m) + suf;
    let i = pre.len() as int;
    if m < 0 {
        let n = (-m) as nat;
        assert(ms_seconds(m) == "-"@ + ms_seconds_nat(n));
        assert(s[i] == '-');
        lemma_unsigned_ms_round_trip(n, pre + "-"@, suf);
        assert(pre + ms_seconds(m) + suf =~= (pre + "-"@) + ms_seconds_nat(n) + suf);
        assert((pre + "-"@).len() == pre.len() + 1);
    } else {
        let n = m as nat;
        lemma_unsigned_ms_round_trip(n, pre, suf);
        lemma_dec_digits_are_digits(n / 1000);
        assert(ms_seconds(m)[0] == dec_digits(n / 1000)[0]);
        assert(s[i] == ms_seconds(m)[0]);
        assert(s[i] != '-');
    }
}

} // verus!
