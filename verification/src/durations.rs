//! How many seconds a duration written as text ("2h 37min", "1.5s", ...)
//! can come to at most, read from its numbers and unit words alone.
//!
//! The text is read as segments: a run of characters that are not letters
//! (the number: its digits before the first `.` make its whole part,
//! whitespace is skipped), then a run of letters (its unit). Each segment
//! with a unit counts at most `(whole part + 2) * weight(unit)` seconds,
//! the weight being the unit's length in seconds; a sub-second unit
//! counts `whole part / units per second + 2`. The two spare seconds cover
//! the fraction and a carry of the sub-second part. A unit word that is
//! not known gets the largest weight, a year. A whole part beyond `u64`
//! counts nothing: the parser refuses such a number before it adds it, and
//! stops there.
//!
//! A text whose bound fits in `u64` seconds never comes near the largest
//! `std::time::Duration`, so parsing it cannot overflow.
use vstd::prelude::*;
use crate::text::{chars_of, eq_str, is_ascii_digit};

verus! {

/// The largest number of seconds a `u64` holds, plus one.
pub const SECONDS_CAP: u128 = 0x1_0000_0000_0000_0000;

/// `c` can be part of a unit word.
pub open spec fn is_unit_letter(c: char) -> bool {
    ('a' <= c && c <= 'z') || ('A' <= c && c <= 'Z') || c == 'µ'
}

/// The length of a unit, in seconds (at least 1).
pub open spec fn unit_weight(u: Seq<char>) -> nat {
    if u == "nanos"@ || u == "nsec"@ || u == "ns"@ || u == "usec"@ || u == "us"@ || u == "µs"@ || u == "millis"@
        || u == "msec"@ || u == "ms"@ || u == "seconds"@ || u == "second"@ || u == "secs"@ || u == "sec"@ || u
        == "s"@ {
        1
    } else if u == "minutes"@ || u == "minute"@ || u == "min"@ || u == "mins"@ || u == "m"@ {
        60
    } else if u == "hours"@ || u == "hour"@ || u == "hr"@ || u == "hrs"@ || u == "h"@ {
        3600
    } else if u == "days"@ || u == "day"@ || u == "d"@ {
        86400
    } else if u == "weeks"@ || u == "week"@ || u == "wk"@ || u == "wks"@ || u == "w"@ {
        604800
    } else if u == "months"@ || u == "month"@ || u == "M"@ {
        2_630_016
    } else {
        31_557_600
    }
}

/// How many of a sub-second unit make a second; 0 for other units.
pub open spec fn per_second(u: Seq<char>) -> nat {
    if u == "nanos"@ || u == "nsec"@ || u == "ns"@ {
        1_000_000_000
    } else if u == "usec"@ || u == "us"@ || u == "µs"@ {
        1_000_000
    } else if u == "millis"@ || u == "msec"@ || u == "ms"@ {
        1000
    } else {
        0
    }
}

/// The most seconds one segment with whole part `n` and unit `u` adds.
pub open spec fn segment_bound(n: nat, u: Seq<char>) -> nat {
    if n > u64::MAX {
        0
    } else if per_second(u) > 0 {
        n / per_second(u) + 2
    } else {
        (n + 2) * unit_weight(u)
    }
}

/// The bound of `s` from index `i` on, while the current segment has the
/// whole part `n`, has (`frac`) or has not met its `.`, and has read the
/// unit letters `unit`.
pub open spec fn bound_from(s: Seq<char>, i: int, n: nat, frac: bool, unit: Seq<char>) -> nat
    decreases s.len() - i, unit.len(),
{
    if i >= s.len() || i < 0 {
        if unit.len() > 0 {
            segment_bound(n, unit)
        } else {
            0
        }
    } else if is_unit_letter(s[i]) {
        bound_from(s, i + 1, n, frac, unit.push(s[i]))
    } else if unit.len() > 0 {
        segment_bound(n, unit) + bound_from(s, i, 0, false, Seq::empty())
    } else if is_ascii_digit(s[i]) && !frac {
        bound_from(s, i + 1, n * 10 + ((s[i] as u32) - ('0' as u32)) as nat, frac, unit)
    } else {
        bound_from(s, i + 1, n, frac || s[i] == '.', unit)
    }
}

/// The most seconds the text `s` can come to.
pub open spec fn seconds_bound(s: Seq<char>) -> nat {
    bound_from(s, 0, 0, false, Seq::empty())
}

/// `x`, or the cap when it is larger.
pub open spec fn capped(x: nat) -> nat {
    if x < SECONDS_CAP {
        x
    } else {
        SECONDS_CAP as nat
    }
}

fn weight_of(u: &[char]) -> (r: u128)
    ensures
        r == unit_weight(u@),
{
    if eq_str(u, "nanos") || eq_str(u, "nsec") || eq_str(u, "ns") || eq_str(u, "usec") || eq_str(u, "us") || eq_str(
        u,
        "µs",
    ) || eq_str(u, "millis") || eq_str(u, "msec") || eq_str(u, "ms") || eq_str(u, "seconds") || eq_str(u, "second")
        || eq_str(u, "secs") || eq_str(u, "sec") || eq_str(u, "s") {
        1
    } else if eq_str(u, "minutes") || eq_str(u, "minute") || eq_str(u, "min") || eq_str(u, "mins") || eq_str(u, "m") {
        60
    } else if eq_str(u, "hours") || eq_str(u, "hour") || eq_str(u, "hr") || eq_str(u, "hrs") || eq_str(u, "h") {
        3600
    } else if eq_str(u, "days") || eq_str(u, "day") || eq_str(u, "d") {
        86400
    } else if eq_str(u, "weeks") || eq_str(u, "week") || eq_str(u, "wk") || eq_str(u, "wks") || eq_str(u, "w") {
        604800
    } else if eq_str(u, "months") || eq_str(u, "month") || eq_str(u, "M") {
        2_630_016
    } else {
        31_557_600
    }
}

fn per_second_of(u: &[char]) -> (r: u128)
    ensures
        r == per_second(u@),
{
    if eq_str(u, "nanos") || eq_str(u, "nsec") || eq_str(u, "ns") {
        1_000_000_000
    } else if eq_str(u, "usec") || eq_str(u, "us") || eq_str(u, "µs") {
        1_000_000
    } else if eq_str(u, "millis") || eq_str(u, "msec") || eq_str(u, "ms") {
        1000
    } else {
        0
    }
}

/// `capped(segment_bound(n, unit))`, from `capped(n)`.
fn segment_capped(n: u128, Ghost(n_exact): Ghost<nat>, unit: &[char]) -> (r: u128)
    requires
        n == capped(n_exact),
    ensures
        r == capped(segment_bound(n_exact, unit@)),
        r <= SECONDS_CAP,
{
    if n >= SECONDS_CAP {
        return 0;
    }
    let d = per_second_of(unit);
    if d > 0 {
        let q: u128 = n / d + 2;
        return q;
    }
    let w = weight_of(unit);
    proof {
        lemma_weight_bounds(unit@);
        assert((n + 2) * w <= (SECONDS_CAP + 2) * 31_557_600) by (nonlinear_arith)
            requires
                n < SECONDS_CAP,
                1 <= w <= 31_557_600,
        ;
    }
    let seg: u128 = (n + 2) * w;
    if seg < SECONDS_CAP {
        seg
    } else {
        SECONDS_CAP
    }
}

proof fn lemma_weight_bounds(u: Seq<char>)
    ensures
        1 <= unit_weight(u) <= 31_557_600,
{
}

proof fn lemma_capped_digit(n: nat, d: nat)
    requires
        d < 10,
    ensures
        capped(capped(n) * 10 + d) == capped(n * 10 + d),
        capped(n) * 10 + d <= SECONDS_CAP * 10 + 9,
{
    if n >= SECONDS_CAP {
        assert(n * 10 + d >= SECONDS_CAP) by (nonlinear_arith)
            requires
                n >= SECONDS_CAP,
        ;
    }
}

/// Whether the seconds a duration text can come to fit in a `u64`.
pub fn seconds_bound_fits(text: &str) -> (r: bool)
    ensures
        r == (seconds_bound(text@) <= u64::MAX),
{
    let s = chars_of(text);
    let ghost sq = s@;
    let mut acc: u128 = 0;
    let mut n: u128 = 0;
    let mut frac = false;
    let mut unit: Vec<char> = Vec::new();
    let ghost mut acc_exact: nat = 0;
    let ghost mut n_exact: nat = 0;
    let mut i: usize = 0;
    while i < s.len()
        invariant
            sq == s@,
            sq == text@,
            i <= sq.len(),
            acc == capped(acc_exact),
            n == capped(n_exact),
            acc_exact + bound_from(sq, i as int, n_exact, frac, unit@) == seconds_bound(sq),
        decreases sq.len() - i,
    {
        let c = s[i];
        let ghost n0 = n_exact;
        let ghost f0 = frac;
        let ghost u0 = unit@;
        let ghost a0 = acc_exact;
        assert(c == sq[i as int]);
        if ('a' <= c && c <= 'z') || ('A' <= c && c <= 'Z') || c == 'µ' {
            unit.push(c);
            assert(bound_from(sq, i as int, n0, f0, u0) == bound_from(sq, i + 1, n0, f0, u0.push(c)));
        } else {
            assert(!is_unit_letter(sq[i as int]));
            if unit.len() > 0 {
                let seg_c = segment_capped(n, Ghost(n_exact), unit.as_slice());
                let sum: u128 = acc + seg_c;
                acc = if sum < SECONDS_CAP {
                    sum
                } else {
                    SECONDS_CAP
                };
                proof {
                    acc_exact = acc_exact + segment_bound(n_exact, unit@);
                    n_exact = 0;
                }
                n = 0;
                frac = false;
                unit = Vec::new();
                assert(bound_from(sq, i as int, n0, f0, u0) == segment_bound(n0, u0) + bound_from(
                    sq,
                    i as int,
                    0,
                    false,
                    Seq::empty(),
                ));
                assert(unit@ =~= Seq::<char>::empty());
            }
            let ghost n1 = n_exact;
            let ghost f1 = frac;
            assert(unit@.len() == 0);
            if '0' <= c && c <= '9' && !frac {
                let d: u128 = (c as u32 - '0' as u32) as u128;
                proof {
                    lemma_capped_digit(n_exact, d as nat);
                }
                let m: u128 = n * 10 + d;
                n = if m < SECONDS_CAP {
                    m
                } else {
                    SECONDS_CAP
                };
                proof {
                    n_exact = n_exact * 10 + d as nat;
                }
                assert(bound_from(sq, i as int, n1, f1, unit@) == bound_from(sq, i + 1, n_exact, frac, unit@));
            } else {
                if c == '.' {
                    frac = true;
                }
                assert(bound_from(sq, i as int, n1, f1, unit@) == bound_from(sq, i + 1, n_exact, frac, unit@));
            }
        }
        i += 1;
    }
    if unit.len() > 0 {
        let seg_c = segment_capped(n, Ghost(n_exact), unit.as_slice());
        let sum: u128 = acc + seg_c;
        acc = if sum < SECONDS_CAP {
            sum
        } else {
            SECONDS_CAP
        };
        proof {
            acc_exact = acc_exact + segment_bound(n_exact, unit@);
        }
    }
    acc < SECONDS_CAP
}

} // verus!
