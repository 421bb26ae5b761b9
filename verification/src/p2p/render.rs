//! Decimal and elapsed-time rendering shared by the event model.
//!
//! Elapsed times are kept as nanosecond counts and rendered the way the
//! standard library debug-formats a `Duration`: the largest unit whose
//! integer part is non-zero, followed by the fractional digits with
//! trailing zeros dropped.

use vstd::prelude::*;
use vstd::string::StringExecFns;

verus! {

/// The decimal digit character for `n` (taken modulo 10).
pub open spec fn digit_char(n: nat) -> char {
    let d = n % 10;
    if d == 0 {
        '0'
    } else if d == 1 {
        '1'
    } else if d == 2 {
        '2'
    } else if d == 3 {
        '3'
    } else if d == 4 {
        '4'
    } else if d == 5 {
        '5'
    } else if d == 6 {
        '6'
    } else if d == 7 {
        '7'
    } else if d == 8 {
        '8'
    } else {
        '9'
    }
}

/// The decimal rendering of `n`, most significant digit first.
pub open spec fn spec_udec(n: nat) -> Seq<char>
    decreases n,
{
    if n < 10 {
        seq![digit_char(n)]
    } else {
        spec_udec(n / 10).push(digit_char(n))
    }
}

/// The fraction digits the standard library prints for a fractional part
/// `frac` of a unit whose leading digit has weight `divisor`: digits are
/// emitted until the remaining fraction is zero, so trailing zeros are
/// dropped.
pub open spec fn spec_frac_digits(frac: nat, divisor: nat) -> Seq<char>
    decreases divisor,
{
    if frac == 0 || divisor == 0 {
        Seq::<char>::empty()
    } else {
        seq![digit_char(frac / divisor)] + spec_frac_digits(frac % divisor, divisor / 10)
    }
}

/// The fractional part as printed: nothing when it is zero, otherwise a
/// point followed by the digits.
pub open spec fn spec_frac_part(frac: nat, divisor: nat) -> Seq<char> {
    if frac == 0 {
        Seq::<char>::empty()
    } else {
        "."@ + spec_frac_digits(frac, divisor)
    }
}

/// A nanosecond count rendered as the standard library debug-formats a
/// `Duration`: seconds, milliseconds, microseconds or nanoseconds.
pub open spec fn spec_duration_display(ns: nat) -> Seq<char> {
    if ns >= 1_000_000_000 {
        spec_udec(ns / 1_000_000_000) + spec_frac_part(ns % 1_000_000_000, 100_000_000) + "s"@
    } else if ns >= 1_000_000 {
        spec_udec(ns / 1_000_000) + spec_frac_part(ns % 1_000_000, 100_000) + "ms"@
    } else if ns >= 1_000 {
        spec_udec(ns / 1_000) + spec_frac_part(ns % 1_000, 100) + "\u{b5}s"@
    } else {
        spec_udec(ns) + "ns"@
    }
}

/// The one-character string for the decimal digit of `d` (taken modulo 10).
fn digit_str(d: u128) -> (s: &'static str)
    ensures
        s@ == seq![digit_char(d as nat)],
{
    let r = d % 10;
    let s = if r == 0 {
        "0"
    } else if r == 1 {
        "1"
    } else if r == 2 {
        "2"
    } else if r == 3 {
        "3"
    } else if r == 4 {
        "4"
    } else if r == 5 {
        "5"
    } else if r == 6 {
        "6"
    } else if r == 7 {
        "7"
    } else if r == 8 {
        "8"
    } else {
        "9"
    };
    proof {
        reveal_strlit("0");
        reveal_strlit("1");
        reveal_strlit("2");
        reveal_strlit("3");
        reveal_strlit("4");
        reveal_strlit("5");
        reveal_strlit("6");
        reveal_strlit("7");
        reveal_strlit("8");
        reveal_strlit("9");
        assert(s@ =~= seq![digit_char(d as nat)]);
    }
    s
}

/// Renders `n` in decimal.
pub fn u128_to_dec(n: u128) -> (s: String)
    ensures
        s@ == spec_udec(n as nat),
    decreases n,
{
    if n < 10 {
        digit_str(n).to_owned()
    } else {
        let mut s = u128_to_dec(n / 10);
        s.append(digit_str(n % 10));
        proof {
            assert((n % 10) as nat % 10 == n as nat % 10);
            assert(s@ =~= spec_udec(n as nat));
        }
        s
    }
}

/// Renders `n` in decimal.
pub fn u64_to_dec(n: u64) -> (s: String)
    ensures
        s@ == spec_udec(n as nat),
{
    u128_to_dec(n as u128)
}

/// Renders `n` in decimal.
pub fn u32_to_dec(n: u32) -> (s: String)
    ensures
        s@ == spec_udec(n as nat),
{
    u128_to_dec(n as u128)
}

/// The fraction digits of `frac` under a leading weight of `divisor`.
fn frac_digits(frac: u64, divisor: u64) -> (s: String)
    ensures
        s@ == spec_frac_digits(frac as nat, divisor as nat),
    decreases divisor,
{
    if frac == 0 || divisor == 0 {
        String::new()
    } else {
        let mut s = digit_str((frac / divisor) as u128).to_owned();
        let rest = frac_digits(frac % divisor, divisor / 10);
        s.append(rest.as_str());
        proof {
            assert((frac / divisor) as u128 as nat % 10 == (frac as nat / divisor as nat) % 10);
            assert(s@ =~= spec_frac_digits(frac as nat, divisor as nat));
        }
        s
    }
}

/// The printed fractional part of a unit: empty when zero.
fn frac_part(frac: u64, divisor: u64) -> (s: String)
    ensures
        s@ == spec_frac_part(frac as nat, divisor as nat),
{
    if frac == 0 {
        String::new()
    } else {
        let mut s = String::new();
        s.append(".");
        let digits = frac_digits(frac, divisor);
        s.append(digits.as_str());
        s
    }
}

/// Renders a nanosecond count the way the standard library debug-formats
/// a `Duration`.
pub fn format_duration_ns(ns: u128) -> (s: String)
    ensures
        s@ == spec_duration_display(ns as nat),
{
    if ns >= 1_000_000_000 {
        let mut s = u128_to_dec(ns / 1_000_000_000);
        let f = frac_part((ns % 1_000_000_000) as u64, 100_000_000);
        s.append(f.as_str());
        s.append("s");
        s
    } else if ns >= 1_000_000 {
        let mut s = u128_to_dec(ns / 1_000_000);
        let f = frac_part((ns % 1_000_000) as u64, 100_000);
        s.append(f.as_str());
        s.append("ms");
        s
    } else if ns >= 1_000 {
        let mut s = u128_to_dec(ns / 1_000);
        let f = frac_part((ns % 1_000) as u64, 100);
        s.append(f.as_str());
        s.append("\u{b5}s");
        s
    } else {
        let mut s = u128_to_dec(ns);
        s.append("ns");
        s
    }
}

} // verus!
