//! Byte counts for people: `300 B`, `1.5 KB`, `2.0 MB`.
//!
//! The fractional sizes are those of a division in 64-bit floating point,
//! printed with one digit after the point. They are computed in integers: a
//! byte count is first rounded to the nearest integer that a float holds, the
//! division by a power of two is exact, and the printed tenths are rounded,
//! ties going to the even neighbour in both steps.
use vstd::prelude::*;

use crate::decimal::{push_decimal, decimal};

verus! {

pub const KB: u64 = 1024;

pub const MB: u64 = 1048576;

/// The integer nearest to `a / b`; between two equally near ones, the even one.
pub open spec fn rounded_quotient(a: nat, b: nat) -> nat {
    let q = a / b;
    let r = a % b;
    if 2 * r < b || (2 * r == b && q % 2 == 0) {
        q
    } else {
        q + 1
    }
}

/// The distance between the floats around `n`, at least one.
pub open spec fn float_step(n: nat) -> nat
    decreases n,
{
    if n < 0x20_0000_0000_0000 {
        1
    } else {
        2 * float_step(n / 2)
    }
}

/// The integer nearest to `n` that a 64-bit float holds.
pub open spec fn nearest_float(n: nat) -> nat {
    rounded_quotient(n, float_step(n)) * float_step(n)
}

/// How many tenths of `unit` are printed for `n` bytes.
pub open spec fn tenths(n: nat, unit: nat) -> nat {
    rounded_quotient(10 * nearest_float(n), unit)
}

/// `n` bytes as the picker prints them.
pub open spec fn size_text(n: nat) -> Seq<char> {
    if n >= MB {
        let t = tenths(n, MB as nat);
        decimal(t / 10) + "."@ + decimal(t % 10) + " MB"@
    } else if n >= KB {
        let t = tenths(n, KB as nat);
        decimal(t / 10) + "."@ + decimal(t % 10) + " KB"@
    } else {
        decimal(n) + " B"@
    }
}

fn round_quotient(a: u128, b: u128) -> (q: u128)
    requires
        b > 0,
        a < 0x1_0000_0000_0000_0000_0000_0000,
        b < 0x1_0000_0000_0000_0000,
    ensures
        q == rounded_quotient(a as nat, b as nat),
{
    let q = a / b;
    let r = a % b;
    assert(q <= a) by (nonlinear_arith)
        requires
            q == a / b,
            b > 0,
            a >= 0,
    ;
    if 2 * r < b || (2 * r == b && q % 2 == 0) {
        q
    } else {
        q + 1
    }
}

/// The step between floats stays small next to the number itself.
proof fn float_step_bounds(n: nat)
    requires
        n < 0x1_0000_0000_0000_0000,
    ensures
        1 <= float_step(n) <= 2048,
        n >= 0x20_0000_0000_0000 ==> float_step(n) * 0x10_0000_0000_0000 <= n,
{
    reveal_with_fuel(float_step, 13);
}

fn step_of(n: u64) -> (s: u64)
    ensures
        s == float_step(n as nat),
    decreases n,
{
    proof {
        float_step_bounds(n as nat);
        float_step_bounds((n / 2) as nat);
    }
    if n < 0x20_0000_0000_0000 {
        1
    } else {
        2 * step_of(n / 2)
    }
}

fn tenths_of(n: u64, unit: u64) -> (t: u64)
    requires
        unit >= 1024,
    ensures
        t == tenths(n as nat, unit as nat),
{
    let step: u64 = step_of(n);
    proof {
        float_step_bounds(n as nat);
    }
    let q: u128 = round_quotient(n as u128, step as u128);
    assert(q <= n + 1) by (nonlinear_arith)
        requires
            q == rounded_quotient(n as nat, step as nat),
            step >= 1,
    ;
    assert(q * step <= 0x1_0000_0000_0000_0000 * 2048) by (nonlinear_arith)
        requires
            q <= n + 1,
            n < 0x1_0000_0000_0000_0000,
            0 <= step <= 2048,
            q >= 0,
    ;
    let f: u128 = q * (step as u128);
    assert(f <= n + step) by (nonlinear_arith)
        requires
            q == rounded_quotient(n as nat, step as nat),
            step >= 1,
            f == q * step,
    ;
    let t: u128 = round_quotient(10 * f, unit as u128);
    assert(t <= (10 * f) / 1024 + 1) by (nonlinear_arith)
        requires
            t == rounded_quotient((10 * f) as nat, unit as nat),
            unit >= 1024,
            f >= 0,
    ;
    t as u64
}

/// `bytes` as the picker prints them.
pub fn human_size(bytes: usize) -> (s: String)
    ensures
        s@ == size_text(bytes as nat),
{
    let n: u64 = bytes as u64;
    let mut s = String::new();
    if n >= MB {
        let t: u64 = tenths_of(n, MB);
        push_decimal(&mut s, t / 10);
        s.append(".");
        push_decimal(&mut s, t % 10);
        s.append(" MB");
    } else if n >= KB {
        let t: u64 = tenths_of(n, KB);
        push_decimal(&mut s, t / 10);
        s.append(".");
        push_decimal(&mut s, t % 10);
        s.append(" KB");
    } else {
        push_decimal(&mut s, n);
        s.append(" B");
    }
    assert(s@ =~= size_text(bytes as nat));
    s
}

} // verus!
