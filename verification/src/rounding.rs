//! Exact rational quantities rounded to a whole number of units with ties to
//! even, the rounding that fixed-point decimal arithmetic conventionally uses.

use vstd::prelude::*;
use vstd::arithmetic::div_mod::{
    lemma_fundamental_div_mod, lemma_fundamental_div_mod_converse_div,
    lemma_fundamental_div_mod_converse_mod, lemma_mod_division_less_than_divisor,
};

verus! {

/// The rational `n / d` (with `d > 0`) rounded to the nearest integer,
/// ties going to the even neighbour.
pub open spec fn round_half_even(n: int, d: int) -> int
    recommends
        d > 0,
{
    let q = n / d;
    let r = n % d;
    if 2 * r < d {
        q
    } else if 2 * r > d {
        q + 1
    } else if q % 2 == 0 {
        q
    } else {
        q + 1
    }
}

/// Powers of ten, used as fixed-point denominators.
pub open spec fn pow10(e: int) -> int
    decreases e,
{
    if e <= 0 {
        1
    } else {
        10 * pow10(e - 1)
    }
}

pub proof fn lemma_pow10_positive(e: int)
    ensures
        pow10(e) >= 1,
    decreases e,
{
    if e > 0 {
        lemma_pow10_positive(e - 1);
    }
}

pub proof fn lemma_pow10_bounded(e: int)
    requires
        e <= 28,
    ensures
        1 <= pow10(e) <= 10000000000000000000000000000,
{
    lemma_pow10_positive(e);
    lemma_pow10_monotone(e, 28);
    assert(pow10(28) == 10000000000000000000000000000) by {
        reveal_with_fuel(pow10, 29);
    }
}

pub proof fn lemma_pow10_monotone(a: int, b: int)
    requires
        a <= b,
    ensures
        pow10(a) <= pow10(b),
    decreases b - a,
{
    if a < b {
        lemma_pow10_monotone(a, b - 1);
        lemma_pow10_positive(b - 1);
    }
}

/// Rounding never strays more than half a unit from the exact rational:
/// `|round_half_even(n, d) - n/d| <= 1/2`, stated without fractions.
pub proof fn lemma_round_half_even_close(n: int, d: int)
    requires
        d > 0,
    ensures
        2 * d * round_half_even(n, d) - 2 * n <= d,
        2 * n - 2 * d * round_half_even(n, d) <= d,
{
    let q = n / d;
    let r = n % d;
    lemma_fundamental_div_mod(n, d);
    lemma_mod_division_less_than_divisor(n, d);
    assert(n == d * q + r);
    if 2 * r < d {
        assert(2 * d * q - 2 * n == -2 * r) by (nonlinear_arith)
            requires
                n == d * q + r,
        ;
    } else {
        assert(2 * d * (q + 1) - 2 * n == 2 * d - 2 * r) by (nonlinear_arith)
            requires
                n == d * q + r,
        ;
        if 2 * r == d && q % 2 == 0 {
            assert(2 * d * q - 2 * n == -2 * r) by (nonlinear_arith)
                requires
                    n == d * q + r,
            ;
        }
    }
}

/// Rounding a zero numerator yields zero.
pub proof fn lemma_round_half_even_zero(d: int)
    requires
        d > 0,
    ensures
        round_half_even(0, d) == 0,
{
    lemma_fundamental_div_mod(0, d);
    lemma_mod_division_less_than_divisor(0, d);
    lemma_fundamental_div_mod_converse_div(0, d, 0, 0);
    lemma_fundamental_div_mod_converse_mod(0, d, 0, 0);
}

/// Rounding is odd: negating the numerator negates the rounded value.
pub proof fn lemma_round_half_even_neg(n: int, d: int)
    requires
        d > 0,
    ensures
        round_half_even(-n, d) == -round_half_even(n, d),
{
    let q = n / d;
    let r = n % d;
    lemma_fundamental_div_mod(n, d);
    lemma_mod_division_less_than_divisor(n, d);
    if r == 0 {
        assert(-n == d * (-q) + 0) by (nonlinear_arith)
            requires
                n == d * q + r,
                r == 0,
        ;
        lemma_fundamental_div_mod_converse_div(-n, d, -q, 0);
        lemma_fundamental_div_mod_converse_mod(-n, d, -q, 0);
        assert((-q) % 2 == 0 <==> q % 2 == 0) by {
            if q % 2 == 0 {
                lemma_fundamental_div_mod(q, 2);
                assert(-q == 2 * (-(q / 2)) + 0) by (nonlinear_arith)
                    requires
                        q == 2 * (q / 2),
                ;
                lemma_fundamental_div_mod_converse_mod(-q, 2, -(q / 2), 0);
            } else {
                lemma_mod_division_less_than_divisor(q, 2);
                lemma_fundamental_div_mod(q, 2);
                assert(-q == 2 * (-(q / 2) - 1) + (2 - q % 2)) by (nonlinear_arith)
                    requires
                        q == 2 * (q / 2) + q % 2,
                ;
                lemma_fundamental_div_mod_converse_mod(-q, 2, -(q / 2) - 1, 2 - q % 2);
            }
        }
    } else {
        assert(-n == d * (-q - 1) + (d - r)) by (nonlinear_arith)
            requires
                n == d * q + r,
        ;
        lemma_fundamental_div_mod_converse_div(-n, d, -q - 1, d - r);
        lemma_fundamental_div_mod_converse_mod(-n, d, -q - 1, d - r);
        if 2 * r == d {
            assert((-q - 1) % 2 == 0 <==> q % 2 != 0) by {
                lemma_mod_division_less_than_divisor(q, 2);
                lemma_fundamental_div_mod(q, 2);
                if q % 2 == 0 {
                    assert(-q - 1 == 2 * (-(q / 2) - 1) + 1) by (nonlinear_arith)
                        requires
                            q == 2 * (q / 2),
                    ;
                    lemma_fundamental_div_mod_converse_mod(-q - 1, 2, -(q / 2) - 1, 1);
                } else {
                    assert(-q - 1 == 2 * (-(q / 2) - 1) + (1 - q % 2)) by (nonlinear_arith)
                        requires
                            q == 2 * (q / 2) + q % 2,
                    ;
                    lemma_fundamental_div_mod_converse_mod(-q - 1, 2, -(q / 2) - 1, 0);
                }
            }
        }
    }
}

/// Scaling numerator and denominator by the same positive factor does not
/// change the rounded value.
pub proof fn lemma_round_half_even_scale(n: int, d: int, c: int)
    requires
        d > 0,
        c > 0,
    ensures
        round_half_even(c * n, c * d) == round_half_even(n, d),
{
    let q = n / d;
    let r = n % d;
    lemma_fundamental_div_mod(n, d);
    lemma_mod_division_less_than_divisor(n, d);
    assert(c * n == (c * d) * q + c * r && 0 <= c * r < c * d) by (nonlinear_arith)
        requires
            n == d * q + r,
            0 <= r < d,
            c > 0,
    ;
    assert(c * d > 0) by (nonlinear_arith)
        requires
            c > 0,
            d > 0,
    ;
    lemma_fundamental_div_mod_converse_div(c * n, c * d, q, c * r);
    lemma_fundamental_div_mod_converse_mod(c * n, c * d, q, c * r);
    assert((2 * (c * r) < c * d <==> 2 * r < d) && (2 * (c * r) > c * d <==> 2 * r > d))
        by (nonlinear_arith)
        requires
            c > 0,
    ;
}

/// Rounding almost commutes with addition: splitting a numerator in two and
/// rounding the parts separately moves the sum by at most one unit.
pub proof fn lemma_round_half_even_add(a: int, b: int, d: int)
    requires
        d > 0,
    ensures
        round_half_even(a + b, d) - round_half_even(a, d) - round_half_even(b, d) <= 1,
        round_half_even(a, d) + round_half_even(b, d) - round_half_even(a + b, d) <= 1,
{
    lemma_round_half_even_close(a, d);
    lemma_round_half_even_close(b, d);
    lemma_round_half_even_close(a + b, d);
    let x = round_half_even(a, d);
    let y = round_half_even(b, d);
    let z = round_half_even(a + b, d);
    assert(2 * d * (z - x - y) <= 3 * d && 2 * d * (z - x - y) >= -3 * d) by (nonlinear_arith)
        requires
            2 * d * x - 2 * a <= d,
            2 * a - 2 * d * x <= d,
            2 * d * y - 2 * b <= d,
            2 * b - 2 * d * y <= d,
            2 * d * z - 2 * (a + b) <= d,
            2 * (a + b) - 2 * d * z <= d,
    ;
    assert(z - x - y <= 1 && x + y - z <= 1) by (nonlinear_arith)
        requires
            d > 0,
            2 * d * (z - x - y) <= 3 * d,
            2 * d * (z - x - y) >= -3 * d,
    ;
}

/// The magnitude of a rounded value is at most the magnitude of the rounded
/// whole when the two numerators share a sign.
pub proof fn lemma_round_half_even_part_bound(a: int, b: int, d: int)
    requires
        d > 0,
        a * b >= 0,
    ensures
        round_half_even(a, d) <= round_half_even(a + b, d) + 1 || round_half_even(a, d) <= 1,
        round_half_even(a, d) >= round_half_even(a + b, d) - 1 || round_half_even(a, d) >= -1,
{
    lemma_round_half_even_close(a, d);
    lemma_round_half_even_close(a + b, d);
    let x = round_half_even(a, d);
    let z = round_half_even(a + b, d);
    if a >= 0 && b >= 0 {
        assert(x <= z + 1) by (nonlinear_arith)
            requires
                d > 0,
                a >= 0,
                b >= 0,
                2 * d * x - 2 * a <= d,
                2 * (a + b) - 2 * d * z <= d,
        ;
        assert(x >= -1) by (nonlinear_arith)
            requires
                d > 0,
                a >= 0,
                2 * a - 2 * d * x <= d,
        ;
    } else {
        assert(a <= 0 && b <= 0) by (nonlinear_arith)
            requires
                a * b >= 0,
                !(a >= 0 && b >= 0),
        ;
        assert(x >= z - 1) by (nonlinear_arith)
            requires
                d > 0,
                a <= 0,
                b <= 0,
                2 * a - 2 * d * x <= d,
                2 * d * z - 2 * (a + b) <= d,
        ;
        assert(x <= 1) by (nonlinear_arith)
            requires
                d > 0,
                a <= 0,
                2 * d * x - 2 * a <= d,
        ;
    }
}

/// Executable power of ten.
pub fn pow10_i128(e: u32) -> (r: i128)
    requires
        e <= 28,
    ensures
        r == pow10(e as int),
{
    let mut i: u32 = 0;
    let mut acc: i128 = 1;
    while i < e
        invariant
            0 <= i <= e,
            e <= 28,
            acc == pow10(i as int),
        decreases e - i,
    {
        proof {
            lemma_pow10_bounded(i as int + 1);
            lemma_pow10_bounded(i as int);
        }
        acc = acc * 10;
        i = i + 1;
    }
    acc
}

/// Executable rounding of `n / d` to the nearest integer, ties to even.
pub fn div_round_half_even(n: i128, d: i128) -> (r: i128)
    requires
        d > 0,
        n > i128::MIN,
    ensures
        r == round_half_even(n as int, d as int),
{
    let du = d as u128;
    if n >= 0 {
        let q = round_mag(n as u128, du);
        proof {
            lemma_round_mag_fits(n as int, d as int);
        }
        q as i128
    } else {
        let q = round_mag((-n) as u128, du);
        proof {
            lemma_round_half_even_neg((-n) as int, d as int);
            lemma_round_mag_fits((-n) as int, d as int);
        }
        -(q as i128)
    }
}

/// A non-negative rounded quotient is at most its numerator plus one, so it
/// stays inside the machine range the numerator came from.
proof fn lemma_round_mag_fits(n: int, d: int)
    requires
        d > 0,
        0 <= n <= i128::MAX,
    ensures
        0 <= round_half_even(n, d) <= i128::MAX,
{
    lemma_round_half_even_close(n, d);
    let z = round_half_even(n, d);
    assert(0 <= z && z <= n) by (nonlinear_arith)
        requires
            d > 0,
            n >= 0,
            2 * d * z - 2 * n <= d,
            2 * n - 2 * d * z <= d,
    ;
}

/// Ties-to-even rounding of `n / d` on unsigned machine words.
fn round_mag(n: u128, d: u128) -> (r: u128)
    requires
        d > 0,
    ensures
        r == round_half_even(n as int, d as int),
{
    let q = n / d;
    let rem = n % d;
    proof {
        lemma_fundamental_div_mod(n as int, d as int);
        lemma_mod_division_less_than_divisor(n as int, d as int);
        if 2 * rem >= d {
            assert(q < u128::MAX) by (nonlinear_arith)
                requires
                    n as int == d as int * (q as int) + rem as int,
                    2 * (rem as int) >= d as int,
                    d > 0,
                    n <= u128::MAX,
            ;
        }
    }
    if rem < d - rem {
        q
    } else if rem > d - rem {
        q + 1
    } else if q % 2 == 0 {
        q
    } else {
        q + 1
    }
}

} // verus!
