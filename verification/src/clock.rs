//! Wall-clock classification of shift minutes. A minute belongs to the night
//! window when the local hour at its start is 22 or later, or earlier than 6;
//! 22:00 opens the window and 06:00 closes it.

use vstd::prelude::*;
use vstd::arithmetic::div_mod::{
    lemma_fundamental_div_mod, lemma_mod_division_less_than_divisor, lemma_mod_multiples_vanish,
};

verus! {

/// Whole days added to normalize a local timestamp before taking its
/// second-of-day; large enough to make any value built from 64-bit shift
/// bounds non-negative.
const DAY_SHIFT: i128 = 9504000000000000000;

/// The second-of-day of a local timestamp given in seconds.
pub open spec fn sec_of_day(local_secs: int) -> int {
    local_secs % 86400
}

/// Whether the instant `local_secs` (local seconds) falls in the night
/// window: at or after 22:00, or before 06:00.
pub open spec fn is_night_sec(local_secs: int) -> bool {
    sec_of_day(local_secs) >= 79200 || sec_of_day(local_secs) < 21600
}

/// The local second at which minute `k` of a shift starting at local second
/// `start` begins.
pub open spec fn shift_minute(start: int, k: int) -> int {
    start + 60 * k
}

/// How many of the first `n` minutes of a shift that starts at local second
/// `start` lie in the night window.
pub open spec fn night_minutes(start: int, n: int) -> int
    decreases n,
{
    if n <= 0 {
        0
    } else {
        night_minutes(start, n - 1) + if is_night_sec(shift_minute(start, n - 1)) {
            1int
        } else {
            0int
        }
    }
}

pub proof fn lemma_night_minutes_bounds(start: int, n: int)
    requires
        n >= 0,
    ensures
        0 <= night_minutes(start, n) <= n,
    decreases n,
{
    if n > 0 {
        lemma_night_minutes_bounds(start, n - 1);
    }
}

/// A shift with no minute in the night window earns no night minutes.
pub proof fn lemma_night_minutes_none(start: int, n: int)
    requires
        n >= 0,
        forall|k: int| 0 <= k < n ==> !is_night_sec(shift_minute(start, k)),
    ensures
        night_minutes(start, n) == 0,
    decreases n,
{
    if n > 0 {
        lemma_night_minutes_none(start, n - 1);
    }
}

/// A shift that lies entirely in the night window has every minute counted.
pub proof fn lemma_night_minutes_all(start: int, n: int)
    requires
        n >= 0,
        forall|k: int| 0 <= k < n ==> is_night_sec(shift_minute(start, k)),
    ensures
        night_minutes(start, n) == n,
    decreases n,
{
    if n > 0 {
        lemma_night_minutes_all(start, n - 1);
    }
}

/// Executable night test for one local instant.
fn is_night_exec(local_secs: i128) -> (r: bool)
    requires
        -9300000000000000000 <= local_secs <= 50000000000000000000,
    ensures
        r == is_night_sec(local_secs as int),
{
    let shifted: i128 = local_secs + DAY_SHIFT;
    let s: u128 = (shifted as u128) % 86400;
    proof {
        assert(DAY_SHIFT == 86400 * 110000000000000) by (nonlinear_arith);
        lemma_mod_multiples_vanish(110000000000000, local_secs as int, 86400);
        lemma_mod_division_less_than_divisor(shifted as int, 86400);
    }
    s >= 79200 || s < 21600
}

/// Counts the night minutes of a shift of `total` whole minutes that starts
/// at local second `start`.
pub fn count_night_minutes(start: i128, total: i128) -> (nd: i128)
    requires
        0 <= total <= 0x800000000000000,
        -9223372036854775808 - 2147483648 <= start <= 9223372036854775807 + 2147483648,
    ensures
        nd == night_minutes(start as int, total as int),
        0 <= nd <= total,
{
    let mut nd: i128 = 0;
    let mut k: i128 = 0;
    while k < total
        invariant
            0 <= k <= total,
            total <= 0x800000000000000,
            -9223372036854775808 - 2147483648 <= start <= 9223372036854775807 + 2147483648,
            nd == night_minutes(start as int, k as int),
            0 <= nd <= k,
        decreases total - k,
    {
        proof {
            assert(0 <= 60 * k && 60 * k <= 60 * total) by (nonlinear_arith)
                requires
                    0 <= k < total,
            ;
        }
        if is_night_exec(start + 60 * k) {
            nd = nd + 1;
        }
        k = k + 1;
    }
    proof {
        lemma_night_minutes_bounds(start as int, total as int);
    }
    nd
}

} // verus!
