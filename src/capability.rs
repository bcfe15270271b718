//! The rules that a capability provider applies to the commands it performs.
use vstd::prelude::*;

verus! {

/// How many clicks a click command makes: one when no count is given, never none.
pub fn click_count(count: Option<u8>) -> (r: u8)
    ensures
        r == match count {
            Some(c) => if c == 0 {
                1
            } else {
                c
            },
            None => 1,
        },
{
    match count {
        Some(c) => if c == 0 {
            1
        } else {
            c
        },
        None => 1,
    }
}

/// The bounds of a random sleep, smaller first.
pub fn sleep_bounds(min: u64, max: u64) -> (r: (u64, u64))
    ensures
        r.0 <= r.1,
        min <= max ==> r == (min, max),
        min > max ==> r == (max, min),
{
    if min <= max {
        (min, max)
    } else {
        (max, min)
    }
}

/// Relies on `rand::random_range` over an inclusive range: it returns a value drawn
/// from the range, which is never empty here.
#[verifier::external_body]
fn random_between(lo: u64, hi: u64) -> (r: u64)
    requires
        lo <= hi,
    ensures
        lo <= r <= hi,
{
    rand::random_range(lo..=hi)
}

/// How long a random sleep between `min` and `max` milliseconds lasts, either bound
/// first: a random value between the bounds, both included, or the bound itself when
/// they are equal.
pub fn sleep_delay(min: u64, max: u64) -> (r: u64)
    ensures
        min <= max ==> min <= r <= max,
        max < min ==> max <= r <= min,
        min == max ==> r == min,
{
    let (lo, hi) = sleep_bounds(min, max);
    if lo == hi {
        lo
    } else {
        random_between(lo, hi)
    }
}

} // verus!
