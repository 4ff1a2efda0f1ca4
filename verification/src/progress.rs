//! Progress reporting.
//!
//! Scan and refresh jobs report their progress as integer percentages in
//! `[0, 100]`.  A percentage is the byte fraction completed, rounded to
//! the nearest whole number, and is pushed through an optional channel
//! sender owned by the caller; nobody listening is not a fault.

use vstd::arithmetic::div_mod::{lemma_div_is_ordered, lemma_div_multiples_vanish_fancy};
use vstd::prelude::*;

verus! {

#[verifier::external_type_specification]
#[verifier::external_body]
#[verifier::reject_recursive_types(T)]
pub struct ExSender<T>(flume::Sender<T>);

/// Relies on `flume::Sender::send`: it delivers the value to the channel,
/// and merely returns an error when every receiver has been dropped.  A
/// disconnected receiver must not stop the job, so the result is dropped.
#[verifier::external_body]
pub fn send_progress(sender: &flume::Sender<u32>, pct: u32) {
    let _ = sender.send(pct);
}

/// The percentage `scanned / total * 100`, rounded to the nearest whole
/// number (halves round up).
pub open spec fn rounded_pct(scanned: int, total: int) -> int
    recommends
        0 < total,
{
    (200 * scanned + total) / (2 * total)
}

/// Rounding is monotone in the amount scanned.
pub proof fn lemma_rounded_pct_monotone(s1: int, s2: int, total: int)
    requires
        0 < total,
        s1 <= s2,
    ensures
        rounded_pct(s1, total) <= rounded_pct(s2, total),
{
    lemma_div_is_ordered(200 * s1 + total, 200 * s2 + total, 2 * total);
}

/// A completed job reports exactly 100.
pub proof fn lemma_rounded_pct_complete(total: int)
    requires
        0 < total,
    ensures
        rounded_pct(total, total) == 100,
{
    assert(200 * total + total == (2 * total) * 100 + total) by (nonlinear_arith);
    lemma_div_multiples_vanish_fancy(100, total, 2 * total);
}

/// A percentage never exceeds 100 while the scanned bytes stay within the
/// total, and never falls below 0.
pub proof fn lemma_rounded_pct_bounds(scanned: int, total: int)
    requires
        0 < total,
        0 <= scanned <= total,
    ensures
        0 <= rounded_pct(scanned, total) <= 100,
{
    lemma_rounded_pct_monotone(0, scanned, total);
    lemma_rounded_pct_monotone(scanned, total, total);
    lemma_rounded_pct_complete(total);
    assert(rounded_pct(0, total) >= 0) by {
        lemma_div_is_ordered(0, total, 2 * total);
    }
}

/// Computes the rounded percentage of `scanned` out of `total` bytes.
pub fn percent_of(scanned: u64, total: u64) -> (p: u32)
    requires
        0 < total,
        scanned <= total,
    ensures
        p == rounded_pct(scanned as int, total as int),
        p <= 100,
{
    proof {
        lemma_rounded_pct_bounds(scanned as int, total as int);
    }
    let n: u128 = 200u128 * (scanned as u128) + (total as u128);
    let d: u128 = 2u128 * (total as u128);
    let q: u128 = n / d;
    q as u32
}

} // verus!
