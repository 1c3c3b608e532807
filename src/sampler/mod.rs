//! Signal samplers: lazily produced, time-ordered (value, time) pairs.
use vstd::prelude::*;
use crate::arith::ceil_div;
use crate::times::{Time, TimeScale};

pub mod digisig;
pub mod digisiggen;

verus! {

/// Smallest peak-to-peak height a sampler reports.
pub const MIN_YSCALE: i64 = 16;

/// A signal source that the chart can draw.
pub trait Sampler<T> {
    /// Height to display this signal's data (in pixels).
    fn get_height(&self) -> i64;

    /// Peak-to-peak height used to scale values to the lane; at least
    /// `MIN_YSCALE`, so that near-flat signals do not blow up.
    fn get_yscale(&self) -> (r: i64)
        ensures
            r >= MIN_YSCALE,
    {
        MIN_YSCALE
    }

    fn get_label(&self) -> String;

    /// The samples inside `range`, in time order.
    fn iter_range(&self, range: &[Time; 2]) -> (r: Vec<(T, Time)>)
        requires
            range[0] <= range[1],
        ensures
            forall|i: int| 0 <= i < r@.len() ==> range[0] <= #[trigger] r@[i].1 <= range[1],
            forall|i: int| 0 <= i < r@.len() - 1 ==> #[trigger] r@[i].1 <= r@[i + 1].1,
    ;

    /// The value at time `t`.
    fn get_value_at(&self, t: Time, s: TimeScale) -> T;

    /// Set the iteration scale, used to thin out continuously changing signals.
    fn set_iter_scale(&mut self, _range: &[Time; 2], _timescale: &TimeScale, _scale_width: i64) {
    }
}

/// Time per pixel column when `range`, counted at `timescale`, spans
/// `scale_width` pixels, rounded up and kept at least one.
pub open spec fn spec_iter_step(r0: int, r1: int, st: int, w: int) -> int {
    let step = ((r1 - r0) * st + w - 1) / w;
    if step < 1 {
        1
    } else if step > i64::MAX {
        i64::MAX as int
    } else {
        step
    }
}

/// Sampling step for a continuously changing signal: at most one sample per
/// pixel column.
pub fn iter_step(range: &[Time; 2], timescale: &TimeScale, scale_width: i64) -> (r: Time)
    requires
        range[0] <= range[1],
        timescale.time > 0,
        scale_width > 0,
    ensures
        r == spec_iter_step(range[0] as int, range[1] as int, timescale.time as int, scale_width as int),
        r >= 1,
        r < i64::MAX ==> (range[1] - range[0]) * timescale.time <= r * scale_width,
        r > 1 ==> (r - 1) * scale_width < (range[1] - range[0]) * timescale.time,
{
    let span = range[1] as i128 - range[0] as i128;
    let ghost (s, t, w) = (span as int, timescale.time as int, scale_width as int);
    proof {
        assert(0 <= s * t <= 0xffff_ffff_ffff_ffff * 0x7fff_ffff_ffff_ffff) by (nonlinear_arith)
            requires 0 <= s <= 0xffff_ffff_ffff_ffff, 0 < t <= 0x7fff_ffff_ffff_ffff;
    }
    let n = span * timescale.time as i128;
    let step = ceil_div(n, scale_width as i128);
    proof {
        assert((range[1] - range[0]) * timescale.time == s * t);
        assert(n == s * t);
        if step < 1 {
            assert(n <= 1 * w) by (nonlinear_arith)
                requires step * w >= n, step <= 0, w > 0;
        }
        if step > i64::MAX {
            assert((i64::MAX - 1) * w < n) by (nonlinear_arith)
                requires (step - 1) * w < n, step > i64::MAX, w > 0;
        }
    }
    if step < 1 {
        1
    } else if step > i64::MAX as i128 {
        i64::MAX
    } else {
        step as i64
    }
}

/// Sample times from the start of `range` in steps of `step`, up to its end.
pub fn step_times(range: &[Time; 2], step: Time) -> (r: Vec<Time>)
    requires
        range[0] <= range[1],
        step >= 1,
    ensures
        r@.len() == (range[1] - range[0]) / (step as int) + 1,
        forall|i: int| 0 <= i < r@.len() ==> #[trigger] r@[i] == range[0] + i * step,
{
    let mut out: Vec<Time> = Vec::new();
    let mut t: i128 = range[0] as i128;
    let ghost n = (range[1] - range[0]) / (step as int);
    proof {
        assert(n * step <= range[1] - range[0] < n * step + step) by (nonlinear_arith)
            requires n == (range[1] - range[0]) / (step as int), step >= 1, range[1] - range[0] >= 0;
    }
    while t <= range[1] as i128
        invariant
            range[0] <= range[1],
            step >= 1,
            n * step <= range[1] - range[0] < n * step + step,
            out@.len() <= n + 1,
            t == range[0] + out@.len() * step,
            out@.len() <= n ==> t <= range[1],
            out@.len() == n + 1 ==> t > range[1],
            forall|i: int| 0 <= i < out@.len() ==> #[trigger] out@[i] == range[0] + i * step,
        decreases range[1] - t + step,
    {
        proof {
            let k = out@.len() as int;
            if k == n + 1 {
                assert(false);
            }
            assert(k * step <= n * step) by (nonlinear_arith)
                requires k <= n, step >= 1;
            assert((k + 1) * step == k * step + step) by (nonlinear_arith);
            if k + 1 <= n {
                assert((k + 1) * step <= n * step) by (nonlinear_arith)
                    requires k + 1 <= n, step >= 1;
            }
        }
        out.push(t as i64);
        t = t + step as i128;
    }
    proof {
        if out@.len() <= n {
            assert(t <= range[1]);
        }
    }
    out
}

} // verus!
