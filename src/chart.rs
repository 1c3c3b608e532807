//! The chart engine: view state, time/pixel mapping and pointer interaction.
use vstd::prelude::*;
use crate::arith::{ceil_div, clamp, floor_div};
use crate::times::{Time, TimeScale, TimeUnit};

verus! {

/// Height of each ruler row, in pixels.
pub const RULE_HEIGHT: i64 = 16;

/// Width of the vertical scrollbar gutter, in pixels.
pub const SCROLL_WIDTH: i64 = 16;

/// How close (in pixels) the pointer must be to grab a column divider.
pub const COLHDR_REACH: i64 = 10;

/// Smallest width of the name and the value column, in pixels.
pub const COLWIDTH_MIN: i64 = 16;

/// Smallest width left for drawing signals, in pixels.
pub const SIGWIDTH_MIN: i64 = 32;

/// Column fractions are counted in millionths of the viewport width.
pub const FRAC_ONE: i64 = 1_000_000;

/// A pointer position in viewport pixels.
#[derive(Debug, Clone, Copy, PartialEq, Eq, Structural)]
pub struct Pos {
    pub x: i32,
    pub y: i32,
}

/// The part of the chart the pointer interacts with.
#[derive(Debug, Clone, Copy, PartialEq, Eq, Structural)]
pub enum MouseRegion {
    Outside,
    Waveform,
    YScrollBar,
    XScrollRuler,
    ColSignameHdr,
    ColValueHdr,
}

/// Pointer icon hint.
#[derive(Debug, Clone, Copy, PartialEq, Eq, Structural)]
pub enum MouseCursor {
    Normal,
    Column,
}

/// One stroke of a digital waveform, in viewport pixels.
#[derive(Debug, Clone, Copy, PartialEq, Eq, Structural)]
pub enum WaveSeg {
    /// A level run from `x0` to `x1`, high or low.
    Level { x0: i64, x1: i64, high: bool },
    /// A low run from `x0` to `x1`, then a rising edge at `x1`.
    Rise { x0: i64, x1: i64 },
    /// A high run from `x0` to `x1`, then a falling edge at `x1`.
    Fall { x0: i64, x1: i64 },
}

/// View state of the waveform chart.
#[derive(Debug, Clone, Copy)]
pub struct Chart {
    pub time_range: [Time; 2],
    pub time_scale: TimeScale,
    pub max_range: [Time; 2],
    /// Width of the signal-name column, in millionths of the viewport.
    pub col_signame: i64,
    /// Width of the value column, in millionths of the viewport.
    pub col_value: i64,
    pub cursor: Option<Time>,
    pub mregion: MouseRegion,
}

/// Pixel position of time `t` on a strip of `w` pixels starting at `xoffs`
/// that shows `[a, b]`.
pub open spec fn time_x(t: int, a: int, b: int, xoffs: int, w: int) -> int {
    xoffs + (w * (t - a)) / (b - a)
}

/// Time under pixel `x` on a strip of `w` pixels starting at `xoffs` that
/// shows `[a, b]`, clamped to `[a, b]`.
pub open spec fn x_time(x: int, a: int, b: int, xoffs: int, w: int) -> int {
    if w <= 0 {
        a
    } else {
        clamp(a + ((x - xoffs) * (b - a)) / w, a, b)
    }
}

/// Exact position of time `t` on the strip, scaled by the range width
/// `b - a`: the pixel position is this over `b - a`.
pub open spec fn time_xnum(t: int, a: int, b: int, xoffs: int, w: int) -> int {
    xoffs * (b - a) + w * (t - a)
}

/// Time at the exact position `n / (b - a)` on the strip, rounded down and
/// clamped to `[a, b]`.
pub open spec fn xnum_time(n: int, a: int, b: int, xoffs: int, w: int) -> int {
    if w <= 0 {
        a
    } else {
        clamp(a + (n - xoffs * (b - a)) / w, a, b)
    }
}

/// Bound on pixel quantities for exact positions.
pub const PX_LIMIT: i64 = 0x2000_0000_0000_0000;

/// Width available to the columns and signals (the viewport minus the scrollbar).
pub open spec fn content_width(w: int) -> int {
    w - SCROLL_WIDTH
}

/// Pixel position of a divider that sits at fraction `f` of the content width.
pub open spec fn divider_x(w: int, f: int) -> int {
    (content_width(w) * f) / (FRAC_ONE as int)
}

/// Whether `v` lies within `COLHDR_REACH` of `x`.
pub open spec fn near(v: int, x: int) -> bool {
    -COLHDR_REACH < v - x < COLHDR_REACH
}

/// Fraction of the viewport width at pixel `x`, in millionths; zero left of the viewport.
pub open spec fn pointer_frac(x: int, w: int) -> int {
    if x > 0 {
        (x * FRAC_ONE) / w
    } else {
        0
    }
}

/// Smallest fraction, in millionths, whose share of `w` pixels is at least `px` pixels.
pub open spec fn min_frac(px: int, w: int) -> int {
    (px * FRAC_ONE + w - 1) / w
}

/// `v`, or zero when `v` is negative.
pub open spec fn nonneg(v: int) -> int {
    if v < 0 {
        0
    } else {
        v
    }
}

/// New name-column fraction when its divider is dragged to pixel `x`: the
/// pointer's fraction, unless that leaves the name column or the signal area
/// under its minimum, in which case the fraction at that boundary.
pub open spec fn resized_signame(cs: int, cv: int, x: int, w: int) -> int {
    let f = pointer_frac(x, w);
    if f * w > COLWIDTH_MIN * FRAC_ONE {
        if (FRAC_ONE - f - cv) * w > SIGWIDTH_MIN * FRAC_ONE {
            f
        } else {
            nonneg(FRAC_ONE - cv - min_frac(SIGWIDTH_MIN as int, w))
        }
    } else {
        min_frac(COLWIDTH_MIN as int, w)
    }
}

/// New value-column fraction when its divider is dragged to pixel `x`, with
/// the name column held fixed; bounded as for `resized_signame`.
pub open spec fn resized_value(cs: int, cv: int, x: int, w: int) -> int {
    let f = pointer_frac(x, w);
    if (f - cs) * w > COLWIDTH_MIN * FRAC_ONE {
        if (FRAC_ONE - f) * w > SIGWIDTH_MIN * FRAC_ONE {
            f - cs
        } else {
            nonneg(FRAC_ONE - cs - min_frac(SIGWIDTH_MIN as int, w))
        }
    } else {
        min_frac(COLWIDTH_MIN as int, w)
    }
}

/// Start of a window of width `zr` centred on `t`, pushed back inside `[m0, m1]`.
pub open spec fn pan_start(t: int, zr: int, m0: int, m1: int) -> int {
    let s0 = t - zr / 2;
    let s1 = if s0 < m0 {
        m0
    } else {
        s0
    };
    if s1 + zr > m1 {
        m1 - zr
    } else {
        s1
    }
}

impl Chart {
    /// Ranges ordered and column fractions within the viewport.
    pub open spec fn wf(&self) -> bool {
        &&& self.time_range[0] <= self.time_range[1]
        &&& self.max_range[0] <= self.max_range[1]
        &&& 0 <= self.col_signame <= 16 * FRAC_ONE
        &&& 0 <= self.col_value <= 16 * FRAC_ONE
    }

    /// The visible range lies within the maximum range.
    pub open spec fn visible_within_max(&self) -> bool {
        self.max_range[0] <= self.time_range[0] && self.time_range[1] <= self.max_range[1]
    }

    /// Left edge of the signal-drawing area.
    pub open spec fn spec_sig_xoffs(&self, w: int) -> int {
        divider_x(w, self.col_signame + self.col_value)
    }

    /// Width of the signal-drawing area.
    pub open spec fn spec_sig_width(&self, w: int) -> int {
        content_width(w) - self.spec_sig_xoffs(w)
    }

    /// The pointer is in the top ruler, near the name-column divider.
    pub open spec fn spec_in_signame_zone(&self, x: int, y: int, w: int) -> bool {
        y <= RULE_HEIGHT && near(x, divider_x(w, self.col_signame as int))
    }

    /// The pointer is in the top ruler, near the value-column divider.
    pub open spec fn spec_in_value_zone(&self, x: int, y: int, w: int) -> bool {
        y <= RULE_HEIGHT && near(x, self.spec_sig_xoffs(w))
    }

    /// The region under the pointer; the first test that matches wins.
    pub open spec fn region_at(&self, x: int, y: int, w: int, h: int) -> MouseRegion {
        if x >= content_width(w) {
            MouseRegion::YScrollBar
        } else if self.spec_in_signame_zone(x, y, w) {
            MouseRegion::ColSignameHdr
        } else if self.spec_in_value_zone(x, y, w) {
            MouseRegion::ColValueHdr
        } else if y >= h - RULE_HEIGHT {
            MouseRegion::XScrollRuler
        } else if RULE_HEIGHT < y < h - RULE_HEIGHT && self.spec_sig_xoffs(w) <= x
            < self.spec_sig_xoffs(w) + self.spec_sig_width(w) {
            MouseRegion::Waveform
        } else {
            MouseRegion::Outside
        }
    }

    /// Column widths respect their minimums on a viewport `w` pixels wide.
    pub open spec fn columns_fit(&self, w: int) -> bool {
        &&& self.col_signame * w >= COLWIDTH_MIN * FRAC_ONE
        &&& self.col_value * w >= COLWIDTH_MIN * FRAC_ONE
        &&& (FRAC_ONE - self.col_signame - self.col_value) * w >= SIGWIDTH_MIN * FRAC_ONE
    }

    /// A click on the waveform area puts the cursor at the time under the pointer.
    pub open spec fn after_wave_click(&self, x: int, w: int) -> Chart {
        Chart {
            cursor: Some(
                x_time(
                    x,
                    self.time_range[0] as int,
                    self.time_range[1] as int,
                    self.spec_sig_xoffs(w),
                    self.spec_sig_width(w),
                ) as i64,
            ),
            ..*self
        }
    }

    /// A click on the bottom ruler centres a window of the current width on
    /// the time under the pointer, within the maximum range.
    pub open spec fn after_xscroll_click(&self, x: int, w: int) -> Chart {
        let m0 = self.max_range[0] as int;
        let m1 = self.max_range[1] as int;
        let t = x_time(x, m0, m1, self.spec_sig_xoffs(w), self.spec_sig_width(w));
        let zr = self.time_range[1] - self.time_range[0];
        let s = pan_start(t, zr, m0, m1);
        Chart { time_range: [clamp(s, m0, m1) as i64, clamp(s + zr, m0, m1) as i64], ..*self }
    }

    /// A click or drag on a column divider; unhandled only on a viewport
    /// with no width.
    pub open spec fn after_colhdr_click(&self, x: int, w: int) -> (Chart, bool) {
        match self.mregion {
            MouseRegion::ColSignameHdr => if w > 0 {
                (
                    Chart {
                        col_signame: resized_signame(self.col_signame as int, self.col_value as int, x, w) as i64,
                        ..*self
                    },
                    true,
                )
            } else {
                (*self, false)
            },
            MouseRegion::ColValueHdr => if w > 0 {
                (
                    Chart {
                        col_value: resized_value(self.col_signame as int, self.col_value as int, x, w) as i64,
                        ..*self
                    },
                    true,
                )
            } else {
                (*self, false)
            },
            _ => (*self, false),
        }
    }

    /// The state after a click handled in the recorded region, and whether it was handled.
    pub open spec fn after_click(&self, x: int, w: int) -> (Chart, bool) {
        match self.mregion {
            MouseRegion::ColSignameHdr => self.after_colhdr_click(x, w),
            MouseRegion::ColValueHdr => self.after_colhdr_click(x, w),
            MouseRegion::YScrollBar => (*self, false),
            MouseRegion::XScrollRuler => (self.after_xscroll_click(x, w), true),
            MouseRegion::Waveform => (self.after_wave_click(x, w), true),
            MouseRegion::Outside => (*self, false),
        }
    }

    /// The time a zoom centres on: the cursor, else the middle of the window.
    pub open spec fn zoom_center(&self) -> int {
        match self.cursor {
            Some(c) => c as int,
            None => self.time_range[0] + (self.time_range[1] - self.time_range[0]) / 2,
        }
    }

    /// The window scaled by `num / den` around `zoom_center`, shifted back
    /// inside the maximum range, and cut to it only when it is wider.
    pub open spec fn after_zoom(&self, num: int, den: int) -> Chart {
        let m0 = self.max_range[0] as int;
        let m1 = self.max_range[1] as int;
        let zr = self.zoom_width(num, den);
        let s = pan_start(self.zoom_center(), zr, m0, m1);
        Chart { time_range: [clamp(s, m0, m1) as i64, clamp(s + zr, m0, m1) as i64], ..*self }
    }

    /// The requested window width after scaling by `num / den`.
    pub open spec fn zoom_width(&self, num: int, den: int) -> int {
        ((self.time_range[1] - self.time_range[0]) * num) / den
    }

    /// Pixel position of time `t` (clamped to the visible range) in the signal area.
    pub open spec fn wave_x(&self, t: int, w: int) -> int {
        time_x(
            clamp(t, self.time_range[0] as int, self.time_range[1] as int),
            self.time_range[0] as int,
            self.time_range[1] as int,
            self.spec_sig_xoffs(w),
            self.spec_sig_width(w),
        )
    }

    /// The stroke from a level `v0` held since `t0` to the sample `(v1, t1)`.
    pub open spec fn wave_seg(&self, v0: bool, t0: int, v1: bool, t1: int, w: int) -> WaveSeg {
        let x0 = self.wave_x(t0, w) as i64;
        let x1 = self.wave_x(t1, w) as i64;
        if !v0 && v1 {
            WaveSeg::Rise { x0, x1 }
        } else if v0 && !v1 {
            WaveSeg::Fall { x0, x1 }
        } else {
            WaveSeg::Level { x0, x1, high: v1 }
        }
    }

    /// The stroke to each of `samples` from the level before it (`init` at
    /// the start of the visible range for the first).
    pub open spec fn wave_steps(&self, init: bool, samples: Seq<(bool, Time)>, w: int) -> Seq<WaveSeg> {
        Seq::new(
            samples.len(),
            |i: int|
                {
                    let (v0, t0) = if i == 0 {
                        (init, self.time_range[0])
                    } else {
                        samples[i - 1]
                    };
                    self.wave_seg(v0, t0 as int, samples[i].0, samples[i].1 as int, w)
                },
        )
    }

    /// Strokes of a digital waveform that holds `init` at the start of the
    /// visible range and then takes each of `samples` in turn; a final level
    /// run reaches the right edge when the last sample falls short of it.
    pub open spec fn wave_segs(&self, init: bool, samples: Seq<(bool, Time)>, w: int) -> Seq<WaveSeg> {
        let steps = self.wave_steps(init, samples, w);
        let (vl, tl) = if samples.len() == 0 {
            (init, self.time_range[0])
        } else {
            samples.last()
        };
        if tl < self.time_range[1] {
            steps.push(
                WaveSeg::Level { x0: self.wave_x(tl as int, w) as i64, x1: content_width(w) as i64, high: vl },
            )
        } else {
            steps
        }
    }

    /// Left and right edge of the bottom-ruler box that shows where the
    /// visible range lies in the maximum range, widened to two pixels around
    /// its middle when narrower.
    pub open spec fn locator(&self, w: int) -> (int, int) {
        let m0 = self.max_range[0] as int;
        let m1 = self.max_range[1] as int;
        let x0 = time_x(self.time_range[0] as int, m0, m1, self.spec_sig_xoffs(w), self.spec_sig_width(w));
        let x1 = time_x(self.time_range[1] as int, m0, m1, self.spec_sig_xoffs(w), self.spec_sig_width(w));
        if x1 - x0 < 2 {
            ((x0 + x1) / 2 - 1, (x0 + x1) / 2 + 1)
        } else {
            (x0, x1)
        }
    }

    /// Whether ranges are ordered and column fractions within bounds.
    pub fn is_wf(&self) -> (r: bool)
        ensures
            r == self.wf(),
    {
        self.time_range[0] <= self.time_range[1] && self.max_range[0] <= self.max_range[1] && 0
            <= self.col_signame && self.col_signame <= 16 * FRAC_ONE && 0 <= self.col_value
            && self.col_value <= 16 * FRAC_ONE
    }

    /// A chart with empty ranges, a picosecond scale and no cursor.
    pub fn new() -> (r: Self)
        ensures
            r.wf(),
            r.time_range == [0i64, 0i64],
            r.max_range == [0i64, 0i64],
            r.time_scale == (TimeScale { time: 1, unit: TimeUnit::Ps }),
            r.col_signame == 200_000,
            r.col_value == 50_000,
            r.cursor.is_none(),
            r.mregion == MouseRegion::Outside,
    {
        Chart {
            time_range: [0, 0],
            time_scale: TimeScale { time: 1, unit: TimeUnit::Ps },
            max_range: [0, 0],
            col_signame: 200_000,
            col_value: 50_000,
            cursor: None,
            mregion: MouseRegion::Outside,
        }
    }

    /// Set the visible range and the time scale.
    pub fn set_range(&mut self, range: &[Time; 2], scale: &TimeScale)
        requires
            old(self).wf(),
            range[0] <= range[1],
        ensures
            final(self).wf(),
            *final(self) == (Chart { time_range: *range, time_scale: *scale, ..*old(self) }),
    {
        self.time_range = *range;
        self.time_scale = *scale;
    }

    /// Set the maximum range (the extent of the loaded data).
    pub fn set_max_range(&mut self, range: &[Time; 2], _scale: &TimeScale)
        requires
            old(self).wf(),
            range[0] <= range[1],
        ensures
            final(self).wf(),
            *final(self) == (Chart { max_range: *range, ..*old(self) }),
    {
        self.max_range = *range;
    }

    /// Place the cursor at time `t`.
    pub fn set_cursor(&mut self, t: Time)
        ensures
            *final(self) == (Chart { cursor: Some(t), ..*old(self) }),
    {
        self.cursor = Some(t);
    }

    /// Remove the cursor.
    pub fn clear_cursor(&mut self)
        ensures
            *final(self) == (Chart { cursor: None, ..*old(self) }),
    {
        self.cursor = None;
    }

    /// Convert time to screen x position.
    pub fn time_to_xpos(&self, t: Time, range: &[Time; 2], sig_xoffs: i64, sig_width: i64) -> (r: i64)
        requires
            range[0] < range[1],
            i64::MIN <= time_x(t as int, range[0] as int, range[1] as int, sig_xoffs as int, sig_width as int)
                <= i64::MAX,
        ensures
            r == time_x(t as int, range[0] as int, range[1] as int, sig_xoffs as int, sig_width as int),
    {
        let d = range[1] as i128 - range[0] as i128;
        let dt = t as i128 - range[0] as i128;
        proof {
            let (wi, dti) = (sig_width as int, dt as int);
            assert(-0x7fff_ffff_ffff_ffff_ffff_ffff_ffff_ffffi128 <= wi * dti
                <= 0x7fff_ffff_ffff_ffff_ffff_ffff_ffff_ffffi128) by (nonlinear_arith)
                requires
                    -0x8000_0000_0000_0000 <= wi < 0x8000_0000_0000_0000,
                    -0x1_0000_0000_0000_0000 < dti < 0x1_0000_0000_0000_0000;
        }
        let q = floor_div(sig_width as i128 * dt, d);
        (sig_xoffs as i128 + q) as i64
    }

    /// Exact screen position of time `t`, as a numerator over `range[1] - range[0]`.
    pub fn time_to_xnum(&self, t: Time, range: &[Time; 2], sig_xoffs: i64, sig_width: i64) -> (r: i128)
        requires
            range[0] <= range[1],
            -PX_LIMIT <= sig_xoffs <= PX_LIMIT,
            -PX_LIMIT <= sig_width <= PX_LIMIT,
            range[0] <= t <= range[1],
        ensures
            r == time_xnum(t as int, range[0] as int, range[1] as int, sig_xoffs as int, sig_width as int),
    {
        let d = range[1] as i128 - range[0] as i128;
        let dt = t as i128 - range[0] as i128;
        proof {
            let (o, w, di, dti) = (sig_xoffs as int, sig_width as int, d as int, dt as int);
            assert(-0x2000_0000_0000_0000 * 0x1_0000_0000_0000_0000 <= o * di <= 0x2000_0000_0000_0000
                * 0x1_0000_0000_0000_0000) by (nonlinear_arith)
                requires -0x2000_0000_0000_0000 <= o <= 0x2000_0000_0000_0000, 0 <= di <= 0x1_0000_0000_0000_0000;
            assert(-0x2000_0000_0000_0000 * 0x1_0000_0000_0000_0000 <= w * dti <= 0x2000_0000_0000_0000
                * 0x1_0000_0000_0000_0000) by (nonlinear_arith)
                requires -0x2000_0000_0000_0000 <= w <= 0x2000_0000_0000_0000, 0 <= dti <= 0x1_0000_0000_0000_0000;
        }
        sig_xoffs as i128 * d + sig_width as i128 * dt
    }

    /// Time at the exact screen position `n / (range[1] - range[0])`,
    /// clipping to range bounds.
    pub fn xnum_to_time(&self, n: i128, range: &[Time; 2], sig_xoffs: i64, sig_width: i64) -> (r: Time)
        requires
            range[0] <= range[1],
            -PX_LIMIT <= sig_xoffs <= PX_LIMIT,
            -0x4000_0000_0000_0000_0000_0000_0000_0000 <= n <= 0x4000_0000_0000_0000_0000_0000_0000_0000,
        ensures
            r == xnum_time(n as int, range[0] as int, range[1] as int, sig_xoffs as int, sig_width as int),
            range[0] <= r <= range[1],
    {
        if sig_width <= 0 {
            return range[0];
        }
        let d = range[1] as i128 - range[0] as i128;
        proof {
            let (o, di) = (sig_xoffs as int, d as int);
            assert(-0x2000_0000_0000_0000 * 0x1_0000_0000_0000_0000 <= o * di <= 0x2000_0000_0000_0000
                * 0x1_0000_0000_0000_0000) by (nonlinear_arith)
                requires -0x2000_0000_0000_0000 <= o <= 0x2000_0000_0000_0000, 0 <= di <= 0x1_0000_0000_0000_0000;
        }
        let q = floor_div(n - sig_xoffs as i128 * d, sig_width as i128);
        let t = range[0] as i128 + q;
        if t < range[0] as i128 {
            range[0]
        } else if t > range[1] as i128 {
            range[1]
        } else {
            t as i64
        }
    }

    /// Convert screen x position to time, clipping to range bounds.
    pub fn xpos_to_time(&self, x: i64, range: &[Time; 2], sig_xoffs: i64, sig_width: i64) -> (r: Time)
        requires
            range[0] <= range[1],
        ensures
            r == x_time(x as int, range[0] as int, range[1] as int, sig_xoffs as int, sig_width as int),
            range[0] <= r <= range[1],
    {
        let ghost (xi, a, b, o, w) = (x as int, range[0] as int, range[1] as int, sig_xoffs as int, sig_width as int);
        if sig_width <= 0 {
            return range[0];
        }
        let dx = x as i128 - sig_xoffs as i128;
        if dx <= 0 {
            proof {
                assert(((xi - o) * (b - a)) / w <= 0) by (nonlinear_arith)
                    requires xi - o <= 0, b - a >= 0, w > 0;
            }
            range[0]
        } else if dx >= sig_width as i128 {
            proof {
                assert(((xi - o) * (b - a)) / w >= b - a) by (nonlinear_arith)
                    requires xi - o >= w, b - a >= 0, w > 0;
            }
            range[1]
        } else {
            let d = range[1] as i128 - range[0] as i128;
            proof {
                assert(0 <= (dx as int) * (d as int) <= 0x7fff_ffff_ffff_ffff * 0xffff_ffff_ffff_ffff)
                    by (nonlinear_arith)
                    requires 0 < dx <= 0x7fff_ffff_ffff_ffff, 0 <= d <= 0xffff_ffff_ffff_ffff;
                assert(((xi - o) * (b - a)) / w <= b - a) by (nonlinear_arith)
                    requires 0 < xi - o < w, b - a >= 0, w > 0;
                assert(((xi - o) * (b - a)) / w >= 0) by (nonlinear_arith)
                    requires 0 < xi - o < w, b - a >= 0, w > 0;
            }
            let q = (dx * d) / (sig_width as i128);
            (range[0] as i128 + q) as i64
        }
    }
    /// Pixel position of the divider at fraction `f`.
    pub fn divider_pos(width: i32, f: i64) -> (r: i64)
        requires
            0 <= f <= 32 * FRAC_ONE,
        ensures
            r == divider_x(width as int, f as int),
            -0x20_0000_0000 <= r <= 0x20_0000_0000,
    {
        let cw = width as i128 - SCROLL_WIDTH as i128;
        proof {
            let (cwi, fi) = (cw as int, f as int);
            assert(-0x1_0000_0000 * 32_000_000 <= cwi * fi <= 0x1_0000_0000 * 32_000_000) by (nonlinear_arith)
                requires -0x1_0000_0000 <= cwi <= 0x1_0000_0000, 0 <= fi <= 32_000_000;
            assert(-0x1_0000_0000 * 32 <= (cwi * fi) / 1_000_000 <= 0x1_0000_0000 * 32) by (nonlinear_arith)
                requires -0x1_0000_0000 * 32_000_000 <= cwi * fi <= 0x1_0000_0000 * 32_000_000;
        }
        floor_div(cw * f as i128, FRAC_ONE as i128) as i64
    }

    /// Left edge and width of the signal-drawing area on a viewport `width` pixels wide.
    pub fn signal_area(&self, width: i32) -> (r: (i64, i64))
        requires
            self.wf(),
        ensures
            r.0 == self.spec_sig_xoffs(width as int),
            r.1 == self.spec_sig_width(width as int),
            -0x20_0000_0000 <= r.0 <= 0x20_0000_0000,
            -0x40_0000_0000 <= r.1 <= 0x40_0000_0000,
    {
        let xoffs = Self::divider_pos(width, self.col_signame + self.col_value);
        (xoffs, (width as i64 - SCROLL_WIDTH) - xoffs)
    }

    /// Pixel position of time `t`, clamped to the visible range, in the signal area.
    fn wave_xpos(&self, t: Time, sig_xoffs: i64, sig_width: i64, width: i32) -> (r: i64)
        requires
            self.wf(),
            self.time_range[0] < self.time_range[1],
            sig_xoffs == self.spec_sig_xoffs(width as int),
            sig_width == self.spec_sig_width(width as int),
            -0x20_0000_0000 <= sig_xoffs <= 0x20_0000_0000,
            -0x40_0000_0000 <= sig_width <= 0x40_0000_0000,
        ensures
            r == self.wave_x(t as int, width as int),
    {
        let a = self.time_range[0];
        let b = self.time_range[1];
        let tc = if t < a {
            a
        } else if t > b {
            b
        } else {
            t
        };
        proof {
            let (ti, ai, bi, wi) = (tc as int, a as int, b as int, sig_width as int);
            assert(0 <= wi * (ti - ai) <= wi * (bi - ai) || wi * (bi - ai) <= wi * (ti - ai) <= 0)
                by (nonlinear_arith)
                requires ai <= ti <= bi;
            assert(-0x40_0000_0000 <= (wi * (ti - ai)) / (bi - ai) <= 0x40_0000_0000) by (nonlinear_arith)
                requires
                    ai <= ti <= bi,
                    ai < bi,
                    -0x40_0000_0000 <= wi <= 0x40_0000_0000,
                    0 <= wi * (ti - ai) <= wi * (bi - ai) || wi * (bi - ai) <= wi * (ti - ai) <= 0;
        }
        self.time_to_xpos(tc, &self.time_range, sig_xoffs, sig_width)
    }

    /// Strokes of a digital waveform over the visible range: `init` is the
    /// value at the start of the range and `samples` the samples after it,
    /// in time order.
    pub fn digital_path(&self, init: bool, samples: &Vec<(bool, Time)>, width: i32) -> (r: Vec<WaveSeg>)
        requires
            self.wf(),
            self.time_range[0] < self.time_range[1],
        ensures
            r@ == self.wave_segs(init, samples@, width as int),
    {
        let (sig_xoffs, sig_width) = self.signal_area(width);
        let mut segs: Vec<WaveSeg> = Vec::new();
        let mut curval = init;
        let mut curtime = self.time_range[0];
        let ghost steps = self.wave_steps(init, samples@, width as int);
        let mut i: usize = 0;
        while i < samples.len()
            invariant
                self.wf(),
                self.time_range[0] < self.time_range[1],
                sig_xoffs == self.spec_sig_xoffs(width as int),
                sig_width == self.spec_sig_width(width as int),
                -0x20_0000_0000 <= sig_xoffs <= 0x20_0000_0000,
                -0x40_0000_0000 <= sig_width <= 0x40_0000_0000,
                0 <= i <= samples@.len(),
                steps == self.wave_steps(init, samples@, width as int),
                segs@ == steps.take(i as int),
                (curval, curtime) == if i == 0 {
                    (init, self.time_range[0])
                } else {
                    samples@[i - 1]
                },
            decreases samples@.len() - i,
        {
            let (nxval, nxtime) = samples[i];
            let x_cur = self.wave_xpos(curtime, sig_xoffs, sig_width, width);
            let x_nxt = self.wave_xpos(nxtime, sig_xoffs, sig_width, width);
            let seg = if !curval && nxval {
                WaveSeg::Rise { x0: x_cur, x1: x_nxt }
            } else if curval && !nxval {
                WaveSeg::Fall { x0: x_cur, x1: x_nxt }
            } else {
                WaveSeg::Level { x0: x_cur, x1: x_nxt, high: nxval }
            };
            segs.push(seg);
            proof {
                assert(seg == steps[i as int]);
                assert(steps.take(i + 1) =~= steps.take(i as int).push(seg));
            }
            curval = nxval;
            curtime = nxtime;
            i = i + 1;
        }
        proof {
            assert(steps.take(samples@.len() as int) =~= steps);
        }
        if curtime < self.time_range[1] {
            let x_cur = self.wave_xpos(curtime, sig_xoffs, sig_width, width);
            segs.push(WaveSeg::Level { x0: x_cur, x1: width as i64 - SCROLL_WIDTH, high: curval });
        }
        segs
    }

    /// Edges of the bottom-ruler locator box on a viewport `width` pixels wide.
    pub fn locator_span(&self, width: i32) -> (r: (i64, i64))
        requires
            self.wf(),
            self.visible_within_max(),
            self.max_range[0] < self.max_range[1],
        ensures
            r == ((self.locator(width as int).0) as i64, (self.locator(width as int).1) as i64),
    {
        let (sig_xoffs, sig_width) = self.signal_area(width);
        let ghost (a, b, t0, t1, wi) = (
            self.max_range[0] as int,
            self.max_range[1] as int,
            self.time_range[0] as int,
            self.time_range[1] as int,
            sig_width as int,
        );
        proof {
            assert(-0x40_0000_0000 <= (wi * (t0 - a)) / (b - a) <= 0x40_0000_0000) by (nonlinear_arith)
                requires a <= t0 <= b, a < b, -0x40_0000_0000 <= wi <= 0x40_0000_0000;
            assert(-0x40_0000_0000 <= (wi * (t1 - a)) / (b - a) <= 0x40_0000_0000) by (nonlinear_arith)
                requires a <= t1 <= b, a < b, -0x40_0000_0000 <= wi <= 0x40_0000_0000;
        }
        let x0 = self.time_to_xpos(self.time_range[0], &self.max_range, sig_xoffs, sig_width);
        let x1 = self.time_to_xpos(self.time_range[1], &self.max_range, sig_xoffs, sig_width);
        if x1 - x0 < 2 {
            let avg = floor_div(x0 as i128 + x1 as i128, 2) as i64;
            (avg - 1, avg + 1)
        } else {
            (x0, x1)
        }
    }

    fn is_signame_region(&self, pos: &Pos, width: i32, _height: i32) -> (r: bool)
        requires
            self.wf(),
        ensures
            r == self.spec_in_signame_zone(pos.x as int, pos.y as int, width as int),
    {
        if pos.y as i64 <= RULE_HEIGHT {
            let col_signame_x = Self::divider_pos(width, self.col_signame);
            let dist = pos.x as i64 - col_signame_x;
            -COLHDR_REACH < dist && dist < COLHDR_REACH
        } else {
            false
        }
    }

    fn is_value_region(&self, pos: &Pos, width: i32, _height: i32) -> (r: bool)
        requires
            self.wf(),
        ensures
            r == self.spec_in_value_zone(pos.x as int, pos.y as int, width as int),
    {
        if pos.y as i64 <= RULE_HEIGHT {
            let col_value_x = Self::divider_pos(width, self.col_signame + self.col_value);
            let dist = pos.x as i64 - col_value_x;
            -COLHDR_REACH < dist && dist < COLHDR_REACH
        } else {
            false
        }
    }

    /// Calculate mouse region from current position.
    pub fn get_mouse_region(&self, pos: &Pos, width: i32, height: i32) -> (r: MouseRegion)
        requires
            self.wf(),
        ensures
            r == self.region_at(pos.x as int, pos.y as int, width as int, height as int),
    {
        let (sig_xoffs, sig_width) = self.signal_area(width);
        let x = pos.x as i64;
        let y = pos.y as i64;
        if x >= width as i64 - SCROLL_WIDTH {
            MouseRegion::YScrollBar
        } else if self.is_signame_region(pos, width, height) {
            MouseRegion::ColSignameHdr
        } else if self.is_value_region(pos, width, height) {
            MouseRegion::ColValueHdr
        } else if y >= height as i64 - RULE_HEIGHT {
            MouseRegion::XScrollRuler
        } else if y > RULE_HEIGHT && y < height as i64 - RULE_HEIGHT && x >= sig_xoffs && x < sig_xoffs
            + sig_width {
            MouseRegion::Waveform
        } else {
            MouseRegion::Outside
        }
    }

    fn handle_wave_click(&mut self, pos: &Pos, width: i32, _height: i32) -> (r: bool)
        requires
            old(self).wf(),
        ensures
            r,
            *final(self) == old(self).after_wave_click(pos.x as int, width as int),
    {
        let (sig_xoffs, sig_width) = self.signal_area(width);
        let t = self.xpos_to_time(pos.x as i64, &self.time_range, sig_xoffs, sig_width);
        self.set_cursor(t);
        true
    }

    fn handle_xscroll_click(&mut self, pos: &Pos, width: i32, _height: i32) -> (r: bool)
        requires
            old(self).wf(),
        ensures
            r,
            *final(self) == old(self).after_xscroll_click(pos.x as int, width as int),
    {
        let (sig_xoffs, sig_width) = self.signal_area(width);
        let m0 = self.max_range[0] as i128;
        let m1 = self.max_range[1] as i128;
        let zoom_range = self.time_range[1] as i128 - self.time_range[0] as i128;
        let t = self.xpos_to_time(pos.x as i64, &self.max_range, sig_xoffs, sig_width) as i128;
        let mut s = t - zoom_range / 2;
        if s < m0 {
            s = m0;
        }
        if s + zoom_range > m1 {
            s = m1 - zoom_range;
        }
        let mut start = s;
        let mut end = s + zoom_range;
        if start < m0 {
            start = m0;
        }
        if start > m1 {
            start = m1;
        }
        if end < m0 {
            end = m0;
        }
        if end > m1 {
            end = m1;
        }
        self.time_range = [start as i64, end as i64];
        true
    }

    fn handle_colhdr_click(&mut self, pos: &Pos, width: i32, _height: i32) -> (r: bool)
        requires
            old(self).wf(),
        ensures
            (*final(self), r) == old(self).after_colhdr_click(pos.x as int, width as int),
            final(self).wf(),
    {
        let w = width as i128;
        if w <= 0 {
            return false;
        }
        let one = FRAC_ONE as i128;
        let frac: i128 = if pos.x > 0 {
            (pos.x as i128 * one) / w
        } else {
            0
        };
        proof {
            let (fi, xi, wi) = (frac as int, pos.x as int, w as int);
            if xi > 0 {
                assert(0 <= fi <= xi * 1_000_000) by (nonlinear_arith)
                    requires fi == (xi * 1_000_000) / wi, wi > 0, xi > 0;
            }
            let (csi, cvi) = (self.col_signame as int, self.col_value as int);
            assert(-0x1_0000_0000_0000_0000_0000_0000 <= fi * wi <= 0x1_0000_0000_0000_0000_0000_0000)
                by (nonlinear_arith)
                requires 0 <= fi <= 0x8000_0000 * 1_000_000, 0 < wi <= 0x8000_0000;
            assert(-0x1_0000_0000_0000_0000_0000_0000 <= (fi - csi) * wi <= 0x1_0000_0000_0000_0000_0000_0000)
                by (nonlinear_arith)
                requires 0 <= fi <= 0x8000_0000 * 1_000_000, 0 <= csi <= 16_000_000, 0 < wi <= 0x8000_0000;
            assert(-0x1_0000_0000_0000_0000_0000_0000 <= (1_000_000 - (fi + cvi)) * wi
                <= 0x1_0000_0000_0000_0000_0000_0000) by (nonlinear_arith)
                requires 0 <= fi <= 0x8000_0000 * 1_000_000, 0 <= cvi <= 16_000_000, 0 < wi <= 0x8000_0000;
            assert(-0x1_0000_0000_0000_0000_0000_0000 <= (1_000_000 - fi) * wi
                <= 0x1_0000_0000_0000_0000_0000_0000) by (nonlinear_arith)
                requires 0 <= fi <= 0x8000_0000 * 1_000_000, 0 < wi <= 0x8000_0000;
        }
        let col_min = ceil_div(COLWIDTH_MIN as i128 * one, w);
        let sig_min = ceil_div(SIGWIDTH_MIN as i128 * one, w);
        proof {
            let wi = w as int;
            assert((16 * 1_000_000 + wi - 1) / wi <= 16_000_000) by (nonlinear_arith)
                requires wi >= 1;
            assert((32 * 1_000_000 + wi - 1) / wi <= 32_000_000) by (nonlinear_arith)
                requires wi >= 1;
        }
        let cs = self.col_signame as i128;
        let cv = self.col_value as i128;
        match self.mregion {
            MouseRegion::ColSignameHdr => {
                let new_colsigname = if frac * w > COLWIDTH_MIN as i128 * one {
                    if (one - (frac + cv)) * w > SIGWIDTH_MIN as i128 * one {
                        frac
                    } else {
                        let v = one - (cv + sig_min);
                        if v < 0 {
                            0
                        } else {
                            v
                        }
                    }
                } else {
                    col_min
                };
                proof {
                    let (fi, wi) = (frac as int, w as int);
                    if fi * wi > 16 * 1_000_000 && (1_000_000 - (fi + cv)) * wi > 32 * 1_000_000 {
                        assert(0 < fi < 1_000_000) by (nonlinear_arith)
                            requires fi * wi > 16 * 1_000_000, (1_000_000 - (fi + cv)) * wi > 32
                                * 1_000_000, wi > 0, cv >= 0;
                    }
                }
                self.col_signame = new_colsigname as i64;
                true
            },
            MouseRegion::ColValueHdr => {
                let new_colvalue = if (frac - cs) * w > COLWIDTH_MIN as i128 * one {
                    if (one - frac) * w > SIGWIDTH_MIN as i128 * one {
                        frac - cs
                    } else {
                        let v = one - (cs + sig_min);
                        if v < 0 {
                            0
                        } else {
                            v
                        }
                    }
                } else {
                    col_min
                };
                proof {
                    let (fi, wi) = (frac as int, w as int);
                    if (fi - cs) * wi > 16 * 1_000_000 && (1_000_000 - fi) * wi > 32 * 1_000_000 {
                        assert(0 < fi - cs < 1_000_000) by (nonlinear_arith)
                            requires (fi - cs) * wi > 16 * 1_000_000, (1_000_000 - fi) * wi > 32
                                * 1_000_000, wi > 0, cs >= 0;
                    }
                }
                self.col_value = new_colvalue as i64;
                true
            },
            _ => false,
        }
    }

    fn handle_click(&mut self, pos: &Pos, width: i32, height: i32) -> (r: bool)
        requires
            old(self).wf(),
        ensures
            (*final(self), r) == old(self).after_click(pos.x as int, width as int),
            final(self).wf(),
    {
        match self.mregion {
            MouseRegion::ColSignameHdr => self.handle_colhdr_click(pos, width, height),
            MouseRegion::ColValueHdr => self.handle_colhdr_click(pos, width, height),
            MouseRegion::YScrollBar => false,
            MouseRegion::XScrollRuler => self.handle_xscroll_click(pos, width, height),
            MouseRegion::Waveform => self.handle_wave_click(pos, width, height),
            MouseRegion::Outside => false,
        }
    }
    /// Handle mouse down event: record the region under the pointer, then
    /// act on it. Returns whether the event was handled.
    pub fn handle_mousedown(&mut self, prior: &Option<Pos>, width: i32, height: i32) -> (r: bool)
        requires
            old(self).wf(),
        ensures
            final(self).wf(),
            match *prior {
                None => *final(self) == *old(self) && !r,
                Some(pos) => {
                    let grabbed = Chart {
                        mregion: old(self).region_at(pos.x as int, pos.y as int, width as int, height as int),
                        ..*old(self)
                    };
                    (*final(self), r) == grabbed.after_click(pos.x as int, width as int)
                },
            },
            old(self).visible_within_max() ==> final(self).visible_within_max(),
            old(self).columns_fit(width as int) ==> final(self).columns_fit(width as int),
    {
        match prior {
            Some(pos) => {
                self.mregion = self.get_mouse_region(pos, width, height);
                proof {
                    lemma_click_keeps_layout(*self, pos.x as int, width as int);
                }
                self.handle_click(pos, width, height)
            },
            None => false,
        }
    }

    /// Handle mouse up event.
    pub fn handle_mouseup(&self, _prior: &Option<Pos>, _width: i32, _height: i32) -> (r: bool)
        ensures
            r,
    {
        true
    }

    /// Handle mouse move event. While the button is held the drag continues
    /// the operation of the region recorded at mouse down; the pointer icon
    /// shows whether a column divider is within reach.
    pub fn handle_mousemove(
        &mut self,
        pos: &Pos,
        _prior: &Option<Pos>,
        width: i32,
        height: i32,
        mouse_down: bool,
    ) -> (r: (bool, MouseCursor))
        requires
            old(self).wf(),
        ensures
            final(self).wf(),
            final(self).mregion == old(self).mregion,
            mouse_down ==> (*final(self), r.0) == old(self).after_click(pos.x as int, width as int),
            !mouse_down ==> *final(self) == *old(self) && !r.0,
            r.1 == (if old(self).spec_in_signame_zone(pos.x as int, pos.y as int, width as int)
                || old(self).spec_in_value_zone(pos.x as int, pos.y as int, width as int) {
                MouseCursor::Column
            } else {
                MouseCursor::Normal
            }),
            old(self).visible_within_max() ==> final(self).visible_within_max(),
            old(self).columns_fit(width as int) ==> final(self).columns_fit(width as int),
    {
        let mcurs = if pos.y as i64 <= RULE_HEIGHT && (self.is_signame_region(pos, width, height)
            || self.is_value_region(pos, width, height)) {
            MouseCursor::Column
        } else {
            MouseCursor::Normal
        };
        proof {
            lemma_click_keeps_layout(*self, pos.x as int, width as int);
        }
        let handled = if mouse_down {
            self.handle_click(pos, width, height)
        } else {
            false
        };
        (handled, mcurs)
    }

    /// Change zoom (time window size) by the ratio `num / den`.
    pub fn do_zoom(&mut self, num: u32, den: u32)
        requires
            old(self).wf(),
            den > 0,
        ensures
            *final(self) == old(self).after_zoom(num as int, den as int),
            final(self).wf(),
            final(self).visible_within_max(),
            final(self).time_range[1] - final(self).time_range[0] == if old(self).zoom_width(
                num as int,
                den as int,
            ) < old(self).max_range[1] - old(self).max_range[0] {
                old(self).zoom_width(num as int, den as int)
            } else {
                old(self).max_range[1] - old(self).max_range[0]
            },
    {
        let m0 = self.max_range[0] as i128;
        let m1 = self.max_range[1] as i128;
        let width = self.time_range[1] as i128 - self.time_range[0] as i128;
        proof {
            assert(0 <= (width as int) * (num as int) <= 0x1_0000_0000_0000_0000 * 0x1_0000_0000)
                by (nonlinear_arith)
                requires 0 <= width <= 0x1_0000_0000_0000_0000, 0 <= num <= 0x1_0000_0000;
            assert(0 <= ((width as int) * (num as int)) / (den as int) <= (width as int) * (num as int))
                by (nonlinear_arith)
                requires 0 <= (width as int) * (num as int), den >= 1;
        }
        let zoom_range = (width * num as i128) / den as i128;
        let center = match self.cursor {
            Some(curs) => curs as i128,
            None => self.time_range[0] as i128 + width / 2,
        };
        let mut s = center - zoom_range / 2;
        if s < m0 {
            s = m0;
        }
        if s + zoom_range > m1 {
            s = m1 - zoom_range;
        }
        let e = s + zoom_range;
        let start = if s < m0 {
            m0
        } else if s > m1 {
            m1
        } else {
            s
        };
        let end = if e < m0 {
            m0
        } else if e > m1 {
            m1
        } else {
            e
        };
        self.time_range = [start as i64, end as i64];
    }

    /// Handle mouse wheel event: zoom in by half for a positive step, else
    /// zoom out by two.
    pub fn handle_mousewheel(&mut self, exponent: i32, _prior: &Pos, _width: i32, _height: i32) -> (r: bool)
        requires
            old(self).wf(),
        ensures
            r,
            *final(self) == if exponent > 0 {
                old(self).after_zoom(1, 2)
            } else {
                old(self).after_zoom(2, 1)
            },
            final(self).wf(),
            final(self).visible_within_max(),
    {
        if exponent > 0 {
            self.do_zoom(1, 2);
        } else {
            self.do_zoom(2, 1);
        }
        true
    }
}

/// A click or drag keeps the chart's ranges ordered and inside the maximum
/// range when they were, and keeps every column at or above its minimum
/// width when it was.
pub proof fn lemma_click_keeps_layout(c: Chart, x: int, w: int)
    requires
        c.wf(),
    ensures
        c.visible_within_max() ==> c.after_click(x, w).0.visible_within_max(),
        c.columns_fit(w) ==> c.after_click(x, w).0.columns_fit(w),
{
    let n = c.after_click(x, w).0;
    if c.columns_fit(w) {
        let (cs, cv) = (c.col_signame as int, c.col_value as int);
        assert(cs + cv < 1_000_000) by (nonlinear_arith)
            requires (1_000_000 - cs - cv) * w >= 32 * 1_000_000, w * 0 == 0, cs * w >= 16 * 1_000_000, cs >= 0;
        assert(w >= 64) by (nonlinear_arith)
            requires
                cs * w >= 16 * 1_000_000,
                cv * w >= 16 * 1_000_000,
                (1_000_000 - cs - cv) * w >= 32 * 1_000_000;
        let f = pointer_frac(x, w);
        let col_min = min_frac(16, w);
        let sig_min = min_frac(32, w);
        assert(col_min * w >= 16 * 1_000_000 && col_min <= cs && col_min <= cv) by (nonlinear_arith)
            requires
                col_min == (16 * 1_000_000 + w - 1) / w,
                w > 0,
                cs * w >= 16 * 1_000_000,
                cv * w >= 16 * 1_000_000;
        assert(sig_min * w >= 32 * 1_000_000 && sig_min <= 1_000_000 - cs - cv) by (nonlinear_arith)
            requires
                sig_min == (32 * 1_000_000 + w - 1) / w,
                w > 0,
                (1_000_000 - cs - cv) * w >= 32 * 1_000_000;
        match c.mregion {
            MouseRegion::ColSignameHdr => {
                let ns = resized_signame(cs, cv, x, w);
                if f * w > 16 * 1_000_000 && (1_000_000 - f - cv) * w > 32 * 1_000_000 {
                    assert(0 < f < 1_000_000) by (nonlinear_arith)
                        requires
                            f * w > 16 * 1_000_000,
                            (1_000_000 - f - cv) * w > 32 * 1_000_000,
                            w > 0,
                            cv >= 0;
                }
                assert(0 <= ns <= 1_000_000);
                assert(n.col_signame == ns);
                assert(ns >= cs || ns * w > 16 * 1_000_000 || ns == col_min);
                assert(ns * w >= 16 * 1_000_000) by (nonlinear_arith)
                    requires
                        ns >= cs || ns * w > 16 * 1_000_000 || ns == col_min,
                        cs * w >= 16 * 1_000_000,
                        col_min * w >= 16 * 1_000_000,
                        w > 0;
                assert((1_000_000 - ns - cv) * w >= 32 * 1_000_000) by (nonlinear_arith)
                    requires
                        (1_000_000 - ns - cv) * w > 32 * 1_000_000 || 1_000_000 - ns - cv == sig_min || ns
                            <= cs,
                        sig_min * w >= 32 * 1_000_000,
                        (1_000_000 - cs - cv) * w >= 32 * 1_000_000,
                        w > 0;
            },
            MouseRegion::ColValueHdr => {
                let nv = resized_value(cs, cv, x, w);
                if (f - cs) * w > 16 * 1_000_000 && (1_000_000 - f) * w > 32 * 1_000_000 {
                    assert(0 < f - cs < 1_000_000) by (nonlinear_arith)
                        requires
                            (f - cs) * w > 16 * 1_000_000,
                            (1_000_000 - f) * w > 32 * 1_000_000,
                            w > 0,
                            cs >= 0;
                }
                assert(0 <= nv <= 1_000_000);
                assert(n.col_value == nv);
                assert(nv * w >= 16 * 1_000_000) by (nonlinear_arith)
                    requires
                        nv >= cv || nv * w > 16 * 1_000_000 || nv == col_min,
                        cv * w >= 16 * 1_000_000,
                        col_min * w >= 16 * 1_000_000,
                        w > 0;
                assert((1_000_000 - cs - nv) * w >= 32 * 1_000_000) by (nonlinear_arith)
                    requires
                        (1_000_000 - cs - nv) * w > 32 * 1_000_000 || 1_000_000 - cs - nv == sig_min || nv
                            <= cv,
                        sig_min * w >= 32 * 1_000_000,
                        (1_000_000 - cs - cv) * w >= 32 * 1_000_000,
                        w > 0;
            },
            _ => {},
        }
    }
}

/// Mapping a time inside `[a, b]` to its exact screen position and back
/// gives that time.
pub proof fn lemma_time_x_round_trip(t: int, a: int, b: int, xoffs: int, w: int)
    requires
        a <= t <= b,
        w > 0,
    ensures
        xnum_time(time_xnum(t, a, b, xoffs, w), a, b, xoffs, w) == t,
{
    let n = time_xnum(t, a, b, xoffs, w);
    assert(n - xoffs * (b - a) == w * (t - a));
    assert((w * (t - a)) / w == t - a) by (nonlinear_arith)
        requires w > 0;
}

/// Zooming out by two and then in by two restores the visible range when
/// the maximum range does not cut the wider window and the zoom centres on
/// the middle of the window.
pub proof fn lemma_zoom_out_in_restores(c: Chart)
    requires
        c.wf(),
        c.cursor.is_none() || c.cursor == Some(
            (c.time_range[0] + (c.time_range[1] - c.time_range[0]) / 2) as i64,
        ),
        c.max_range[0] <= c.time_range[0] + (c.time_range[1] - c.time_range[0]) / 2 - (c.time_range[1]
            - c.time_range[0]),
        c.time_range[0] + (c.time_range[1] - c.time_range[0]) / 2 + (c.time_range[1] - c.time_range[0])
            <= c.max_range[1],
    ensures
        c.after_zoom(2, 1).after_zoom(1, 2).time_range == c.time_range,
{
    let w = c.time_range[1] - c.time_range[0];
    let c2 = c.after_zoom(2, 1);
    assert((w * 2) / 1 == 2 * w);
    assert(c2.time_range[1] - c2.time_range[0] == 2 * w);
    assert(((2 * w) * 1) / 2 == w);
    assert(c.after_zoom(2, 1).after_zoom(1, 2).time_range =~= c.time_range);
}

/// A press in the top ruler within reach of a column divider grabs that
/// divider, and dragging afterwards keeps the grabbed region whatever the
/// pointer does.
pub proof fn lemma_divider_grab_sticks(c: Chart, x: int, y: int, w: int, h: int, drag_x: int)
    requires
        c.wf(),
        x < content_width(w),
        c.spec_in_signame_zone(x, y, w) || c.spec_in_value_zone(x, y, w),
    ensures
        ({
            let grabbed = Chart { mregion: c.region_at(x, y, w, h), ..c };
            &&& c.spec_in_signame_zone(x, y, w) ==> grabbed.mregion == MouseRegion::ColSignameHdr
            &&& !c.spec_in_signame_zone(x, y, w) ==> grabbed.mregion == MouseRegion::ColValueHdr
            &&& grabbed.after_click(x, w).0.mregion == grabbed.mregion
            &&& grabbed.after_click(x, w).0.after_click(drag_x, w).0.mregion == grabbed.mregion
        }),
{
}

} // verus!
