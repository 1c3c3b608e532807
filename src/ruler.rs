//! Tick placement for the horizontal time rulers.
use vstd::prelude::*;
use crate::arith::floor_div;
use crate::times::{Time, TimeScale};

verus! {

/// Smallest spacing between two ticks, in pixels.
pub const MIN_TICK_PX: i64 = 4;

/// Room taken by one tick label, in pixels.
pub const LABEL_WIDTH_PX: i64 = 64;

/// How prominent a tick is.
#[derive(Debug, Clone, Copy, PartialEq, Eq, Structural)]
pub enum TickKind {
    /// The quantized time crossed a multiple of ten steps.
    Major,
    /// The quantized time crossed a multiple of five steps.
    Medium,
    Minor,
}

/// One ruler tick.
#[derive(Debug, Clone, Copy, PartialEq, Eq, Structural)]
pub struct Tick {
    /// Pixel column, counted from the ruler's left edge.
    pub xpos: i64,
    pub kind: TickKind,
    /// Whether a time label is drawn next to the tick.
    pub labelled: bool,
    /// The tick's time, rounded down to the tick step.
    pub value: i128,
}

/// Ten to the power `k`.
pub open spec fn pow10(k: nat) -> int
    decreases k,
{
    if k == 0 {
        1
    } else {
        10 * pow10((k - 1) as nat)
    }
}

/// `p` is the smallest power of ten whose steps are at least `MIN_TICK_PX`
/// pixels apart when `span` time units cover `w` pixels.
pub open spec fn is_tick_step(p: int, span: int, w: int) -> bool {
    exists|k: nat|
        p == #[trigger] pow10(k) && p * w >= MIN_TICK_PX * span && (k == 0 || pow10((k - 1) as nat) * w
            < MIN_TICK_PX * span)
}

/// Time at pixel column `x` (column -1 is the one before the ruler).
pub open spec fn column_time(start: int, span: int, w: int, x: int) -> int {
    start + (x * span) / w
}

/// Time at column `x` quantized down to steps of `p`.
pub open spec fn column_step(p: int, start: int, span: int, w: int, x: int) -> int {
    column_time(start, span, w, x) / p
}

/// Whether the quantized time moves on between column `x - 1` and column `x`
/// when counted in units of `m` steps.
pub open spec fn crosses(p: int, start: int, span: int, w: int, x: int, m: int) -> bool {
    column_step(p, start, span, w, x) / m != column_step(p, start, span, w, x - 1) / m
}

/// Kind of the tick at column `x`.
pub open spec fn tick_kind(p: int, start: int, span: int, w: int, x: int) -> TickKind {
    if crosses(p, start, span, w, x, 10) {
        TickKind::Major
    } else if crosses(p, start, span, w, x, 5) {
        TickKind::Medium
    } else {
        TickKind::Minor
    }
}

/// Column of the last label drawn left of column `x`, or `-LABEL_WIDTH_PX`.
pub open spec fn last_label(p: int, start: int, span: int, w: int, x: int) -> int
    decreases x,
{
    if x <= 0 {
        -LABEL_WIDTH_PX
    } else {
        let y = x - 1;
        if crosses(p, start, span, w, y, 1) && crosses(p, start, span, w, y, 10) && y - last_label(
            p,
            start,
            span,
            w,
            y,
        ) > LABEL_WIDTH_PX {
            y
        } else {
            last_label(p, start, span, w, y)
        }
    }
}

/// The tick at column `x`, labelled when it is major and more than a label
/// width lies between it and the last label.
pub open spec fn tick_at(p: int, start: int, span: int, w: int, x: int) -> Tick {
    Tick {
        xpos: x as i64,
        kind: tick_kind(p, start, span, w, x),
        labelled: crosses(p, start, span, w, x, 10) && x - last_label(p, start, span, w, x)
            > LABEL_WIDTH_PX,
        value: (column_step(p, start, span, w, x) * p) as i128,
    }
}

/// Ticks of the first `n` columns, left to right: one at each column where
/// the quantized time moves on.
pub open spec fn ruler_ticks_upto(p: int, start: int, span: int, w: int, n: int) -> Seq<Tick>
    decreases n,
{
    if n <= 0 {
        Seq::empty()
    } else {
        let before = ruler_ticks_upto(p, start, span, w, n - 1);
        if crosses(p, start, span, w, n - 1, 1) {
            before.push(tick_at(p, start, span, w, n - 1))
        } else {
            before
        }
    }
}

/// Smallest power of ten that keeps ticks `MIN_TICK_PX` pixels apart.
fn tick_step(span: i128, width: i128) -> (p: i128)
    requires
        0 <= span < 0x1_0000_0000_0000_0000,
        0 < width < 0x1_0000_0000,
    ensures
        is_tick_step(p as int, span as int, width as int),
        1 <= p <= 10 * MIN_TICK_PX * 0x1_0000_0000_0000_0000,
{
    let mut p: i128 = 1;
    let ghost mut k: nat = 0;
    let mut covered = width;
    while covered < MIN_TICK_PX as i128 * span
        invariant
            0 <= span < 0x1_0000_0000_0000_0000,
            0 < width < 0x1_0000_0000,
            1 <= p <= 10 * MIN_TICK_PX * 0x1_0000_0000_0000_0000,
            p == pow10(k),
            k == 0 || pow10((k - 1) as nat) * width < MIN_TICK_PX * span,
            p <= 10 * MIN_TICK_PX * span || p == 1,
            covered == p * width,
        decreases 10 * MIN_TICK_PX * span + 1 - p,
    {
        proof {
            assert(p * width >= p) by (nonlinear_arith)
                requires width >= 1, p >= 1;
            assert(p < MIN_TICK_PX * span);
            assert(p * 10 <= 10 * MIN_TICK_PX * span) by (nonlinear_arith)
                requires p < MIN_TICK_PX * span, MIN_TICK_PX == 4;
        }
        p = p * 10;
        proof {
            k = k + 1;
            assert(0 < (p as int) * (width as int) <= (10 * 4 * 0x1_0000_0000_0000_0000) * 0x1_0000_0000)
                by (nonlinear_arith)
                requires 1 <= p <= 10 * 4 * 0x1_0000_0000_0000_0000, 0 < width < 0x1_0000_0000;
        }
        covered = p * width;
    }
    proof {
        assert(is_tick_step(p as int, span as int, width as int)) by {
            assert(p == pow10(k));
        }
    }
    p
}

/// Ticks for a ruler `width` pixels wide showing `range` at `scale`.
pub fn ruler_ticks(width: i32, range: &[Time; 2], scale: &TimeScale) -> (r: Vec<Tick>)
    requires
        width > 0,
        range[0] <= range[1],
        scale.time > 0,
        i64::MIN <= range[0] * scale.time,
        range[1] * scale.time <= i64::MAX,
    ensures
        exists|p: int|
            #[trigger] is_tick_step(p, (range[1] - range[0]) * scale.time, width as int) && r@
                == ruler_ticks_upto(
                p,
                range[0] * scale.time,
                (range[1] - range[0]) * scale.time,
                width as int,
                width as int,
            ),
{
    let ghost (a, b, st) = (range[0] as int, range[1] as int, scale.time as int);
    proof {
        assert(a * st <= b * st) by (nonlinear_arith)
            requires a <= b, st > 0;
        assert((b - a) * st == b * st - a * st) by (nonlinear_arith);
    }
    let start = range[0] as i128 * scale.time as i128;
    let span = range[1] as i128 * scale.time as i128 - start;
    let w = width as i128;
    let p = tick_step(span, w);
    let ghost (pi, si, spi, wi) = (p as int, start as int, span as int, w as int);
    let mut ticks: Vec<Tick> = Vec::new();
    let mut prev_step = floor_div(start + floor_div(-span, w), p);
    let mut last_str_xpos: i128 = -LABEL_WIDTH_PX as i128;
    let mut xpos: i128 = 0;
    while xpos < w
        invariant
            0 <= xpos <= wi,
            wi == width,
            pi == p,
            si == start,
            spi == span,
            wi == w,
            0 <= span < 0x1_0000_0000_0000_0000,
            i64::MIN <= start <= i64::MAX,
            0 < w < 0x1_0000_0000,
            1 <= p <= 10 * MIN_TICK_PX * 0x1_0000_0000_0000_0000,
            prev_step == column_step(pi, si, spi, wi, xpos - 1),
            -0x1_0000_0000_0000_0000_0000 <= prev_step <= 0x1_0000_0000_0000_0000_0000,
            last_str_xpos == last_label(pi, si, spi, wi, xpos as int),
            -LABEL_WIDTH_PX <= last_str_xpos < xpos || (xpos == 0 && last_str_xpos == -LABEL_WIDTH_PX),
            ticks@ == ruler_ticks_upto(pi, si, spi, wi, xpos as int),
        decreases w - xpos,
    {
        proof {
            let x = xpos as int;
            assert(0 <= x * spi <= 0x1_0000_0000 * 0x1_0000_0000_0000_0000) by (nonlinear_arith)
                requires 0 <= x < 0x1_0000_0000, 0 <= spi < 0x1_0000_0000_0000_0000;
            assert(0 <= (x * spi) / wi <= spi) by (nonlinear_arith)
                requires 0 <= x < wi, 0 <= spi, wi >= 1;
        }
        let xv = start + floor_div(xpos * span, w);
        let step = floor_div(xv, p);
        proof {
            let (xvi, sti) = (xv as int, step as int);
            assert(sti * pi <= xvi < sti * pi + pi) by (nonlinear_arith)
                requires sti == xvi / pi, pi >= 1;
            assert(-0x1_0000_0000_0000_0000_0000_0000 <= sti * pi <= 0x1_0000_0000_0000_0000_0000_0000)
                by (nonlinear_arith)
                requires
                    sti * pi <= xvi < sti * pi + pi,
                    pi <= 10 * 4 * 0x1_0000_0000_0000_0000,
                    sti == xvi / pi,
                    pi >= 1,
                    -0x1_0000_0000_0000_0000_0000 <= xvi <= 0x1_0000_0000_0000_0000_0000;
        }
        let active = step != prev_step;
        let major = floor_div(step, 10) != floor_div(prev_step, 10);
        let semi = floor_div(step, 5) != floor_div(prev_step, 5);
        if active {
            let kind = if major {
                TickKind::Major
            } else if semi {
                TickKind::Medium
            } else {
                TickKind::Minor
            };
            let labelled = major && xpos - last_str_xpos > LABEL_WIDTH_PX as i128;
            if labelled {
                last_str_xpos = xpos;
            }
            ticks.push(Tick { xpos: xpos as i64, kind, labelled, value: step * p });
        }
        prev_step = step;
        xpos = xpos + 1;
    }
    ticks
}

} // verus!
