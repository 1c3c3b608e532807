//! Synthetic digital signals: constant, clock and repeating pulse.
use vstd::prelude::*;
use vstd::arithmetic::div_mod::{lemma_fundamental_div_mod, lemma_fundamental_div_mod_converse};
use vstd::string::*;
use crate::sampler::Sampler;
use crate::arith::floor_div;
use crate::times::{decimal, decimal_string, Time, TimeScale};
use crate::HEIGHT_DIGITAL;

verus! {

/// The law a generated digital signal follows.
#[derive(Debug, Clone, Copy, PartialEq, Eq, Structural)]
pub enum SigGenType {
    /// Always this value.
    Fixed(bool),
    /// A square wave of this period, rising at each multiple of the period.
    /// A scan yields the edges after the range start up to its end.
    Clock(Time),
    /// High from `start` (the first field) until `end` (the second), again
    /// every `repeat` (the third) after that.
    Pulse(Time, Time, Time),
}

/// Parameters that make a generator well defined: an even clock period of
/// at least two, a positive pulse repeat.
pub open spec fn gen_wf(k: SigGenType) -> bool {
    match k {
        SigGenType::Fixed(_) => true,
        SigGenType::Clock(period) => period >= 2 && period % 2 == 0,
        SigGenType::Pulse(_, _, repeat) => repeat > 0,
    }
}

/// Value of the signal at time `t`.
pub open spec fn gen_value(k: SigGenType, t: int) -> bool {
    match k {
        SigGenType::Fixed(v) => v,
        SigGenType::Clock(period) => t % (period as int) < period / 2,
        SigGenType::Pulse(start, end, repeat) => if t < start {
            false
        } else {
            (t - start) % (repeat as int) < end - start
        },
    }
}

/// The next sample strictly after `pos` for a scan of `[r0, r1]`, if any.
pub open spec fn next_sample(k: SigGenType, pos: int, r0: int, r1: int) -> Option<(bool, int)> {
    match k {
        SigGenType::Fixed(v) => if pos < r0 {
            Some((v, r0))
        } else if pos < r1 {
            Some((v, r1))
        } else {
            None
        },
        SigGenType::Clock(period) => {
            let half = period / 2;
            let from = if pos < r0 {
                r0
            } else {
                pos
            };
            let next = (from / half + 1) * half;
            if next <= r1 {
                Some((next % (period as int) == 0, next))
            } else {
                None
            }
        },
        SigGenType::Pulse(start, end, repeat) => if pos < start {
            if start <= r1 {
                Some((true, start as int))
            } else {
                None
            }
        } else {
            let base = ((pos - start) / (repeat as int)) * repeat;
            let offs = (pos - start) % (repeat as int);
            let (v, next) = if offs < end - start {
                (false, start + base + (end - start))
            } else {
                (true, start + base + repeat)
            };
            if next < r1 {
                Some((v, next))
            } else {
                None
            }
        },
    }
}

/// All samples after `pos` for a scan of `[r0, r1]`, in order.
pub open spec fn samples_from(k: SigGenType, pos: int, r0: int, r1: int) -> Seq<(bool, Time)>
    decreases r1 - pos,
{
    match next_sample(k, pos, r0, r1) {
        Some((v, next)) => if pos < next <= r1 {
            seq![(v, next as i64)] + samples_from(k, next, r0, r1)
        } else {
            Seq::empty()
        },
        None => Seq::empty(),
    }
}

/// The samples a scan of `[r0, r1]` yields.
pub open spec fn range_samples(k: SigGenType, r0: int, r1: int) -> Seq<(bool, Time)> {
    samples_from(k, r0 - 1, r0, r1)
}

/// The label of generated signal `sig`.
pub open spec fn gen_label(sig: nat) -> Seq<char> {
    seq!['s', 'i', 'g', 'n', 'a', 'l', '_'] + decimal(sig)
}

/// A generated digital signal.
#[derive(Debug, Clone, Copy)]
pub struct DigiSigGen {
    pub sig: usize,
    pub stype: SigGenType,
}

/// A scan over a range of a generated digital signal.
#[derive(Debug, Clone, Copy)]
pub struct DigiSigIter {
    pub stype: SigGenType,
    /// Time of the last sample handed out (one before the range at first).
    pub pos: i128,
    pub range: [Time; 2],
}

/// In a consistent scan, a next sample lies after the scan position and
/// inside the range, so the remaining samples start with it.
proof fn lemma_next_in_range(k: SigGenType, pos: int, r0: int, r1: int)
    requires
        gen_wf(k),
        r0 <= r1,
        r0 - 1 <= pos <= r1,
    ensures
        match next_sample(k, pos, r0, r1) {
            Some((v, n)) => pos < n <= r1 && samples_from(k, pos, r0, r1) == seq![(v, n as i64)]
                + samples_from(k, n, r0, r1),
            None => samples_from(k, pos, r0, r1) == Seq::<(bool, Time)>::empty(),
        },
{
    match k {
        SigGenType::Clock(period) => {
            let half = period / 2;
            let from = if pos < r0 {
                r0
            } else {
                pos
            };
            let q = from / (half as int);
            assert(q * half <= from < q * half + half) by (nonlinear_arith)
                requires half > 0, q == from / (half as int);
            assert((q + 1) * half == q * half + half) by (nonlinear_arith);
        },
        SigGenType::Pulse(start, end, repeat) => {
            if pos >= start {
                let d = pos - start;
                assert((d / (repeat as int)) * repeat + d % (repeat as int) == d && 0 <= d % (repeat as int)
                    < repeat) by (nonlinear_arith)
                    requires repeat > 0, d >= 0;
            }
        },
        _ => {},
    }
}

/// The samples after `pos` lie after it, inside the range, at strictly
/// increasing times.
pub proof fn lemma_samples_ordered(k: SigGenType, pos: int, r0: int, r1: int)
    requires
        gen_wf(k),
        r0 <= r1,
        r0 - 1 <= pos <= r1,
        i64::MIN <= r0,
        r1 <= i64::MAX,
    ensures
        ({
            let s = samples_from(k, pos, r0, r1);
            &&& forall|i: int| 0 <= i < s.len() ==> pos < #[trigger] s[i].1 <= r1
            &&& forall|i: int| 0 <= i < s.len() - 1 ==> #[trigger] s[i].1 < s[i + 1].1
        }),
    decreases r1 - pos,
{
    lemma_next_in_range(k, pos, r0, r1);
    match next_sample(k, pos, r0, r1) {
        Some((v, n)) => {
            lemma_samples_ordered(k, n, r0, r1);
            let s = samples_from(k, pos, r0, r1);
            let rest = samples_from(k, n, r0, r1);
            assert(s[0].1 == n);
            assert forall|i: int| 0 <= i < s.len() implies pos < #[trigger] s[i].1 <= r1 by {
                if i > 0 {
                    assert(s[i] == rest[i - 1]);
                }
            }
            assert forall|i: int| 0 <= i < s.len() - 1 implies #[trigger] s[i].1 < s[i + 1].1 by {
                assert(s[i + 1] == rest[i]);
                if i > 0 {
                    assert(s[i] == rest[i - 1]);
                }
            }
        },
        None => {},
    }
}

/// A pulse whose high part is shorter than its repeat and not empty, so
/// that it has a rising and a falling edge in every cycle.
pub open spec fn edges_alternate(k: SigGenType) -> bool {
    match k {
        SigGenType::Fixed(_) => false,
        SigGenType::Clock(_) => true,
        SigGenType::Pulse(start, end, repeat) => 0 < end - start < repeat,
    }
}

/// The next sample of a clock or pulse is a change of its value: the value
/// at the sample's time, different from the value just before it.
proof fn lemma_step_is_change(k: SigGenType, pos: int, r0: int, r1: int)
    requires
        gen_wf(k),
        edges_alternate(k),
        r0 <= r1,
        r0 - 1 <= pos <= r1,
    ensures
        match next_sample(k, pos, r0, r1) {
            Some((v, n)) => v == gen_value(k, n) && gen_value(k, n - 1) != v,
            None => true,
        },
{
    match k {
        SigGenType::Clock(period) => {
            let h = (period / 2) as int;
            let p = period as int;
            let from = if pos < r0 {
                r0
            } else {
                pos
            };
            let q = from / h;
            let j = q + 1;
            let next = j * h;
            assert((from / h + 1) * h == next);
            let jq = j / 2;
            let jr = j % 2;
            assert(p == 2 * h);
            assert(next == jq * (2 * h) + jr * h) by (nonlinear_arith)
                requires next == j * h, j == jq * 2 + jr;
            assert(0 <= jr * h < 2 * h) by (nonlinear_arith)
                requires 0 <= jr < 2, h > 0;
            lemma_fundamental_div_mod_converse(next, p, jq, jr * h);
            assert((jr * h < h) == (jr == 0)) by (nonlinear_arith)
                requires 0 <= jr < 2, h > 0;
            if jr == 1 {
                assert(next - 1 == jq * p + (h - 1)) by (nonlinear_arith)
                    requires next == jq * (2 * h) + jr * h, jr == 1, p == 2 * h;
                lemma_fundamental_div_mod_converse(next - 1, p, jq, h - 1);
            } else {
                assert(next - 1 == (jq - 1) * p + (p - 1)) by (nonlinear_arith)
                    requires next == jq * (2 * h) + jr * h, jr == 0, p == 2 * h;
                lemma_fundamental_div_mod_converse(next - 1, p, jq - 1, p - 1);
            }
        },
        SigGenType::Pulse(start, end, repeat) => {
            let rep = repeat as int;
            let len = end - start;
            if pos < start {
                lemma_fundamental_div_mod_converse(0, rep, 0, 0);
            } else {
                let d = pos - start;
                let q = d / rep;
                let offs = d % rep;
                assert((d / rep) * rep == q * rep);
                if offs < len {
                    lemma_fundamental_div_mod_converse(q * rep + len, rep, q, len);
                    lemma_fundamental_div_mod_converse(q * rep + len - 1, rep, q, len - 1);
                    assert(q >= 0) by (nonlinear_arith)
                        requires q == d / rep, d >= 0, rep > 0;
                    assert(q * rep >= 0) by (nonlinear_arith)
                        requires q >= 0, rep > 0;
                } else {
                    assert(q * rep + rep == (q + 1) * rep) by (nonlinear_arith);
                    lemma_fundamental_div_mod_converse((q + 1) * rep, rep, q + 1, 0);
                    lemma_fundamental_div_mod_converse(q * rep + rep - 1, rep, q, rep - 1);
                    assert(q >= 0) by (nonlinear_arith)
                        requires q == d / rep, d >= 0, rep > 0;
                    assert(q * rep >= 0) by (nonlinear_arith)
                        requires q >= 0, rep > 0;
                }
            }
        },
        SigGenType::Fixed(_) => {},
    }
}

/// Every sample a clock, or a pulse with a rising and a falling edge per
/// cycle, yields over `[r0, r1]` is a change of its value: the value at the
/// sample's time, different from the value just before; the samples lie in
/// the range at strictly increasing times.
pub proof fn lemma_samples_are_changes(k: SigGenType, r0: Time, r1: Time)
    requires
        gen_wf(k),
        edges_alternate(k),
        r0 <= r1,
    ensures
        ({
            let s = range_samples(k, r0 as int, r1 as int);
            &&& forall|i: int|
                0 <= i < s.len() ==> #[trigger] s[i].0 == gen_value(k, s[i].1 as int) && gen_value(
                    k,
                    s[i].1 - 1,
                ) != s[i].0
            &&& forall|i: int| 0 <= i < s.len() ==> r0 <= #[trigger] s[i].1 <= r1
            &&& forall|i: int| 0 <= i < s.len() - 1 ==> #[trigger] s[i].1 < s[i + 1].1
        }),
{
    lemma_samples_ordered(k, r0 - 1, r0 as int, r1 as int);
    lemma_changes_from(k, r0 - 1, r0 as int, r1 as int);
}

proof fn lemma_changes_from(k: SigGenType, pos: int, r0: int, r1: int)
    requires
        gen_wf(k),
        edges_alternate(k),
        r0 <= r1,
        r0 - 1 <= pos <= r1,
        i64::MIN <= r0,
        r1 <= i64::MAX,
    ensures
        ({
            let s = samples_from(k, pos, r0, r1);
            forall|i: int|
                0 <= i < s.len() ==> #[trigger] s[i].0 == gen_value(k, s[i].1 as int) && gen_value(
                    k,
                    s[i].1 - 1,
                ) != s[i].0
        }),
    decreases r1 - pos,
{
    lemma_next_in_range(k, pos, r0, r1);
    lemma_step_is_change(k, pos, r0, r1);
    match next_sample(k, pos, r0, r1) {
        Some((v, n)) => {
            lemma_changes_from(k, n, r0, r1);
            let s = samples_from(k, pos, r0, r1);
            let rest = samples_from(k, n, r0, r1);
            assert forall|i: int| 0 <= i < s.len() implies #[trigger] s[i].0 == gen_value(k, s[i].1 as int)
                && gen_value(k, s[i].1 - 1) != s[i].0 by {
                if i > 0 {
                    assert(s[i] == rest[i - 1]);
                } else {
                    assert(s[0] == (v, n as i64));
                }
            }
        },
        None => {},
    }
}

impl DigiSigIter {
    /// Scan state that the iterator keeps consistent.
    pub open spec fn wf(&self) -> bool {
        &&& gen_wf(self.stype)
        &&& self.range[0] <= self.range[1]
        &&& self.range[0] - 1 <= self.pos <= self.range[1]
    }

    /// The samples still to come.
    pub open spec fn remaining(&self) -> Seq<(bool, Time)> {
        samples_from(self.stype, self.pos as int, self.range[0] as int, self.range[1] as int)
    }

    /// The state after handing out the next sample, if there is one.
    pub open spec fn stepped(&self, r: Option<(bool, Time)>) -> bool {
        match next_sample(self.stype, self.pos as int, self.range[0] as int, self.range[1] as int) {
            Some((v, n)) => r == Some((v, n as i64)),
            None => r.is_none(),
        }
    }

    fn next_clock(&mut self, period: Time) -> (r: Option<(bool, Time)>)
        requires
            old(self).wf(),
            old(self).stype == SigGenType::Clock(period),
        ensures
            old(self).stepped(r),
            final(self).stype == old(self).stype,
            final(self).range == old(self).range,
            r.is_some() ==> final(self).pos == r.unwrap().1,
            r.is_none() ==> final(self).pos == old(self).pos,
    {
        let half = (period / 2) as i128;
        let from = if self.pos < self.range[0] as i128 {
            self.range[0] as i128
        } else {
            self.pos
        };
        let q = floor_div(from, half);
        proof {
            let (pi, hi, qi) = (from as int, half as int, q as int);
            assert(qi * hi <= pi < qi * hi + hi) by (nonlinear_arith)
                requires hi > 0, qi == pi / hi;
        }
        let next_pos = q * half + half;
        proof {
            assert((q as int + 1) * (half as int) == (q as int) * (half as int) + half as int) by (nonlinear_arith);
        }
        if next_pos <= self.range[1] as i128 {
            self.pos = next_pos;
            let p = period as i128;
            let cycles = floor_div(next_pos, p);
            proof {
                let (ni, pi, ci) = (next_pos as int, p as int, cycles as int);
                assert(ci * pi <= ni < ci * pi + pi) by (nonlinear_arith)
                    requires pi > 0, ci == ni / pi;
                assert(ni % pi == ni - ci * pi) by (nonlinear_arith)
                    requires pi > 0, ci == ni / pi;
            }
            let rising = next_pos - cycles * p == 0;
            Some((rising, next_pos as i64))
        } else {
            None
        }
    }

    fn next_pulse(&mut self, start: Time, end: Time, repeat: Time) -> (r: Option<(bool, Time)>)
        requires
            old(self).wf(),
            old(self).stype == SigGenType::Pulse(start, end, repeat),
        ensures
            old(self).stepped(r),
            final(self).stype == old(self).stype,
            final(self).range == old(self).range,
            r.is_some() ==> final(self).pos == r.unwrap().1,
            r.is_none() ==> final(self).pos == old(self).pos,
    {
        if self.pos < start as i128 {
            if start <= self.range[1] {
                self.pos = start as i128;
                Some((true, start))
            } else {
                None
            }
        } else {
            let now = self.pos;
            let d = now - start as i128;
            let rep = repeat as i128;
            let len = end as i128 - start as i128;
            proof {
                let (di, ri) = (d as int, rep as int);
                assert((di / ri) * ri + di % ri == di && 0 <= di % ri < ri && 0 <= (di / ri) * ri <= di)
                    by (nonlinear_arith)
                    requires ri > 0, di >= 0;
            }
            let base = (d / rep) * rep;
            let offs = d % rep;
            let (next_val, next_pos) = if offs < len {
                (false, start as i128 + base + len)
            } else {
                (true, start as i128 + base + rep)
            };
            if next_pos < self.range[1] as i128 {
                self.pos = next_pos;
                Some((next_val, next_pos as i64))
            } else {
                None
            }
        }
    }

    /// Hand out the next sample of the scan.
    pub fn next(&mut self) -> (r: Option<(bool, Time)>)
        requires
            old(self).wf(),
        ensures
            final(self).wf(),
            final(self).stype == old(self).stype,
            final(self).range == old(self).range,
            old(self).remaining().len() == 0 ==> r.is_none() && *final(self) == *old(self),
            old(self).remaining().len() > 0 ==> r == Some(old(self).remaining()[0])
                && final(self).remaining() == old(self).remaining().drop_first()
                && final(self).pos > old(self).pos,
    {
        proof {
            lemma_next_in_range(self.stype, self.pos as int, self.range[0] as int, self.range[1] as int);
        }
        let ghost before = *self;
        let r = match self.stype {
            SigGenType::Fixed(val) => {
                if self.pos < self.range[0] as i128 {
                    self.pos = self.range[0] as i128;
                    Some((val, self.range[0]))
                } else if self.pos < self.range[1] as i128 {
                    self.pos = self.range[1] as i128;
                    Some((val, self.range[1]))
                } else {
                    None
                }
            },
            SigGenType::Clock(period) => self.next_clock(period),
            SigGenType::Pulse(start, end, repeat) => self.next_pulse(start, end, repeat),
        };
        proof {
            if before.remaining().len() > 0 {
                assert(before.remaining().drop_first() =~= self.remaining());
            }
        }
        r
    }
}

impl DigiSigGen {
    /// Parameters are well defined.
    pub open spec fn wf(&self) -> bool {
        gen_wf(self.stype)
    }

    /// Whether the parameters are well defined.
    pub fn is_wf(&self) -> (r: bool)
        ensures
            r == self.wf(),
    {
        match self.stype {
            SigGenType::Fixed(_) => true,
            SigGenType::Clock(period) => period >= 2 && period % 2 == 0,
            SigGenType::Pulse(_, _, repeat) => repeat > 0,
        }
    }

    /// A signal that always has value `val`.
    pub fn new_fixed(idx: usize, val: bool) -> (r: Self)
        ensures
            r.wf(),
            r.sig == idx,
            r.stype == SigGenType::Fixed(val),
    {
        DigiSigGen { sig: idx, stype: SigGenType::Fixed(val) }
    }

    /// A clock of period `period` (in base time units).
    pub fn new_clock(idx: usize, period: Time) -> (r: Self)
        requires
            period >= 2,
            period % 2 == 0,
        ensures
            r.wf(),
            r.sig == idx,
            r.stype == SigGenType::Clock(period),
    {
        DigiSigGen { sig: idx, stype: SigGenType::Clock(period) }
    }

    /// A pulse high from `start` to `end`, repeating every `repeat` after `start`.
    pub fn new_pulse(idx: usize, start: Time, end: Time, repeat: Time) -> (r: Self)
        requires
            repeat > 0,
        ensures
            r.wf(),
            r.sig == idx,
            r.stype == SigGenType::Pulse(start, end, repeat),
    {
        DigiSigGen { sig: idx, stype: SigGenType::Pulse(start, end, repeat) }
    }

    /// Start a scan over `range`.
    pub fn iter(&self, range: &[Time; 2]) -> (r: DigiSigIter)
        requires
            self.wf(),
            range[0] <= range[1],
        ensures
            r.wf(),
            r.stype == self.stype,
            r.range == *range,
            r.remaining() == range_samples(self.stype, range[0] as int, range[1] as int),
    {
        DigiSigIter { stype: self.stype, pos: range[0] as i128 - 1, range: *range }
    }

    /// Lane height, in pixels.
    pub fn get_height(&self) -> (r: i64)
        ensures
            r == HEIGHT_DIGITAL,
    {
        HEIGHT_DIGITAL
    }

    /// `signal_` followed by the signal's number.
    pub fn get_label(&self) -> (r: String)
        ensures
            r@ == gen_label(self.sig as nat),
    {
        let mut s = String::from_str("signal_");
        let n = decimal_string(self.sig as u64);
        s.append(n.as_str());
        proof {
            reveal_strlit("signal_");
            assert(s@ =~= gen_label(self.sig as nat));
        }
        s
    }

    /// All samples of `range`, in time order.
    pub fn iter_range(&self, range: &[Time; 2]) -> (r: Vec<(bool, Time)>)
        requires
            self.wf(),
            range[0] <= range[1],
        ensures
            r@ == range_samples(self.stype, range[0] as int, range[1] as int),
    {
        let mut it = self.iter(range);
        let mut out: Vec<(bool, Time)> = Vec::new();
        let ghost all = it.remaining();
        loop
            invariant
                it.wf(),
                it.range == *range,
                it.stype == self.stype,
                all == range_samples(self.stype, range[0] as int, range[1] as int),
                out@ + it.remaining() == all,
            ensures
                out@ == all,
            decreases range[1] - it.pos,
        {
            let ghost before = it.remaining();
            match it.next() {
                Some(s) => {
                    out.push(s);
                    proof {
                        assert(out@ + it.remaining() =~= all) by {
                            assert(before =~= seq![s] + before.drop_first());
                        }
                    }
                },
                None => {
                    proof {
                        assert(out@ + Seq::<(bool, Time)>::empty() =~= out@);
                    }
                    break;
                },
            }
        }
        out
    }

    /// The value at time `t`.
    pub fn get_value_at(&self, t: Time, _s: TimeScale) -> (r: bool)
        requires
            self.wf(),
        ensures
            r == gen_value(self.stype, t as int),
    {
        match self.stype {
            SigGenType::Fixed(val) => val,
            SigGenType::Clock(period) => {
                let p = period as i128;
                let c = floor_div(t as i128, p);
                proof {
                    let (ti, pi, ci) = (t as int, p as int, c as int);
                    assert(ci * pi <= ti < ci * pi + pi) by (nonlinear_arith)
                        requires pi > 0, ci == ti / pi;
                    assert(ti % pi == ti - ci * pi) by (nonlinear_arith)
                        requires pi > 0, ci == ti / pi;
                }
                t as i128 - c * p < p / 2
            },
            SigGenType::Pulse(start, end, repeat) => {
                if t < start {
                    false
                } else {
                    let d = t as i128 - start as i128;
                    (d % repeat as i128) < end as i128 - start as i128
                }
            },
        }
    }
}

impl Sampler<bool> for DigiSigGen {
    fn get_height(&self) -> i64 {
        HEIGHT_DIGITAL
    }

    fn get_label(&self) -> String {
        DigiSigGen::get_label(self)
    }

    fn iter_range(&self, range: &[Time; 2]) -> Vec<(bool, Time)> {
        if self.is_wf() {
            proof {
                lemma_samples_ordered(self.stype, range[0] - 1, range[0] as int, range[1] as int);
            }
            DigiSigGen::iter_range(self, range)
        } else {
            Vec::new()
        }
    }

    fn get_value_at(&self, t: Time, s: TimeScale) -> bool {
        if self.is_wf() {
            DigiSigGen::get_value_at(self, t, s)
        } else {
            false
        }
    }
}

/// A constant signal scanned over `[a, b]` with `a < b` yields exactly its
/// value at both ends.
pub proof fn lemma_fixed_yields_endpoints(v: bool, a: Time, b: Time)
    requires
        a < b,
    ensures
        range_samples(SigGenType::Fixed(v), a as int, b as int) == seq![(v, a), (v, b)],
{
    let k = SigGenType::Fixed(v);
    assert(samples_from(k, b as int, a as int, b as int) == Seq::<(bool, Time)>::empty());
    assert(samples_from(k, a as int, a as int, b as int) == seq![(v, b)] + samples_from(
        k,
        b as int,
        a as int,
        b as int,
    ));
    assert(samples_from(k, a - 1, a as int, b as int) == seq![(v, a)] + samples_from(
        k,
        a as int,
        a as int,
        b as int,
    ));
    assert(range_samples(k, a as int, b as int) =~= seq![(v, a), (v, b)]);
}

/// The clock's samples after `pos` (and after `r0`) are its edges at the
/// multiples of half a period up to `r1`, rising at even multiples.
proof fn lemma_clock_samples(period: Time, pos: int, r0: int, r1: int)
    requires
        period >= 2,
        period % 2 == 0,
        r0 <= r1,
        r0 - 1 <= pos <= r1,
        i64::MIN <= r0,
        r1 <= i64::MAX,
    ensures
        ({
            let half = period / 2;
            let q = (if pos < r0 {
                r0
            } else {
                pos
            }) / (half as int);
            let s = samples_from(SigGenType::Clock(period), pos, r0, r1);
            &&& s.len() == r1 / (half as int) - q
            &&& forall|i: int|
                0 <= i < s.len() ==> #[trigger] s[i] == ((q + 1 + i) % 2 == 0, ((q + 1 + i) * half) as i64)
        }),
    decreases r1 - pos,
{
    let k = SigGenType::Clock(period);
    let half = period / 2;
    let h = half as int;
    let from = if pos < r0 {
        r0
    } else {
        pos
    };
    let q = from / h;
    assert(q * h <= from < q * h + h) by (nonlinear_arith)
        requires h > 0, q == from / h;
    assert((q + 1) * h == q * h + h) by (nonlinear_arith);
    let next = (q + 1) * h;
    lemma_next_in_range(k, pos, r0, r1);
    if next <= r1 {
        lemma_clock_samples(period, next, r0, r1);
        lemma_fundamental_div_mod_converse(next, h, q + 1, 0);
        let j = q + 1;
        let jq = j / 2;
        let jr = j % 2;
        assert(j == jq * 2 + jr && 0 <= jr < 2);
        assert(next == jq * (2 * h) + jr * h) by (nonlinear_arith)
            requires next == j * h, j == jq * 2 + jr;
        assert(0 <= jr * h < 2 * h) by (nonlinear_arith)
            requires 0 <= jr < 2, h > 0;
        assert(period == 2 * h);
        lemma_fundamental_div_mod_converse(next, period as int, jq, jr * h);
        assert((next % (period as int) == 0) == (jr == 0)) by (nonlinear_arith)
            requires next % (period as int) == jr * h, h > 0, 0 <= jr < 2;
        let s = samples_from(k, pos, r0, r1);
        let rest = samples_from(k, next, r0, r1);
        assert forall|i: int| 0 <= i < s.len() implies #[trigger] s[i] == ((q + 1 + i) % 2 == 0, ((q + 1
            + i) * half) as i64) by {
            if i > 0 {
                assert(s[i] == rest[i - 1]);
                assert(q + 1 + 1 + (i - 1) == q + 1 + i);
            }
        }
    } else {
        assert(r1 / h <= q) by (nonlinear_arith)
            requires r1 < (q + 1) * h, h > 0;
        assert(q <= r1 / h) by (nonlinear_arith)
            requires q * h <= from, from <= r1, h > 0, q == from / h;
    }
}

/// A clock scanned over `n` whole periods yields `2 * n` edges after the
/// range start, half a period apart, alternately rising and falling.
pub proof fn lemma_clock_edges(period: Time, a: Time, n: nat)
    requires
        period >= 2,
        period % 2 == 0,
        a + n * period <= i64::MAX,
    ensures
        ({
            let s = range_samples(SigGenType::Clock(period), a as int, a + n * period);
            &&& s.len() == 2 * n
            &&& forall|i: int|
                0 <= i < s.len() ==> a < #[trigger] s[i].1 <= a + n * period && (s[i].1 as int) % ((period / 2) as int)
                    == 0 && (s[i].0 == ((s[i].1 as int) % (period as int) == 0))
            &&& forall|i: int|
                0 <= i < s.len() - 1 ==> #[trigger] s[i + 1].1 - s[i].1 == period / 2 && s[i + 1].0
                    == !s[i].0
        }),
{
    let h = (period / 2) as int;
    let b = a + n * period;
    assert(n * period >= 0) by (nonlinear_arith)
        requires period >= 2;
    lemma_clock_samples(period, a - 1, a as int, b);
    let qa = (a as int) / h;
    let ra = (a as int) % h;
    lemma_fundamental_div_mod(a as int, h);
    assert(a == qa * h + ra) by (nonlinear_arith)
        requires a == h * qa + ra;
    assert(0 <= ra < h);
    assert(b == (qa + 2 * n) * h + ra) by (nonlinear_arith)
        requires b == a + n * period, period == 2 * h, a == qa * h + ra;
    lemma_fundamental_div_mod_converse(b, h, qa + 2 * n, ra);
    let s = range_samples(SigGenType::Clock(period), a as int, b);
    assert forall|i: int| 0 <= i < s.len() implies a < #[trigger] s[i].1 <= b && (s[i].1 as int) % h == 0 && (s[i].0
        == ((s[i].1 as int) % (period as int) == 0)) by {
        let j = qa + 1 + i;
        assert(j * h > a) by (nonlinear_arith)
            requires 0 <= i, j == qa + 1 + i, a == qa * h + ra, ra < h, h > 0;
        assert(j * h <= b) by (nonlinear_arith)
            requires 0 <= i, i < 2 * n, j == qa + 1 + i, b == (qa + 2 * n) * h + ra, h > 0, ra >= 0;
        assert(s[i] == (j % 2 == 0, (j * h) as i64));
        lemma_fundamental_div_mod_converse(j * h, h, j, 0);
        let jq = j / 2;
        let jr = j % 2;
        assert(j * h == jq * (2 * h) + jr * h) by (nonlinear_arith)
            requires j == jq * 2 + jr;
        assert(0 <= jr * h < 2 * h) by (nonlinear_arith)
            requires 0 <= jr < 2, h > 0;
        lemma_fundamental_div_mod_converse(j * h, period as int, jq, jr * h);
        assert(((j * h) % (period as int) == 0) == (jr == 0)) by (nonlinear_arith)
            requires (j * h) % (period as int) == jr * h, h > 0, 0 <= jr < 2;
    }
    assert forall|i: int| 0 <= i < s.len() - 1 implies #[trigger] s[i + 1].1 - s[i].1 == period / 2 && s[i
        + 1].0 == !s[i].0 by {
        assert((qa + 1 + (i + 1)) * h == (qa + 1 + i) * h + h) by (nonlinear_arith);
        assert((qa + 1 + i) * h + h <= b) by (nonlinear_arith)
            requires 0 <= i, i + 1 < 2 * n, b == (qa + 2 * n) * h + ra, h > 0, ra >= 0;
        assert((qa + 1 + i) * h > a) by (nonlinear_arith)
            requires 0 <= i, a == qa * h + ra, ra < h, h > 0;
        let t0 = (qa + 1 + i) * h;
        assert(i64::MIN <= t0 && t0 + h <= i64::MAX);
        assert(s[i] == ((qa + 1 + i) % 2 == 0, t0 as i64));
        assert(s[i + 1] == ((qa + 1 + (i + 1)) % 2 == 0, (t0 + h) as i64));
        assert(((qa + 1 + (i + 1)) % 2 == 0) == !((qa + 1 + i) % 2 == 0));
    }
}

} // verus!
