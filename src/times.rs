//! Time representation and unit-scaled formatting.
use vstd::prelude::*;
use vstd::string::*;

verus! {

/// A point in time, counted in the global base unit.
pub type Time = i64;

/// A time difference, counted in the global base unit.
pub type TimeRel = i64;

#[derive(Debug, Clone, Copy, PartialEq, Eq, Structural)]
pub enum TimeUnit {
    Fs,
    Ps,
    Ns,
    Us,
    Ms,
    S,
}

/// The suffix that names a unit.
pub open spec fn unit_text(u: TimeUnit) -> Seq<char> {
    match u {
        TimeUnit::Fs => seq!['f', 's'],
        TimeUnit::Ps => seq!['p', 's'],
        TimeUnit::Ns => seq!['n', 's'],
        TimeUnit::Us => seq!['u', 's'],
        TimeUnit::Ms => seq!['m', 's'],
        TimeUnit::S => seq!['s'],
    }
}

/// How many of a unit make one second.
pub open spec fn unit_factor(u: TimeUnit) -> int {
    match u {
        TimeUnit::Fs => 1_000_000_000_000_000,
        TimeUnit::Ps => 1_000_000_000_000,
        TimeUnit::Ns => 1_000_000_000,
        TimeUnit::Us => 1_000_000,
        TimeUnit::Ms => 1_000,
        TimeUnit::S => 1,
    }
}

impl TimeUnit {
    /// The unit's suffix ("fs", "ps", ...).
    pub fn to_string(&self) -> (r: String)
        ensures
            r@ == unit_text(*self),
    {
        let s = match self {
            TimeUnit::Fs => "fs",
            TimeUnit::Ps => "ps",
            TimeUnit::Ns => "ns",
            TimeUnit::Us => "us",
            TimeUnit::Ms => "ms",
            TimeUnit::S => "s",
        };
        proof {
            reveal_strlit("fs");
            reveal_strlit("ps");
            reveal_strlit("ns");
            reveal_strlit("us");
            reveal_strlit("ms");
            reveal_strlit("s");
        }
        let r = String::from_str(s);
        proof {
            assert(r@ =~= unit_text(*self));
        }
        r
    }
}

/// A magnitude together with the unit it is counted in.
#[derive(Debug, Clone, Copy, PartialEq, Eq, Structural)]
pub struct TimeScale {
    pub time: TimeRel,
    pub unit: TimeUnit,
}

impl Default for TimeScale {
    fn default() -> (r: Self)
        ensures
            r.time == 1,
            r.unit == TimeUnit::Fs,
    {
        TimeScale { time: 1, unit: TimeUnit::Fs }
    }
}

impl TimeScale {
    /// The magnitude multiplied by the unit's power of ten.
    pub fn scale_factor(&self) -> (r: i128)
        ensures
            r == self.time * unit_factor(self.unit),
    {
        let t = self.time as i128;
        match self.unit {
            TimeUnit::Fs => t * 1_000_000_000_000_000,
            TimeUnit::Ps => t * 1_000_000_000_000,
            TimeUnit::Ns => t * 1_000_000_000,
            TimeUnit::Us => t * 1_000_000,
            TimeUnit::Ms => t * 1_000,
            TimeUnit::S => t,
        }
    }

    /// The magnitude with thousands separators, a space and the unit.
    pub fn to_string(&self) -> (r: String)
        ensures
            r@ == time_unit_text(*self),
    {
        fmt_time_unit(*self)
    }
}

/// The decimal digit for `d`.
pub open spec fn digit_char(d: int) -> char {
    if 0 <= d <= 9 { (('0' as int) + d) as char } else { '?' }
}

/// The decimal digits of `n`, without leading zeros.
pub open spec fn decimal(n: nat) -> Seq<char>
    decreases n,
{
    if n < 10 {
        seq![digit_char(n as int)]
    } else {
        decimal(n / 10).push(digit_char((n % 10) as int))
    }
}

/// The decimal digits of `n`, with a comma between each group of three.
pub open spec fn grouped(n: nat) -> Seq<char>
    decreases n,
{
    if n < 1000 {
        decimal(n)
    } else {
        grouped(n / 1000) + seq![
            ',',
            digit_char((n % 1000) as int / 100),
            digit_char((n % 100) as int / 10),
            digit_char((n % 10) as int),
        ]
    }
}

/// An integer written in English notation: a minus sign when negative,
/// commas between groups of three digits.
pub open spec fn grouped_decimal(n: int) -> Seq<char> {
    if n < 0 {
        seq!['-'] + grouped((-n) as nat)
    } else {
        grouped(n as nat)
    }
}

/// What `fmt_time_unit` writes for a scale.
pub open spec fn time_unit_text(ts: TimeScale) -> Seq<char> {
    grouped_decimal(ts.time as int) + seq![' '] + unit_text(ts.unit)
}

/// Relies on num_format's `Buffer::write_formatted` with `Locale::en`:
/// decimal digits in groups of three separated by ",", led by "-" when negative.
#[verifier::external_body]
fn english_grouped(n: i64) -> (r: String)
    ensures
        r@ == grouped_decimal(n as int),
{
    let mut buf = num_format::Buffer::default();
    buf.write_formatted(&n, &num_format::Locale::en);
    buf.as_str().to_string()
}

/// Format a time with thousands separators.
pub fn fmt_time(t: TimeRel) -> (r: String)
    ensures
        r@ == grouped_decimal(t as int),
{
    english_grouped(t)
}

/// Format a scale: the magnitude with thousands separators, then its unit.
pub fn fmt_time_unit(ts: TimeScale) -> (r: String)
    ensures
        r@ == time_unit_text(ts),
{
    let mut s = english_grouped(ts.time);
    s.append(" ");
    let u = ts.unit.to_string();
    s.append(u.as_str());
    proof {
        reveal_strlit(" ");
    }
    s
}

/// The decimal digits of `n`, as written by `{}` formatting.
pub fn decimal_string(n: u64) -> (r: String)
    ensures
        r@ == decimal(n as nat),
    decreases n,
{
    let d = n % 10;
    let digit = match d {
        0 => "0",
        1 => "1",
        2 => "2",
        3 => "3",
        4 => "4",
        5 => "5",
        6 => "6",
        7 => "7",
        8 => "8",
        _ => "9",
    };
    proof {
        reveal_strlit("0");
        reveal_strlit("1");
        reveal_strlit("2");
        reveal_strlit("3");
        reveal_strlit("4");
        reveal_strlit("5");
        reveal_strlit("6");
        reveal_strlit("7");
        reveal_strlit("8");
        reveal_strlit("9");
        assert(digit@ =~= seq![digit_char(d as int)]);
    }
    if n < 10 {
        String::from_str(digit)
    } else {
        let mut s = decimal_string(n / 10);
        s.append(digit);
        proof {
            assert(s@ =~= decimal((n / 10) as nat).push(digit_char((n % 10) as int)));
        }
        s
    }
}

} // verus!
