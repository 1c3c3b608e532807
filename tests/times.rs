use wavechart::times::decimal_string;
use wavechart::{fmt_time, fmt_time_unit, TimeScale, TimeUnit};

#[test]
fn fmt_time_groups_thousands() {
    assert_eq!(fmt_time(1234567), "1,234,567");
    assert_eq!(fmt_time(999), "999");
    assert_eq!(fmt_time(1000), "1,000");
    assert_eq!(fmt_time(0), "0");
}

#[test]
fn fmt_time_negative() {
    assert_eq!(fmt_time(-1000), "-1,000");
    assert_eq!(fmt_time(-5), "-5");
}

#[test]
fn fmt_time_unit_appends_suffix() {
    let ts = TimeScale { time: 1500, unit: TimeUnit::Ns };
    assert_eq!(fmt_time_unit(ts), "1,500 ns");
    assert_eq!(ts.to_string(), "1,500 ns");
    let ts = TimeScale { time: 7, unit: TimeUnit::S };
    assert_eq!(fmt_time_unit(ts), "7 s");
}

#[test]
fn unit_suffixes() {
    assert_eq!(TimeUnit::Fs.to_string(), "fs");
    assert_eq!(TimeUnit::Ps.to_string(), "ps");
    assert_eq!(TimeUnit::Ns.to_string(), "ns");
    assert_eq!(TimeUnit::Us.to_string(), "us");
    assert_eq!(TimeUnit::Ms.to_string(), "ms");
    assert_eq!(TimeUnit::S.to_string(), "s");
}

#[test]
fn scale_factor_by_unit() {
    assert_eq!(TimeScale { time: 3, unit: TimeUnit::Ms }.scale_factor(), 3_000);
    assert_eq!(TimeScale { time: 2, unit: TimeUnit::Fs }.scale_factor(), 2_000_000_000_000_000);
    assert_eq!(TimeScale { time: 5, unit: TimeUnit::S }.scale_factor(), 5);
    assert_eq!(TimeScale { time: 1, unit: TimeUnit::Us }.scale_factor(), 1_000_000);
}

#[test]
fn default_scale_is_one_femtosecond() {
    let ts = TimeScale::default();
    assert_eq!(ts.time, 1);
    assert_eq!(ts.unit, TimeUnit::Fs);
}

#[test]
fn decimal_string_digits() {
    assert_eq!(decimal_string(0), "0");
    assert_eq!(decimal_string(4096), "4096");
    assert_eq!(decimal_string(u64::MAX), "18446744073709551615");
}
