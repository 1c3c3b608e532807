use wavechart::{ruler_ticks, Tick, TickKind, TimeScale, TimeUnit};

#[test]
fn ruler_step_and_kinds() {
    let ts = TimeScale { time: 1, unit: TimeUnit::Ps };
    let ticks = ruler_ticks(100, &[0, 1000], &ts);
    assert_eq!(ticks.len(), 10);
    assert_eq!(ticks[0], Tick { xpos: 0, kind: TickKind::Major, labelled: false, value: 0 });
    assert_eq!(ticks[1], Tick { xpos: 10, kind: TickKind::Minor, labelled: false, value: 100 });
    assert_eq!(ticks[5], Tick { xpos: 50, kind: TickKind::Medium, labelled: false, value: 500 });
    for (i, t) in ticks.iter().enumerate() {
        assert_eq!(t.xpos, 10 * i as i64);
    }
}

#[test]
fn ruler_labels_are_throttled() {
    let ts = TimeScale { time: 1, unit: TimeUnit::Ps };
    let ticks = ruler_ticks(1000, &[0, 100_000], &ts);
    let labelled: Vec<i64> = ticks.iter().filter(|t| t.labelled).map(|t| t.xpos).collect();
    assert_eq!(labelled, vec![100, 200, 300, 400, 500, 600, 700, 800, 900]);
    let majors: Vec<i64> =
        ticks.iter().filter(|t| t.kind == TickKind::Major).map(|t| t.xpos).collect();
    assert_eq!(majors, vec![0, 100, 200, 300, 400, 500, 600, 700, 800, 900]);
    assert_eq!(ticks[10].value, 10_000);
}

#[test]
fn ruler_scale_multiplies_times() {
    let ts = TimeScale { time: 10, unit: TimeUnit::Ps };
    let ticks = ruler_ticks(100, &[5, 105], &ts);
    assert_eq!(ticks.len(), 10);
    assert_eq!(ticks[0].xpos, 5);
    assert_eq!(ticks[0].value, 100);
}

#[test]
fn ruler_empty_range_has_no_ticks() {
    let ts = TimeScale { time: 1, unit: TimeUnit::Ps };
    let ticks = ruler_ticks(50, &[7, 7], &ts);
    assert!(ticks.is_empty());
}
