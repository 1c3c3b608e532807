use wavechart::{Chart, MouseCursor, MouseRegion, Pos, WaveSeg};

fn chart_with(range: [i64; 2], max: [i64; 2]) -> Chart {
    let mut c = Chart::new();
    let ts = c.time_scale;
    c.set_max_range(&max, &ts);
    c.set_range(&range, &ts);
    c
}

fn columns_fit(c: &Chart, w: i64) -> bool {
    c.col_signame * w >= 16 * 1_000_000
        && c.col_value * w >= 16 * 1_000_000
        && (1_000_000 - c.col_signame - c.col_value) * w >= 32 * 1_000_000
}

#[test]
fn new_chart_defaults() {
    let c = Chart::new();
    assert_eq!(c.time_range, [0, 0]);
    assert_eq!(c.max_range, [0, 0]);
    assert_eq!(c.col_signame, 200_000);
    assert_eq!(c.col_value, 50_000);
    assert_eq!(c.cursor, None);
    assert_eq!(c.mregion, MouseRegion::Outside);
}

#[test]
fn cursor_set_and_clear() {
    let mut c = Chart::new();
    c.set_cursor(42);
    assert_eq!(c.cursor, Some(42));
    c.clear_cursor();
    assert_eq!(c.cursor, None);
}

#[test]
fn time_to_xpos_formula() {
    let c = Chart::new();
    assert_eq!(c.time_to_xpos(50, &[0, 100], 10, 200), 110);
    assert_eq!(c.time_to_xpos(0, &[0, 100], 10, 200), 10);
    assert_eq!(c.time_to_xpos(100, &[0, 100], 10, 200), 210);
    assert_eq!(c.time_to_xpos(1, &[0, 3], 0, 10), 3);
}

#[test]
fn xpos_to_time_formula_and_clamp() {
    let c = Chart::new();
    assert_eq!(c.xpos_to_time(110, &[0, 100], 10, 200), 50);
    assert_eq!(c.xpos_to_time(-5, &[0, 100], 10, 200), 0);
    assert_eq!(c.xpos_to_time(1000, &[0, 100], 10, 200), 100);
    assert_eq!(c.xpos_to_time(10, &[-50, 50], 0, 20), 0);
}

#[test]
fn time_pixel_round_trip() {
    let c = Chart::new();
    let range = [1000, 1100];
    for w in [37i64, 100, 250] {
        for t in 1000..=1100 {
            let x = c.time_to_xpos(t, &range, 5, w);
            let back = c.xpos_to_time(x, &range, 5, w);
            assert!(back <= t && back >= 1000);
            assert!((t - back) * w < 100 + w);
        }
    }
}

#[test]
fn exact_position_round_trip() {
    let c = Chart::new();
    let range = [0, 1000];
    for t in 0..=1000 {
        let n = c.time_to_xnum(t, &range, 7, 10);
        assert_eq!(c.xnum_to_time(n, &range, 7, 10), t);
    }
    assert_eq!(c.time_to_xnum(5, &range, 7, 10), 7 * 1000 + 50);
    assert_eq!(c.xnum_to_time(-1, &range, 7, 10), 0);
    assert_eq!(c.xnum_to_time(1_000_000, &range, 7, 10), 1000);
}

#[test]
fn round_trip_exact_when_pixels_divide_time() {
    let c = Chart::new();
    for t in 0..=50 {
        let x = c.time_to_xpos(t, &[0, 50], 0, 100);
        assert_eq!(c.xpos_to_time(x, &[0, 50], 0, 100), t);
    }
}

#[test]
fn zoom_out_then_in_restores() {
    let mut c = chart_with([400, 600], [0, 1000]);
    c.do_zoom(2, 1);
    assert_eq!(c.time_range, [300, 700]);
    c.do_zoom(1, 2);
    assert_eq!(c.time_range, [400, 600]);
}

#[test]
fn zoom_centres_on_cursor() {
    let mut c = chart_with([400, 600], [0, 1000]);
    c.set_cursor(450);
    c.do_zoom(1, 2);
    assert_eq!(c.time_range, [400, 500]);
}

#[test]
fn zoom_clamps_to_max_range() {
    let mut c = chart_with([0, 1000], [0, 1000]);
    c.do_zoom(2, 1);
    assert_eq!(c.time_range, [0, 1000]);
    let mut c = chart_with([800, 1000], [0, 1000]);
    c.do_zoom(2, 1);
    assert_eq!(c.time_range, [600, 1000]);
}

#[test]
fn zoom_near_data_edge_keeps_width() {
    let mut c = chart_with([0, 100], [0, 1000]);
    c.do_zoom(2, 1);
    assert_eq!(c.time_range, [0, 200]);
    let mut c = chart_with([900, 1000], [0, 1000]);
    c.set_cursor(990);
    c.do_zoom(3, 1);
    assert_eq!(c.time_range, [700, 1000]);
}

#[test]
fn wheel_zooms_in_and_out() {
    let mut c = chart_with([400, 600], [0, 1000]);
    let p = Pos { x: 0, y: 0 };
    assert!(c.handle_mousewheel(1, &p, 800, 600));
    assert_eq!(c.time_range, [450, 550]);
    assert!(c.handle_mousewheel(-1, &p, 800, 600));
    assert_eq!(c.time_range, [400, 600]);
}

#[test]
fn visible_range_stays_within_max() {
    let mut c = chart_with([100, 300], [0, 1000]);
    c.set_cursor(990);
    let p = Pos { x: 0, y: 0 };
    for step in 0..20 {
        if step % 3 == 0 {
            c.handle_mousewheel(-1, &p, 800, 600);
        } else {
            c.handle_mousewheel(1, &p, 800, 600);
        }
        let down = Some(Pos { x: 200 + 30 * step, y: 595 });
        c.handle_mousedown(&down, 800, 600);
        assert!(c.max_range[0] <= c.time_range[0]);
        assert!(c.time_range[0] <= c.time_range[1]);
        assert!(c.time_range[1] <= c.max_range[1]);
    }
}

#[test]
fn mouse_regions() {
    let c = chart_with([0, 100], [0, 1000]);
    assert_eq!(c.get_mouse_region(&Pos { x: 156, y: 5 }, 800, 600), MouseRegion::ColSignameHdr);
    assert_eq!(c.get_mouse_region(&Pos { x: 196, y: 5 }, 800, 600), MouseRegion::ColValueHdr);
    assert_eq!(c.get_mouse_region(&Pos { x: 790, y: 100 }, 800, 600), MouseRegion::YScrollBar);
    assert_eq!(c.get_mouse_region(&Pos { x: 400, y: 590 }, 800, 600), MouseRegion::XScrollRuler);
    assert_eq!(c.get_mouse_region(&Pos { x: 400, y: 300 }, 800, 600), MouseRegion::Waveform);
    assert_eq!(c.get_mouse_region(&Pos { x: 100, y: 300 }, 800, 600), MouseRegion::Outside);
    assert_eq!(c.get_mouse_region(&Pos { x: 400, y: 5 }, 800, 600), MouseRegion::Outside);
}

#[test]
fn signal_area_layout() {
    let c = Chart::new();
    assert_eq!(c.signal_area(800), (196, 588));
}

#[test]
fn click_on_waveform_sets_cursor() {
    let mut c = chart_with([0, 588], [0, 1000]);
    assert!(c.handle_mousedown(&Some(Pos { x: 400, y: 300 }), 800, 600));
    assert_eq!(c.mregion, MouseRegion::Waveform);
    assert_eq!(c.cursor, Some(204));
}

#[test]
fn mousedown_without_position_is_ignored() {
    let mut c = chart_with([0, 100], [0, 1000]);
    assert!(!c.handle_mousedown(&None, 800, 600));
    assert_eq!(c.mregion, MouseRegion::Outside);
}

#[test]
fn scrollbar_and_outside_clicks_are_not_handled() {
    let mut c = chart_with([0, 100], [0, 1000]);
    assert!(!c.handle_mousedown(&Some(Pos { x: 790, y: 300 }), 800, 600));
    assert_eq!(c.mregion, MouseRegion::YScrollBar);
    assert!(!c.handle_mousedown(&Some(Pos { x: 100, y: 300 }), 800, 600));
    assert_eq!(c.mregion, MouseRegion::Outside);
    assert_eq!(c.time_range, [0, 100]);
}

#[test]
fn click_on_bottom_ruler_recentres() {
    let mut c = chart_with([0, 100], [0, 1000]);
    assert!(c.handle_mousedown(&Some(Pos { x: 490, y: 595 }), 800, 600));
    assert_eq!(c.mregion, MouseRegion::XScrollRuler);
    assert_eq!(c.time_range, [450, 550]);
    assert!(c.handle_mousedown(&Some(Pos { x: 780, y: 595 }), 800, 600));
    assert_eq!(c.time_range, [900, 1000]);
    assert!(c.handle_mousedown(&Some(Pos { x: 197, y: 595 }), 800, 600));
    assert_eq!(c.time_range, [0, 100]);
}

#[test]
fn header_drag_keeps_region_and_resizes() {
    let mut c = chart_with([0, 100], [0, 1000]);
    assert!(c.handle_mousedown(&Some(Pos { x: 156, y: 5 }), 800, 600));
    assert_eq!(c.mregion, MouseRegion::ColSignameHdr);
    assert_eq!(c.col_signame, 195_000);
    let (handled, _) = c.handle_mousemove(&Pos { x: 500, y: 300 }, &None, 800, 600, true);
    assert!(handled);
    assert_eq!(c.mregion, MouseRegion::ColSignameHdr);
    assert_eq!(c.col_signame, 625_000);
    let (handled, _) = c.handle_mousemove(&Pos { x: 10, y: 590 }, &None, 800, 600, true);
    assert!(handled);
    assert_eq!(c.mregion, MouseRegion::ColSignameHdr);
    assert_eq!(c.col_signame, 20_000);
    assert!(c.handle_mouseup(&None, 800, 600));
}

#[test]
fn value_divider_drag() {
    let mut c = chart_with([0, 100], [0, 1000]);
    assert!(c.handle_mousedown(&Some(Pos { x: 196, y: 5 }), 800, 600));
    assert_eq!(c.mregion, MouseRegion::ColValueHdr);
    let (handled, _) = c.handle_mousemove(&Pos { x: 790, y: 5 }, &None, 800, 600, true);
    assert!(handled);
    assert_eq!(c.mregion, MouseRegion::ColValueHdr);
    assert_eq!(c.col_value, 760_000);
    let (handled, _) = c.handle_mousemove(&Pos { x: 165, y: 5 }, &None, 800, 600, true);
    assert!(handled);
    assert_eq!(c.col_value, 20_000);
}

#[test]
fn header_drags_respect_minimum_widths() {
    let mut c = chart_with([0, 100], [0, 1000]);
    let w = 800;
    c.handle_mousedown(&Some(Pos { x: 156, y: 5 }), w, 600);
    for x in [-50, 0, 10, 17, 300, 700, 790, 900, 5] {
        c.handle_mousemove(&Pos { x, y: 100 }, &None, w, 600, true);
        assert!(columns_fit(&c, w as i64));
    }
    let vx = ((w as i64 - 16) * (c.col_signame + c.col_value) / 1_000_000) as i32;
    c.handle_mousedown(&Some(Pos { x: vx, y: 5 }), w, 600);
    assert_eq!(c.mregion, MouseRegion::ColValueHdr);
    for x in [-50, 0, 10, 17, 300, 700, 790, 900, 5] {
        c.handle_mousemove(&Pos { x, y: 100 }, &None, w, 600, true);
        assert!(columns_fit(&c, w as i64));
    }
}

#[test]
fn narrow_viewport_still_resizes() {
    let mut c = chart_with([0, 100], [0, 1000]);
    assert!(c.handle_mousedown(&Some(Pos { x: 4, y: 8 }), 40, 600));
    assert_eq!(c.mregion, MouseRegion::ColSignameHdr);
    assert_eq!(c.col_signame, 400_000);
    let (handled, _) = c.handle_mousemove(&Pos { x: 30, y: 5 }, &None, 40, 600, true);
    assert!(handled);
    assert_eq!(c.mregion, MouseRegion::ColSignameHdr);
    assert_eq!(c.col_signame, 150_000);
}

#[test]
fn zero_width_viewport_ignores_divider_drag() {
    let mut c = chart_with([0, 100], [0, 1000]);
    c.mregion = MouseRegion::ColValueHdr;
    let (handled, _) = c.handle_mousemove(&Pos { x: 0, y: 5 }, &None, 0, 600, true);
    assert!(!handled);
    assert_eq!(c.col_value, 50_000);
}

#[test]
fn zoom_out_then_in_restores_odd_width() {
    let mut c = chart_with([400, 601], [0, 1000]);
    c.do_zoom(2, 1);
    assert_eq!(c.time_range, [299, 701]);
    c.do_zoom(1, 2);
    assert_eq!(c.time_range, [400, 601]);
}

#[test]
fn move_without_button_only_sets_icon() {
    let mut c = chart_with([0, 100], [0, 1000]);
    let (handled, icon) = c.handle_mousemove(&Pos { x: 156, y: 5 }, &None, 800, 600, false);
    assert!(!handled);
    assert_eq!(icon, MouseCursor::Column);
    let (_, icon) = c.handle_mousemove(&Pos { x: 400, y: 300 }, &None, 800, 600, false);
    assert_eq!(icon, MouseCursor::Normal);
    assert_eq!(c.mregion, MouseRegion::Outside);
    assert_eq!(c.cursor, None);
}

#[test]
fn digital_path_rise_and_extend() {
    let c = chart_with([0, 100], [0, 1000]);
    let segs = c.digital_path(false, &vec![(true, 50)], 800);
    assert_eq!(
        segs,
        vec![WaveSeg::Rise { x0: 196, x1: 490 }, WaveSeg::Level { x0: 490, x1: 784, high: true }]
    );
}

#[test]
fn digital_path_fall_level_no_extend() {
    let c = chart_with([0, 100], [0, 1000]);
    let segs = c.digital_path(true, &vec![(true, 25), (false, 50), (false, 100)], 800);
    assert_eq!(
        segs,
        vec![
            WaveSeg::Level { x0: 196, x1: 343, high: true },
            WaveSeg::Fall { x0: 343, x1: 490 },
            WaveSeg::Level { x0: 490, x1: 784, high: false },
        ]
    );
    let segs = c.digital_path(true, &vec![], 800);
    assert_eq!(segs, vec![WaveSeg::Level { x0: 196, x1: 784, high: true }]);
}

#[test]
fn locator_box() {
    let c = chart_with([250, 500], [0, 1000]);
    assert_eq!(c.locator_span(800), (343, 490));
    let c = chart_with([500, 500], [0, 1000]);
    assert_eq!(c.locator_span(800), (489, 491));
}

#[test]
fn well_formedness_check() {
    let mut c = Chart::new();
    assert!(c.is_wf());
    c.col_value = -1;
    assert!(!c.is_wf());
    let mut c = Chart::new();
    c.time_range = [5, 1];
    assert!(!c.is_wf());
}
