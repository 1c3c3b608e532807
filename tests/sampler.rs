use wavechart::sampler::digisiggen::DigiSigIter;
use wavechart::sampler::digisig::DigiSigIter as FileIter;
use wavechart::sampler::{iter_step, step_times};
use wavechart::{
    DigiSig, DigiSigGen, DigiSigIo, FieldInfo, FieldType, Sampler, SigGenType, Time, TimeScale,
    WaveError, WaveFile,
};

fn ts() -> TimeScale {
    TimeScale::default()
}

#[test]
fn fixed_yields_both_endpoints() {
    let g = DigiSigGen::new_fixed(2, true);
    assert_eq!(g.iter_range(&[10, 20]), vec![(true, 10), (true, 20)]);
    let g = DigiSigGen::new_fixed(2, false);
    assert_eq!(g.iter_range(&[-5, 5]), vec![(false, -5), (false, 5)]);
}

#[test]
fn fixed_on_empty_range_yields_start() {
    let g = DigiSigGen::new_fixed(2, true);
    assert_eq!(g.iter_range(&[10, 10]), vec![(true, 10)]);
}

#[test]
fn clock_edges_over_whole_periods() {
    let g = DigiSigGen::new_clock(0, 10);
    let s = g.iter_range(&[1, 31]);
    assert_eq!(
        s,
        vec![(false, 5), (true, 10), (false, 15), (true, 20), (false, 25), (true, 30)]
    );
    for w in s.windows(2) {
        assert_eq!(w[1].1 - w[0].1, 5);
        assert_eq!(w[1].0, !w[0].0);
    }
}

#[test]
fn clock_edge_at_range_start_is_skipped() {
    let g = DigiSigGen::new_clock(0, 10);
    assert_eq!(g.iter_range(&[0, 10]), vec![(false, 5), (true, 10)]);
    assert_eq!(g.iter_range(&[0, 20]), vec![(false, 5), (true, 10), (false, 15), (true, 20)]);
    assert_eq!(g.iter_range(&[-7, -3]), vec![(false, -5)]);
    assert_eq!(g.iter_range(&[10, 10]), vec![]);
}

#[test]
fn clock_values() {
    let g = DigiSigGen::new_clock(0, 10);
    assert!(g.get_value_at(3, ts()));
    assert!(!g.get_value_at(7, ts()));
    assert!(g.get_value_at(10, ts()));
    assert!(!g.get_value_at(-3, ts()));
    assert!(g.get_value_at(-7, ts()));
}

#[test]
fn pulse_sample_at() {
    let g = DigiSigGen::new_pulse(0, 10, 20, 50);
    assert!(!g.get_value_at(5, ts()));
    assert!(g.get_value_at(15, ts()));
    assert!(!g.get_value_at(45, ts()));
    assert!(g.get_value_at(65, ts()));
    assert!(g.get_value_at(10, ts()));
    assert!(!g.get_value_at(20, ts()));
}

#[test]
fn pulse_edges() {
    let g = DigiSigGen::new_pulse(0, 10, 20, 50);
    assert_eq!(g.iter_range(&[0, 100]), vec![(true, 10), (false, 20), (true, 60), (false, 70)]);
    assert_eq!(g.iter_range(&[15, 100]), vec![(false, 20), (true, 60), (false, 70)]);
    assert_eq!(g.iter_range(&[0, 5]), vec![]);
}

#[test]
fn pulse_stops_before_edge_at_range_end() {
    let g = DigiSigGen::new_pulse(0, 10, 20, 50);
    assert_eq!(g.iter_range(&[0, 60]), vec![(true, 10), (false, 20)]);
}

#[test]
fn cursor_iterator_hands_out_samples() {
    let g = DigiSigGen::new_clock(0, 4);
    let mut it: DigiSigIter = g.iter(&[1, 6]);
    assert_eq!(it.next(), Some((false, 2)));
    assert_eq!(it.next(), Some((true, 4)));
    assert_eq!(it.next(), Some((false, 6)));
    assert_eq!(it.next(), None);
    assert_eq!(it.next(), None);
}

#[test]
fn generator_label_and_height() {
    let g = DigiSigGen::new_fixed(7, true);
    assert_eq!(g.get_label(), "signal_7");
    assert_eq!(DigiSigGen::new_fixed(123, true).get_label(), "signal_123");
    assert_eq!(g.get_height(), 16);
    assert!(g.is_wf());
    let bad = DigiSigGen { sig: 0, stype: SigGenType::Clock(3) };
    assert!(!bad.is_wf());
}

#[test]
fn generator_through_sampler_trait() {
    let g = DigiSigGen::new_clock(1, 10);
    let s: &dyn Sampler<bool> = &g;
    assert_eq!(s.get_height(), 16);
    assert_eq!(s.get_yscale(), 16);
    assert_eq!(s.get_label(), "signal_1");
    assert_eq!(s.iter_range(&[1, 11]), vec![(false, 5), (true, 10)]);
    assert!(s.get_value_at(1, ts()));
}

struct Recording {
    field: FieldInfo,
    rows: Vec<(bool, Time)>,
    next: usize,
    fail_at: Option<usize>,
}

impl WaveFile for Recording {
    fn check_format(&mut self) -> Result<bool, WaveError> {
        Ok(true)
    }
    fn get_record_size(&self) -> Option<usize> {
        Some(4)
    }
    fn get_range(&self) -> (Time, Time) {
        (0, 100)
    }
    fn get_num_fields(&self) -> usize {
        1
    }
    fn get_field_info(&self, _field: usize) -> &FieldInfo {
        &self.field
    }
    fn get_num_rows(&self) -> Option<usize> {
        Some(self.rows.len())
    }
    fn prepare_iter_range(&mut self, range: &[Time; 2]) -> Result<[usize; 2], WaveError> {
        if range[0] < 0 {
            return Err(WaveError::Unsupported);
        }
        self.next = 0;
        Ok([0, self.rows.len()])
    }
}

impl DigiSigIo for Recording {
    fn read_record_with_time(&mut self, buf: &mut Vec<u8>, _sig: usize) -> Result<(bool, Time), WaveError> {
        assert_eq!(buf.len(), 4);
        if Some(self.next) == self.fail_at {
            return Err(WaveError::Malformed);
        }
        let r = self.rows.get(self.next).copied().ok_or(WaveError::Malformed)?;
        self.next += 1;
        Ok(r)
    }
}

fn recording(fail_at: Option<usize>) -> Recording {
    Recording {
        field: FieldInfo { name: "clk".to_string(), ftype: FieldType::Digital },
        rows: vec![(true, 10), (false, 20), (true, 30), (false, 40)],
        next: 0,
        fail_at,
    }
}

#[test]
fn file_signal_reads_until_range_end() {
    let mut wave = recording(None);
    let sig = DigiSig::new(0);
    assert_eq!(sig.get_label(&wave), "clk");
    assert_eq!(sig.get_height(), 16);
    assert!(!sig.get_value_at(15));
    let mut it = sig.iter_range(&mut wave, &[0, 25]).unwrap();
    assert_eq!(it.recbuf.len(), 4);
    assert_eq!(it.next(&sig, &mut wave), Some((true, 10)));
    assert_eq!(it.next(&sig, &mut wave), Some((false, 20)));
    assert_eq!(it.next(&sig, &mut wave), None);
    assert_eq!(it.next(&sig, &mut wave), None);
}

#[test]
fn file_signal_stops_at_malformed_record() {
    let mut wave = recording(Some(1));
    let sig = DigiSig::new(0);
    let mut it = sig.iter_range(&mut wave, &[0, 100]).unwrap();
    assert_eq!(it.next(&sig, &mut wave), Some((true, 10)));
    assert_eq!(it.next(&sig, &mut wave), None);
    assert!(it.done);
}

#[test]
fn file_signal_reports_reader_error() {
    let mut wave = recording(None);
    let sig = DigiSig::new(0);
    assert!(matches!(sig.iter_range(&mut wave, &[-1, 100]), Err(WaveError::Unsupported)));
}

#[test]
fn iteration_step_one_sample_per_pixel() {
    let ps = TimeScale { time: 1, unit: wavechart::TimeUnit::Ps };
    assert_eq!(iter_step(&[0, 1000], &ps, 100), 10);
    assert_eq!(iter_step(&[0, 1000], &TimeScale { time: 3, unit: wavechart::TimeUnit::Ps }, 100), 30);
    assert_eq!(iter_step(&[0, 50], &ps, 100), 1);
    assert_eq!(iter_step(&[5, 5], &ps, 100), 1);
    assert_eq!(iter_step(&[0, 19], &ps, 10), 2);
    assert_eq!(step_times(&[0, 19], iter_step(&[0, 19], &ps, 10)).len(), 10);
}

#[test]
fn step_times_cover_range() {
    assert_eq!(step_times(&[0, 10], 3), vec![0, 3, 6, 9]);
    assert_eq!(step_times(&[-4, 4], 4), vec![-4, 0, 4]);
    assert_eq!(step_times(&[7, 7], 5), vec![7]);
}

#[test]
fn new_scan_sizes_record_buffer() {
    let it = FileIter::new_scan(&[0, 10], Some(3));
    assert_eq!(it.recbuf, vec![0u8, 0, 0]);
    assert_eq!(it.range, [0, 10]);
    assert!(!it.done);
    let it = FileIter::new_scan(&[0, 10], None);
    assert!(it.recbuf.is_empty());
}

#[test]
fn accept_decides_on_each_read() {
    let mut it = FileIter::new_scan(&[0, 10], None);
    assert_eq!(it.accept(Ok((true, 5))), Some((true, 5)));
    assert!(!it.done);
    assert_eq!(it.accept(Ok((false, 10))), Some((false, 10)));
    assert_eq!(it.accept(Ok((true, 11))), None);
    assert!(it.done);
    let mut it = FileIter::new_scan(&[0, 10], None);
    assert_eq!(it.accept(Err(WaveError::Malformed)), None);
    assert!(it.done);
}
