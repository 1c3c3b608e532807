use wavechart::{DataStore, FileType, LoadError, SigGenType, SigType, TimeScale, TimeUnit};

fn test_store() -> DataStore<(usize, usize)> {
    DataStore::new_test(TimeScale { time: 1, unit: TimeUnit::Ps }, |j, n| (j, n))
}

#[test]
fn empty_store() {
    let ds: DataStore<u8> = DataStore::new(TimeScale::default());
    assert_eq!(ds.get_num_signals(), 0);
    let ds: DataStore<u8> = DataStore::default();
    assert_eq!(ds.get_num_signals(), 0);
    assert_eq!(ds.timescale, TimeScale { time: 1, unit: TimeUnit::Fs });
}

#[test]
fn load_wave_is_unsupported() {
    let mut ds = test_store();
    assert_eq!(ds.load_wave("trace.bin", FileType::TryAny), Err(LoadError::Unsupported(FileType::TryAny)));
    assert_eq!(ds.get_num_signals(), 60);
}

#[test]
fn test_layout() {
    let ds = test_store();
    assert_eq!(ds.get_num_signals(), 60);
    assert_eq!(ds.digsam.len(), 50);
    assert_eq!(ds.anasam.len(), 10);
    assert_eq!(ds.get_signal_type_idx(0), (SigType::Digital, 0));
    assert_eq!(ds.get_signal_type_idx(1), (SigType::Analog, 0));
    assert_eq!(ds.get_signal_type_idx(2), (SigType::Digital, 1));
    assert_eq!(ds.get_signal_type_idx(5), (SigType::Analog, 1));
    assert_eq!(ds.get_signal_type_idx(13), (SigType::Analog, 2));
    assert_eq!(ds.get_signal_type_idx(12), (SigType::Digital, 10));
    assert_eq!(ds.get_signal_type_idx(59), (SigType::Digital, 49));
}

#[test]
fn test_generators() {
    let ds = test_store();
    assert_eq!(ds.digsam[0].stype, SigGenType::Clock(1_000_000));
    assert_eq!(ds.digsam[2].stype, SigGenType::Pulse(57_000_000, 58_000_000, 8_000_000));
    assert_eq!(ds.digsam[4].stype, SigGenType::Fixed(true));
    assert_eq!(ds.digsam[7].stype, SigGenType::Pulse(10_000_000, 99_000_000, 8_000_000));
    assert_eq!(ds.digsam[1].stype, SigGenType::Fixed(false));
    assert_eq!(ds.digsam[10].stype, SigGenType::Clock(1_000_000));
    assert_eq!(ds.digsam[10].sig, 0);
    assert_eq!(ds.anasam[0], (1, 0));
    assert_eq!(ds.anasam[1], (5, 1));
    assert_eq!(ds.anasam[2], (1, 2));
}

#[test]
fn signal_offsets() {
    let ds = test_store();
    assert_eq!(ds.get_signal_ypos(0), 0);
    assert_eq!(ds.get_signal_ypos(1), 16);
    assert_eq!(ds.get_signal_ypos(2), 64);
    assert_eq!(ds.get_signal_ypos(12), 10 * 16 + 2 * 48);
}

#[test]
fn store_range() {
    let ds = test_store();
    assert_eq!(ds.get_range(), (0, 10_000_000_000));
}

#[test]
fn samplers_by_index() {
    let mut ds = test_store();
    ds.get_dig_sampler(1).stype = SigGenType::Fixed(true);
    assert_eq!(ds.digsam[1].stype, SigGenType::Fixed(true));
    *ds.get_ana_sampler(3) = (9, 9);
    assert_eq!(ds.anasam[3], (9, 9));
}
