//! The data store: the ordered signal list and the samplers behind it.
use vstd::prelude::*;
use crate::sampler::digisiggen::{gen_wf, DigiSigGen, SigGenType};
use crate::times::{Time, TimeScale, TimeUnit};
use crate::{HEIGHT_ANALOG, HEIGHT_DIGITAL};

verus! {

/// Kinds of waveform file the store can be asked to load.
#[derive(Debug, Clone, Copy, PartialEq, Eq, Structural)]
pub enum FileType {
    TryAny,
}

/// Whether a signal is digital or analog.
#[derive(Debug, Clone, Copy, PartialEq, Eq, Structural)]
pub enum SigType {
    Digital,
    Analog,
}

/// Why loading a waveform failed.
#[derive(Debug, Clone, Copy, PartialEq, Eq, Structural)]
pub enum LoadError {
    /// No reader exists for this file type.
    Unsupported(FileType),
}

/// Signals in display order, each a kind and an index into the samplers of
/// that kind. Analog samplers are of type `A`.
pub struct DataStore<A> {
    pub timescale: TimeScale,
    pub sigs: Vec<(SigType, usize)>,
    pub digsam: Vec<DigiSigGen>,
    pub anasam: Vec<A>,
}

/// Number of signals in each group of the test layout.
pub const TEST_GROUP: usize = 12;

/// Number of groups in the test layout.
pub const TEST_GROUPS: usize = 5;

/// Kind of the signal at position `j` of a test group.
pub open spec fn test_sig_type(j: int) -> SigType {
    if j == 1 || j == 5 {
        SigType::Analog
    } else {
        SigType::Digital
    }
}

/// Analog signals before position `j` of a test group.
pub open spec fn analog_before(j: int) -> int {
    (if j > 1 {
        1int
    } else {
        0
    }) + (if j > 5 {
        1int
    } else {
        0
    })
}

/// Sampler index of test signal `k`, among the samplers of its kind.
pub open spec fn test_index(k: int) -> int {
    let n = k / 12;
    let j = k % 12;
    if test_sig_type(j) == SigType::Digital {
        10 * n + (j - analog_before(j))
    } else {
        2 * n + analog_before(j)
    }
}

/// Generator of the digital signal at position `j` of a test group.
pub open spec fn test_digital(j: int) -> DigiSigGen {
    DigiSigGen {
        sig: j as usize,
        stype: if j == 0 {
            SigGenType::Clock(1_000_000)
        } else if j == 1 || j == 5 || j == 6 || j == 7 {
            SigGenType::Fixed(true)
        } else if j == 3 {
            SigGenType::Pulse(57_000_000, 58_000_000, 8_000_000)
        } else if j == 9 {
            SigGenType::Pulse(10_000_000, 99_000_000, 8_000_000)
        } else {
            SigGenType::Fixed(false)
        },
    }
}

/// Lane height of a signal kind.
pub open spec fn lane_height(t: SigType) -> int {
    if t == SigType::Digital {
        HEIGHT_DIGITAL as int
    } else {
        HEIGHT_ANALOG as int
    }
}

/// Total lane height of the first `n` signals.
pub open spec fn lanes_height(sigs: Seq<(SigType, usize)>, n: int) -> int
    decreases n,
{
    if n <= 0 {
        0
    } else {
        lanes_height(sigs, n - 1) + lane_height(sigs[n - 1].0)
    }
}

fn test_type_at(j: usize) -> (r: SigType)
    ensures
        r == test_sig_type(j as int),
{
    if j == 1 || j == 5 {
        SigType::Analog
    } else {
        SigType::Digital
    }
}

fn test_digital_at(j: usize) -> (r: DigiSigGen)
    ensures
        r == test_digital(j as int),
        r.wf(),
{
    if j == 0 {
        DigiSigGen::new_clock(j, 1_000_000)
    } else if j == 1 || j == 5 || j == 6 || j == 7 {
        DigiSigGen::new_fixed(j, true)
    } else if j == 3 {
        DigiSigGen::new_pulse(j, 57_000_000, 58_000_000, 8_000_000)
    } else if j == 9 {
        DigiSigGen::new_pulse(j, 10_000_000, 99_000_000, 8_000_000)
    } else {
        DigiSigGen::new_fixed(j, false)
    }
}

impl<A> DataStore<A> {
    /// Every signal refers to an existing sampler and every generator is well defined.
    pub open spec fn wf(&self) -> bool {
        &&& forall|k: int|
            0 <= k < self.sigs@.len() ==> match #[trigger] self.sigs@[k] {
                (SigType::Digital, d) => d < self.digsam@.len(),
                (SigType::Analog, a) => a < self.anasam@.len(),
            }
        &&& forall|d: int| 0 <= d < self.digsam@.len() ==> gen_wf(#[trigger] self.digsam@[d].stype)
    }

    /// An empty store.
    pub fn new(timescale: TimeScale) -> (r: Self)
        ensures
            r.wf(),
            r.timescale == timescale,
            r.sigs@.len() == 0,
            r.digsam@.len() == 0,
            r.anasam@.len() == 0,
    {
        DataStore { timescale, sigs: Vec::new(), digsam: Vec::new(), anasam: Vec::new() }
    }

    /// Load a waveform file. No file format has a reader yet, so this
    /// always fails and leaves the store as it was.
    pub fn load_wave(&mut self, _path: &str, ftype: FileType) -> (r: Result<(), LoadError>)
        ensures
            r == Err::<(), LoadError>(LoadError::Unsupported(ftype)),
            final(self).sigs@ == old(self).sigs@,
            final(self).digsam@ == old(self).digsam@,
            final(self).anasam@ == old(self).anasam@,
            final(self).timescale == old(self).timescale,
    {
        match ftype {
            FileType::TryAny => Err(LoadError::Unsupported(ftype)),
        }
    }

    /// The test layout: five groups of twelve signals, two of them analog
    /// in each group, with clock, pulse and constant generators for the
    /// digital ones. `make_analog` builds the analog sampler for a group
    /// position and the number of analog samplers made before it.
    pub fn new_test<F: Fn(usize, usize) -> A>(timescale: TimeScale, make_analog: F) -> (r: Self)
        requires
            forall|j: usize, n: usize| #[trigger] make_analog.requires((j, n)),
        ensures
            r.wf(),
            r.timescale == timescale,
            r.sigs@.len() == 60,
            r.digsam@.len() == 50,
            r.anasam@.len() == 10,
            forall|k: int|
                0 <= k < 60 ==> #[trigger] r.sigs@[k] == (test_sig_type(k % 12), test_index(k) as usize),
            forall|k: int|
                0 <= k < 60 && test_sig_type(k % 12) == SigType::Digital ==> r.digsam@[test_index(k)]
                    == test_digital(#[trigger] (k % 12)),
            forall|k: int|
                0 <= k < 60 && test_sig_type(k % 12) == SigType::Analog ==> make_analog.ensures(
                    ((k % 12) as usize, test_index(k) as usize),
                    #[trigger] r.anasam@[test_index(k)],
                ),
    {
        let mut sigs: Vec<(SigType, usize)> = Vec::new();
        let mut digsam: Vec<DigiSigGen> = Vec::new();
        let mut anasam: Vec<A> = Vec::new();
        let total = TEST_GROUP * TEST_GROUPS;
        let mut i: usize = 0;
        while i < total
            invariant
                total == 60,
                0 <= i <= 60,
                forall|j: usize, n: usize| #[trigger] make_analog.requires((j, n)),
                sigs@.len() == i,
                digsam@.len() == 10 * (i / 12) + (i % 12 - analog_before((i % 12) as int)),
                anasam@.len() == 2 * (i / 12) + analog_before((i % 12) as int),
                forall|k: int|
                    0 <= k < i ==> #[trigger] sigs@[k] == (test_sig_type(k % 12), test_index(k) as usize),
                forall|k: int|
                    0 <= k < i && test_sig_type(k % 12) == SigType::Digital ==> digsam@[test_index(k)]
                        == test_digital(#[trigger] (k % 12)),
                forall|k: int|
                    0 <= k < i && test_sig_type(k % 12) == SigType::Analog ==> make_analog.ensures(
                        ((k % 12) as usize, test_index(k) as usize),
                        #[trigger] anasam@[test_index(k)],
                    ),
                forall|d: int| 0 <= d < digsam@.len() ==> gen_wf(#[trigger] digsam@[d].stype),
            decreases 60 - i,
        {
            let j = i % TEST_GROUP;
            let sigtype = test_type_at(j);
            let ghost old_dig = digsam@;
            let ghost old_ana = anasam@;
            let samidx = if sigtype == SigType::Digital {
                let cur = digsam.len();
                digsam.push(test_digital_at(j));
                cur
            } else {
                let cur = anasam.len();
                let a = make_analog(j, cur);
                anasam.push(a);
                cur
            };
            sigs.push((sigtype, samidx));
            proof {
                assert(test_index(i as int) == samidx);
                assert forall|k: int|
                    0 <= k < i && test_sig_type(k % 12) == SigType::Digital implies digsam@[test_index(k)]
                    == test_digital(#[trigger] (k % 12)) by {
                    assert(test_index(k) < old_dig.len());
                }
                assert forall|k: int|
                    0 <= k < i && test_sig_type(k % 12) == SigType::Analog implies make_analog.ensures(
                    ((k % 12) as usize, test_index(k) as usize),
                    #[trigger] anasam@[test_index(k)],
                ) by {
                    assert(test_index(k) < old_ana.len());
                }
            }
            i = i + 1;
        }
        let r = DataStore { timescale, sigs, digsam, anasam };
        proof {
            assert forall|k: int| 0 <= k < r.sigs@.len() implies match #[trigger] r.sigs@[k] {
                (SigType::Digital, d) => d < r.digsam@.len(),
                (SigType::Analog, a) => a < r.anasam@.len(),
            } by {
                assert(r.sigs@[k] == (test_sig_type(k % 12), test_index(k) as usize));
            }
        }
        r
    }

    /// Earliest start and latest end of all waveforms.
    pub fn get_range(&self) -> (r: (Time, Time))
        ensures
            r == (0i64, 10_000_000_000i64),
    {
        (0, 10_000_000_000)
    }

    /// Number of signals.
    pub fn get_num_signals(&self) -> (r: usize)
        ensures
            r == self.sigs@.len(),
    {
        self.sigs.len()
    }

    /// Vertical offset of signal `sig`: the lane heights of the signals above it.
    pub fn get_signal_ypos(&self, sig: usize) -> (r: i64)
        requires
            sig <= self.sigs@.len(),
            lanes_height(self.sigs@, sig as int) <= i64::MAX,
        ensures
            r == lanes_height(self.sigs@, sig as int),
    {
        let mut acc: i128 = 0;
        let mut n: usize = 0;
        while n < sig
            invariant
                n <= sig <= self.sigs@.len(),
                acc == lanes_height(self.sigs@, n as int),
                0 <= acc <= HEIGHT_ANALOG * n,
            decreases sig - n,
        {
            let (sigtype, _) = self.sigs[n];
            acc = acc + if sigtype == SigType::Digital {
                HEIGHT_DIGITAL as i128
            } else {
                HEIGHT_ANALOG as i128
            };
            n = n + 1;
        }
        acc as i64
    }

    /// Kind of signal `sig` and its index among the samplers of that kind.
    pub fn get_signal_type_idx(&self, sig: usize) -> (r: (SigType, usize))
        requires
            sig < self.sigs@.len(),
        ensures
            r == self.sigs@[sig as int],
    {
        self.sigs[sig]
    }

    /// The digital sampler at `didx`, for exclusive use.
    pub fn get_dig_sampler(&mut self, didx: usize) -> (r: &mut DigiSigGen)
        requires
            didx < old(self).digsam@.len(),
        ensures
            *r == old(self).digsam@[didx as int],
            final(self).digsam@ == old(self).digsam@.update(didx as int, *final(r)),
            final(self).sigs@ == old(self).sigs@,
            final(self).anasam@ == old(self).anasam@,
            final(self).timescale == old(self).timescale,
    {
        &mut self.digsam[didx]
    }

    /// The analog sampler at `aidx`, for exclusive use.
    pub fn get_ana_sampler(&mut self, aidx: usize) -> (r: &mut A)
        requires
            aidx < old(self).anasam@.len(),
        ensures
            *r == old(self).anasam@[aidx as int],
            final(self).anasam@ == old(self).anasam@.update(aidx as int, *final(r)),
            final(self).sigs@ == old(self).sigs@,
            final(self).digsam@ == old(self).digsam@,
            final(self).timescale == old(self).timescale,
    {
        &mut self.anasam[aidx]
    }
}

impl<A> Default for DataStore<A> {
    fn default() -> (r: Self)
        ensures
            r.wf(),
            r.timescale == (TimeScale { time: 1, unit: TimeUnit::Fs }),
            r.sigs@.len() == 0,
            r.digsam@.len() == 0,
            r.anasam@.len() == 0,
    {
        DataStore::new(TimeScale { time: 1, unit: TimeUnit::Fs })
    }
}

} // verus!
