//! Digital signals read from a waveform file.
use vstd::prelude::*;
use crate::times::Time;
use crate::wavefmt::{WaveError, WaveFile};

verus! {

/// Reading digital samples from a waveform file.
pub trait DigiSigIo {
    /// Read the next record into `buf` and return field `sig`'s value and
    /// the record's time.
    fn read_record_with_time(&mut self, buf: &mut Vec<u8>, sig: usize) -> Result<(bool, Time), WaveError>;
}

/// A digital signal: field `sig` of a waveform file.
#[derive(Debug, Clone, Copy)]
pub struct DigiSig {
    pub sig: usize,
}

/// A scan of a file-backed digital signal over a time range.
#[derive(Debug)]
pub struct DigiSigIter {
    pub range: [Time; 2],
    /// Buffer for one record.
    pub recbuf: Vec<u8>,
    /// Whether the scan has ended.
    pub done: bool,
}

impl DigiSig {
    /// The signal for field `idx`.
    pub fn new(idx: usize) -> (r: Self)
        ensures
            r.sig == idx,
    {
        DigiSig { sig: idx }
    }

    /// Lane height, in pixels.
    pub fn get_height(&self) -> (r: i64)
        ensures
            r == crate::HEIGHT_DIGITAL,
    {
        crate::HEIGHT_DIGITAL
    }

    /// The field's name, as the file gives it.
    pub fn get_label<W: WaveFile>(&self, wave: &W) -> String {
        let fi = wave.get_field_info(self.sig);
        fi.name.clone()
    }

    /// Start a scan of `range`: the reader seeks to the range, and the
    /// record buffer gets the file's record size (empty when it varies).
    /// A reader error ends the call with that error.
    pub fn iter_range<W: WaveFile>(&self, wave: &mut W, range: &[Time; 2]) -> (r: Result<DigiSigIter, WaveError>)
        ensures
            r matches Ok(it) ==> it.range == *range && !it.done,
    {
        let _sample_bounds = wave.prepare_iter_range(range)?;
        let recsize = wave.get_record_size();
        Ok(DigiSigIter::new_scan(range, recsize))
    }

    /// Value at time `t`; a file-backed signal has no point lookup yet and reads low.
    pub fn get_value_at(&self, _t: Time) -> (r: bool)
        ensures
            !r,
    {
        false
    }
}

impl DigiSigIter {
    /// A fresh scan of `range` with a zeroed record buffer of `recsize`
    /// bytes (empty when records vary in size).
    pub fn new_scan(range: &[Time; 2], recsize: Option<usize>) -> (r: DigiSigIter)
        ensures
            r.range == *range,
            !r.done,
            r.recbuf@.len() == match recsize {
                Some(n) => n as int,
                None => 0,
            },
    {
        let mut recbuf: Vec<u8> = Vec::new();
        if let Some(n) = recsize {
            let mut i: usize = 0;
            while i < n
                invariant
                    i <= n,
                    recbuf@.len() == i,
                decreases n - i,
            {
                recbuf.push(0u8);
                i = i + 1;
            }
        }
        DigiSigIter { range: *range, recbuf, done: false }
    }

    /// Decide on one read: a record inside the range is handed out, a
    /// record after the range or a failed read ends the scan.
    pub fn accept(&mut self, read: Result<(bool, Time), WaveError>) -> (r: Option<(bool, Time)>)
        ensures
            r == match read {
                Ok((v, t)) => if t <= old(self).range[1] {
                    Some((v, t))
                } else {
                    None
                },
                Err(_) => None,
            },
            final(self).done == r.is_none(),
            final(self).range == old(self).range,
            final(self).recbuf == old(self).recbuf,
    {
        match read {
            Ok((val, time)) => {
                if time <= self.range[1] {
                    self.done = false;
                    Some((val, time))
                } else {
                    self.done = true;
                    None
                }
            },
            Err(_) => {
                self.done = true;
                None
            },
        }
    }

    /// Read the next sample of field `smpl` from `wave`. The scan ends, for
    /// good, at a read error or at the first record after the range.
    pub fn next<W: DigiSigIo>(&mut self, smpl: &DigiSig, wave: &mut W) -> (r: Option<(bool, Time)>)
        ensures
            final(self).range == old(self).range,
            old(self).done ==> r.is_none() && final(self).done,
            r matches Some(s) ==> s.1 <= old(self).range[1] && !final(self).done,
            r.is_none() ==> final(self).done,
    {
        if self.done {
            return None;
        }
        let read = wave.read_record_with_time(&mut self.recbuf, smpl.sig);
        self.accept(read)
    }
}

} // verus!
