//! The boundary to waveform file readers.
use vstd::prelude::*;
use crate::times::Time;

verus! {

/// What a record field holds.
#[non_exhaustive]
#[derive(Debug, PartialEq, Eq, Clone, Copy, Structural)]
pub enum FieldType {
    Timestamp,
    Digital,
    /// A bus of this many bits.
    DigiBus(usize),
    Analog,
}

/// How a numeric field is encoded.
#[non_exhaustive]
#[derive(Debug, PartialEq, Eq, Clone, Copy, Structural)]
pub enum NumType {
    Unknown,
    Float,
    UnsignedInteger,
    Integer,
}

/// Name and type of one record field.
#[derive(Debug)]
pub struct FieldInfo {
    pub name: String,
    pub ftype: FieldType,
}

/// Failures reported by a waveform reader.
#[derive(Debug, PartialEq, Eq, Clone, Copy, Structural)]
pub enum WaveError {
    /// The file is not of a type this reader understands.
    Unsupported,
    /// A record could not be decoded.
    Malformed,
}

/// A waveform file reader.
pub trait WaveFile {
    /// Check the wave file matches the expected format.
    fn check_format(&mut self) -> Result<bool, WaveError> {
        Ok(false)
    }

    /// Size (in bytes) of a wave record, when records have a fixed size.
    fn get_record_size(&self) -> Option<usize>;

    /// Time range covered by this waveform.
    fn get_range(&self) -> (Time, Time);

    /// Number of fields; `check_format` must have read the file header.
    fn get_num_fields(&self) -> usize;

    /// Field details; `check_format` must have read the file header.
    fn get_field_info(&self, field: usize) -> &FieldInfo;

    /// Number of rows (data points) if known; `check_format` must have read the file header.
    fn get_num_rows(&self) -> Option<usize>;

    /// Prepare to read a range of waveform data, returning the first and
    /// last record numbers for it.
    fn prepare_iter_range(&mut self, range: &[Time; 2]) -> Result<[usize; 2], WaveError>;
}

} // verus!
