use vstd::prelude::*;

use crate::four_cc::FourCC;

verus! {

/// An error when initializing a synthesizer.
#[derive(Debug, PartialEq, Eq)]
#[non_exhaustive]
pub enum SynthesizerError {
    SampleRateOutOfRange(i32),
    BlockSizeOutOfRange(usize),
    MaximumPolyphonyOutOfRange(usize),
}

/// An error when decoding a bank.
#[derive(Debug, PartialEq, Eq)]
pub enum ParseError {
    /// The input ended before the bytes that a read asked for.
    IoError,
    RiffChunkNotFound,
    InvalidRiffChunkType { expected: FourCC, actual: FourCC },
    ListChunkNotFound,
    InvalidListChunkType { expected: FourCC, actual: FourCC },
    ListContainsUnknownId(FourCC),
    SampleDataNotFound,
    UnsupportedSampleFormat,
    SubChunkNotFound(FourCC),
    InvalidPresetList,
    InvalidInstrumentId { preset_id: usize, instrument_id: usize },
    InvalidPreset(usize),
    PresetNotFound,
    InvalidInstrumentList,
    InvalidSampleId { instrument_id: usize, sample_id: usize },
    InvalidInstrument(usize),
    InstrumentNotFound,
    InvalidSampleHeaderList,
    InvalidZoneList,
    ZoneNotFound,
    InvalidGeneratorList,
    SanityCheckFailed,
}

/// An error when decoding a MIDI file.
#[derive(Debug, PartialEq, Eq)]
#[non_exhaustive]
pub enum MidiFileError {
    /// The input ended before the bytes that a read asked for.
    IoError,
    InvalidChunkType { expected: FourCC, actual: FourCC },
    InvalidChunkData(FourCC),
    UnsupportedFormat(i16),
    InvalidTempoValue,
}

} // verus!
