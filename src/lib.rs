//! Decoder for wavetable instrument banks stored in a RIFF container.

pub mod binary_reader;
pub mod chunk;
pub mod error;
pub mod four_cc;
pub mod generator;
pub mod instrument;
pub mod preset;
pub mod region;
pub mod sample_header;
pub mod soundfont;
pub mod soundfont_info;
pub mod soundfont_parameters;
pub mod soundfont_sampledata;
pub mod zone;

pub use error::{MidiFileError, ParseError, SynthesizerError};
pub use four_cc::FourCC;
pub use instrument::{Instrument, InstrumentRegion};
pub use preset::{Preset, PresetRegion};
pub use sample_header::SampleHeader;
pub use soundfont::SoundFont;
pub use soundfont_info::{SoundFontInfo, SoundFontVersion};
