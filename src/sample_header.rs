use vstd::prelude::*;

use crate::binary_reader::{i32_le, i8_of, text_at, u16_le, BinaryReader};
use crate::error::ParseError;

verus! {

/// Byte size of one sample header record.
pub const SAMPLE_HEADER_SIZE: usize = 46;

/// Where a sample lies in the shared wave data, and how it is to be played.
#[derive(Debug)]
pub struct SampleHeader {
    pub name: String,
    pub start: i32,
    pub end: i32,
    pub start_loop: i32,
    pub end_loop: i32,
    pub sample_rate: i32,
    pub original_pitch: u8,
    pub pitch_correction: i8,
    pub link: u16,
    pub sample_type: u16,
}

/// Whether `h` is the sample header record at `p`.
pub open spec fn sample_header_at(h: SampleHeader, d: Seq<u8>, p: int) -> bool {
    &&& h.name@ == text_at(d, p, 20)
    &&& h.start == i32_le(d, p + 20)
    &&& h.end == i32_le(d, p + 24)
    &&& h.start_loop == i32_le(d, p + 28)
    &&& h.end_loop == i32_le(d, p + 32)
    &&& h.sample_rate == i32_le(d, p + 36)
    &&& h.original_pitch == d[p + 40]
    &&& h.pitch_correction == i8_of(d[p + 41])
    &&& h.link == u16_le(d, p + 42)
    &&& h.sample_type == u16_le(d, p + 44)
}

impl SampleHeader {
    fn new(reader: &mut BinaryReader) -> (r: Result<SampleHeader, ParseError>)
        requires
            old(reader).has(46),
        ensures
            r is Ok,
            old(reader).advanced(46, final(reader)),
            sample_header_at(r->Ok_0, old(reader).data@, old(reader).pos as int),
    {
        let name = reader.read_fixed_length_string(20)?;
        let start = reader.read_i32()?;
        let end = reader.read_i32()?;
        let start_loop = reader.read_i32()?;
        let end_loop = reader.read_i32()?;
        let sample_rate = reader.read_i32()?;
        let original_pitch = reader.read_u8()?;
        let pitch_correction = reader.read_i8()?;
        let link = reader.read_u16()?;
        let sample_type = reader.read_u16()?;
        Ok(
            SampleHeader {
                name,
                start,
                end,
                start_loop,
                end_loop,
                sample_rate,
                original_pitch,
                pitch_correction,
                link,
                sample_type,
            },
        )
    }

    /// Decodes a sample header chunk of `size` bytes; its last record is a terminator and
    /// is dropped.
    pub fn read_from_chunk(reader: &mut BinaryReader, size: usize) -> (r: Result<
        Vec<SampleHeader>,
        ParseError,
    >)
        ensures
            final(reader).data@ == old(reader).data@,
            size % 46 != 0 || size == 0 ==> r == Err::<Vec<SampleHeader>, ParseError>(
                ParseError::InvalidSampleHeaderList,
            ),
            size % 46 == 0 && size > 0 && !old(reader).has(size as int) ==> r == Err::<
                Vec<SampleHeader>,
                ParseError,
            >(ParseError::IoError),
            size % 46 == 0 && size > 0 && old(reader).has(size as int) ==> {
                &&& r is Ok
                &&& old(reader).advanced(size as int, final(reader))
                &&& r->Ok_0.len() == size / 46 - 1
                &&& forall|i: int|
                    0 <= i < r->Ok_0.len() ==> sample_header_at(
                        #[trigger] r->Ok_0[i],
                        old(reader).data@,
                        old(reader).pos + 46 * i,
                    )
            },
    {
        if size % SAMPLE_HEADER_SIZE != 0 || size == 0 {
            return Err(ParseError::InvalidSampleHeaderList);
        }
        if !(reader.pos <= reader.data.len() && size <= reader.data.len() - reader.pos) {
            return Err(ParseError::IoError);
        }
        let count = size / SAMPLE_HEADER_SIZE - 1;
        let start = reader.pos;
        let ghost d = reader.data@;
        let mut headers: Vec<SampleHeader> = Vec::new();
        let mut i: usize = 0;
        while i < count
            invariant
                reader.data@ == d,
                46 * (count + 1) == size,
                start + size <= d.len(),
                i <= count,
                reader.pos == start + 46 * i,
                headers.len() == i,
                forall|j: int|
                    0 <= j < i ==> sample_header_at(#[trigger] headers@[j], d, start + 46 * j),
            decreases count - i,
        {
            let h = SampleHeader::new(reader)?;
            headers.push(h);
            i = i + 1;
        }
        // The last one is the terminator.
        reader.discard_data(SAMPLE_HEADER_SIZE)?;
        Ok(headers)
    }
}

} // verus!
