use vstd::prelude::*;

use crate::binary_reader::{i16_le, BinaryReader};
use crate::binary_reader::{four_cc_at, i32_le};
use crate::chunk::{
    list_body, list_end, list_header_error, next_remaining, read_list_header,
    read_sub_chunk_header, tag_is, walk_end, Span,
};
use crate::error::ParseError;

verus! {

/// Type of the sample data list.
pub const SDTA: [u8; 4] = [0x73, 0x64, 0x74, 0x61];

pub const SMPL: [u8; 4] = [0x73, 0x6d, 0x70, 0x6c];

pub const SM24: [u8; 4] = [0x73, 0x6d, 0x32, 0x34];

/// Walks the sub-chunks of a sample data list at `p`, `remaining` bytes of list body being
/// left, and gives the last sample chunk met; `None` when one does not decode.
pub open spec fn sample_scan(d: Seq<u8>, p: int, remaining: int, last: Option<Span>) -> Option<
    Option<Span>,
>
    decreases remaining,
{
    if remaining <= 0 {
        Some(last)
    } else if p + 8 > d.len() || i32_le(d, p + 4) < 0 {
        None
    } else {
        let id = four_cc_at(d, p);
        let size = i32_le(d, p + 4);
        if p + 8 + size > d.len() || !(tag_is(id, SMPL) || tag_is(id, SM24)) {
            None
        } else {
            sample_scan(
                d,
                p + 8 + size,
                next_remaining(remaining, size),
                if tag_is(id, SMPL) {
                    Some(Span { pos: p + 8, size })
                } else {
                    last
                },
            )
        }
    }
}

/// The last sample chunk of the sample data list at `p`.
pub open spec fn samples_found(d: Seq<u8>, p: int) -> Option<Option<Span>> {
    sample_scan(d, p + 12, list_body(i32_le(d, p + 4)), None)
}

/// The 16-bit samples of a sample chunk.
pub open spec fn samples_of(d: Seq<u8>, s: Span) -> Seq<i16> {
    Seq::new((s.size / 2) as nat, |i: int| i16_le(d, s.pos + 2 * i) as i16)
}

/// The bank's waveform storage: 16-bit linear samples.
#[derive(Debug)]
pub struct SoundFontSampleData {
    pub bits_per_sample: i32,
    pub wave_data: Vec<i16>,
}

/// Reads `size` bytes of 16-bit samples; an odd last byte is skipped.
fn read_samples(reader: &mut BinaryReader, size: usize) -> (r: Result<Vec<i16>, ParseError>)
    ensures
        final(reader).data@ == old(reader).data@,
        r is Ok <==> old(reader).has(size as int),
        r is Err ==> r == Err::<Vec<i16>, ParseError>(ParseError::IoError),
        r is Ok ==> {
            &&& old(reader).advanced(size as int, final(reader))
            &&& r->Ok_0.len() == size / 2
            &&& forall|i: int|
                0 <= i < r->Ok_0.len() ==> #[trigger] r->Ok_0@[i] == i16_le(
                    old(reader).data@,
                    old(reader).pos + 2 * i,
                )
        },
{
    if !(reader.pos <= reader.data.len() && size <= reader.data.len() - reader.pos) {
        return Err(ParseError::IoError);
    }
    let count = size / 2;
    let start = reader.pos;
    let ghost d = reader.data@;
    let mut data: Vec<i16> = Vec::new();
    let mut i: usize = 0;
    while i < count
        invariant
            reader.data@ == d,
            count == size / 2,
            start + size <= d.len(),
            i <= count,
            reader.pos == start + 2 * i,
            data.len() == i,
            forall|j: int| 0 <= j < i ==> #[trigger] data@[j] == i16_le(d, start + 2 * j),
        decreases count - i,
    {
        let v = reader.read_i16()?;
        data.push(v);
        i = i + 1;
    }
    reader.discard_data(size % 2)?;
    Ok(data)
}

impl SoundFontSampleData {
    /// Decodes the sample data list of a bank whose format version is `format_major`;
    /// from version 3 on samples are stored compressed, which is not supported.
    pub fn new(reader: &mut BinaryReader, format_major: i16) -> (r: Result<
        SoundFontSampleData,
        ParseError,
    >)
        ensures
            final(reader).data@ == old(reader).data@,
            format_major >= 3 ==> r == Err::<SoundFontSampleData, ParseError>(
                ParseError::UnsupportedSampleFormat,
            ) && final(reader).pos == old(reader).pos,
            format_major < 3 && list_header_error(old(reader).data@, old(reader).pos as int, SDTA)
                is Some ==> r == Err::<SoundFontSampleData, ParseError>(
                list_header_error(old(reader).data@, old(reader).pos as int, SDTA)->Some_0,
            ),
            format_major < 3 && list_header_error(old(reader).data@, old(reader).pos as int, SDTA)
                is None ==> (r is Ok <==> samples_found(
                old(reader).data@,
                old(reader).pos as int,
            ) matches Some(Some(_))),
            format_major < 3 && list_header_error(old(reader).data@, old(reader).pos as int, SDTA)
                is None && samples_found(old(reader).data@, old(reader).pos as int) == Some(
                None::<Span>,
            ) ==> r == Err::<SoundFontSampleData, ParseError>(ParseError::SampleDataNotFound),
            r is Ok ==> (samples_found(old(reader).data@, old(reader).pos as int) matches Some(
                Some(s),
            ) && r->Ok_0.wave_data@ == samples_of(old(reader).data@, s)),
            r is Ok ==> r->Ok_0.bits_per_sample == 16 && final(reader).pos == list_end(old(reader).data@, old(reader).pos as int) && old(reader).pos + 12 <= final(reader).pos
                <= final(reader).data@.len(),
    {
        if format_major >= 3 {
            return Err(ParseError::UnsupportedSampleFormat);
        }
        let body = read_list_header(reader, SDTA)?;
        let ghost d = reader.data@;
        let ghost p0 = reader.pos;
        let mut wave_data: Option<Vec<i16>> = None;
        let mut consumed: usize = 0;
        let ghost mut last: Option<Span> = None;
        while consumed < body
            invariant
                reader.data@ == d,
                d == old(reader).data@,
                format_major < 3,
                list_header_error(d, old(reader).pos as int, SDTA) is None,
                old(reader).pos + 12 == p0,
                reader.pos <= d.len(),
                p0 <= reader.pos,
                consumed <= body,
                list_end(d, old(reader).pos as int) == walk_end(d, reader.pos as int, body - consumed),
                samples_found(d, old(reader).pos as int) == sample_scan(
                    d,
                    reader.pos as int,
                    body - consumed,
                    last,
                ),
                wave_data is Some <==> last is Some,
                wave_data is Some ==> wave_data->Some_0@ == samples_of(d, last->Some_0),
            decreases d.len() - reader.pos,
        {
            let ghost p = reader.pos as int;
            let (id, size) = read_sub_chunk_header(reader)?;
            if id.is(&SMPL) {
                let samples = read_samples(reader, size)?;
                assert(samples@ =~= samples_of(d, Span { pos: p + 8, size: size as int }));
                wave_data = Some(samples);
            } else if id.is(&SM24) {
                reader.discard_data(size)?;
            } else {
                return Err(ParseError::ListContainsUnknownId(id));
            }
            proof {
                let span = Span { pos: p + 8, size: size as int };
                let next = if tag_is(id, SMPL) {
                    Some(span)
                } else {
                    last
                };
                assert(sample_scan(d, p, body - consumed, last) == sample_scan(
                    d,
                    p + 8 + size,
                    next_remaining(body - consumed, size as int),
                    next,
                ));
                last = next;
            }
            assert(walk_end(d, p, body - consumed) == walk_end(
                d,
                p + 8 + size,
                next_remaining(body - consumed, size as int),
            ));
            consumed = if size < body - consumed && 8 < body - consumed - size {
                consumed + 8 + size
            } else {
                body
            };
        }
        match wave_data {
            Some(wave_data) => Ok(SoundFontSampleData { bits_per_sample: 16, wave_data }),
            None => Err(ParseError::SampleDataNotFound),
        }
    }
}

} // verus!
