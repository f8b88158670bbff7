use vstd::prelude::*;

use crate::binary_reader::{four_cc_at, i32_le, BinaryReader};
use crate::error::ParseError;
use crate::four_cc::FourCC;

verus! {

/// Tag of a list chunk.
pub const LIST: [u8; 4] = [0x4c, 0x49, 0x53, 0x54];

/// Byte size of a list's body after its type tag, as a chunk of declared size `size`
/// gives it.
pub open spec fn list_body(size: int) -> int {
    if size < 4 {
        0
    } else {
        size - 4
    }
}

/// Where the body of a sub-chunk lies.
pub struct Span {
    pub pos: int,
    pub size: int,
}

/// Whether the tag is the four bytes `t`.
pub open spec fn tag_is(id: FourCC, t: [u8; 4]) -> bool {
    id.bytes@ == t@
}

/// Bytes of a list body left after a sub-chunk of `size` bytes; a sub-chunk that reaches
/// the end of the body ends the list.
pub open spec fn next_remaining(remaining: int, size: int) -> int {
    if size < remaining && 8 < remaining - size {
        remaining - 8 - size
    } else {
        0
    }
}

/// Where a walk over sub-chunks at `p`, with `remaining` bytes of list body left, stops.
pub open spec fn walk_end(d: Seq<u8>, p: int, remaining: int) -> int
    decreases remaining,
{
    if remaining <= 0 {
        p
    } else {
        let size = i32_le(d, p + 4);
        if size < 0 {
            p
        } else {
            walk_end(d, p + 8 + size, next_remaining(remaining, size))
        }
    }
}

/// Where the list at `p` ends, once its sub-chunks were read.
pub open spec fn list_end(d: Seq<u8>, p: int) -> int {
    walk_end(d, p + 12, list_body(i32_le(d, p + 4)))
}

/// The error, if any, that reading at `p` the header of a list of type `list_type` meets.
pub open spec fn list_header_error(d: Seq<u8>, p: int, list_type: [u8; 4]) -> Option<ParseError> {
    if p + 4 > d.len() {
        Some(ParseError::IoError)
    } else if four_cc_at(d, p).bytes@ != LIST@ {
        Some(ParseError::ListChunkNotFound)
    } else if p + 12 > d.len() {
        Some(ParseError::IoError)
    } else if four_cc_at(d, p + 8).bytes@ != list_type@ {
        Some(
            ParseError::InvalidListChunkType {
                expected: FourCC { bytes: list_type },
                actual: four_cc_at(d, p + 8),
            },
        )
    } else {
        None
    }
}

/// Reads the header of a list chunk whose type must be `list_type`, and returns the byte
/// size of the list's body.
pub fn read_list_header(reader: &mut BinaryReader, list_type: [u8; 4]) -> (r: Result<
    usize,
    ParseError,
>)
    ensures
        ({
            let d = old(reader).data@;
            let p = old(reader).pos as int;
            &&& final(reader).data@ == d
            &&& list_header_error(d, p, list_type) is Some ==> r == Err::<usize, ParseError>(
                list_header_error(d, p, list_type)->Some_0,
            )
            &&& list_header_error(d, p, list_type) is None ==> {
                &&& r is Ok
                &&& r->Ok_0 == list_body(i32_le(d, p + 4))
                &&& old(reader).advanced(12, final(reader))
            }
        }),
{
    let chunk_id = reader.read_four_cc()?;
    if !chunk_id.is(&LIST) {
        return Err(ParseError::ListChunkNotFound);
    }
    let end = reader.read_i32()?;
    let actual = reader.read_four_cc()?;
    if !actual.is(&list_type) {
        return Err(ParseError::InvalidListChunkType { expected: FourCC { bytes: list_type }, actual });
    }
    if end < 4 {
        Ok(0)
    } else {
        Ok((end - 4) as usize)
    }
}

/// Reads the tag and the byte size of a sub-chunk; a negative size asks for more bytes
/// than any input holds.
pub fn read_sub_chunk_header(reader: &mut BinaryReader) -> (r: Result<(FourCC, usize), ParseError>)
    ensures
        ({
            let d = old(reader).data@;
            let p = old(reader).pos as int;
            &&& final(reader).data@ == d
            &&& r is Ok <==> old(reader).has(8) && i32_le(d, p + 4) >= 0
            &&& r is Err ==> r == Err::<(FourCC, usize), ParseError>(ParseError::IoError)
            &&& r is Ok ==> {
                &&& r->Ok_0.0 == four_cc_at(d, p)
                &&& r->Ok_0.1 == i32_le(d, p + 4)
                &&& old(reader).advanced(8, final(reader))
            }
        }),
{
    let id = reader.read_four_cc()?;
    let size = reader.read_i32()?;
    if size < 0 {
        return Err(ParseError::IoError);
    }
    Ok((id, size as usize))
}

} // verus!
