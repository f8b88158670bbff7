use vstd::prelude::*;

use crate::binary_reader::{u16_le, BinaryReader};
use crate::error::ParseError;

verus! {

/// A generator record: a parameter slot and its raw 16-bit value.
#[derive(Clone, Copy, Debug, PartialEq, Eq)]
pub struct Generator {
    pub generator_type: u16,
    pub value: u16,
}

/// The generator record at `p`.
pub open spec fn generator_at(d: Seq<u8>, p: int) -> Generator {
    Generator { generator_type: u16_le(d, p) as u16, value: u16_le(d, p + 2) as u16 }
}

/// The `n` generator records that start at `p`.
pub open spec fn generators_at(d: Seq<u8>, p: int, n: int) -> Seq<Generator> {
    Seq::new(n as nat, |i: int| generator_at(d, p + 4 * i))
}

impl Generator {
    pub fn new(reader: &mut BinaryReader) -> (r: Result<Generator, ParseError>)
        ensures
            final(reader).data@ == old(reader).data@,
            r is Ok <==> old(reader).has(4),
            r is Err ==> r == Err::<Generator, ParseError>(ParseError::IoError),
            r is Ok ==> old(reader).advanced(4, final(reader)) && r->Ok_0 == generator_at(
                old(reader).data@,
                old(reader).pos as int,
            ),
    {
        let generator_type = reader.read_u16()?;
        let value = reader.read_u16()?;
        Ok(Generator { generator_type, value })
    }

    /// Decodes a generator chunk of `size` bytes; its last record is a terminator and is
    /// dropped.
    pub fn read_from_chunk(reader: &mut BinaryReader, size: usize) -> (r: Result<
        Vec<Generator>,
        ParseError,
    >)
        ensures
            final(reader).data@ == old(reader).data@,
            size % 4 != 0 || size == 0 ==> r == Err::<Vec<Generator>, ParseError>(
                ParseError::InvalidGeneratorList,
            ),
            size % 4 == 0 && size > 0 && !old(reader).has(size as int) ==> r == Err::<
                Vec<Generator>,
                ParseError,
            >(ParseError::IoError),
            size % 4 == 0 && size > 0 && old(reader).has(size as int) ==> {
                &&& r is Ok
                &&& old(reader).advanced(size as int, final(reader))
                &&& r->Ok_0@ == generators_at(
                    old(reader).data@,
                    old(reader).pos as int,
                    size / 4 - 1,
                )
            },
    {
        if size % 4 != 0 || size == 0 {
            return Err(ParseError::InvalidGeneratorList);
        }
        if !(reader.pos <= reader.data.len() && size <= reader.data.len() - reader.pos) {
            return Err(ParseError::IoError);
        }
        let count = size / 4 - 1;
        let start = reader.pos;
        let ghost d = reader.data@;
        let mut generators: Vec<Generator> = Vec::new();
        let mut i: usize = 0;
        while i < count
            invariant
                reader.data@ == d,
                4 * (count + 1) == size,
                start + size <= d.len(),
                i <= count,
                reader.pos == start + 4 * i,
                generators@ =~= generators_at(d, start as int, i as int),
            decreases count - i,
        {
            let g = Generator::new(reader)?;
            generators.push(g);
            i = i + 1;
        }
        // The last one is the terminator.
        Generator::new(reader)?;
        assert(generators@ =~= generators_at(d, start as int, count as int));
        Ok(generators)
    }
}

} // verus!
