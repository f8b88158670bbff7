use vstd::prelude::*;

use crate::binary_reader::{u16_le, BinaryReader};
use crate::error::ParseError;

verus! {

/// A zone: the slice `[start, end)` of the generator list that belongs to it.
#[derive(Clone, Copy, Debug, PartialEq, Eq)]
pub struct Zone {
    pub start: usize,
    pub end: usize,
}

/// The generator start offsets of a bag table of `n` records at `p`.
pub open spec fn bag_at(d: Seq<u8>, p: int, n: int) -> Seq<u16> {
    Seq::new(n as nat, |i: int| u16_le(d, p + 4 * i) as u16)
}

/// Whether successive offsets of the bag table never decrease and stay within a
/// generator list of length `n`.
pub open spec fn bag_valid(bag: Seq<u16>, n: int) -> bool {
    forall|i: int| 0 <= i < bag.len() - 1 ==> bag[i] <= #[trigger] bag[i + 1] <= n
}

/// The zones that a bag table marks out: each from its offset to the next one.
pub open spec fn zones_of(bag: Seq<u16>) -> Seq<Zone> {
    Seq::new(
        (bag.len() - 1) as nat,
        |i: int| Zone { start: bag[i] as usize, end: bag[i + 1] as usize },
    )
}

/// Whether every zone is a slice of a generator list of length `n`.
pub open spec fn zones_wf(zones: Seq<Zone>, n: int) -> bool {
    forall|i: int| 0 <= i < zones.len() ==> #[trigger] zones[i].start <= zones[i].end <= n
}

impl Zone {
    /// Decodes a bag chunk of `size` bytes into the generator start offset of each record
    /// (the terminal record included).
    pub fn read_bag(reader: &mut BinaryReader, size: usize) -> (r: Result<Vec<u16>, ParseError>)
        ensures
            final(reader).data@ == old(reader).data@,
            size % 4 != 0 ==> r == Err::<Vec<u16>, ParseError>(ParseError::InvalidZoneList),
            size % 4 == 0 && !old(reader).has(size as int) ==> r == Err::<Vec<u16>, ParseError>(
                ParseError::IoError,
            ),
            size % 4 == 0 && old(reader).has(size as int) ==> {
                &&& r is Ok
                &&& old(reader).advanced(size as int, final(reader))
                &&& r->Ok_0@ == bag_at(old(reader).data@, old(reader).pos as int, (size / 4) as int)
            },
    {
        if size % 4 != 0 {
            return Err(ParseError::InvalidZoneList);
        }
        if !(reader.pos <= reader.data.len() && size <= reader.data.len() - reader.pos) {
            return Err(ParseError::IoError);
        }
        let count = size / 4;
        let start = reader.pos;
        let ghost d = reader.data@;
        let mut bag: Vec<u16> = Vec::new();
        let mut i: usize = 0;
        while i < count
            invariant
                reader.data@ == d,
                4 * count == size,
                start + size <= d.len(),
                i <= count,
                reader.pos == start + 4 * i,
                bag@ =~= bag_at(d, start as int, i as int),
            decreases count - i,
        {
            let generator_index = reader.read_u16()?;
            let _modulator_index = reader.read_u16()?;
            bag.push(generator_index);
            i = i + 1;
        }
        Ok(bag)
    }

    /// Splits a generator list of length `generator_count` into zones by a bag table,
    /// whose last record only ends the last zone.
    pub fn create(bag: &Vec<u16>, generator_count: usize) -> (r: Result<Vec<Zone>, ParseError>)
        ensures
            bag.len() <= 1 ==> r == Err::<Vec<Zone>, ParseError>(ParseError::ZoneNotFound),
            bag.len() > 1 && !bag_valid(bag@, generator_count as int) ==> r == Err::<
                Vec<Zone>,
                ParseError,
            >(ParseError::InvalidZoneList),
            bag.len() > 1 && bag_valid(bag@, generator_count as int) ==> {
                &&& r is Ok
                &&& r->Ok_0@ == zones_of(bag@)
                &&& r->Ok_0.len() == bag.len() - 1
                &&& forall|i: int|
                    0 <= i < r->Ok_0.len() ==> (#[trigger] r->Ok_0@[i]).start == bag@[i]
                        && r->Ok_0@[i].end == bag@[i + 1]
            },
            r is Ok ==> zones_wf(r->Ok_0@, generator_count as int),
    {
        if bag.len() <= 1 {
            return Err(ParseError::ZoneNotFound);
        }
        // The last one is the terminator.
        let count = bag.len() - 1;
        let mut zones: Vec<Zone> = Vec::new();
        let mut i: usize = 0;
        while i < count
            invariant
                count == bag.len() - 1,
                i <= count,
                zones.len() == i,
                bag_valid(bag@.take(i + 1), generator_count as int),
                forall|j: int|
                    0 <= j < i ==> (#[trigger] zones@[j]).start == bag@[j] && zones@[j].end
                        == bag@[j + 1],
                zones_wf(zones@, generator_count as int),
            decreases count - i,
        {
            let start = bag[i];
            let end = bag[i + 1];
            if start > end || end as usize > generator_count {
                assert(!bag_valid(bag@, generator_count as int)) by {
                    assert(bag@[i as int + 1] == end);
                }
                return Err(ParseError::InvalidZoneList);
            }
            zones.push(Zone { start: start as usize, end: end as usize });
            i = i + 1;
            assert forall|j: int| 0 <= j < i + 1 - 1 implies bag@.take(i + 1)[j] <= #[trigger] bag@.take(
                i + 1,
            )[j + 1] <= generator_count by {
                if j < i - 1 {
                    assert(bag@.take(i as int)[j] == bag@[j]);
                    assert(bag@.take(i as int)[j + 1] == bag@[j + 1]);
                }
            }
        }
        assert(bag@.take(count + 1) =~= bag@);
        assert forall|j: int| 0 <= j < zones.len() implies zones@[j] == zones_of(bag@)[j] by {
            assert(zones@[j].start == bag@[j] && zones@[j].end == bag@[j + 1]);
        }
        assert(zones@ =~= zones_of(bag@));
        Ok(zones)
    }
}

} // verus!
