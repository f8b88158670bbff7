use vstd::prelude::*;

use crate::binary_reader::{text_at, u16_le, BinaryReader};
use crate::error::ParseError;
use crate::generator::Generator;
use crate::region::{
    entity_result, resolve_entity_zones, resolved_view, GENERATOR_COUNT, SAMPLE_ID,
};
use crate::sample_header::SampleHeader;
use crate::zone::{zones_wf, Zone};

verus! {

/// Byte size of one instrument header record.
pub const INSTRUMENT_INFO_SIZE: usize = 22;

/// An instrument header record as stored in the bank.
#[derive(Debug)]
pub struct InstrumentInfo {
    pub name: String,
    pub zone_start_index: u16,
}

/// Whether `h` is the instrument header record at `p`.
pub open spec fn instrument_info_at(h: InstrumentInfo, d: Seq<u8>, p: int) -> bool {
    &&& h.name@ == text_at(d, p, 20)
    &&& h.zone_start_index == u16_le(d, p + 20)
}

/// A resolved instrument zone: its generator array, the sample it plays, and that
/// sample's placement as its header gives it.
#[derive(Debug)]
pub struct InstrumentRegion {
    pub gs: Vec<i16>,
    pub sample_id: usize,
    pub sample_start: i32,
    pub sample_end: i32,
    pub sample_start_loop: i32,
    pub sample_end_loop: i32,
    pub sample_rate: i32,
    pub sample_original_pitch: i32,
    pub sample_pitch_correction: i32,
}

/// An instrument: a named set of regions.
#[derive(Debug)]
pub struct Instrument {
    pub name: String,
    pub regions: Vec<InstrumentRegion>,
}

/// Whether the region takes its sample fields from header `h`.
pub open spec fn region_sample_fields(r: InstrumentRegion, h: SampleHeader) -> bool {
    &&& r.sample_start == h.start
    &&& r.sample_end == h.end
    &&& r.sample_start_loop == h.start_loop
    &&& r.sample_end_loop == h.end_loop
    &&& r.sample_rate == h.sample_rate
    &&& r.sample_original_pitch == h.original_pitch
    &&& r.sample_pitch_correction == h.pitch_correction
}

/// The mathematical value of instrument regions.
pub open spec fn instrument_regions_view(r: Seq<InstrumentRegion>) -> Seq<(Seq<i16>, int)> {
    Seq::new(r.len(), |i: int| (r[i].gs@, r[i].sample_id as int))
}

/// The regions of instrument `i` of the header list `infos`.
pub open spec fn instrument_result(
    infos: Seq<InstrumentInfo>,
    zones: Seq<Zone>,
    gens: Seq<Generator>,
    sample_count: int,
    i: int,
) -> Result<Seq<(Seq<i16>, int)>, ParseError> {
    entity_result(
        infos[i].zone_start_index as int,
        infos[i + 1].zone_start_index as int,
        zones,
        gens,
        SAMPLE_ID,
        sample_count,
        false,
        i,
    )
}

/// Whether `p` is instrument `i` of `infos`, resolved against the sample headers.
pub open spec fn instrument_built(
    p: Instrument,
    infos: Seq<InstrumentInfo>,
    zones: Seq<Zone>,
    gens: Seq<Generator>,
    samples: Seq<SampleHeader>,
    i: int,
) -> bool {
    &&& p.name@ == infos[i].name@
    &&& instrument_result(infos, zones, gens, samples.len() as int, i) == Ok::<
        Seq<(Seq<i16>, int)>,
        ParseError,
    >(instrument_regions_view(p.regions@))
    &&& forall|k: int|
        0 <= k < p.regions.len() ==> region_sample_fields(
            #[trigger] p.regions@[k],
            samples[p.regions@[k].sample_id as int],
        )
}

/// Whether every region of `p` has a full generator array and a sample below `n`.
pub open spec fn instrument_wf(p: Instrument, n: int) -> bool {
    forall|k: int|
        0 <= k < p.regions.len() ==> (#[trigger] p.regions@[k]).gs.len() == GENERATOR_COUNT
            && p.regions@[k].sample_id < n
}

/// A sample position moved by a fine and a coarse (32768-step) address offset.
pub open spec fn offset_position(base: i32, fine: i16, coarse: i16) -> int {
    base + fine + 32768 * coarse
}

impl InstrumentRegion {
    fn offset(&self, base: i32, fine: usize, coarse: usize) -> (r: i64)
        requires
            self.gs.len() == GENERATOR_COUNT,
            fine < GENERATOR_COUNT,
            coarse < GENERATOR_COUNT,
        ensures
            r == offset_position(base, self.gs@[fine as int], self.gs@[coarse as int]),
    {
        base as i64 + self.gs[fine] as i64 + 32768 * (self.gs[coarse] as i64)
    }

    /// Where the sample starts, its header's position moved by the region's offsets.
    pub fn get_sample_start(&self) -> (r: i64)
        requires
            self.gs.len() == GENERATOR_COUNT,
        ensures
            r == offset_position(self.sample_start, self.gs@[0], self.gs@[4]),
    {
        self.offset(self.sample_start, 0, 4)
    }

    /// Where the sample ends, its header's position moved by the region's offsets.
    pub fn get_sample_end(&self) -> (r: i64)
        requires
            self.gs.len() == GENERATOR_COUNT,
        ensures
            r == offset_position(self.sample_end, self.gs@[1], self.gs@[12]),
    {
        self.offset(self.sample_end, 1, 12)
    }

    /// Where the loop starts, its header's position moved by the region's offsets.
    pub fn get_sample_start_loop(&self) -> (r: i64)
        requires
            self.gs.len() == GENERATOR_COUNT,
        ensures
            r == offset_position(self.sample_start_loop, self.gs@[2], self.gs@[45]),
    {
        self.offset(self.sample_start_loop, 2, 45)
    }

    /// Where the loop ends, its header's position moved by the region's offsets.
    pub fn get_sample_end_loop(&self) -> (r: i64)
        requires
            self.gs.len() == GENERATOR_COUNT,
        ensures
            r == offset_position(self.sample_end_loop, self.gs@[3], self.gs@[50]),
    {
        self.offset(self.sample_end_loop, 3, 50)
    }
}

impl InstrumentInfo {
    fn new(reader: &mut BinaryReader) -> (r: Result<InstrumentInfo, ParseError>)
        requires
            old(reader).has(22),
        ensures
            r is Ok,
            old(reader).advanced(22, final(reader)),
            instrument_info_at(r->Ok_0, old(reader).data@, old(reader).pos as int),
    {
        let name = reader.read_fixed_length_string(20)?;
        let zone_start_index = reader.read_u16()?;
        Ok(InstrumentInfo { name, zone_start_index })
    }

    /// Decodes an instrument header chunk of `size` bytes, the terminal record included.
    pub fn read_from_chunk(reader: &mut BinaryReader, size: usize) -> (r: Result<
        Vec<InstrumentInfo>,
        ParseError,
    >)
        ensures
            final(reader).data@ == old(reader).data@,
            size % 22 != 0 ==> r == Err::<Vec<InstrumentInfo>, ParseError>(
                ParseError::InvalidInstrumentList,
            ),
            size % 22 == 0 && !old(reader).has(size as int) ==> r == Err::<
                Vec<InstrumentInfo>,
                ParseError,
            >(ParseError::IoError),
            size % 22 == 0 && old(reader).has(size as int) ==> {
                &&& r is Ok
                &&& old(reader).advanced(size as int, final(reader))
                &&& r->Ok_0.len() == size / 22
                &&& forall|i: int|
                    0 <= i < r->Ok_0.len() ==> instrument_info_at(
                        #[trigger] r->Ok_0[i],
                        old(reader).data@,
                        old(reader).pos + 22 * i,
                    )
            },
    {
        if size % INSTRUMENT_INFO_SIZE != 0 {
            return Err(ParseError::InvalidInstrumentList);
        }
        if !(reader.pos <= reader.data.len() && size <= reader.data.len() - reader.pos) {
            return Err(ParseError::IoError);
        }
        let count = size / INSTRUMENT_INFO_SIZE;
        let start = reader.pos;
        let ghost d = reader.data@;
        let mut infos: Vec<InstrumentInfo> = Vec::new();
        let mut i: usize = 0;
        while i < count
            invariant
                reader.data@ == d,
                22 * count == size,
                start + size <= d.len(),
                i <= count,
                reader.pos == start + 22 * i,
                infos.len() == i,
                forall|j: int|
                    0 <= j < i ==> instrument_info_at(#[trigger] infos@[j], d, start + 22 * j),
            decreases count - i,
        {
            let info = InstrumentInfo::new(reader)?;
            infos.push(info);
            i = i + 1;
        }
        Ok(infos)
    }
}

impl Instrument {
    /// Builds the instruments of a header list, whose last record only ends the last
    /// instrument's zones; each region takes the placement of the sample it links to.
    pub fn create(
        infos: &Vec<InstrumentInfo>,
        zones: &Vec<Zone>,
        gens: &Vec<Generator>,
        samples: &Vec<SampleHeader>,
    ) -> (r: Result<Vec<Instrument>, ParseError>)
        requires
            zones_wf(zones@, gens.len() as int),
        ensures
            infos.len() <= 1 ==> r == Err::<Vec<Instrument>, ParseError>(
                ParseError::InstrumentNotFound,
            ),
            infos.len() > 1 ==> (r is Ok <==> forall|i: int|
                0 <= i < infos.len() - 1 ==> (#[trigger] instrument_result(
                    infos@,
                    zones@,
                    gens@,
                    samples.len() as int,
                    i,
                )) is Ok),
            r is Ok ==> {
                &&& r->Ok_0.len() == infos.len() - 1
                &&& forall|i: int|
                    0 <= i < r->Ok_0.len() ==> instrument_built(
                        #[trigger] r->Ok_0@[i],
                        infos@,
                        zones@,
                        gens@,
                        samples@,
                        i,
                    ) && instrument_wf(r->Ok_0@[i], samples.len() as int)
            },
            r is Err && infos.len() > 1 ==> exists|i: int|
                0 <= i < infos.len() - 1 && (forall|j: int|
                    0 <= j < i ==> (#[trigger] instrument_result(
                        infos@,
                        zones@,
                        gens@,
                        samples.len() as int,
                        j,
                    )) is Ok) && #[trigger] instrument_result(
                    infos@,
                    zones@,
                    gens@,
                    samples.len() as int,
                    i,
                ) == Err::<Seq<(Seq<i16>, int)>, ParseError>(r->Err_0),
    {
        if infos.len() <= 1 {
            return Err(ParseError::InstrumentNotFound);
        }
        // The last one is the terminator.
        let count = infos.len() - 1;
        let mut instruments: Vec<Instrument> = Vec::new();
        let mut i: usize = 0;
        while i < count
            invariant
                zones_wf(zones@, gens.len() as int),
                count == infos.len() - 1,
                i <= count,
                instruments.len() == i,
                forall|j: int|
                    0 <= j < i ==> (#[trigger] instrument_result(
                        infos@,
                        zones@,
                        gens@,
                        samples.len() as int,
                        j,
                    )) is Ok,
                forall|j: int|
                    0 <= j < i ==> instrument_built(
                        #[trigger] instruments@[j],
                        infos@,
                        zones@,
                        gens@,
                        samples@,
                        j,
                    ) && instrument_wf(instruments@[j], samples.len() as int),
            decreases count - i,
        {
            let info = &infos[i];
            let next = &infos[i + 1];
            let resolved = match resolve_entity_zones(
                info.zone_start_index,
                next.zone_start_index,
                zones,
                gens,
                SAMPLE_ID,
                samples.len(),
                false,
                i,
            ) {
                Ok(v) => v,
                Err(e) => {
                    assert(instrument_result(infos@, zones@, gens@, samples.len() as int, i as int)
                        == Err::<Seq<(Seq<i16>, int)>, ParseError>(e));
                    return Err(e);
                },
            };
            let mut regions: Vec<InstrumentRegion> = Vec::new();
            let mut k: usize = 0;
            while k < resolved.len()
                invariant
                    k <= resolved.len(),
                    regions.len() == k,
                    forall|m: int|
                        0 <= m < resolved.len() ==> (#[trigger] resolved@[m]).gs.len()
                            == GENERATOR_COUNT && resolved@[m].link < samples.len(),
                    forall|m: int|
                        0 <= m < k ==> (#[trigger] regions@[m]).gs@ == resolved@[m].gs@
                            && regions@[m].sample_id == resolved@[m].link && regions@[m].gs.len()
                            == GENERATOR_COUNT && region_sample_fields(
                            regions@[m],
                            samples@[regions@[m].sample_id as int],
                        ),
                decreases resolved.len() - k,
            {
                let z = &resolved[k];
                let h = &samples[z.link];
                regions.push(
                    InstrumentRegion {
                        gs: z.gs.clone(),
                        sample_id: z.link,
                        sample_start: h.start,
                        sample_end: h.end,
                        sample_start_loop: h.start_loop,
                        sample_end_loop: h.end_loop,
                        sample_rate: h.sample_rate,
                        sample_original_pitch: h.original_pitch as i32,
                        sample_pitch_correction: h.pitch_correction as i32,
                    },
                );
                k = k + 1;
            }
            assert(instrument_regions_view(regions@) =~= resolved_view(resolved@));
            let instrument = Instrument { name: info.name.clone(), regions };
            instruments.push(instrument);
            i = i + 1;
        }
        Ok(instruments)
    }
}

} // verus!
