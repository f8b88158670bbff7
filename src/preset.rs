use vstd::prelude::*;

use crate::binary_reader::{i16_le, i32_le, text_at, u16_le, BinaryReader};
use crate::error::ParseError;
use crate::generator::Generator;
use crate::region::{
    entity_result, resolve_entity_zones, resolved_view, GENERATOR_COUNT, INSTRUMENT,
};
use crate::zone::{zones_wf, Zone};

verus! {

/// Byte size of one preset header record.
pub const PRESET_INFO_SIZE: usize = 38;

/// A preset header record as stored in the bank.
#[derive(Debug)]
pub struct PresetInfo {
    pub name: String,
    pub patch_number: i32,
    pub bank_number: i32,
    pub zone_start_index: u16,
    pub library: i32,
    pub genre: i32,
    pub morphology: i32,
}

/// Whether `h` is the preset header record at `p`.
pub open spec fn preset_info_at(h: PresetInfo, d: Seq<u8>, p: int) -> bool {
    &&& h.name@ == text_at(d, p, 20)
    &&& h.patch_number == i16_le(d, p + 20)
    &&& h.bank_number == i16_le(d, p + 22)
    &&& h.zone_start_index == u16_le(d, p + 24)
    &&& h.library == i32_le(d, p + 26)
    &&& h.genre == i32_le(d, p + 30)
    &&& h.morphology == i32_le(d, p + 34)
}

/// A resolved preset zone: its generator array and the instrument it plays.
#[derive(Debug)]
pub struct PresetRegion {
    pub gs: Vec<i16>,
    pub instrument: usize,
}

/// A preset: a named set of regions, selected by bank and patch number.
#[derive(Debug)]
pub struct Preset {
    pub name: String,
    pub patch_number: i32,
    pub bank_number: i32,
    pub library: i32,
    pub genre: i32,
    pub morphology: i32,
    pub regions: Vec<PresetRegion>,
}

/// The mathematical value of preset regions.
pub open spec fn preset_regions_view(r: Seq<PresetRegion>) -> Seq<(Seq<i16>, int)> {
    Seq::new(r.len(), |i: int| (r[i].gs@, r[i].instrument as int))
}

/// The regions of preset `i` of the header list `infos`.
pub open spec fn preset_result(
    infos: Seq<PresetInfo>,
    zones: Seq<Zone>,
    gens: Seq<Generator>,
    instrument_count: int,
    i: int,
) -> Result<Seq<(Seq<i16>, int)>, ParseError> {
    entity_result(
        infos[i].zone_start_index as int,
        infos[i + 1].zone_start_index as int,
        zones,
        gens,
        INSTRUMENT,
        instrument_count,
        true,
        i,
    )
}

/// Whether `p` is preset `i` of `infos`, resolved.
pub open spec fn preset_built(
    p: Preset,
    infos: Seq<PresetInfo>,
    zones: Seq<Zone>,
    gens: Seq<Generator>,
    instrument_count: int,
    i: int,
) -> bool {
    &&& p.name@ == infos[i].name@
    &&& p.patch_number == infos[i].patch_number
    &&& p.bank_number == infos[i].bank_number
    &&& p.library == infos[i].library
    &&& p.genre == infos[i].genre
    &&& p.morphology == infos[i].morphology
    &&& preset_result(infos, zones, gens, instrument_count, i) == Ok::<
        Seq<(Seq<i16>, int)>,
        ParseError,
    >(preset_regions_view(p.regions@))
}

/// Whether every region of `p` has a full generator array and an instrument below `n`.
pub open spec fn preset_wf(p: Preset, n: int) -> bool {
    forall|k: int|
        0 <= k < p.regions.len() ==> (#[trigger] p.regions@[k]).gs.len() == GENERATOR_COUNT
            && p.regions@[k].instrument < n
}

impl PresetInfo {
    fn new(reader: &mut BinaryReader) -> (r: Result<PresetInfo, ParseError>)
        requires
            old(reader).has(38),
        ensures
            r is Ok,
            old(reader).advanced(38, final(reader)),
            preset_info_at(r->Ok_0, old(reader).data@, old(reader).pos as int),
    {
        let name = reader.read_fixed_length_string(20)?;
        let patch_number = reader.read_i16()? as i32;
        let bank_number = reader.read_i16()? as i32;
        let zone_start_index = reader.read_u16()?;
        let library = reader.read_i32()?;
        let genre = reader.read_i32()?;
        let morphology = reader.read_i32()?;
        Ok(
            PresetInfo {
                name,
                patch_number,
                bank_number,
                zone_start_index,
                library,
                genre,
                morphology,
            },
        )
    }

    /// Decodes a preset header chunk of `size` bytes, the terminal record included.
    pub fn read_from_chunk(reader: &mut BinaryReader, size: usize) -> (r: Result<
        Vec<PresetInfo>,
        ParseError,
    >)
        ensures
            final(reader).data@ == old(reader).data@,
            size % 38 != 0 ==> r == Err::<Vec<PresetInfo>, ParseError>(
                ParseError::InvalidPresetList,
            ),
            size % 38 == 0 && !old(reader).has(size as int) ==> r == Err::<
                Vec<PresetInfo>,
                ParseError,
            >(ParseError::IoError),
            size % 38 == 0 && old(reader).has(size as int) ==> {
                &&& r is Ok
                &&& old(reader).advanced(size as int, final(reader))
                &&& r->Ok_0.len() == size / 38
                &&& forall|i: int|
                    0 <= i < r->Ok_0.len() ==> preset_info_at(
                        #[trigger] r->Ok_0[i],
                        old(reader).data@,
                        old(reader).pos + 38 * i,
                    )
            },
    {
        if size % PRESET_INFO_SIZE != 0 {
            return Err(ParseError::InvalidPresetList);
        }
        if !(reader.pos <= reader.data.len() && size <= reader.data.len() - reader.pos) {
            return Err(ParseError::IoError);
        }
        let count = size / PRESET_INFO_SIZE;
        let start = reader.pos;
        let ghost d = reader.data@;
        let mut infos: Vec<PresetInfo> = Vec::new();
        let mut i: usize = 0;
        while i < count
            invariant
                reader.data@ == d,
                38 * count == size,
                start + size <= d.len(),
                i <= count,
                reader.pos == start + 38 * i,
                infos.len() == i,
                forall|j: int|
                    0 <= j < i ==> preset_info_at(#[trigger] infos@[j], d, start + 38 * j),
            decreases count - i,
        {
            let info = PresetInfo::new(reader)?;
            infos.push(info);
            i = i + 1;
        }
        Ok(infos)
    }
}

impl Preset {
    /// Builds the presets of a header list, whose last record only ends the last preset's
    /// zones; each preset must link only to instruments below `instrument_count`.
    pub fn create(
        infos: &Vec<PresetInfo>,
        zones: &Vec<Zone>,
        gens: &Vec<Generator>,
        instrument_count: usize,
    ) -> (r: Result<Vec<Preset>, ParseError>)
        requires
            zones_wf(zones@, gens.len() as int),
        ensures
            infos.len() <= 1 ==> r == Err::<Vec<Preset>, ParseError>(ParseError::PresetNotFound),
            infos.len() > 1 ==> (r is Ok <==> forall|i: int|
                0 <= i < infos.len() - 1 ==> (#[trigger] preset_result(
                    infos@,
                    zones@,
                    gens@,
                    instrument_count as int,
                    i,
                )) is Ok),
            r is Ok ==> {
                &&& r->Ok_0.len() == infos.len() - 1
                &&& forall|i: int|
                    0 <= i < r->Ok_0.len() ==> preset_built(
                        #[trigger] r->Ok_0@[i],
                        infos@,
                        zones@,
                        gens@,
                        instrument_count as int,
                        i,
                    ) && preset_wf(r->Ok_0@[i], instrument_count as int)
            },
            r is Err && infos.len() > 1 ==> exists|i: int|
                0 <= i < infos.len() - 1 && (forall|j: int|
                    0 <= j < i ==> (#[trigger] preset_result(
                        infos@,
                        zones@,
                        gens@,
                        instrument_count as int,
                        j,
                    )) is Ok) && #[trigger] preset_result(
                    infos@,
                    zones@,
                    gens@,
                    instrument_count as int,
                    i,
                ) == Err::<Seq<(Seq<i16>, int)>, ParseError>(r->Err_0),
    {
        if infos.len() <= 1 {
            return Err(ParseError::PresetNotFound);
        }
        // The last one is the terminator.
        let count = infos.len() - 1;
        let mut presets: Vec<Preset> = Vec::new();
        let mut i: usize = 0;
        while i < count
            invariant
                zones_wf(zones@, gens.len() as int),
                count == infos.len() - 1,
                i <= count,
                presets.len() == i,
                forall|j: int|
                    0 <= j < i ==> (#[trigger] preset_result(
                        infos@,
                        zones@,
                        gens@,
                        instrument_count as int,
                        j,
                    )) is Ok,
                forall|j: int|
                    0 <= j < i ==> preset_built(
                        #[trigger] presets@[j],
                        infos@,
                        zones@,
                        gens@,
                        instrument_count as int,
                        j,
                    ) && preset_wf(presets@[j], instrument_count as int),
            decreases count - i,
        {
            let info = &infos[i];
            let next = &infos[i + 1];
            let resolved = match resolve_entity_zones(
                info.zone_start_index,
                next.zone_start_index,
                zones,
                gens,
                INSTRUMENT,
                instrument_count,
                true,
                i,
            ) {
                Ok(v) => v,
                Err(e) => {
                    assert(preset_result(infos@, zones@, gens@, instrument_count as int, i as int)
                        == Err::<Seq<(Seq<i16>, int)>, ParseError>(e));
                    return Err(e);
                },
            };
            let mut regions: Vec<PresetRegion> = Vec::new();
            let mut k: usize = 0;
            while k < resolved.len()
                invariant
                    k <= resolved.len(),
                    regions.len() == k,
                    forall|m: int|
                        0 <= m < k ==> (#[trigger] regions@[m]).gs@ == resolved@[m].gs@
                            && regions@[m].instrument == resolved@[m].link,
                decreases resolved.len() - k,
            {
                let z = &resolved[k];
                regions.push(PresetRegion { gs: z.gs.clone(), instrument: z.link });
                k = k + 1;
            }
            assert(preset_regions_view(regions@) =~= resolved_view(resolved@));
            let preset = Preset {
                name: info.name.clone(),
                patch_number: info.patch_number,
                bank_number: info.bank_number,
                library: info.library,
                genre: info.genre,
                morphology: info.morphology,
                regions,
            };
            presets.push(preset);
            i = i + 1;
        }
        Ok(presets)
    }
}

} // verus!
