use std::sync::Arc;

use vstd::prelude::*;

use crate::binary_reader::{four_cc_at, BinaryReader};
use crate::error::ParseError;
use crate::four_cc::FourCC;
use crate::instrument::{
    instrument_built, instrument_regions_view, region_sample_fields, Instrument, InstrumentInfo,
    InstrumentRegion,
};
use crate::preset::{preset_built, preset_regions_view, preset_wf, Preset, PresetInfo};
use crate::region::GENERATOR_COUNT;
use crate::sample_header::SampleHeader;
use crate::chunk::list_header_error;
use crate::soundfont_info::{info_found, info_model, info_version, SoundFontInfo, INFO};
use crate::chunk::list_end;
use crate::soundfont_parameters::{
    bag_of, gens_of, inst_at, model_wf, parameters_found, parameters_match, parameters_ok,
    phdr_at, SoundFontParameters, PDTA,
};
use crate::zone::zones_of;
use crate::soundfont_sampledata::{samples_found, samples_of, SoundFontSampleData, SDTA};

verus! {

/// Tag of the outer container.
pub const RIFF: [u8; 4] = [0x52, 0x49, 0x46, 0x46];

/// Form type of a bank.
pub const SFBK: [u8; 4] = [0x73, 0x66, 0x62, 0x6b];

/// A loop offset as it stands after sanitizing: a negative one becomes zero.
pub open spec fn clamp_loop(x: i32) -> i32 {
    if x < 0 {
        0
    } else {
        x
    }
}

/// Whether region `r` is region `o` with its loop offsets sanitized.
pub open spec fn region_sanitized(r: InstrumentRegion, o: InstrumentRegion) -> bool {
    &&& r.gs@ == o.gs@
    &&& r.sample_id == o.sample_id
    &&& r.sample_start == o.sample_start
    &&& r.sample_end == o.sample_end
    &&& r.sample_start_loop == clamp_loop(o.sample_start_loop)
    &&& r.sample_end_loop == clamp_loop(o.sample_end_loop)
    &&& r.sample_rate == o.sample_rate
    &&& r.sample_original_pitch == o.sample_original_pitch
    &&& r.sample_pitch_correction == o.sample_pitch_correction
}

/// Whether instrument `a` is instrument `b` with its loop offsets sanitized.
pub open spec fn instrument_sanitized(a: Instrument, b: Instrument) -> bool {
    &&& a.name@ == b.name@
    &&& a.regions.len() == b.regions.len()
    &&& forall|k: int|
        0 <= k < a.regions.len() ==> region_sanitized(#[trigger] a.regions@[k], b.regions@[k])
}

/// Whether the region takes its sample fields from header `h`, with the loop offsets
/// sanitized.
pub open spec fn region_sample_fields_sanitized(r: InstrumentRegion, h: SampleHeader) -> bool {
    &&& r.sample_start == h.start
    &&& r.sample_end == h.end
    &&& r.sample_start_loop == clamp_loop(h.start_loop)
    &&& r.sample_end_loop == clamp_loop(h.end_loop)
    &&& r.sample_rate == h.sample_rate
    &&& r.sample_original_pitch == h.original_pitch
    &&& r.sample_pitch_correction == h.pitch_correction
}

/// Where the parameter list of the bank `d` starts: after the information list, which
/// starts at byte 12, and the sample data list.
pub open spec fn parameters_start(d: Seq<u8>) -> int {
    list_end(d, list_end(d, 12))
}

/// Whether the bytes `d` make a bank that decodes: the container and form tags, an
/// information list of a format version below 3, a sample data list with a sample chunk,
/// and a parameter list that resolves.
pub open spec fn bank_ok(d: Seq<u8>) -> bool {
    &&& d.len() >= 12
    &&& four_cc_at(d, 0).bytes@ == RIFF@
    &&& four_cc_at(d, 8).bytes@ == SFBK@
    &&& list_header_error(d, 12, INFO) is None
    &&& info_version(d, 12) matches Some(v) && v.major < 3
    &&& list_header_error(d, list_end(d, 12), SDTA) is None
    &&& samples_found(d, list_end(d, 12)) matches Some(Some(_))
    &&& list_header_error(d, parameters_start(d), PDTA) is None
    &&& parameters_found(d, parameters_start(d)) matches Some(f) && parameters_ok(d, f)
}

/// Whether the bank holds the resolved parameters `p`, its loop offsets sanitized.
pub open spec fn holds_parameters(sf: SoundFont, p: SoundFontParameters) -> bool {
    &&& sf.presets@ == p.presets@
    &&& sf.sample_headers@ == p.sample_headers@
    &&& sf.instruments.len() == p.instruments.len()
    &&& forall|i: int|
        0 <= i < sf.instruments.len() ==> instrument_sanitized(
            #[trigger] sf.instruments@[i],
            p.instruments@[i],
        )
}

/// Whether `sf` is a successful decoding of the bank bytes `d`, as `SoundFont::new`
/// states it.
pub open spec fn decoded_from(sf: SoundFont, d: Seq<u8>) -> bool {
    &&& (samples_found(d, list_end(d, 12)) matches Some(Some(s)) && (*sf.wave_data)@
        == samples_of(d, s))
    &&& parameters_found(d, parameters_start(d)) is Some
    &&& exists|p: SoundFontParameters|
        #[trigger] parameters_match(p, d, parameters_found(d, parameters_start(d))->Some_0)
            && holds_parameters(sf, p)
}

/// Decoding is deterministic: two successful decodings of the same bytes hold the same
/// presets and instruments, with the same resolved regions, and the same sample headers.
pub proof fn lemma_decode_deterministic(d: Seq<u8>, a: SoundFont, b: SoundFont)
    requires
        decoded_from(a, d),
        decoded_from(b, d),
    ensures
        a.presets.len() == b.presets.len(),
        forall|i: int|
            0 <= i < a.presets.len() ==> preset_regions_view((#[trigger] a.presets@[i]).regions@)
                == preset_regions_view(b.presets@[i].regions@) && a.presets@[i].name@
                == b.presets@[i].name@ && a.presets@[i].bank_number == b.presets@[i].bank_number
                && a.presets@[i].patch_number == b.presets@[i].patch_number,
        a.instruments.len() == b.instruments.len(),
        forall|i: int|
            0 <= i < a.instruments.len() ==> instrument_regions_view(
                (#[trigger] a.instruments@[i]).regions@,
            ) == instrument_regions_view(b.instruments@[i].regions@),
        a.sample_headers.len() == b.sample_headers.len(),
        (*a.wave_data)@ == (*b.wave_data)@,
{
    let f = parameters_found(d, parameters_start(d))->Some_0;
    let pa = choose|p: SoundFontParameters| #[trigger] parameters_match(p, d, f) && holds_parameters(a, p);
    let pb = choose|p: SoundFontParameters| #[trigger] parameters_match(p, d, f) && holds_parameters(b, p);
    let si = f.inst->Some_0;
    let sp = f.phdr->Some_0;
    let iz = zones_of(bag_of(d, f.ibag->Some_0));
    let ig = gens_of(d, f.igen->Some_0);
    let pz = zones_of(bag_of(d, f.pbag->Some_0));
    let pg = gens_of(d, f.pgen->Some_0);
    let ia = choose|ii: Seq<InstrumentInfo>|
        #[trigger] inst_at(ii, d, si) && pa.instruments.len() == ii.len() - 1 && (forall|i: int|
            0 <= i < pa.instruments.len() ==> instrument_built(
                #[trigger] pa.instruments@[i],
                ii,
                iz,
                ig,
                pa.sample_headers@,
                i,
            ));
    let ib = choose|ii: Seq<InstrumentInfo>|
        #[trigger] inst_at(ii, d, si) && pb.instruments.len() == ii.len() - 1 && (forall|i: int|
            0 <= i < pb.instruments.len() ==> instrument_built(
                #[trigger] pb.instruments@[i],
                ii,
                iz,
                ig,
                pb.sample_headers@,
                i,
            ));
    let qa = choose|pi: Seq<PresetInfo>|
        #[trigger] phdr_at(pi, d, sp) && pa.presets.len() == pi.len() - 1 && (forall|i: int|
            0 <= i < pa.presets.len() ==> preset_built(
                #[trigger] pa.presets@[i],
                pi,
                pz,
                pg,
                pa.instruments.len() as int,
                i,
            ));
    let qb = choose|pi: Seq<PresetInfo>|
        #[trigger] phdr_at(pi, d, sp) && pb.presets.len() == pi.len() - 1 && (forall|i: int|
            0 <= i < pb.presets.len() ==> preset_built(
                #[trigger] pb.presets@[i],
                pi,
                pz,
                pg,
                pb.instruments.len() as int,
                i,
            ));
    assert forall|i: int| 0 <= i < a.instruments.len() implies instrument_regions_view(
        (#[trigger] a.instruments@[i]).regions@,
    ) == instrument_regions_view(b.instruments@[i].regions@) by {
        assert(instrument_built(pa.instruments@[i], ia, iz, ig, pa.sample_headers@, i));
        assert(instrument_built(pb.instruments@[i], ib, iz, ig, pb.sample_headers@, i));
        assert(ia[i].zone_start_index == ib[i].zone_start_index);
        assert(ia[i + 1].zone_start_index == ib[i + 1].zone_start_index);
        assert(instrument_sanitized(a.instruments@[i], pa.instruments@[i]));
        assert(instrument_sanitized(b.instruments@[i], pb.instruments@[i]));
        assert(instrument_regions_view(a.instruments@[i].regions@) =~= instrument_regions_view(
            pa.instruments@[i].regions@,
        ));
        assert(instrument_regions_view(b.instruments@[i].regions@) =~= instrument_regions_view(
            pb.instruments@[i].regions@,
        ));
    }
    assert forall|i: int| 0 <= i < a.presets.len() implies preset_regions_view(
        (#[trigger] a.presets@[i]).regions@,
    ) == preset_regions_view(b.presets@[i].regions@) && a.presets@[i].name@
        == b.presets@[i].name@ && a.presets@[i].bank_number == b.presets@[i].bank_number
        && a.presets@[i].patch_number == b.presets@[i].patch_number by {
        assert(a.presets@[i] == pa.presets@[i]);
        assert(b.presets@[i] == pb.presets@[i]);
        assert(preset_built(pa.presets@[i], qa, pz, pg, pa.instruments.len() as int, i));
        assert(preset_built(pb.presets@[i], qb, pz, pg, pb.instruments.len() as int, i));
        assert(qa[i].zone_start_index == qb[i].zone_start_index);
        assert(qa[i + 1].zone_start_index == qb[i + 1].zone_start_index);
        assert(qa[i].name@ == qb[i].name@);
    }
}

/// A decoded bank.
#[non_exhaustive]
pub struct SoundFont {
    pub info: SoundFontInfo,
    pub bits_per_sample: i32,
    pub wave_data: Arc<Vec<i16>>,
    pub sample_headers: Vec<SampleHeader>,
    pub presets: Vec<Preset>,
    pub instruments: Vec<Instrument>,
}

impl SoundFont {
    /// Every reference in range, 16-bit samples, no negative loop offset, and each
    /// instrument region placed where its sample header says.
    pub open spec fn wf(&self) -> bool {
        &&& self.bits_per_sample == 16
        &&& self.presets.len() >= 1
        &&& self.instruments.len() >= 1
        &&& forall|i: int|
            0 <= i < self.presets.len() ==> preset_wf(
                #[trigger] self.presets@[i],
                self.instruments.len() as int,
            )
        &&& forall|i: int, k: int|
            0 <= i < self.instruments.len() && 0 <= k < self.instruments@[i].regions.len() ==> {
                let r = #[trigger] self.instruments@[i].regions@[k];
                &&& r.sample_id < self.sample_headers.len()
                &&& r.gs.len() == GENERATOR_COUNT
                &&& r.sample_start_loop >= 0
                &&& r.sample_end_loop >= 0
                &&& region_sample_fields_sanitized(r, self.sample_headers@[r.sample_id as int])
            }
    }

    /// Decodes a bank from its bytes.
    pub fn new(data: &[u8]) -> (r: Result<SoundFont, ParseError>)
        ensures
            data@.len() < 4 ==> r == Err::<SoundFont, ParseError>(ParseError::IoError),
            data@.len() >= 4 && four_cc_at(data@, 0).bytes@ != RIFF@ ==> r == Err::<
                SoundFont,
                ParseError,
            >(ParseError::RiffChunkNotFound),
            data@.len() >= 12 && four_cc_at(data@, 0).bytes@ == RIFF@ && four_cc_at(
                data@,
                8,
            ).bytes@ != SFBK@ ==> r == Err::<SoundFont, ParseError>(
                ParseError::InvalidRiffChunkType {
                    expected: FourCC { bytes: SFBK },
                    actual: four_cc_at(data@, 8),
                },
            ),
            r is Ok ==> r->Ok_0.wf(),
            data@.len() >= 12 && four_cc_at(data@, 0).bytes@ == RIFF@ && four_cc_at(data@, 8).bytes@
                == SFBK@ && list_header_error(data@, 12, INFO) is Some ==> r == Err::<
                SoundFont,
                ParseError,
            >(list_header_error(data@, 12, INFO)->Some_0),
            data@.len() >= 12 && four_cc_at(data@, 0).bytes@ == RIFF@ && four_cc_at(data@, 8).bytes@
                == SFBK@ && list_header_error(data@, 12, INFO) is None && (info_version(
                data@,
                12,
            ) matches Some(v) && v.major >= 3) ==> r == Err::<SoundFont, ParseError>(
                ParseError::UnsupportedSampleFormat,
            ),
            r is Ok <==> bank_ok(data@),
            r is Ok ==> (info_found(data@, 12) matches Some(m) && info_model(r->Ok_0.info) == m),
            r is Ok ==> decoded_from(r->Ok_0, data@),
    {
        let mut reader = BinaryReader::new(data);
        let chunk_id = reader.read_four_cc()?;
        if !chunk_id.is(&RIFF) {
            return Err(ParseError::RiffChunkNotFound);
        }
        let _size = reader.read_i32()?;
        let form_type = reader.read_four_cc()?;
        if !form_type.is(&SFBK) {
            return Err(
                ParseError::InvalidRiffChunkType { expected: FourCC::from_bytes(SFBK), actual: form_type },
            );
        }
        let info = SoundFontInfo::new(&mut reader)?;
        let sample_data = SoundFontSampleData::new(&mut reader, info.version.major)?;
        let parameters = SoundFontParameters::new(&mut reader)?;
        let ghost params = parameters;

        let mut sound_font = SoundFont {
            info,
            bits_per_sample: 16,
            wave_data: Arc::new(sample_data.wave_data),
            sample_headers: parameters.sample_headers,
            presets: parameters.presets,
            instruments: parameters.instruments,
        };
        let ghost before = sound_font.instruments@;
        sound_font.sanitize()?;
        assert forall|i: int, k: int|
            0 <= i < sound_font.instruments.len() && 0 <= k
                < sound_font.instruments@[i].regions.len() implies {
            let r = #[trigger] sound_font.instruments@[i].regions@[k];
            &&& r.sample_id < sound_font.sample_headers.len()
            &&& r.gs.len() == GENERATOR_COUNT
            &&& r.sample_start_loop >= 0
            &&& r.sample_end_loop >= 0
            &&& region_sample_fields_sanitized(
                r,
                sound_font.sample_headers@[r.sample_id as int],
            )
        } by {
            assert(instrument_sanitized(sound_font.instruments@[i], before[i]));
            assert(region_sanitized(sound_font.instruments@[i].regions@[k], before[i].regions@[k]));
            assert(region_sample_fields(
                before[i].regions@[k],
                sound_font.sample_headers@[before[i].regions@[k].sample_id as int],
            ));
            assert(before[i].regions@[k].sample_id < sound_font.sample_headers.len());
        }
        assert(holds_parameters(sound_font, params));
        Ok(sound_font)
    }

    /// Gets the information of the bank.
    pub fn get_info(&self) -> (r: &SoundFontInfo)
        ensures
            r == &self.info,
    {
        &self.info
    }

    /// Gets the bits per sample of the sample data.
    pub fn get_bits_per_sample(&self) -> (r: i32)
        ensures
            r == self.bits_per_sample,
    {
        self.bits_per_sample
    }

    /// Gets the sample data.
    pub fn get_wave_data(&self) -> (r: &[i16])
        ensures
            r@ == (*self.wave_data)@,
    {
        self.wave_data.as_slice()
    }

    /// Gets the sample headers of the bank.
    pub fn get_sample_headers(&self) -> (r: &[SampleHeader])
        ensures
            r@ == self.sample_headers@,
    {
        self.sample_headers.as_slice()
    }

    /// Gets the presets of the bank.
    pub fn get_presets(&self) -> (r: &[Preset])
        ensures
            r@ == self.presets@,
    {
        self.presets.as_slice()
    }

    /// Gets the instruments of the bank.
    pub fn get_instruments(&self) -> (r: &[Instrument])
        ensures
            r@ == self.instruments@,
    {
        self.instruments.as_slice()
    }

    /// Clamps negative loop offsets of every instrument region to zero; some banks carry
    /// them and play fine when they are read as "no loop".
    fn sanitize(&mut self) -> (r: Result<(), ParseError>)
        ensures
            r is Ok,
            final(self).info == old(self).info,
            final(self).bits_per_sample == old(self).bits_per_sample,
            final(self).wave_data == old(self).wave_data,
            final(self).sample_headers == old(self).sample_headers,
            final(self).presets == old(self).presets,
            final(self).instruments.len() == old(self).instruments.len(),
            forall|i: int|
                0 <= i < final(self).instruments.len() ==> instrument_sanitized(
                    #[trigger] final(self).instruments@[i],
                    old(self).instruments@[i],
                ),
    {
        let mut instruments: Vec<Instrument> = Vec::new();
        let mut i: usize = 0;
        while i < self.instruments.len()
            invariant
                i <= self.instruments.len(),
                instruments.len() == i,
                forall|j: int|
                    0 <= j < i ==> instrument_sanitized(
                        #[trigger] instruments@[j],
                        self.instruments@[j],
                    ),
            decreases self.instruments.len() - i,
        {
            let instrument = &self.instruments[i];
            let mut regions: Vec<InstrumentRegion> = Vec::new();
            let mut k: usize = 0;
            while k < instrument.regions.len()
                invariant
                    k <= instrument.regions.len(),
                    regions.len() == k,
                    forall|m: int|
                        0 <= m < k ==> region_sanitized(
                            #[trigger] regions@[m],
                            instrument.regions@[m],
                        ),
                decreases instrument.regions.len() - k,
            {
                let region = &instrument.regions[k];
                let sample_start_loop = if region.sample_start_loop < 0 {
                    0
                } else {
                    region.sample_start_loop
                };
                let sample_end_loop = if region.sample_end_loop < 0 {
                    0
                } else {
                    region.sample_end_loop
                };
                regions.push(
                    InstrumentRegion {
                        gs: region.gs.clone(),
                        sample_id: region.sample_id,
                        sample_start: region.sample_start,
                        sample_end: region.sample_end,
                        sample_start_loop,
                        sample_end_loop,
                        sample_rate: region.sample_rate,
                        sample_original_pitch: region.sample_original_pitch,
                        sample_pitch_correction: region.sample_pitch_correction,
                    },
                );
                k = k + 1;
            }
            instruments.push(Instrument { name: instrument.name.clone(), regions });
            i = i + 1;
        }
        self.instruments = instruments;
        Ok(())
    }
}

} // verus!
