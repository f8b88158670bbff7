use vstd::prelude::*;

use crate::binary_reader::{four_cc_at, i32_le, BinaryReader};
use crate::chunk::{
    list_body, list_header_error, next_remaining, read_list_header, read_sub_chunk_header, tag_is,
    Span,
};
use crate::error::ParseError;
use crate::four_cc::FourCC;
use crate::generator::{generators_at, Generator};
use crate::instrument::{
    instrument_built, instrument_info_at, instrument_result, instrument_wf, region_sample_fields,
    Instrument, InstrumentInfo,
};
use crate::preset::{preset_built, preset_info_at, preset_result, preset_wf, Preset, PresetInfo};
use crate::sample_header::{sample_header_at, SampleHeader};
use crate::zone::{bag_at, bag_valid, zones_of, Zone};

verus! {

/// Type of the parameter list.
pub const PDTA: [u8; 4] = [0x70, 0x64, 0x74, 0x61];

pub const PHDR: [u8; 4] = [0x70, 0x68, 0x64, 0x72];

pub const PBAG: [u8; 4] = [0x70, 0x62, 0x61, 0x67];

pub const PMOD: [u8; 4] = [0x70, 0x6d, 0x6f, 0x64];

pub const PGEN: [u8; 4] = [0x70, 0x67, 0x65, 0x6e];

pub const INST: [u8; 4] = [0x69, 0x6e, 0x73, 0x74];

pub const IBAG: [u8; 4] = [0x69, 0x62, 0x61, 0x67];

pub const IMOD: [u8; 4] = [0x69, 0x6d, 0x6f, 0x64];

pub const IGEN: [u8; 4] = [0x69, 0x67, 0x65, 0x6e];

pub const SHDR: [u8; 4] = [0x73, 0x68, 0x64, 0x72];

/// The resolved presets, instruments and sample headers of a bank.
#[derive(Debug)]
pub struct SoundFontParameters {
    pub sample_headers: Vec<SampleHeader>,
    pub presets: Vec<Preset>,
    pub instruments: Vec<Instrument>,
}

/// Whether every cross-reference of the model is in range, and every instrument region
/// carries the placement of its sample.
pub open spec fn model_wf(
    presets: Seq<Preset>,
    instruments: Seq<Instrument>,
    samples: Seq<SampleHeader>,
) -> bool {
    &&& forall|i: int| 0 <= i < presets.len() ==> preset_wf(#[trigger] presets[i], instruments.len() as int)
    &&& forall|i: int|
        0 <= i < instruments.len() ==> instrument_wf(#[trigger] instruments[i], samples.len() as int)
    &&& forall|i: int, k: int|
        0 <= i < instruments.len() && 0 <= k < instruments[i].regions.len() ==> region_sample_fields(
            #[trigger] instruments[i].regions@[k],
            samples[instruments[i].regions@[k].sample_id as int],
        )
}

/// The last sub-chunk of each needed kind met in a parameter list.
pub struct Found {
    pub phdr: Option<Span>,
    pub pbag: Option<Span>,
    pub pgen: Option<Span>,
    pub inst: Option<Span>,
    pub ibag: Option<Span>,
    pub igen: Option<Span>,
    pub shdr: Option<Span>,
}

pub open spec fn nothing_found() -> Found {
    Found { phdr: None, pbag: None, pgen: None, inst: None, ibag: None, igen: None, shdr: None }
}

/// Whether the sub-chunk `id` with a body of `size` bytes at `p` decodes.
pub open spec fn sub_chunk_ok(id: FourCC, d: Seq<u8>, p: int, size: int) -> bool {
    &&& p + size <= d.len()
    &&& if tag_is(id, PHDR) {
        size % 38 == 0
    } else if tag_is(id, PBAG) || tag_is(id, IBAG) {
        size % 4 == 0
    } else if tag_is(id, PMOD) || tag_is(id, IMOD) {
        true
    } else if tag_is(id, PGEN) || tag_is(id, IGEN) {
        size % 4 == 0 && size > 0
    } else if tag_is(id, INST) {
        size % 22 == 0
    } else if tag_is(id, SHDR) {
        size % 46 == 0 && size > 0
    } else {
        false
    }
}

/// `f` with sub-chunk `id` recorded at `s`.
pub open spec fn record(f: Found, id: FourCC, s: Span) -> Found {
    if tag_is(id, PHDR) {
        Found { phdr: Some(s), ..f }
    } else if tag_is(id, PBAG) {
        Found { pbag: Some(s), ..f }
    } else if tag_is(id, PGEN) {
        Found { pgen: Some(s), ..f }
    } else if tag_is(id, INST) {
        Found { inst: Some(s), ..f }
    } else if tag_is(id, IBAG) {
        Found { ibag: Some(s), ..f }
    } else if tag_is(id, IGEN) {
        Found { igen: Some(s), ..f }
    } else if tag_is(id, SHDR) {
        Found { shdr: Some(s), ..f }
    } else {
        f
    }
}

/// Walks the sub-chunks at `p`, `remaining` bytes of list body being left; `None` when
/// one of them does not decode.
pub open spec fn scan(d: Seq<u8>, p: int, remaining: int, f: Found) -> Option<Found>
    decreases remaining,
{
    if remaining <= 0 {
        Some(f)
    } else if p + 8 > d.len() || i32_le(d, p + 4) < 0 {
        None
    } else {
        let id = four_cc_at(d, p);
        let size = i32_le(d, p + 4);
        if !sub_chunk_ok(id, d, p + 8, size) {
            None
        } else {
            scan(
                d,
                p + 8 + size,
                next_remaining(remaining, size),
                record(f, id, Span { pos: p + 8, size }),
            )
        }
    }
}

/// The sub-chunks found in the parameter list at `p`.
pub open spec fn parameters_found(d: Seq<u8>, p: int) -> Option<Found> {
    scan(d, p + 12, list_body(i32_le(d, p + 4)), nothing_found())
}

pub open spec fn phdr_at(v: Seq<PresetInfo>, d: Seq<u8>, s: Span) -> bool {
    &&& v.len() == s.size / 38
    &&& forall|i: int| 0 <= i < v.len() ==> preset_info_at(#[trigger] v[i], d, s.pos + 38 * i)
}

pub open spec fn inst_at(v: Seq<InstrumentInfo>, d: Seq<u8>, s: Span) -> bool {
    &&& v.len() == s.size / 22
    &&& forall|i: int| 0 <= i < v.len() ==> instrument_info_at(#[trigger] v[i], d, s.pos + 22 * i)
}

pub open spec fn shdr_at(v: Seq<SampleHeader>, d: Seq<u8>, s: Span) -> bool {
    &&& v.len() == s.size / 46 - 1
    &&& forall|i: int| 0 <= i < v.len() ==> sample_header_at(#[trigger] v[i], d, s.pos + 46 * i)
}

pub open spec fn bag_of(d: Seq<u8>, s: Span) -> Seq<u16> {
    bag_at(d, s.pos, s.size / 4)
}

pub open spec fn gens_of(d: Seq<u8>, s: Span) -> Seq<Generator> {
    generators_at(d, s.pos, s.size / 4 - 1)
}

/// Whether the exec values read so far are those of the sub-chunks recorded in `f`.
pub open spec fn tables_match(
    d: Seq<u8>,
    f: Found,
    phdr: Option<Vec<PresetInfo>>,
    pbag: Option<Vec<u16>>,
    pgen: Option<Vec<Generator>>,
    inst: Option<Vec<InstrumentInfo>>,
    ibag: Option<Vec<u16>>,
    igen: Option<Vec<Generator>>,
    shdr: Option<Vec<SampleHeader>>,
) -> bool {
    &&& (phdr is Some <==> f.phdr is Some) && (phdr is Some ==> phdr_at(
        phdr->Some_0@,
        d,
        f.phdr->Some_0,
    ))
    &&& (pbag is Some <==> f.pbag is Some) && (pbag is Some ==> pbag->Some_0@ == bag_of(
        d,
        f.pbag->Some_0,
    ))
    &&& (pgen is Some <==> f.pgen is Some) && (pgen is Some ==> pgen->Some_0@ == gens_of(
        d,
        f.pgen->Some_0,
    ))
    &&& (inst is Some <==> f.inst is Some) && (inst is Some ==> inst_at(
        inst->Some_0@,
        d,
        f.inst->Some_0,
    ))
    &&& (ibag is Some <==> f.ibag is Some) && (ibag is Some ==> ibag->Some_0@ == bag_of(
        d,
        f.ibag->Some_0,
    ))
    &&& (igen is Some <==> f.igen is Some) && (igen is Some ==> igen->Some_0@ == gens_of(
        d,
        f.igen->Some_0,
    ))
    &&& (shdr is Some <==> f.shdr is Some) && (shdr is Some ==> shdr_at(
        shdr->Some_0@,
        d,
        f.shdr->Some_0,
    ))
}

/// Whether the sub-chunks recorded in `f` are all there and resolve: bag tables that
/// mark out zones, and presets and instruments whose every link is in range.
pub open spec fn parameters_ok(d: Seq<u8>, f: Found) -> bool {
    &&& f.phdr is Some && f.pbag is Some && f.pgen is Some && f.inst is Some
    &&& f.ibag is Some && f.igen is Some && f.shdr is Some
    &&& bag_of(d, f.ibag->Some_0).len() > 1
    &&& bag_valid(bag_of(d, f.ibag->Some_0), gens_of(d, f.igen->Some_0).len() as int)
    &&& f.inst->Some_0.size / 22 > 1
    &&& forall|ii: Seq<InstrumentInfo>, i: int|
        #[trigger] inst_at(ii, d, f.inst->Some_0) && 0 <= i < ii.len() - 1 ==> (
        #[trigger] instrument_result(
            ii,
            zones_of(bag_of(d, f.ibag->Some_0)),
            gens_of(d, f.igen->Some_0),
            f.shdr->Some_0.size / 46 - 1,
            i,
        )) is Ok
    &&& bag_of(d, f.pbag->Some_0).len() > 1
    &&& bag_valid(bag_of(d, f.pbag->Some_0), gens_of(d, f.pgen->Some_0).len() as int)
    &&& f.phdr->Some_0.size / 38 > 1
    &&& forall|pi: Seq<PresetInfo>, i: int|
        #[trigger] phdr_at(pi, d, f.phdr->Some_0) && 0 <= i < pi.len() - 1 ==> (
        #[trigger] preset_result(
            pi,
            zones_of(bag_of(d, f.pbag->Some_0)),
            gens_of(d, f.pgen->Some_0),
            f.inst->Some_0.size / 22 - 1,
            i,
        )) is Ok
}

/// Whether `r` is what the sub-chunks recorded in `f` resolve to.
pub open spec fn parameters_match(r: SoundFontParameters, d: Seq<u8>, f: Found) -> bool {
    &&& f.phdr is Some && f.pbag is Some && f.pgen is Some && f.inst is Some
    &&& f.ibag is Some && f.igen is Some && f.shdr is Some
    &&& shdr_at(r.sample_headers@, d, f.shdr->Some_0)
    &&& exists|ii: Seq<InstrumentInfo>|
        #[trigger] inst_at(ii, d, f.inst->Some_0) && r.instruments.len() == ii.len() - 1 && (
        forall|i: int|
            0 <= i < r.instruments.len() ==> instrument_built(
                #[trigger] r.instruments@[i],
                ii,
                zones_of(bag_of(d, f.ibag->Some_0)),
                gens_of(d, f.igen->Some_0),
                r.sample_headers@,
                i,
            ))
    &&& exists|pi: Seq<PresetInfo>|
        #[trigger] phdr_at(pi, d, f.phdr->Some_0) && r.presets.len() == pi.len() - 1 && (
        forall|i: int|
            0 <= i < r.presets.len() ==> preset_built(
                #[trigger] r.presets@[i],
                pi,
                zones_of(bag_of(d, f.pbag->Some_0)),
                gens_of(d, f.pgen->Some_0),
                r.instruments.len() as int,
                i,
            ))
}

/// Takes a sub-chunk that was found, or names the one that is missing.
fn required<T>(v: Option<T>, tag: [u8; 4]) -> (r: Result<T, ParseError>)
    ensures
        v is Some ==> r == Ok::<T, ParseError>(v->Some_0),
        v is None ==> r == Err::<T, ParseError>(ParseError::SubChunkNotFound(FourCC { bytes: tag })),
{
    match v {
        Some(x) => Ok(x),
        None => Err(ParseError::SubChunkNotFound(FourCC { bytes: tag })),
    }
}

impl SoundFontParameters {
    /// Decodes the parameter list and resolves its presets and instruments.
    pub fn new(reader: &mut BinaryReader) -> (r: Result<SoundFontParameters, ParseError>)
        ensures
            final(reader).data@ == old(reader).data@,
            list_header_error(old(reader).data@, old(reader).pos as int, PDTA) is Some ==> r
                == Err::<SoundFontParameters, ParseError>(
                list_header_error(old(reader).data@, old(reader).pos as int, PDTA)->Some_0,
            ),
            list_header_error(old(reader).data@, old(reader).pos as int, PDTA) is None ==> (r is Ok
                <==> (parameters_found(old(reader).data@, old(reader).pos as int) matches Some(f)
                && parameters_ok(old(reader).data@, f))),
            r is Ok ==> {
                &&& r->Ok_0.presets.len() >= 1
                &&& r->Ok_0.instruments.len() >= 1
                &&& model_wf(r->Ok_0.presets@, r->Ok_0.instruments@, r->Ok_0.sample_headers@)
                &&& parameters_found(old(reader).data@, old(reader).pos as int) is Some
                &&& parameters_match(
                    r->Ok_0,
                    old(reader).data@,
                    parameters_found(old(reader).data@, old(reader).pos as int)->Some_0,
                )
            },
    {
        let body = read_list_header(reader, PDTA)?;
        let ghost d = reader.data@;
        let ghost p0 = reader.pos;
        let mut preset_infos: Option<Vec<PresetInfo>> = None;
        let mut preset_bag: Option<Vec<u16>> = None;
        let mut preset_generators: Option<Vec<Generator>> = None;
        let mut instrument_infos: Option<Vec<InstrumentInfo>> = None;
        let mut instrument_bag: Option<Vec<u16>> = None;
        let mut instrument_generators: Option<Vec<Generator>> = None;
        let mut sample_headers: Option<Vec<SampleHeader>> = None;
        let mut consumed: usize = 0;
        let ghost mut cur = nothing_found();
        assert(parameters_found(d, old(reader).pos as int) == scan(d, p0 as int, body as int, cur));
        while consumed < body
            invariant
                reader.data@ == d,
                d == old(reader).data@,
                list_header_error(d, old(reader).pos as int, PDTA) is None,
                reader.pos <= d.len(),
                p0 <= reader.pos,
                consumed <= body,
                parameters_found(d, old(reader).pos as int) == scan(
                    d,
                    reader.pos as int,
                    body - consumed,
                    cur,
                ),
                tables_match(
                    d,
                    cur,
                    preset_infos,
                    preset_bag,
                    preset_generators,
                    instrument_infos,
                    instrument_bag,
                    instrument_generators,
                    sample_headers,
                ),
            decreases d.len() - reader.pos,
        {
            let ghost p = reader.pos as int;
            let (id, size) = read_sub_chunk_header(reader)?;
            let ghost span = Span { pos: p + 8, size: size as int };
            if id.is(&PHDR) {
                preset_infos = Some(PresetInfo::read_from_chunk(reader, size)?);
            } else if id.is(&PBAG) {
                preset_bag = Some(Zone::read_bag(reader, size)?);
            } else if id.is(&PMOD) || id.is(&IMOD) {
                reader.discard_data(size)?;
            } else if id.is(&PGEN) {
                preset_generators = Some(Generator::read_from_chunk(reader, size)?);
            } else if id.is(&INST) {
                instrument_infos = Some(InstrumentInfo::read_from_chunk(reader, size)?);
            } else if id.is(&IBAG) {
                instrument_bag = Some(Zone::read_bag(reader, size)?);
            } else if id.is(&IGEN) {
                instrument_generators = Some(Generator::read_from_chunk(reader, size)?);
            } else if id.is(&SHDR) {
                sample_headers = Some(SampleHeader::read_from_chunk(reader, size)?);
            } else {
                return Err(ParseError::ListContainsUnknownId(id));
            }
            proof {
                assert(sub_chunk_ok(id, d, p + 8, size as int));
                assert(scan(d, p, body - consumed, cur) == scan(
                    d,
                    p + 8 + size,
                    next_remaining(body - consumed, size as int),
                    record(cur, id, span),
                ));
                cur = record(cur, id, span);
            }
            consumed = if size < body - consumed && 8 < body - consumed - size {
                consumed + 8 + size
            } else {
                body
            };
        }
        let ghost found = cur;
        assert(parameters_found(d, old(reader).pos as int) == Some(found));
        let preset_infos = required(preset_infos, PHDR)?;
        let preset_bag = required(preset_bag, PBAG)?;
        let preset_generators = required(preset_generators, PGEN)?;
        let instrument_infos = required(instrument_infos, INST)?;
        let instrument_bag = required(instrument_bag, IBAG)?;
        let instrument_generators = required(instrument_generators, IGEN)?;
        let sample_headers = required(sample_headers, SHDR)?;

        let instrument_zones = Zone::create(&instrument_bag, instrument_generators.len())?;
        let instruments = Instrument::create(
            &instrument_infos,
            &instrument_zones,
            &instrument_generators,
            &sample_headers,
        )?;
        let preset_zones = Zone::create(&preset_bag, preset_generators.len())?;
        let presets = Preset::create(
            &preset_infos,
            &preset_zones,
            &preset_generators,
            instruments.len(),
        )?;
        let ghost ii = instrument_infos@;
        let ghost pi = preset_infos@;
        let parameters = SoundFontParameters { sample_headers, presets, instruments };
        assert(inst_at(ii, d, found.inst->Some_0));
        assert(phdr_at(pi, d, found.phdr->Some_0));
        proof {
            let si = found.inst->Some_0;
            let sp = found.phdr->Some_0;
            let iz = zones_of(bag_of(d, found.ibag->Some_0));
            let ig = gens_of(d, found.igen->Some_0);
            let pz = zones_of(bag_of(d, found.pbag->Some_0));
            let pg = gens_of(d, found.pgen->Some_0);
            assert forall|jj: Seq<InstrumentInfo>, i: int|
                #[trigger] inst_at(jj, d, si) && 0 <= i < jj.len() - 1 implies (
                #[trigger] instrument_result(jj, iz, ig, found.shdr->Some_0.size / 46 - 1, i)) is Ok by {
                assert(instrument_info_at(jj[i], d, si.pos + 22 * i));
                assert(instrument_info_at(ii[i], d, si.pos + 22 * i));
                assert(instrument_info_at(jj[i + 1], d, si.pos + 22 * (i + 1)));
                assert(instrument_info_at(ii[i + 1], d, si.pos + 22 * (i + 1)));
                assert(instrument_result(ii, iz, ig, found.shdr->Some_0.size / 46 - 1, i) is Ok);
            }
            assert forall|qq: Seq<PresetInfo>, i: int|
                #[trigger] phdr_at(qq, d, sp) && 0 <= i < qq.len() - 1 implies (
                #[trigger] preset_result(qq, pz, pg, si.size / 22 - 1, i)) is Ok by {
                assert(preset_info_at(qq[i], d, sp.pos + 38 * i));
                assert(preset_info_at(pi[i], d, sp.pos + 38 * i));
                assert(preset_info_at(qq[i + 1], d, sp.pos + 38 * (i + 1)));
                assert(preset_info_at(pi[i + 1], d, sp.pos + 38 * (i + 1)));
                assert(preset_result(pi, pz, pg, si.size / 22 - 1, i) is Ok);
            }
            assert(parameters_ok(d, found));
        }
        Ok(parameters)
    }
}

} // verus!
