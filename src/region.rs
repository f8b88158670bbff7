use vstd::prelude::*;

use crate::error::ParseError;
use crate::generator::Generator;
use crate::zone::{zones_wf, Zone};

verus! {

/// Number of generator slots in a resolved region.
pub const GENERATOR_COUNT: usize = 61;

/// Generator type that links a preset zone to an instrument.
pub const INSTRUMENT: u16 = 41;

/// Generator type that links an instrument zone to a sample.
pub const SAMPLE_ID: u16 = 53;

/// The raw 16-bit value of a generator read as a signed number.
pub open spec fn value_i16(v: u16) -> i16 {
    (if v < 0x8000 {
        v as int
    } else {
        v - 0x1_0000
    }) as i16
}

/// The slot value read back as the unsigned index it holds.
pub open spec fn link_value(x: i16) -> int {
    if x >= 0 {
        x as int
    } else {
        x + 0x1_0000
    }
}

/// The all-zero generator array.
pub open spec fn zeros() -> Seq<i16> {
    Seq::new(GENERATOR_COUNT as nat, |i: int| 0i16)
}

/// `gs` with one generator record written into its slot; a record of an unknown type
/// changes nothing.
pub open spec fn set_generator(gs: Seq<i16>, g: Generator) -> Seq<i16> {
    if g.generator_type < GENERATOR_COUNT {
        gs.update(g.generator_type as int, value_i16(g.value))
    } else {
        gs
    }
}

/// `gs` with the records of `g` written in order, so that a later record of a type
/// overwrites an earlier one.
pub open spec fn apply(gs: Seq<i16>, g: Seq<Generator>) -> Seq<i16>
    decreases g.len(),
{
    if g.len() == 0 {
        gs
    } else {
        set_generator(apply(gs, g.drop_last()), g.last())
    }
}

/// Whether `g` holds a record of type `t`.
pub open spec fn has_type(g: Seq<Generator>, t: u16) -> bool {
    exists|j: int| 0 <= j < g.len() && #[trigger] g[j].generator_type == t
}

/// The value of the last record of type `t` in `g`, if any.
pub open spec fn last_value(g: Seq<Generator>, t: u16) -> Option<i16>
    decreases g.len(),
{
    if g.len() == 0 {
        None
    } else if g.last().generator_type == t {
        Some(value_i16(g.last().value))
    } else {
        last_value(g.drop_last(), t)
    }
}

/// The generator array of a zone: zero, overlaid by the global zone's records, overlaid
/// by the zone's own.
pub open spec fn resolve(global: Seq<Generator>, local: Seq<Generator>) -> Seq<i16> {
    apply(apply(zeros(), global), local)
}

/// The generator slices of the zones `[zs, ze)`.
pub open spec fn zone_generators(
    gens: Seq<Generator>,
    zones: Seq<Zone>,
    zs: int,
    ze: int,
) -> Seq<Seq<Generator>> {
    Seq::new(
        (ze - zs) as nat,
        |k: int| gens.subrange(zones[zs + k].start as int, zones[zs + k].end as int),
    )
}

/// Whether the first zone is a global zone: it has no linking record.
pub open spec fn has_global(zg: Seq<Seq<Generator>>, link: u16) -> bool {
    zg.len() > 0 && !has_type(zg[0], link)
}

/// The records of the global zone, empty when there is none.
pub open spec fn global_of(zg: Seq<Seq<Generator>>, link: u16) -> Seq<Generator> {
    if has_global(zg, link) {
        zg[0]
    } else {
        Seq::empty()
    }
}

/// The error for a link to `id` out of range, in entity `entity`.
pub open spec fn link_error(is_preset: bool, entity: int, id: int) -> ParseError {
    if is_preset {
        ParseError::InvalidInstrumentId { preset_id: entity as usize, instrument_id: id as usize }
    } else {
        ParseError::InvalidSampleId { instrument_id: entity as usize, sample_id: id as usize }
    }
}

/// The regions of zones `k..` of an entity: a zone without a linking record gives none; a
/// link that is not below `n` is an error.
pub open spec fn regions_from(
    global: Seq<Generator>,
    zg: Seq<Seq<Generator>>,
    link: u16,
    n: int,
    is_preset: bool,
    entity: int,
    k: int,
) -> Result<Seq<(Seq<i16>, int)>, ParseError>
    decreases zg.len() - k,
{
    if k >= zg.len() || k < 0 {
        Ok(Seq::empty())
    } else if !has_type(zg[k], link) {
        regions_from(global, zg, link, n, is_preset, entity, k + 1)
    } else {
        let gs = resolve(global, zg[k]);
        let id = link_value(gs[link as int]);
        if id >= n {
            Err(link_error(is_preset, entity, id))
        } else {
            match regions_from(global, zg, link, n, is_preset, entity, k + 1) {
                Ok(rest) => Ok(seq![(gs, id)] + rest),
                Err(e) => Err(e),
            }
        }
    }
}

/// The regions of an entity whose zones are `zg`.
pub open spec fn entity_regions(
    zg: Seq<Seq<Generator>>,
    link: u16,
    n: int,
    is_preset: bool,
    entity: int,
) -> Result<Seq<(Seq<i16>, int)>, ParseError> {
    regions_from(
        global_of(zg, link),
        zg,
        link,
        n,
        is_preset,
        entity,
        if has_global(zg, link) {
            1
        } else {
            0
        },
    )
}

/// `acc` followed by the regions of `r`, or the error of `r`.
pub open spec fn prepend(
    acc: Seq<(Seq<i16>, int)>,
    r: Result<Seq<(Seq<i16>, int)>, ParseError>,
) -> Result<Seq<(Seq<i16>, int)>, ParseError> {
    match r {
        Ok(rest) => Ok(acc + rest),
        Err(e) => Err(e),
    }
}

/// A resolved zone: its generator array and the index that it links to.
pub struct ResolvedZone {
    pub gs: Vec<i16>,
    pub link: usize,
}

/// The mathematical value of resolved zones.
pub open spec fn resolved_view(r: Seq<ResolvedZone>) -> Seq<(Seq<i16>, int)> {
    Seq::new(r.len(), |i: int| (r[i].gs@, r[i].link as int))
}

/// The last record of a type decides its slot.
pub proof fn lemma_apply_slot(gs: Seq<i16>, g: Seq<Generator>, t: u16)
    requires
        gs.len() == GENERATOR_COUNT,
        t < GENERATOR_COUNT,
    ensures
        apply(gs, g).len() == GENERATOR_COUNT,
        apply(gs, g)[t as int] == match last_value(g, t) {
            Some(v) => v,
            None => gs[t as int],
        },
    decreases g.len(),
{
    if g.len() > 0 {
        lemma_apply_slot(gs, g.drop_last(), t);
    }
}

/// A type has a last value exactly when a record of it is present.
pub proof fn lemma_last_value_present(g: Seq<Generator>, t: u16)
    ensures
        last_value(g, t) is Some <==> has_type(g, t),
    decreases g.len(),
{
    if g.len() > 0 {
        lemma_last_value_present(g.drop_last(), t);
        if has_type(g, t) && g.last().generator_type != t {
            let j = choose|j: int| 0 <= j < g.len() && #[trigger] g[j].generator_type == t;
            assert(g.drop_last()[j].generator_type == t);
        }
        if has_type(g.drop_last(), t) {
            let j = choose|j: int|
                0 <= j < g.drop_last().len() && #[trigger] g.drop_last()[j].generator_type == t;
            assert(g[j].generator_type == t);
        }
        if g.last().generator_type == t {
            assert(g[g.len() - 1].generator_type == t);
        }
    }
}

fn to_i16(v: u16) -> (r: i16)
    ensures
        r == value_i16(v),
{
    if v < 0x8000 {
        v as i16
    } else {
        (v as i32 - 0x1_0000) as i16
    }
}

fn to_link(x: i16) -> (r: usize)
    ensures
        r == link_value(x),
{
    if x >= 0 {
        x as usize
    } else {
        (x as i32 + 0x1_0000) as usize
    }
}

/// Writes the records `gens[start..end]` into `gs` in order.
pub fn apply_generators(gs: &mut Vec<i16>, gens: &Vec<Generator>, start: usize, end: usize)
    requires
        old(gs).len() == GENERATOR_COUNT,
        start <= end <= gens.len(),
    ensures
        final(gs)@ == apply(old(gs)@, gens@.subrange(start as int, end as int)),
        final(gs).len() == GENERATOR_COUNT,
{
    let mut j: usize = start;
    assert(gens@.subrange(start as int, start as int) =~= Seq::<Generator>::empty());
    while j < end
        invariant
            start <= j <= end <= gens.len(),
            gs.len() == GENERATOR_COUNT,
            gs@ == apply(old(gs)@, gens@.subrange(start as int, j as int)),
        decreases end - j,
    {
        let g = gens[j];
        let ghost before = gs@;
        if (g.generator_type as usize) < GENERATOR_COUNT {
            gs.set(g.generator_type as usize, to_i16(g.value));
        }
        let ghost s = gens@.subrange(start as int, j + 1);
        assert(s.drop_last() =~= gens@.subrange(start as int, j as int));
        assert(s.last() == g);
        j = j + 1;
        assert(gs@ =~= set_generator(before, g));
    }
}

/// Whether the records `gens[start..end]` hold one of type `t`.
pub fn zone_has(gens: &Vec<Generator>, start: usize, end: usize, t: u16) -> (r: bool)
    requires
        start <= end <= gens.len(),
    ensures
        r == has_type(gens@.subrange(start as int, end as int), t),
{
    let ghost g = gens@.subrange(start as int, end as int);
    let mut j: usize = start;
    while j < end
        invariant
            start <= j <= end <= gens.len(),
            g == gens@.subrange(start as int, end as int),
            forall|k: int| 0 <= k < j - start ==> #[trigger] g[k].generator_type != t,
        decreases end - j,
    {
        if gens[j].generator_type == t {
            assert(g[j - start].generator_type == t);
            return true;
        }
        j = j + 1;
    }
    false
}

} // verus!

verus! {

/// The all-zero generator array.
pub fn zero_generators() -> (r: Vec<i16>)
    ensures
        r@ == zeros(),
{
    let mut gs: Vec<i16> = Vec::new();
    let mut i: usize = 0;
    while i < GENERATOR_COUNT
        invariant
            i <= GENERATOR_COUNT,
            gs@ =~= Seq::new(i as nat, |k: int| 0i16),
        decreases GENERATOR_COUNT - i,
    {
        gs.push(0);
        i = i + 1;
    }
    assert(gs@ =~= zeros());
    gs
}

/// Resolves the zones `[zs, ze)` of one entity into its regions: a first zone without a
/// linking record of type `link` is the global zone, whose records every other zone
/// inherits unless it sets them itself.
pub fn resolve_entity(
    gens: &Vec<Generator>,
    zones: &Vec<Zone>,
    zs: usize,
    ze: usize,
    link: u16,
    n: usize,
    is_preset: bool,
    entity: usize,
) -> (r: Result<Vec<ResolvedZone>, ParseError>)
    requires
        zones_wf(zones@, gens.len() as int),
        zs < ze <= zones.len(),
        link < GENERATOR_COUNT,
    ensures
        ({
            let expected = entity_regions(
                zone_generators(gens@, zones@, zs as int, ze as int),
                link,
                n as int,
                is_preset,
                entity as int,
            );
            match r {
                Ok(v) => expected == Ok::<Seq<(Seq<i16>, int)>, ParseError>(resolved_view(v@)),
                Err(e) => expected == Err::<Seq<(Seq<i16>, int)>, ParseError>(e),
            }
        }),
        r is Ok ==> forall|i: int|
            0 <= i < r->Ok_0.len() ==> (#[trigger] r->Ok_0@[i]).gs.len() == GENERATOR_COUNT
                && r->Ok_0@[i].link < n,
{
    let ghost zg = zone_generators(gens@, zones@, zs as int, ze as int);
    let first = zones[zs];
    assert(zones@[zs as int] == first);
    let global = !zone_has(gens, first.start, first.end, link);
    assert(global == has_global(zg, link)) by {
        assert(zg[0] == gens@.subrange(first.start as int, first.end as int));
    }
    let ghost gl = global_of(zg, link);
    let mut base = zero_generators();
    if global {
        apply_generators(&mut base, gens, first.start, first.end);
    } else {
        assert(apply(zeros(), gl) == zeros());
    }
    assert(base@ == apply(zeros(), gl));
    let count = ze - zs;
    let mut k: usize = if global {
        1
    } else {
        0
    };
    let ghost k0 = k as int;
    assert(entity_regions(zg, link, n as int, is_preset, entity as int) == regions_from(
        gl,
        zg,
        link,
        n as int,
        is_preset,
        entity as int,
        k0,
    ));
    assert(k0 == if has_global(zg, link) {
        1int
    } else {
        0int
    });
    let mut regions: Vec<ResolvedZone> = Vec::new();
    assert(resolved_view(regions@) =~= Seq::<(Seq<i16>, int)>::empty());
    assert(prepend(Seq::empty(), regions_from(gl, zg, link, n as int, is_preset, entity as int, k0))
        =~= regions_from(gl, zg, link, n as int, is_preset, entity as int, k0)) by {
        match regions_from(gl, zg, link, n as int, is_preset, entity as int, k0) {
            Ok(rest) => {
                assert(Seq::<(Seq<i16>, int)>::empty() + rest =~= rest);
            },
            Err(e) => {},
        }
    }
    while k < count
        invariant
            zones_wf(zones@, gens.len() as int),
            zs < ze <= zones.len(),
            link < GENERATOR_COUNT,
            count == ze - zs,
            zg == zone_generators(gens@, zones@, zs as int, ze as int),
            gl == global_of(zg, link),
            first == zones@[zs as int],
            global == has_global(zg, link),
            global ==> gl == gens@.subrange(first.start as int, first.end as int),
            first.start <= first.end <= gens.len(),
            base@ == apply(zeros(), gl),
            base.len() == GENERATOR_COUNT,
            k <= count,
            entity_regions(zg, link, n as int, is_preset, entity as int) == regions_from(
                gl,
                zg,
                link,
                n as int,
                is_preset,
                entity as int,
                k0,
            ),
            regions_from(gl, zg, link, n as int, is_preset, entity as int, k0) == prepend(
                resolved_view(regions@),
                regions_from(gl, zg, link, n as int, is_preset, entity as int, k as int),
            ),
            forall|i: int|
                0 <= i < regions.len() ==> (#[trigger] regions@[i]).gs.len() == GENERATOR_COUNT
                    && regions@[i].link < n,
        decreases count - k,
    {
        let z = zones[zs + k];
        assert(zones@[zs + k] == z);
        assert(zg[k as int] == gens@.subrange(z.start as int, z.end as int));
        if zone_has(gens, z.start, z.end, link) {
            let mut gs = zero_generators();
            if global {
                apply_generators(&mut gs, gens, first.start, first.end);
            }
            assert(gs@ == apply(zeros(), gl));
            apply_generators(&mut gs, gens, z.start, z.end);
            let id = to_link(gs[link as usize]);
            assert(gs@ == resolve(gl, zg[k as int]));
            if id >= n {
                assert(regions_from(gl, zg, link, n as int, is_preset, entity as int, k as int)
                    == Err::<Seq<(Seq<i16>, int)>, ParseError>(
                    link_error(is_preset, entity as int, id as int),
                ));
                let err = if is_preset {
                    ParseError::InvalidInstrumentId { preset_id: entity, instrument_id: id }
                } else {
                    ParseError::InvalidSampleId { instrument_id: entity, sample_id: id }
                };
                assert(err == link_error(is_preset, entity as int, id as int));
                assert(regions_from(gl, zg, link, n as int, is_preset, entity as int, k0) == Err::<
                    Seq<(Seq<i16>, int)>,
                    ParseError,
                >(err));
                return Err(err);
            }
            let ghost old_view = resolved_view(regions@);
            let ghost old_regions = regions@;
            let ghost gs_len = gs.len();
            regions.push(ResolvedZone { gs, link: id });
            assert forall|i: int| 0 <= i < regions.len() implies (#[trigger] regions@[i]).gs.len()
                == GENERATOR_COUNT && regions@[i].link < n by {
                if i < old_regions.len() {
                    assert(regions@[i] == old_regions[i]);
                }
            }
            assert(resolved_view(regions@) =~= old_view + seq![(gs@, id as int)]);
            proof {
                match regions_from(gl, zg, link, n as int, is_preset, entity as int, k + 1) {
                    Ok(rest) => {
                        assert(old_view + (seq![(gs@, id as int)] + rest) =~= resolved_view(
                            regions@,
                        ) + rest);
                    },
                    Err(e) => {},
                }
            }
        }
        k = k + 1;
    }
    assert(regions_from(gl, zg, link, n as int, is_preset, entity as int, count as int) == Ok::<
        Seq<(Seq<i16>, int)>,
        ParseError,
    >(Seq::empty()));
    assert(resolved_view(regions@) + Seq::empty() =~= resolved_view(regions@));
    Ok(regions)
}

} // verus!

verus! {

/// The error for a bag range that runs backwards or off the zone list.
pub open spec fn list_error(is_preset: bool) -> ParseError {
    if is_preset {
        ParseError::InvalidPresetList
    } else {
        ParseError::InvalidInstrumentList
    }
}

/// The error for an entity without a zone that gives a region.
pub open spec fn empty_error(is_preset: bool, entity: int) -> ParseError {
    if is_preset {
        ParseError::InvalidPreset(entity as usize)
    } else {
        ParseError::InvalidInstrument(entity as usize)
    }
}

/// The regions of the entity whose zones are `[zs, ze)` of `zones`.
pub open spec fn entity_result(
    zs: int,
    ze: int,
    zones: Seq<Zone>,
    gens: Seq<Generator>,
    link: u16,
    n: int,
    is_preset: bool,
    entity: int,
) -> Result<Seq<(Seq<i16>, int)>, ParseError> {
    if ze < zs || ze > zones.len() {
        Err(list_error(is_preset))
    } else if ze == zs {
        Err(empty_error(is_preset, entity))
    } else {
        match entity_regions(zone_generators(gens, zones, zs, ze), link, n, is_preset, entity) {
            Ok(r) => if r.len() == 0 {
                Err(empty_error(is_preset, entity))
            } else {
                Ok(r)
            },
            Err(e) => Err(e),
        }
    }
}

/// Checks the bag range `[zs, ze)` of an entity and resolves its zones.
pub fn resolve_entity_zones(
    zs: u16,
    ze: u16,
    zones: &Vec<Zone>,
    gens: &Vec<Generator>,
    link: u16,
    n: usize,
    is_preset: bool,
    entity: usize,
) -> (r: Result<Vec<ResolvedZone>, ParseError>)
    requires
        zones_wf(zones@, gens.len() as int),
        link < GENERATOR_COUNT,
    ensures
        ({
            let expected = entity_result(
                zs as int,
                ze as int,
                zones@,
                gens@,
                link,
                n as int,
                is_preset,
                entity as int,
            );
            match r {
                Ok(v) => expected == Ok::<Seq<(Seq<i16>, int)>, ParseError>(resolved_view(v@)),
                Err(e) => expected == Err::<Seq<(Seq<i16>, int)>, ParseError>(e),
            }
        }),
        r is Ok ==> forall|i: int|
            0 <= i < r->Ok_0.len() ==> (#[trigger] r->Ok_0@[i]).gs.len() == GENERATOR_COUNT
                && r->Ok_0@[i].link < n,
{
    if ze < zs || ze as usize > zones.len() {
        return Err(
            if is_preset {
                ParseError::InvalidPresetList
            } else {
                ParseError::InvalidInstrumentList
            },
        );
    }
    let empty = if is_preset {
        ParseError::InvalidPreset(entity)
    } else {
        ParseError::InvalidInstrument(entity)
    };
    assert(empty == empty_error(is_preset, entity as int));
    if ze == zs {
        return Err(empty);
    }
    let regions = resolve_entity(gens, zones, zs as usize, ze as usize, link, n, is_preset, entity)?;
    if regions.len() == 0 {
        return Err(empty);
    }
    Ok(regions)
}

} // verus!

verus! {

/// Within an entity that has a global zone, a generator that a zone sets itself takes
/// the zone's (last) value; one that only the global zone sets takes the global zone's
/// value; one that neither sets stays zero.
pub proof fn lemma_global_zone_cascade(global: Seq<Generator>, local: Seq<Generator>, t: u16)
    requires
        t < GENERATOR_COUNT,
    ensures
        resolve(global, local).len() == GENERATOR_COUNT,
        has_type(local, t) ==> resolve(global, local)[t as int] == last_value(local, t)->Some_0,
        !has_type(local, t) && has_type(global, t) ==> resolve(global, local)[t as int]
            == last_value(global, t)->Some_0,
        !has_type(local, t) && !has_type(global, t) ==> resolve(global, local)[t as int] == 0,
{
    lemma_apply_slot(zeros(), global, t);
    lemma_apply_slot(apply(zeros(), global), local, t);
    lemma_last_value_present(global, t);
    lemma_last_value_present(local, t);
}

} // verus!
