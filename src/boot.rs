//! Bootstrap: spreads the global call budget over the regions as cadences and
//! builds the region table from its configuration entries.
use vstd::prelude::*;

use crate::region::ResourceRegion;

verus! {

/// Length of the rate-limit window, in seconds.
pub const WINDOW_SECONDS: u64 = 900;

/// Calls allowed per window when the configuration names no limit.
pub const DEFAULT_CALL_CEILING: u64 = 450;

/// Cadences are kept in milliseconds.
pub const MILLIS_PER_SECOND: u64 = 1000;

/// Why the configuration could not be turned into regions.
#[derive(PartialEq, Eq, Structural, Debug, Clone, Copy)]
pub enum BootError {
    /// The entry at `index` lacks a field that every region needs.
    MalformedRegion { index: usize },
    /// The call ceiling is zero, so no spacing between calls exists.
    ZeroCallCeiling,
    /// The configuration holds no region.
    NoRegions,
    /// A cadence does not fit in 64 bits.
    Overflow,
}

/// One region as the configuration describes it; a field is absent when the
/// configuration lacks it or holds a value of the wrong kind.
pub struct RegionEntry {
    pub id: Option<u64>,
    pub topic: Option<String>,
    pub params: Option<String>,
    pub flex: Option<u64>,
    pub compare_since_id: Option<bool>,
}

impl RegionEntry {
    /// Every field that a region needs is present.
    pub open spec fn complete(&self) -> bool {
        &&& self.id is Some
        &&& self.topic is Some
        &&& self.params is Some
        &&& self.flex is Some
        &&& self.compare_since_id is Some
    }

    /// `r` is the region this entry describes, with cadence `cadence`.
    pub open spec fn describes(&self, r: ResourceRegion, cadence: int) -> bool {
        &&& r.id == self.id->Some_0
        &&& r.topic@ == self.topic->Some_0@
        &&& r.params@ == self.params->Some_0@
        &&& r.tick == cadence
        &&& r.since_id == 0
        &&& r.compare_since_id == self.compare_since_id->Some_0
        &&& r.channel is None
    }
}

/// Entry `i` is the first one that lacks a field.
pub open spec fn first_incomplete(entries: Seq<RegionEntry>, i: int) -> bool {
    &&& 0 <= i < entries.len()
    &&& !entries[i].complete()
    &&& forall|j: int| 0 <= j < i ==> (#[trigger] entries[j]).complete()
}

/// Every entry is complete.
pub open spec fn all_complete(entries: Seq<RegionEntry>) -> bool {
    forall|i: int| 0 <= i < entries.len() ==> (#[trigger] entries[i]).complete()
}

/// The flex weights of the entries.
pub open spec fn flexes_of(entries: Seq<RegionEntry>) -> Seq<u64> {
    entries.map_values(|e: RegionEntry| e.flex->Some_0)
}

/// The call ceiling in force: the configured one, or the default.
pub open spec fn ceiling_of(call_ceiling: Option<u64>) -> u64 {
    match call_ceiling {
        Some(c) => c,
        None => DEFAULT_CALL_CEILING,
    }
}

/// Sum of the flex weights.
pub open spec fn flex_total(flexes: Seq<u64>) -> int
    decreases flexes.len(),
{
    if flexes.len() == 0 {
        0
    } else {
        flex_total(flexes.drop_last()) + flexes.last()
    }
}

/// Minimum spacing between calls that keeps `call_ceiling` calls inside the window.
pub open spec fn spacing(window_seconds: u64, call_ceiling: u64) -> int
    recommends
        call_ceiling > 0,
{
    window_seconds as int / call_ceiling as int
}

/// The cadence of a region of flex one, in units of `1 / unit` seconds.
pub open spec fn base_unit(window_seconds: u64, call_ceiling: u64, flexes: Seq<u64>, unit: u64) -> int
    recommends
        call_ceiling > 0,
        flexes.len() > 0,
{
    unit * spacing(window_seconds, call_ceiling) * flex_total(flexes) / flexes.len() as int
}

/// Every quantity that the cadence computation forms fits in 64 bits.
pub open spec fn cadences_fit(window_seconds: u64, call_ceiling: u64, flexes: Seq<u64>, unit: u64) -> bool {
    &&& flex_total(flexes) <= u64::MAX
    &&& unit * spacing(window_seconds, call_ceiling) <= u64::MAX
    &&& unit * spacing(window_seconds, call_ceiling) * flex_total(flexes) <= u64::MAX
    &&& forall|i: int|
        0 <= i < flexes.len() ==> flexes[i] * base_unit(window_seconds, call_ceiling, flexes, unit)
            <= u64::MAX
}

/// Each of `cadences` is the matching flex weight times `base`.
pub open spec fn weighted(cadences: Seq<u64>, flexes: Seq<u64>, base: int) -> bool {
    &&& cadences.len() == flexes.len()
    &&& forall|i: int| 0 <= i < flexes.len() ==> #[trigger] cadences[i] == flexes[i] * base
}

proof fn lemma_flex_total_step(flexes: Seq<u64>, i: int)
    requires
        0 <= i < flexes.len(),
    ensures
        flex_total(flexes.take(i + 1)) == flex_total(flexes.take(i)) + flexes[i],
{
    assert(flexes.take(i + 1).drop_last() =~= flexes.take(i));
}

proof fn lemma_flex_total_prefix(flexes: Seq<u64>, i: int)
    requires
        0 <= i <= flexes.len(),
    ensures
        0 <= flex_total(flexes.take(i)) <= flex_total(flexes),
    decreases flexes.len() - i,
{
    if i < flexes.len() {
        lemma_flex_total_step(flexes, i);
        lemma_flex_total_prefix(flexes, i + 1);
        lemma_flex_total_nonneg(flexes.take(i));
    } else {
        assert(flexes.take(i) =~= flexes);
        lemma_flex_total_nonneg(flexes);
    }
}

proof fn lemma_flex_total_nonneg(flexes: Seq<u64>)
    ensures
        flex_total(flexes) >= 0,
    decreases flexes.len(),
{
    if flexes.len() > 0 {
        lemma_flex_total_nonneg(flexes.drop_last());
    }
}

/// Minimum spacing between calls, in seconds, that respects the ceiling.
pub fn delay_between_calls(window_seconds: u64, call_ceiling: u64) -> (r: u64)
    requires
        call_ceiling > 0,
    ensures
        r == spacing(window_seconds, call_ceiling),
{
    window_seconds / call_ceiling
}

/// Sum of the flex weights, or nothing when it does not fit in 64 bits.
pub fn flex_sum(flexes: &Vec<u64>) -> (r: Option<u64>)
    ensures
        flex_total(flexes@) <= u64::MAX ==> r == Some(flex_total(flexes@) as u64),
        flex_total(flexes@) > u64::MAX ==> r is None,
{
    let mut sum: u64 = 0;
    let mut i: usize = 0;
    while i < flexes.len()
        invariant
            i <= flexes.len(),
            sum == flex_total(flexes@.take(i as int)),
        decreases flexes.len() - i,
    {
        proof {
            lemma_flex_total_step(flexes@, i as int);
            lemma_flex_total_prefix(flexes@, i as int + 1);
        }
        match sum.checked_add(flexes[i]) {
            Some(s) => sum = s,
            None => return None,
        }
        i += 1;
    }
    assert(flexes@.take(i as int) =~= flexes@);
    Some(sum)
}

/// Cadence of every region, in units of `1 / unit` seconds: its flex weight
/// times the base unit that spreads the call budget over all regions.
pub fn cadences(window_seconds: u64, call_ceiling: u64, flexes: &Vec<u64>, unit: u64) -> (r: Result<
    Vec<u64>,
    BootError,
>)
    ensures
        call_ceiling == 0 ==> r == Err::<Vec<u64>, BootError>(BootError::ZeroCallCeiling),
        call_ceiling > 0 && flexes@.len() == 0 ==> r == Err::<Vec<u64>, BootError>(
            BootError::NoRegions,
        ),
        call_ceiling > 0 && flexes@.len() > 0 && !cadences_fit(
            window_seconds,
            call_ceiling,
            flexes@,
            unit,
        ) ==> r == Err::<Vec<u64>, BootError>(BootError::Overflow),
        call_ceiling > 0 && flexes@.len() > 0 && cadences_fit(window_seconds, call_ceiling, flexes@, unit)
            ==> r is Ok,
        r matches Ok(v) ==> weighted(
            v@,
            flexes@,
            base_unit(window_seconds, call_ceiling, flexes@, unit),
        ),
{
    if call_ceiling == 0 {
        return Err(BootError::ZeroCallCeiling);
    }
    if flexes.len() == 0 {
        return Err(BootError::NoRegions);
    }
    proof {
        lemma_flex_total_nonneg(flexes@);
    }
    let gap = delay_between_calls(window_seconds, call_ceiling);
    let sum = match flex_sum(flexes) {
        Some(s) => s,
        None => return Err(BootError::Overflow),
    };
    let scaled = match unit.checked_mul(gap) {
        Some(x) => x,
        None => return Err(BootError::Overflow),
    };
    let total = match scaled.checked_mul(sum) {
        Some(x) => x,
        None => return Err(BootError::Overflow),
    };
    let base = total / (flexes.len() as u64);
    proof {
        let g = spacing(window_seconds, call_ceiling);
        let f = flex_total(flexes@);
        assert(sum == f);
        assert(scaled == unit * g);
        assert(total == unit * g * f) by (nonlinear_arith)
            requires
                total == scaled * sum,
                scaled == unit * g,
                sum == f,
        ;
    }
    let mut out: Vec<u64> = Vec::new();
    let mut i: usize = 0;
    while i < flexes.len()
        invariant
            call_ceiling > 0,
            flexes@.len() > 0,
            i <= flexes.len(),
            base == base_unit(window_seconds, call_ceiling, flexes@, unit),
            out@.len() == i,
            forall|j: int| 0 <= j < i ==> #[trigger] out@[j] == flexes@[j] * base,
        decreases flexes.len() - i,
    {
        match flexes[i].checked_mul(base) {
            Some(c) => out.push(c),
            None => return Err(BootError::Overflow),
        }
        i += 1;
    }
    assert forall|j: int| 0 <= j < flexes@.len() implies flexes@[j] * base_unit(
        window_seconds,
        call_ceiling,
        flexes@,
        unit,
    ) <= u64::MAX by {
        assert(out@[j] == flexes@[j] * base);
    }
    Ok(out)
}

/// Builds the region table from the configuration entries: each region gets
/// its share of the call budget as cadence, in milliseconds, and starts at
/// watermark zero with no channel attached.
pub fn regions_from_entries(entries: &Vec<RegionEntry>, call_ceiling: Option<u64>) -> (r: Result<
    Vec<ResourceRegion>,
    BootError,
>)
    ensures
        forall|i: int|
            first_incomplete(entries@, i) ==> r == Err::<Vec<ResourceRegion>, BootError>(
                BootError::MalformedRegion { index: i as usize },
            ),
        all_complete(entries@) && ceiling_of(call_ceiling) == 0 ==> r == Err::<
            Vec<ResourceRegion>,
            BootError,
        >(BootError::ZeroCallCeiling),
        all_complete(entries@) && ceiling_of(call_ceiling) > 0 && entries@.len() == 0 ==> r == Err::<
            Vec<ResourceRegion>,
            BootError,
        >(BootError::NoRegions),
        all_complete(entries@) && ceiling_of(call_ceiling) > 0 && entries@.len() > 0 && !cadences_fit(
            WINDOW_SECONDS,
            ceiling_of(call_ceiling),
            flexes_of(entries@),
            MILLIS_PER_SECOND,
        ) ==> r == Err::<Vec<ResourceRegion>, BootError>(BootError::Overflow),
        all_complete(entries@) && ceiling_of(call_ceiling) > 0 && entries@.len() > 0 && cadences_fit(
            WINDOW_SECONDS,
            ceiling_of(call_ceiling),
            flexes_of(entries@),
            MILLIS_PER_SECOND,
        ) ==> r is Ok,
        r matches Ok(v) ==> {
            &&& v@.len() == entries@.len()
            &&& forall|i: int|
                0 <= i < entries@.len() ==> (#[trigger] entries@[i]).describes(
                    v@[i],
                    entries@[i].flex->Some_0 * base_unit(
                        WINDOW_SECONDS,
                        ceiling_of(call_ceiling),
                        flexes_of(entries@),
                        MILLIS_PER_SECOND,
                    ),
                )
        },
{
    let mut flexes: Vec<u64> = Vec::new();
    let mut i: usize = 0;
    while i < entries.len()
        invariant
            i <= entries.len(),
            flexes@.len() == i,
            forall|j: int| 0 <= j < i ==> (#[trigger] entries@[j]).complete(),
            forall|j: int| 0 <= j < i ==> #[trigger] flexes@[j] == entries@[j].flex->Some_0,
        decreases entries.len() - i,
    {
        let e = &entries[i];
        match (&e.id, &e.topic, &e.params, &e.flex, &e.compare_since_id) {
            (Some(_), Some(_), Some(_), Some(flex), Some(_)) => flexes.push(*flex),
            _ => return Err(BootError::MalformedRegion { index: i }),
        }
        i += 1;
    }
    assert(flexes@ =~= flexes_of(entries@));
    let ceiling: u64 = match call_ceiling {
        Some(c) => c,
        None => DEFAULT_CALL_CEILING,
    };
    let ticks = match cadences(WINDOW_SECONDS, ceiling, &flexes, MILLIS_PER_SECOND) {
        Ok(t) => t,
        Err(e) => return Err(e),
    };
    let ghost base = base_unit(WINDOW_SECONDS, ceiling, flexes@, MILLIS_PER_SECOND);
    let mut regions: Vec<ResourceRegion> = Vec::new();
    let mut k: usize = 0;
    while k < entries.len()
        invariant
            k <= entries.len(),
            all_complete(entries@),
            flexes@ == flexes_of(entries@),
            weighted(ticks@, flexes@, base),
            regions@.len() == k,
            forall|j: int| 0 <= j < k ==> (#[trigger] entries@[j]).describes(regions@[j], flexes@[j] * base),
        decreases entries.len() - k,
    {
        let e = &entries[k];
        assert(e.complete());
        match (&e.id, &e.topic, &e.params, &e.compare_since_id) {
            (Some(id), Some(topic), Some(params), Some(strict)) => {
                let mut region = ResourceRegion::new(*id, topic.clone(), params.clone());
                region.tick(ticks[k]);
                region.compare_since_id(*strict);
                regions.push(region);
            },
            _ => {},
        }
        k += 1;
    }
    Ok(regions)
}

} // verus!
