//! The genetics model: species, heritable traits, and the growth data
//! derived from them.

use vstd::prelude::*;
use crate::units::SCALE;
use crate::units::HALF_SCALE;
use crate::units::SCALE_3_2;
use crate::units::clamp_unit_spec;
use crate::units::clamp_unit;
use crate::units::lemma_mul_le;
use crate::water::AREA;
use crate::water::WIDTH;
use crate::water::MOIST_CAP;
use crate::water::gidx;
use crate::water::MoistureGrid;
use crate::rng::Rng;
use crate::rng::rand_range;
use crate::rng::rand_range_spec;
use crate::rng::rand_step_spec;

verus! {

/// Growth units a dead crop loses per day while it decays.
pub const DECAY: i64 = 2_000_000;

/// Divisor turning stored moisture into available water for one crop.
pub const UPTAKE_DIV: u64 = 10;

/// Lower bound of the mutation perturbation: a tenth of a unit down.
pub const MUT_MIN: i64 = -100_000;

/// Upper bound of the mutation perturbation: a tenth of a unit up.
pub const MUT_MAX: i64 = 100_000;

/// The closed set of crop species.
#[derive(Clone, Copy, PartialEq, Eq, Structural, Debug)]
pub enum Crop {
    Root,
    Bean,
    Gourd,
    Grass,
}

/// The lifecycle phase of a crop.
#[derive(Clone, Copy, PartialEq, Eq, Structural, Debug)]
pub enum Stage {
    Seedling,
    FibreGrowth,
    FruitGrowth,
    Spreading,
    Dead,
}

/// The heritable genome of one crop or seed: a species tag and two
/// continuous traits, each a fixed-point value in `[0, SCALE]`.
#[derive(Clone, Copy, PartialEq, Eq, Structural, Debug)]
pub struct SeedData {
    pub species: Crop,
    pub richness: i64,
    pub volume: i64,
}

/// Growth data derived once from a genome: cumulative growth thresholds
/// for each stage, the health ceiling, and the moisture demand per day.
/// All fields are fixed-point values.
#[derive(Clone, Copy, PartialEq, Eq, Structural, Debug)]
pub struct SeedGrowthData {
    pub seedling_time: u64,
    pub fibre_time: u64,
    pub fruit_time: u64,
    pub spread_time: u64,
    pub max_health: u64,
    pub thirst: u64,
}

/// One living (or decaying) crop: its genome, the growth data derived from
/// it at creation, and its mutable lifecycle state.
#[derive(Clone, Copy, PartialEq, Eq, Structural, Debug)]
pub struct CropData {
    pub genome: SeedData,
    pub genome_derived: SeedGrowthData,
    pub stage: Stage,
    pub growth: i64,
    pub health: i64,
}

/// The species base table: thresholds and demands before the genome's
/// traits shape them. Durations, health and thirst are in whole units.
pub open spec fn spec_base(c: Crop) -> SeedGrowthData {
    match c {
        Crop::Root => SeedGrowthData {
            seedling_time: 10,
            fibre_time: 80,
            fruit_time: 80,
            spread_time: 80,
            max_health: 100,
            thirst: 1,
        },
        Crop::Bean => SeedGrowthData {
            seedling_time: 10,
            fibre_time: 20,
            fruit_time: 20,
            spread_time: 20,
            max_health: 100,
            thirst: 7,
        },
        Crop::Gourd => SeedGrowthData {
            seedling_time: 10,
            fibre_time: 40,
            fruit_time: 40,
            spread_time: 40,
            max_health: 150,
            thirst: 2,
        },
        Crop::Grass => SeedGrowthData {
            seedling_time: 10,
            fibre_time: 15,
            fruit_time: 15,
            spread_time: 15,
            max_health: 20,
            thirst: 8,
        },
    }
}

impl Crop {
    /// The species base table as executable data.
    fn derive(self) -> (b: SeedGrowthData)
        ensures
            b == spec_base(self),
    {
        match self {
            Crop::Root => SeedGrowthData {
                seedling_time: 10,
                fibre_time: 80,
                fruit_time: 80,
                spread_time: 80,
                max_health: 100,
                thirst: 1,
            },
            Crop::Bean => SeedGrowthData {
                seedling_time: 10,
                fibre_time: 20,
                fruit_time: 20,
                spread_time: 20,
                max_health: 100,
                thirst: 7,
            },
            Crop::Gourd => SeedGrowthData {
                seedling_time: 10,
                fibre_time: 40,
                fruit_time: 40,
                spread_time: 40,
                max_health: 150,
                thirst: 2,
            },
            Crop::Grass => SeedGrowthData {
                seedling_time: 10,
                fibre_time: 15,
                fruit_time: 15,
                spread_time: 15,
                max_health: 20,
                thirst: 8,
            },
        }
    }
}

/// The trait average that grades a genome, in `[0, SCALE]`. Out-of-range
/// traits are clamped first: a caller never sees a failure for them.
pub open spec fn spec_quality(s: SeedData) -> int {
    (clamp_unit_spec(s.richness as int) + clamp_unit_spec(s.volume as int)) / 2
}

/// The complement of quality: hardy genomes are the unrefined ones.
pub open spec fn spec_hardiness(s: SeedData) -> int {
    SCALE - spec_quality(s)
}

/// Half the distance of quality from the midpoint: zero for a balanced
/// genome, largest at the extremes.
pub open spec fn spec_agility(s: SeedData) -> int {
    let q = spec_quality(s);
    if q >= HALF_SCALE {
        (q - HALF_SCALE) / 2
    } else {
        (HALF_SCALE - q) / 2
    }
}

/// The factor every base duration is stretched by: toward one and a half
/// units as agility falls.
pub open spec fn spec_duration_factor(s: SeedData) -> int {
    SCALE_3_2 - spec_agility(s)
}

/// The growth data a genome derives: base durations stretched by the
/// duration factor, the health ceiling scaled by hardiness, and thirst
/// scaled by quality.
pub open spec fn spec_derive(s: SeedData) -> SeedGrowthData {
    let base = spec_base(s.species);
    let q = spec_quality(s);
    let hard = spec_hardiness(s);
    let f = spec_duration_factor(s);
    SeedGrowthData {
        seedling_time: (base.seedling_time * f) as u64,
        fibre_time: (base.fibre_time * f) as u64,
        fruit_time: (base.fruit_time * f) as u64,
        spread_time: (base.spread_time * f) as u64,
        max_health: (base.max_health * hard) as u64,
        thirst: (base.thirst * q) as u64,
    }
}

impl SeedData {
    /// Derive growth data from this genome. Pure and deterministic: the
    /// same genome always derives the same data, so it can be re-derived
    /// at any time.
    pub fn derive(self) -> (g: SeedGrowthData)
        ensures
            g == spec_derive(self),
    {
        let r: i64 = clamp_unit(self.richness);
        let v: i64 = clamp_unit(self.volume);
        let quality: i64 = (r + v) / 2;
        let hardiness: i64 = SCALE - quality;
        let agility: i64 = if quality >= HALF_SCALE {
            (quality - HALF_SCALE) / 2
        } else {
            (HALF_SCALE - quality) / 2
        };
        let factor: i64 = SCALE_3_2 - agility;

        let mut base = self.species.derive();
        proof {
            lemma_base_bounds(self.species);
            lemma_mul_le(base.seedling_time as int, factor as int, 150, SCALE_3_2 as int);
            lemma_mul_le(base.fibre_time as int, factor as int, 150, SCALE_3_2 as int);
            lemma_mul_le(base.fruit_time as int, factor as int, 150, SCALE_3_2 as int);
            lemma_mul_le(base.spread_time as int, factor as int, 150, SCALE_3_2 as int);
            lemma_mul_le(base.max_health as int, hardiness as int, 150, SCALE as int);
            lemma_mul_le(base.thirst as int, quality as int, 8, SCALE as int);
        }
        base.seedling_time = base.seedling_time * (factor as u64);
        base.fibre_time = base.fibre_time * (factor as u64);
        base.fruit_time = base.fruit_time * (factor as u64);
        base.spread_time = base.spread_time * (factor as u64);
        base.max_health = base.max_health * (hardiness as u64);
        base.thirst = base.thirst * (quality as u64);
        base
    }
}

/// Every species base value is small: durations and health at most 150
/// whole units, thirst at most 8.
pub proof fn lemma_base_bounds(c: Crop)
    ensures
        1 <= spec_base(c).seedling_time <= 150,
        1 <= spec_base(c).fibre_time <= 150,
        1 <= spec_base(c).fruit_time <= 150,
        1 <= spec_base(c).spread_time <= 150,
        1 <= spec_base(c).max_health <= 150,
        1 <= spec_base(c).thirst <= 8,
        spec_base(c).seedling_time <= spec_base(c).fibre_time,
        spec_base(c).fibre_time <= spec_base(c).fruit_time,
        spec_base(c).fruit_time <= spec_base(c).spread_time,
{
}

/// Derived values stay in small ranges, and the stage thresholds come in
/// timeline order, because every base duration is stretched by the same
/// factor.
pub proof fn lemma_derive_bounds(s: SeedData)
    ensures
        spec_derive(s).seedling_time <= spec_derive(s).fibre_time,
        spec_derive(s).fibre_time <= spec_derive(s).fruit_time,
        spec_derive(s).fruit_time <= spec_derive(s).spread_time,
        spec_derive(s).spread_time <= 225_000_000,
        spec_derive(s).max_health <= 150_000_000,
        spec_derive(s).thirst <= 8_000_000,
{
    let base = spec_base(s.species);
    let q = spec_quality(s);
    let hard = spec_hardiness(s);
    let f = spec_duration_factor(s);
    lemma_base_bounds(s.species);
    assert(0 <= q <= SCALE);
    assert(0 <= spec_agility(s) <= 250_000);
    assert(1_250_000 <= f <= SCALE_3_2);
    lemma_mul_le(base.seedling_time as int, f, 150, SCALE_3_2 as int);
    lemma_mul_le(base.fibre_time as int, f, 150, SCALE_3_2 as int);
    lemma_mul_le(base.fruit_time as int, f, 150, SCALE_3_2 as int);
    lemma_mul_le(base.spread_time as int, f, 150, SCALE_3_2 as int);
    lemma_mul_le(base.max_health as int, hard, 150, SCALE as int);
    lemma_mul_le(base.thirst as int, q, 8, SCALE as int);
    crate::units::lemma_mul_mono(
        base.seedling_time as int,
        base.fibre_time as int,
        f,
    );
    crate::units::lemma_mul_mono(base.fibre_time as int, base.fruit_time as int, f);
    crate::units::lemma_mul_mono(base.fruit_time as int, base.spread_time as int, f);
}

/// The genome a crop stores: the given traits clamped into the unit
/// interval, the defensive policy for out-of-range callers.
pub open spec fn spec_clamped_genome(s: SeedData) -> SeedData {
    SeedData {
        species: s.species,
        richness: clamp_unit_spec(s.richness as int) as i64,
        volume: clamp_unit_spec(s.volume as int) as i64,
    }
}

/// A freshly planted crop: the clamped genome, its derived growth data, a
/// seedling with no growth and full health.
pub open spec fn spec_crop(s: SeedData) -> CropData {
    let d = spec_derive(s);
    CropData {
        genome: spec_clamped_genome(s),
        genome_derived: d,
        stage: Stage::Seedling,
        growth: 0,
        health: d.max_health as i64,
    }
}

impl SeedData {
    /// Plant this genome: a Seedling-stage crop with no growth and full
    /// health, its growth data derived once from the (clamped) traits.
    pub fn crop(self) -> (c: CropData)
        ensures
            c == spec_crop(self),
            wf_crop(c),
    {
        proof {
            lemma_derive_bounds(self);
            lemma_crop_wf(self);
        }
        let genome = SeedData {
            species: self.species,
            richness: clamp_unit(self.richness),
            volume: clamp_unit(self.volume),
        };
        let genome_derived = self.derive();
        CropData {
            genome,
            genome_derived,
            stage: Stage::Seedling,
            growth: 0,
            health: genome_derived.max_health as i64,
        }
    }
}

/// Trait values inside the unit interval.
pub open spec fn wf_genome(s: SeedData) -> bool {
    0 <= s.richness <= SCALE && 0 <= s.volume <= SCALE
}

/// The growth threshold the crop's current stage is measured against.
pub open spec fn stage_threshold(c: CropData) -> int {
    match c.stage {
        Stage::Seedling => c.genome_derived.seedling_time as int,
        Stage::FibreGrowth => c.genome_derived.fibre_time as int,
        Stage::FruitGrowth => c.genome_derived.fruit_time as int,
        Stage::Spreading => c.genome_derived.spread_time as int,
        Stage::Dead => 0,
    }
}

/// A crop the engine can hold: clamped traits, growth data that really is
/// what its genome derives, growth within its stage's threshold (while it
/// lives) and never far past the final threshold, health non-negative
/// while it lives and never above the ceiling.
pub open spec fn wf_crop(c: CropData) -> bool {
    &&& wf_genome(c.genome)
    &&& c.genome_derived == spec_derive(c.genome)
    &&& 0 <= c.growth <= c.genome_derived.spread_time + SCALE
    &&& c.stage != Stage::Dead ==> c.growth <= stage_threshold(c)
    &&& c.stage != Stage::Dead ==> 0 <= c.health
    &&& c.health <= c.genome_derived.max_health
}

/// A crop fresh from a genome is well-formed.
pub proof fn lemma_crop_wf(s: SeedData)
    ensures
        wf_crop(spec_crop(s)),
{
    lemma_derive_bounds(s);
    lemma_base_bounds(s.species);
    let d = spec_derive(s);
    let cl = spec_clamped_genome(s);
    assert(spec_quality(cl) == spec_quality(s));
    assert(spec_derive(cl) == spec_derive(s));
    assert(d.seedling_time >= 0);
}

/// A 32x32 grid of optional crops, flattened row-major; absence is bare
/// soil.
pub struct CropField {
    cells: Vec<Option<CropData>>,
}

impl View for CropField {
    type V = Seq<Option<CropData>>;

    closed spec fn view(&self) -> Seq<Option<CropData>> {
        self.cells@
    }
}

impl CropField {
    /// A field holds one optional crop per tile, every present crop
    /// well-formed.
    pub open spec fn wf(&self) -> bool {
        &&& self@.len() == AREA
        &&& forall|k: int|
            0 <= k < AREA ==> (#[trigger] self@[k] matches Some(c) ==> wf_crop(c))
    }

    /// An empty field: bare soil everywhere.
    pub fn new() -> (r: CropField)
        ensures
            r.wf(),
            r@ == Seq::new(AREA as nat, |k: int| Option::<CropData>::None),
    {
        let mut cells: Vec<Option<CropData>> = Vec::new();
        let mut k: usize = 0;
        while k < AREA
            invariant
                k <= AREA,
                cells@.len() == k,
                forall|m: int| 0 <= m < k ==> cells@[m] is None,
            decreases AREA - k,
        {
            cells.push(None);
            k = k + 1;
        }
        proof {
            assert(cells@ =~= Seq::new(AREA as nat, |k: int| Option::<CropData>::None));
        }
        CropField { cells }
    }

    /// Read one tile.
    pub fn get(&self, i: usize, j: usize) -> (r: Option<CropData>)
        requires
            self.wf(),
            i < WIDTH,
            j < WIDTH,
        ensures
            r == self@[i as int * 32 + j],
    {
        self.cells[i * 32 + j]
    }

    /// Plant a fresh crop grown from `seed` on one tile, replacing
    /// whatever stood there.
    pub fn place(&mut self, i: usize, j: usize, seed: SeedData)
        requires
            old(self).wf(),
            i < WIDTH,
            j < WIDTH,
        ensures
            final(self).wf(),
            final(self)@ == old(self)@.update(i as int * 32 + j, Some(spec_crop(seed))),
    {
        let c = seed.crop();
        self.cells.set(i * 32 + j, Some(c));
    }

    /// Clear one tile back to bare soil.
    pub fn clear(&mut self, i: usize, j: usize)
        requires
            old(self).wf(),
            i < WIDTH,
            j < WIDTH,
        ensures
            final(self).wf(),
            final(self)@ == old(self)@.update(i as int * 32 + j, Option::<CropData>::None),
    {
        self.cells.set(i * 32 + j, None);
    }
}

/// A mutated copy of a genome: an independent perturbation drawn from
/// `[MUT_MIN, MUT_MAX)` is added to each trait and the result clamped back
/// into the unit interval. Two draws advance the stream.
pub open spec fn spec_mutate(g: SeedData, s: Seq<u64>) -> (SeedData, Seq<u64>) {
    let d1 = rand_range_spec(s, MUT_MIN as int, MUT_MAX as int);
    let s1 = rand_step_spec(s);
    let d2 = rand_range_spec(s1, MUT_MIN as int, MUT_MAX as int);
    let s2 = rand_step_spec(s1);
    (
        SeedData {
            species: g.species,
            richness: clamp_unit_spec(g.richness + d1) as i64,
            volume: clamp_unit_spec(g.volume + d2) as i64,
        },
        s2,
    )
}

/// Draw the two perturbations and build the mutated genome.
fn mutate_genome(g: SeedData, rng: &mut Rng) -> (m: SeedData)
    requires
        wf_genome(g),
    ensures
        m == spec_mutate(g, old(rng)@).0,
        final(rng)@ == spec_mutate(g, old(rng)@).1,
        wf_genome(m),
{
    let d1: i64 = rand_range(rng, MUT_MIN, MUT_MAX);
    let richness: i64 = clamp_unit(g.richness + d1);
    let d2: i64 = rand_range(rng, MUT_MIN, MUT_MAX);
    let volume: i64 = clamp_unit(g.volume + d2);
    SeedData { species: g.species, richness, volume }
}

/// Whether a spreading crop may sow the tile at `(ti, tj)`: inside the
/// two-ring border, and bare soil or still a seedling.
pub open spec fn spread_eligible(c: Seq<Option<CropData>>, ti: int, tj: int) -> bool {
    &&& 2 <= ti < 30
    &&& 2 <= tj < 30
    &&& (c[gidx(ti, tj)] is None || (c[gidx(ti, tj)] matches Some(cc) && cc.stage
        == Stage::Seedling))
}

/// Sowing one tile: if it is eligible, a mutated offspring is planted
/// there (and the stream advances by the two draws); otherwise nothing
/// happens and the stream stands still.
pub open spec fn spec_spread_one(
    c: Seq<Option<CropData>>,
    s: Seq<u64>,
    ti: int,
    tj: int,
    g: SeedData,
) -> (Seq<Option<CropData>>, Seq<u64>) {
    if spread_eligible(c, ti, tj) {
        let (m, s2) = spec_mutate(g, s);
        (c.update(gidx(ti, tj), Some(spec_crop(m))), s2)
    } else {
        (c, s)
    }
}

/// Sowing all eight neighbours of `(i, j)` in the fixed order that keeps
/// runs reproducible: the row above left to right, the two sides, the row
/// below left to right.
pub open spec fn spec_spread(
    c: Seq<Option<CropData>>,
    s: Seq<u64>,
    i: int,
    j: int,
    g: SeedData,
) -> (Seq<Option<CropData>>, Seq<u64>) {
    let r1 = spec_spread_one(c, s, i - 1, j - 1, g);
    let r2 = spec_spread_one(r1.0, r1.1, i, j - 1, g);
    let r3 = spec_spread_one(r2.0, r2.1, i + 1, j - 1, g);
    let r4 = spec_spread_one(r3.0, r3.1, i - 1, j, g);
    let r5 = spec_spread_one(r4.0, r4.1, i + 1, j, g);
    let r6 = spec_spread_one(r5.0, r5.1, i - 1, j + 1, g);
    let r7 = spec_spread_one(r6.0, r6.1, i, j + 1, g);
    spec_spread_one(r7.0, r7.1, i + 1, j + 1, g)
}

/// Sow one tile if it is eligible.
fn maybe_spread_seed(crops: &mut CropField, ti: i64, tj: i64, g: SeedData, rng: &mut Rng)
    requires
        old(crops).wf(),
        wf_genome(g),
    ensures
        final(crops).wf(),
        final(crops)@ == spec_spread_one(old(crops)@, old(rng)@, ti as int, tj as int, g).0,
        final(rng)@ == spec_spread_one(old(crops)@, old(rng)@, ti as int, tj as int, g).1,
{
    if 2 <= ti && ti < 30 && 2 <= tj && tj < 30 {
        let k: usize = (ti * 32 + tj) as usize;
        let cell: Option<CropData> = crops.cells[k];
        let eligible: bool = match cell {
            None => true,
            Some(c) => c.stage == Stage::Seedling,
        };
        if eligible {
            let m = mutate_genome(g, rng);
            let newc = m.crop();
            crops.cells.set(k, Some(newc));
        }
    }
}

/// Sow all eight neighbours of `(i, j)` in the fixed order.
fn spread_seeds(crops: &mut CropField, i: usize, j: usize, g: SeedData, rng: &mut Rng)
    requires
        old(crops).wf(),
        wf_genome(g),
        i < WIDTH,
        j < WIDTH,
    ensures
        final(crops).wf(),
        final(crops)@ == spec_spread(old(crops)@, old(rng)@, i as int, j as int, g).0,
        final(rng)@ == spec_spread(old(crops)@, old(rng)@, i as int, j as int, g).1,
{
    let i0: i64 = i as i64;
    let j0: i64 = j as i64;
    maybe_spread_seed(crops, i0 - 1, j0 - 1, g, rng);
    maybe_spread_seed(crops, i0, j0 - 1, g, rng);
    maybe_spread_seed(crops, i0 + 1, j0 - 1, g, rng);
    maybe_spread_seed(crops, i0 - 1, j0, g, rng);
    maybe_spread_seed(crops, i0 + 1, j0, g, rng);
    maybe_spread_seed(crops, i0 - 1, j0 + 1, g, rng);
    maybe_spread_seed(crops, i0, j0 + 1, g, rng);
    maybe_spread_seed(crops, i0 + 1, j0 + 1, g, rng);
}

/// A crop part-way through a day's update: stage advancement has not run
/// yet, so growth may stand past its stage's threshold (but never more
/// than one whole unit past the final one).
pub open spec fn wf_crop_mid(c: CropData) -> bool {
    &&& wf_genome(c.genome)
    &&& c.genome_derived == spec_derive(c.genome)
    &&& 0 <= c.growth <= c.genome_derived.spread_time + SCALE
    &&& c.stage != Stage::Dead ==> 0 <= c.health
    &&& c.health <= c.genome_derived.max_health
}

/// One day of physiology for a living crop on a tile holding `m` moisture:
/// a tenth of the tile is available and is drawn from it; health gains the
/// available water and pays the thirst; growth advances a full unit, or
/// the fraction `available / thirst` when water-limited; health below zero
/// kills the crop, health above the ceiling is clamped to it.
pub open spec fn spec_live_update(c: CropData, m: u64) -> (CropData, u64) {
    let avail = m as int / UPTAKE_DIV as int;
    let thirst = c.genome_derived.thirst as int;
    let h1 = c.health + avail - thirst;
    let g1 = if avail < thirst {
        c.growth + avail * (SCALE as int) / thirst
    } else {
        c.growth + SCALE as int
    };
    let stage1 = if h1 < 0 {
        Stage::Dead
    } else {
        c.stage
    };
    let h2 = if h1 < 0 {
        h1
    } else if h1 > c.genome_derived.max_health {
        c.genome_derived.max_health as int
    } else {
        h1
    };
    (
        CropData {
            genome: c.genome,
            genome_derived: c.genome_derived,
            stage: stage1,
            growth: g1 as i64,
            health: h2 as i64,
        },
        (m - avail) as u64,
    )
}

/// One day of physiology, executable.
fn live_update(c: CropData, m: u64) -> (r: (CropData, u64))
    requires
        wf_crop(c),
        c.stage != Stage::Dead,
        m <= MOIST_CAP,
    ensures
        r == spec_live_update(c, m),
        wf_crop_mid(r.0),
        r.0.genome == c.genome,
        r.1 <= m,
{
    proof {
        lemma_derive_bounds(c.genome);
    }
    let avail_u: u64 = m / UPTAKE_DIV;
    let thirst: u64 = c.genome_derived.thirst;
    let mut health: i64 = c.health + (avail_u as i64) - (thirst as i64);
    let growth: i64 = if avail_u < thirst {
        proof {
            lemma_mul_le(avail_u as int, SCALE as int, MOIST_CAP as int, SCALE as int);
            assert((avail_u as int) * (SCALE as int) < (thirst as int) * (SCALE as int))
                by (nonlinear_arith)
                requires
                    avail_u < thirst,
                    SCALE > 0,
            ;
            assert((avail_u as int) * (SCALE as int) / (thirst as int) < SCALE as int)
                by (nonlinear_arith)
                requires
                    (avail_u as int) * (SCALE as int) < (thirst as int) * (SCALE as int),
                    thirst > 0,
            ;
            assert((avail_u as int) * (SCALE as int) / (thirst as int) >= 0)
                by (nonlinear_arith)
                requires
                    avail_u >= 0,
                    SCALE > 0,
                    thirst > 0,
            ;
        }
        let inc: u64 = avail_u * (SCALE as u64) / thirst;
        c.growth + (inc as i64)
    } else {
        c.growth + SCALE
    };
    let mut stage: Stage = c.stage;
    if health < 0 {
        stage = Stage::Dead;
    } else if health > c.genome_derived.max_health as i64 {
        health = c.genome_derived.max_health as i64;
    }
    (
        CropData {
            genome: c.genome,
            genome_derived: c.genome_derived,
            stage,
            growth,
            health,
        },
        m - avail_u,
    )
}

/// How many stages still lie between this one and Dead: the measure that
/// bounds the advancement loop.
pub open spec fn stage_rank(s: Stage) -> nat {
    match s {
        Stage::Seedling => 4nat,
        Stage::FibreGrowth => 3nat,
        Stage::FruitGrowth => 2nat,
        Stage::Spreading => 1nat,
        Stage::Dead => 0nat,
    }
}

/// Stage advancement: as long as growth exceeds the current stage's
/// threshold the crop moves to the next stage, several in one day if
/// growth jumped far enough. The move from Spreading to Dead is the one
/// that fires spreading (the second component), and ends the climb.
pub open spec fn spec_advance(c: CropData) -> (CropData, bool)
    decreases stage_rank(c.stage),
{
    match c.stage {
        Stage::Dead => (c, false),
        Stage::Seedling => if c.growth > c.genome_derived.seedling_time {
            spec_advance(
                CropData {
                    genome: c.genome,
                    genome_derived: c.genome_derived,
                    stage: Stage::FibreGrowth,
                    growth: c.growth,
                    health: c.health,
                },
            )
        } else {
            (c, false)
        },
        Stage::FibreGrowth => if c.growth > c.genome_derived.fibre_time {
            spec_advance(
                CropData {
                    genome: c.genome,
                    genome_derived: c.genome_derived,
                    stage: Stage::FruitGrowth,
                    growth: c.growth,
                    health: c.health,
                },
            )
        } else {
            (c, false)
        },
        Stage::FruitGrowth => if c.growth > c.genome_derived.fruit_time {
            spec_advance(
                CropData {
                    genome: c.genome,
                    genome_derived: c.genome_derived,
                    stage: Stage::Spreading,
                    growth: c.growth,
                    health: c.health,
                },
            )
        } else {
            (c, false)
        },
        Stage::Spreading => if c.growth > c.genome_derived.spread_time {
            (
                CropData {
                    genome: c.genome,
                    genome_derived: c.genome_derived,
                    stage: Stage::Dead,
                    growth: c.growth,
                    health: c.health,
                },
                true,
            )
        } else {
            (c, false)
        },
    }
}

/// Advancement leaves everything but the stage alone, lands in a
/// well-formed crop, and reports Dead exactly when spreading fired.
pub proof fn lemma_advance_wf(c: CropData)
    requires
        wf_crop_mid(c),
    ensures
        wf_crop(spec_advance(c).0),
        spec_advance(c).0.genome == c.genome,
        spec_advance(c).0.genome_derived == c.genome_derived,
        spec_advance(c).0.growth == c.growth,
        spec_advance(c).0.health == c.health,
        spec_advance(c).1 ==> spec_advance(c).0.stage == Stage::Dead,
    decreases stage_rank(c.stage),
{
    lemma_derive_bounds(c.genome);
    match c.stage {
        Stage::Dead => {},
        Stage::Seedling => {
            if c.growth > c.genome_derived.seedling_time {
                lemma_advance_wf(
                    CropData {
                        genome: c.genome,
                        genome_derived: c.genome_derived,
                        stage: Stage::FibreGrowth,
                        growth: c.growth,
                        health: c.health,
                    },
                );
            }
        },
        Stage::FibreGrowth => {
            if c.growth > c.genome_derived.fibre_time {
                lemma_advance_wf(
                    CropData {
                        genome: c.genome,
                        genome_derived: c.genome_derived,
                        stage: Stage::FruitGrowth,
                        growth: c.growth,
                        health: c.health,
                    },
                );
            }
        },
        Stage::FruitGrowth => {
            if c.growth > c.genome_derived.fruit_time {
                lemma_advance_wf(
                    CropData {
                        genome: c.genome,
                        genome_derived: c.genome_derived,
                        stage: Stage::Spreading,
                        growth: c.growth,
                        health: c.health,
                    },
                );
            }
        },
        Stage::Spreading => {},
    }
}

/// Stage advancement, executable: one recursive call per transition.
fn advance_stage(c: CropData) -> (r: (CropData, bool))
    requires
        wf_crop_mid(c),
    ensures
        r == spec_advance(c),
        wf_crop(r.0),
        r.0.genome == c.genome,
        r.1 ==> r.0.stage == Stage::Dead,
    decreases stage_rank(c.stage),
{
    proof {
        lemma_derive_bounds(c.genome);
        lemma_advance_wf(c);
    }
    match c.stage {
        Stage::Dead => (c, false),
        Stage::Seedling => {
            if c.growth > c.genome_derived.seedling_time as i64 {
                advance_stage(
                    CropData {
                        genome: c.genome,
                        genome_derived: c.genome_derived,
                        stage: Stage::FibreGrowth,
                        growth: c.growth,
                        health: c.health,
                    },
                )
            } else {
                (c, false)
            }
        },
        Stage::FibreGrowth => {
            if c.growth > c.genome_derived.fibre_time as i64 {
                advance_stage(
                    CropData {
                        genome: c.genome,
                        genome_derived: c.genome_derived,
                        stage: Stage::FruitGrowth,
                        growth: c.growth,
                        health: c.health,
                    },
                )
            } else {
                (c, false)
            }
        },
        Stage::FruitGrowth => {
            if c.growth > c.genome_derived.fruit_time as i64 {
                advance_stage(
                    CropData {
                        genome: c.genome,
                        genome_derived: c.genome_derived,
                        stage: Stage::Spreading,
                        growth: c.growth,
                        health: c.health,
                    },
                )
            } else {
                (c, false)
            }
        },
        Stage::Spreading => {
            if c.growth > c.genome_derived.spread_time as i64 {
                (
                    CropData {
                        genome: c.genome,
                        genome_derived: c.genome_derived,
                        stage: Stage::Dead,
                        growth: c.growth,
                        health: c.health,
                    },
                    true,
                )
            } else {
                (c, false)
            }
        },
    }
}

/// One day for the single tile `(i, j)`: nothing for bare soil; decay and
/// possible removal for a dead crop; physiology, stage advancement and
/// possible spreading for a living one.
pub open spec fn spec_cell(
    c: Seq<Option<CropData>>,
    w: Seq<u64>,
    s: Seq<u64>,
    i: int,
    j: int,
) -> (Seq<Option<CropData>>, Seq<u64>, Seq<u64>) {
    let k = gidx(i, j);
    match c[k] {
        None => (c, w, s),
        Some(cr) => {
            if cr.stage == Stage::Dead {
                let g1 = cr.growth - DECAY;
                if g1 < 0 {
                    (c.update(k, None), w, s)
                } else {
                    (
                        c.update(
                            k,
                            Some(
                                CropData {
                                    genome: cr.genome,
                                    genome_derived: cr.genome_derived,
                                    stage: cr.stage,
                                    growth: g1 as i64,
                                    health: cr.health,
                                },
                            ),
                        ),
                        w,
                        s,
                    )
                }
            } else {
                let (c1, m1) = spec_live_update(cr, w[k]);
                let (c2, fired) = spec_advance(c1);
                let cu = c.update(k, Some(c2));
                let wu = w.update(k, m1);
                if fired {
                    let (cs, s2) = spec_spread(cu, s, i, j, c2.genome);
                    (cs, wu, s2)
                } else {
                    (cu, wu, s)
                }
            }
        },
    }
}

/// One day for the first `n` tiles, in row-major order. In-day sowings are
/// written straight into the grid, so a tile visited later the same day
/// can see a seedling sown by an earlier one.
pub open spec fn spec_tick_cells(
    c: Seq<Option<CropData>>,
    w: Seq<u64>,
    s: Seq<u64>,
    n: nat,
) -> (Seq<Option<CropData>>, Seq<u64>, Seq<u64>)
    decreases n,
{
    if n == 0 {
        (c, w, s)
    } else {
        let prev = spec_tick_cells(c, w, s, (n - 1) as nat);
        let k = n - 1;
        spec_cell(prev.0, prev.1, prev.2, k / 32, k % 32)
    }
}

/// One full day for the whole grid.
pub open spec fn spec_update_crops(
    c: Seq<Option<CropData>>,
    w: Seq<u64>,
    s: Seq<u64>,
) -> (Seq<Option<CropData>>, Seq<u64>, Seq<u64>) {
    spec_tick_cells(c, w, s, AREA as nat)
}

/// The state after `n` consecutive days, each a full pass of
/// `spec_update_crops` (with no diffusion or rain between them).
pub open spec fn spec_run_days(
    c: Seq<Option<CropData>>,
    w: Seq<u64>,
    s: Seq<u64>,
    n: nat,
) -> (Seq<Option<CropData>>, Seq<u64>, Seq<u64>)
    decreases n,
{
    if n == 0 {
        (c, w, s)
    } else {
        let prev = spec_run_days(c, w, s, (n - 1) as nat);
        spec_update_crops(prev.0, prev.1, prev.2)
    }
}

/// Advance the crop lifecycle and moisture consumption by exactly one
/// simulated day: every tile in row-major order, dead crops decaying and
/// vanishing, living crops drinking, growing, advancing stage, and on the
/// move from Spreading to Dead sowing mutated offspring into their eight
/// neighbours. The whole day is a pure function of the three arguments.
#[verifier::rlimit(100)]
pub fn update_crops(crops: &mut CropField, water: &mut MoistureGrid, rng: &mut Rng)
    requires
        old(crops).wf(),
        old(water).wf(),
    ensures
        final(crops).wf(),
        final(water).wf(),
        final(crops)@ == spec_update_crops(old(crops)@, old(water)@, old(rng)@).0,
        final(water)@ == spec_update_crops(old(crops)@, old(water)@, old(rng)@).1,
        final(rng)@ == spec_update_crops(old(crops)@, old(water)@, old(rng)@).2,
{
    let ghost c0 = crops@;
    let ghost w0 = water@;
    let ghost s0 = rng@;
    let mut k: usize = 0;
    while k < AREA
        invariant
            crops.wf(),
            water.wf(),
            k <= AREA,
            crops@ == spec_tick_cells(c0, w0, s0, k as nat).0,
            water@ == spec_tick_cells(c0, w0, s0, k as nat).1,
            rng@ == spec_tick_cells(c0, w0, s0, k as nat).2,
        decreases AREA - k,
    {
        let ghost cprev = crops@;
        let ghost wprev = water@;
        let ghost sprev = rng@;
        let i: usize = k / 32;
        let j: usize = k % 32;
        proof {
            assert(32 * (k as int / 32) + k as int % 32 == k as int);
        }
        let cell: Option<CropData> = crops.cells[k];
        match cell {
            None => {},
            Some(cr) => {
                if cr.stage == Stage::Dead {
                    let g1: i64 = cr.growth - DECAY;
                    if g1 < 0 {
                        crops.cells.set(k, None);
                    } else {
                        crops.cells.set(
                            k,
                            Some(
                                CropData {
                                    genome: cr.genome,
                                    genome_derived: cr.genome_derived,
                                    stage: cr.stage,
                                    growth: g1,
                                    health: cr.health,
                                },
                            ),
                        );
                    }
                } else {
                    let m: u64 = water.get(i, j);
                    let r = live_update(cr, m);
                    let c1 = r.0;
                    let m1 = r.1;
                    let r2 = advance_stage(c1);
                    let c2 = r2.0;
                    let fired = r2.1;
                    crops.cells.set(k, Some(c2));
                    water.set(i, j, m1);
                    if fired {
                        spread_seeds(crops, i, j, c2.genome, rng);
                    }
                }
            },
        }
        proof {
            assert(crops@ == spec_cell(cprev, wprev, sprev, i as int, j as int).0);
            assert(water@ == spec_cell(cprev, wprev, sprev, i as int, j as int).1);
            assert(rng@ == spec_cell(cprev, wprev, sprev, i as int, j as int).2);
        }
        k = k + 1;
    }
}

} // verus!
