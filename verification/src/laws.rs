//! Laws of the simulation, stated and proved over the spec functions that
//! the public contracts use.

use vstd::prelude::*;
use crate::units::SCALE;
use crate::units::HALF_SCALE;
use crate::units::SCALE_3_2;
use crate::units::clamp_unit_spec;
use crate::crop::CropData;
use crate::crop::SeedData;
use crate::crop::Stage;
use crate::crop::DECAY;
use crate::crop::MUT_MIN;
use crate::crop::MUT_MAX;
use crate::crop::spec_base;
use crate::crop::spec_quality;
use crate::crop::spec_hardiness;
use crate::crop::spec_agility;
use crate::crop::spec_derive;
use crate::crop::spec_crop;
use crate::crop::spec_live_update;
use crate::crop::spec_advance;
use crate::crop::spec_mutate;
use crate::crop::spec_spread;
use crate::crop::spec_cell;
use crate::crop::spec_update_crops;
use crate::crop::wf_genome;
use crate::crop::wf_crop;
use crate::crop::lemma_derive_bounds;
use crate::crop::lemma_crop_wf;
use crate::rng::rand_range_spec;
use crate::rng::lemma_rand_range_bounds;
use crate::water::AREA;
use crate::water::MOIST_CAP;
use crate::water::gidx;
use crate::water::at;
use crate::water::interior;
use crate::water::delta_at;
use crate::water::diffuse_spec;

verus! {

/// For any genome with traits in range, the derived health ceiling and
/// thirst are exactly the species base values scaled by hardiness and
/// quality, with quality exactly the trait average.
pub proof fn lemma_derive_formulas(s: SeedData)
    requires
        0 <= s.richness <= SCALE,
        0 <= s.volume <= SCALE,
    ensures
        spec_quality(s) == (s.richness + s.volume) / 2,
        spec_derive(s).max_health == spec_base(s.species).max_health * (SCALE - (s.richness
            + s.volume) / 2),
        spec_derive(s).thirst == spec_base(s.species).thirst * ((s.richness + s.volume) / 2),
{
    crate::crop::lemma_base_bounds(s.species);
    crate::units::lemma_mul_le(
        spec_base(s.species).max_health as int,
        spec_hardiness(s),
        150,
        SCALE as int,
    );
    crate::units::lemma_mul_le(
        spec_base(s.species).thirst as int,
        spec_quality(s),
        8,
        SCALE as int,
    );
}

/// For a genome with equal traits `q`, the grade is exactly `q`, hardiness
/// exactly its complement, agility exactly half the distance of `q` from
/// the midpoint, and the derived health ceiling and thirst are exactly the
/// species base values scaled by hardiness and quality.
pub proof fn lemma_derive_equal_traits(s: SeedData)
    requires
        s.richness == s.volume,
        0 <= s.richness <= SCALE,
    ensures
        spec_quality(s) == s.richness,
        spec_hardiness(s) == SCALE - s.richness,
        spec_agility(s) == if s.richness >= HALF_SCALE {
            (s.richness - HALF_SCALE) / 2
        } else {
            (HALF_SCALE - s.richness) / 2
        },
        spec_derive(s).max_health == spec_base(s.species).max_health * (SCALE - s.richness),
        spec_derive(s).thirst == spec_base(s.species).thirst * s.richness,
{
    crate::crop::lemma_base_bounds(s.species);
    crate::units::lemma_mul_le(
        spec_base(s.species).max_health as int,
        SCALE - s.richness,
        150,
        SCALE as int,
    );
    crate::units::lemma_mul_le(spec_base(s.species).thirst as int, s.richness as int, 8, SCALE as int);
}

/// For a genome at the exact trait midpoint, agility vanishes and every
/// derived duration is exactly its base duration stretched by one and a
/// half units.
pub proof fn lemma_derive_midpoint(s: SeedData)
    requires
        s.richness == HALF_SCALE,
        s.volume == HALF_SCALE,
    ensures
        spec_agility(s) == 0,
        spec_derive(s).seedling_time == spec_base(s.species).seedling_time * SCALE_3_2,
        spec_derive(s).fibre_time == spec_base(s.species).fibre_time * SCALE_3_2,
        spec_derive(s).fruit_time == spec_base(s.species).fruit_time * SCALE_3_2,
        spec_derive(s).spread_time == spec_base(s.species).spread_time * SCALE_3_2,
{
    crate::crop::lemma_base_bounds(s.species);
    crate::units::lemma_mul_le(spec_base(s.species).seedling_time as int, SCALE_3_2 as int, 150, SCALE_3_2 as int);
    crate::units::lemma_mul_le(spec_base(s.species).fibre_time as int, SCALE_3_2 as int, 150, SCALE_3_2 as int);
    crate::units::lemma_mul_le(spec_base(s.species).fruit_time as int, SCALE_3_2 as int, 150, SCALE_3_2 as int);
    crate::units::lemma_mul_le(spec_base(s.species).spread_time as int, SCALE_3_2 as int, 150, SCALE_3_2 as int);
}

/// Tiles of the outermost two rings neither gain nor lose in a diffusion
/// pass: their values come out unchanged.
pub proof fn lemma_diffuse_keeps_border(w: Seq<u64>, i: int, j: int)
    requires
        w.len() == AREA,
        forall|k: int| 0 <= k < AREA ==> w[k] <= MOIST_CAP,
        0 <= i < 32,
        0 <= j < 32,
        !interior(i, j),
    ensures
        diffuse_spec(w)[gidx(i, j)] == w[gidx(i, j)],
{
    let k = gidx(i, j);
    assert(k / 32 == i && k % 32 == j) by (nonlinear_arith)
        requires
            k == i * 32 + j,
            0 <= i < 32,
            0 <= j < 32,
    ;
    assert(delta_at(w, i, j) == 0);
}

/// A grid whose moisture sits only on the border (the outermost two
/// rings) is a fixed point of diffusion: border tiles are not sources, so
/// no interior tile has anything to gain, and none has anything to lose.
pub proof fn lemma_diffuse_border_only_fixed(w: Seq<u64>)
    requires
        w.len() == AREA,
        forall|k: int| 0 <= k < AREA ==> w[k] <= MOIST_CAP,
        forall|i: int, j: int| interior(i, j) ==> #[trigger] at(w, i, j) == 0,
    ensures
        diffuse_spec(w) =~= w,
{
    assert forall|k: int| 0 <= k < AREA implies diffuse_spec(w)[k] == w[k] by {
        let i = k / 32;
        let j = k % 32;
        assert(0 <= i < 32 && 0 <= j < 32);
        assert(gidx(i, j) == k);
        if interior(i, j) {
            assert(at(w, i, j) == 0);
            assert(crate::water::adj_in(w, i - 1, j) == 0);
            assert(crate::water::adj_in(w, i + 1, j) == 0);
            assert(crate::water::adj_in(w, i, j - 1) == 0);
            assert(crate::water::adj_in(w, i, j + 1) == 0);
            assert(crate::water::diag_in(w, i - 1, j - 1) == 0);
            assert(crate::water::diag_in(w, i + 1, j - 1) == 0);
            assert(crate::water::diag_in(w, i - 1, j + 1) == 0);
            assert(crate::water::diag_in(w, i + 1, j + 1) == 0);
            assert(delta_at(w, i, j) == 0);
        } else {
            assert(delta_at(w, i, j) == 0);
        }
    }
}

/// Both outflow coefficients are monotone in the tile value and
/// non-negative on non-negative tiles.
proof fn lemma_out_monotone(v: int, c: int)
    requires
        0 <= v <= c,
    ensures
        0 <= crate::water::adj_out(v) <= crate::water::adj_out(c),
        0 <= crate::water::diag_out(v) <= crate::water::diag_out(c),
{
    vstd::arithmetic::div_mod::lemma_div_pos_is_pos(v * 11375, 100000);
    vstd::arithmetic::div_mod::lemma_div_is_ordered(v * 11375, c * 11375, 100000);
    vstd::arithmetic::div_mod::lemma_div_pos_is_pos(v * 6125, 100000);
    vstd::arithmetic::div_mod::lemma_div_is_ordered(v * 6125, c * 6125, 100000);
}

/// A tile never loses more than it holds: its eight outflows and its
/// evaporation together stay within its value.
proof fn lemma_loss_bounds(v: int)
    requires
        0 <= v,
    ensures
        0 <= crate::water::loss(v) <= v,
{
    let a = v * 11375 / 100000;
    let d = v * 6125 / 100000;
    lemma_out_monotone(v, v);
    vstd::arithmetic::div_mod::lemma_fundamental_div_mod(v * 11375, 100000);
    vstd::arithmetic::div_mod::lemma_fundamental_div_mod(v * 6125, 100000);
    vstd::arithmetic::div_mod::lemma_remainder_lower(v * 11375, 100000);
    vstd::arithmetic::div_mod::lemma_remainder_lower(v * 6125, 100000);
    assert(100000 * a <= v * 11375);
    assert(100000 * d <= v * 6125);
    assert(crate::water::evap_out(v) == 0);
}

/// With every tile under half the cap, a diffusion pass never reaches the
/// cap: the new value of each tile is exactly the old value plus the
/// tile's net change.
proof fn lemma_diffuse_no_clamp(w: Seq<u64>, i: int, j: int)
    requires
        w.len() == AREA,
        forall|k: int| 0 <= k < AREA ==> w[k] <= MOIST_CAP / 2,
        0 <= i < 32,
        0 <= j < 32,
    ensures
        at(diffuse_spec(w), i, j) == at(w, i, j) + delta_at(w, i, j),
{
    let k = gidx(i, j);
    assert(k / 32 == i && k % 32 == j) by (nonlinear_arith)
        requires
            k == i * 32 + j,
            0 <= i < 32,
            0 <= j < 32,
    ;
    let v = at(w, i, j);
    assert(v <= MOIST_CAP / 2);
    if interior(i, j) {
        let half = MOIST_CAP as int / 2;
        lemma_out_monotone(at(w, i - 1, j), half);
        lemma_out_monotone(at(w, i + 1, j), half);
        lemma_out_monotone(at(w, i, j - 1), half);
        lemma_out_monotone(at(w, i, j + 1), half);
        lemma_out_monotone(at(w, i - 1, j - 1), half);
        lemma_out_monotone(at(w, i + 1, j - 1), half);
        lemma_out_monotone(at(w, i - 1, j + 1), half);
        lemma_out_monotone(at(w, i + 1, j + 1), half);
        lemma_loss_bounds(v);
        assert(crate::water::adj_out(half) == 56_875_000_000);
        assert(crate::water::diag_out(half) == 30_625_000_000);
        assert(v + delta_at(w, i, j) <= MOIST_CAP);
        assert(0 <= v + delta_at(w, i, j));
    }
}

/// The net changes of one diffusion pass cancel exactly over the interior
/// when all moisture sits at least three tiles from the edge: every
/// outflow a tile is debited lands as exactly one inflow credit.
#[verifier::rlimit(100)]
proof fn lemma_sum_delta_zero(w: Seq<u64>)
    requires
        w.len() == AREA,
        forall|i: int, j: int|
            0 <= i < 32 && 0 <= j < 32 && !(3 <= i < 29 && 3 <= j < 29) ==> #[trigger] at(w, i, j)
                == 0,
    ensures
        crate::grid_sum::sum_rect(|i: int, j: int| delta_at(w, i, j), 2, 30, 2, 30) == 0,
{
    let fa = |i: int, j: int| crate::water::adj_out(at(w, i, j));
    let fd = |i: int, j: int| crate::water::diag_out(at(w, i, j));
    let fga = |i: int, j: int| crate::water::adj_in(w, i, j);
    let fgd = |i: int, j: int| crate::water::diag_in(w, i, j);
    let t1 = |i: int, j: int| crate::water::adj_in(w, i - 1, j);
    let t2 = |i: int, j: int| crate::water::adj_in(w, i + 1, j);
    let t3 = |i: int, j: int| crate::water::adj_in(w, i, j - 1);
    let t4 = |i: int, j: int| crate::water::adj_in(w, i, j + 1);
    let t5 = |i: int, j: int| crate::water::diag_in(w, i - 1, j - 1);
    let t6 = |i: int, j: int| crate::water::diag_in(w, i + 1, j - 1);
    let t7 = |i: int, j: int| crate::water::diag_in(w, i - 1, j + 1);
    let t8 = |i: int, j: int| crate::water::diag_in(w, i + 1, j + 1);
    assert(crate::water::adj_out(0) == 0);
    assert(crate::water::diag_out(0) == 0);
    assert(crate::water::loss(0) == 0);
    // each shifted inflow sum equals the interior-only outflow sum over the support
    crate::grid_sum::lemma_sum_rect_shift(fga, t1, 2, 30, 2, 30, -1, 0);
    crate::grid_sum::lemma_sum_rect_shrink(fga, 1, 29, 2, 30, 3, 29, 3, 29);
    crate::grid_sum::lemma_sum_rect_shift(fga, t2, 2, 30, 2, 30, 1, 0);
    crate::grid_sum::lemma_sum_rect_shrink(fga, 3, 31, 2, 30, 3, 29, 3, 29);
    crate::grid_sum::lemma_sum_rect_shift(fga, t3, 2, 30, 2, 30, 0, -1);
    crate::grid_sum::lemma_sum_rect_shrink(fga, 2, 30, 1, 29, 3, 29, 3, 29);
    crate::grid_sum::lemma_sum_rect_shift(fga, t4, 2, 30, 2, 30, 0, 1);
    crate::grid_sum::lemma_sum_rect_shrink(fga, 2, 30, 3, 31, 3, 29, 3, 29);
    crate::grid_sum::lemma_sum_rect_shift(fgd, t5, 2, 30, 2, 30, -1, -1);
    crate::grid_sum::lemma_sum_rect_shrink(fgd, 1, 29, 1, 29, 3, 29, 3, 29);
    crate::grid_sum::lemma_sum_rect_shift(fgd, t6, 2, 30, 2, 30, 1, -1);
    crate::grid_sum::lemma_sum_rect_shrink(fgd, 3, 31, 1, 29, 3, 29, 3, 29);
    crate::grid_sum::lemma_sum_rect_shift(fgd, t7, 2, 30, 2, 30, -1, 1);
    crate::grid_sum::lemma_sum_rect_shrink(fgd, 1, 29, 3, 31, 3, 29, 3, 29);
    crate::grid_sum::lemma_sum_rect_shift(fgd, t8, 2, 30, 2, 30, 1, 1);
    crate::grid_sum::lemma_sum_rect_shrink(fgd, 3, 31, 3, 31, 3, 29, 3, 29);
    // every supporting tile is interior, so its outflow counts in full
    crate::grid_sum::lemma_sum_rect_ext(fga, fa, 3, 29, 3, 29);
    crate::grid_sum::lemma_sum_rect_ext(fgd, fd, 3, 29, 3, 29);
    let sa = crate::grid_sum::sum_rect(fa, 3, 29, 3, 29);
    let sd = crate::grid_sum::sum_rect(fd, 3, 29, 3, 29);
    // total inflow over the interior
    let g1 = |i: int, j: int| crate::water::adj_in(w, i - 1, j) + crate::water::adj_in(w, i + 1, j);
    let g2 = |i: int, j: int|
        crate::water::adj_in(w, i - 1, j) + crate::water::adj_in(w, i + 1, j) + crate::water::adj_in(
            w,
            i,
            j - 1,
        );
    let g3 = |i: int, j: int|
        crate::water::adj_in(w, i - 1, j) + crate::water::adj_in(w, i + 1, j) + crate::water::adj_in(
            w,
            i,
            j - 1,
        ) + crate::water::adj_in(w, i, j + 1);
    let g4 = |i: int, j: int|
        crate::water::adj_in(w, i - 1, j) + crate::water::adj_in(w, i + 1, j) + crate::water::adj_in(
            w,
            i,
            j - 1,
        ) + crate::water::adj_in(w, i, j + 1) + crate::water::diag_in(w, i - 1, j - 1);
    let g5 = |i: int, j: int|
        crate::water::adj_in(w, i - 1, j) + crate::water::adj_in(w, i + 1, j) + crate::water::adj_in(
            w,
            i,
            j - 1,
        ) + crate::water::adj_in(w, i, j + 1) + crate::water::diag_in(w, i - 1, j - 1)
            + crate::water::diag_in(w, i + 1, j - 1);
    let g6 = |i: int, j: int|
        crate::water::adj_in(w, i - 1, j) + crate::water::adj_in(w, i + 1, j) + crate::water::adj_in(
            w,
            i,
            j - 1,
        ) + crate::water::adj_in(w, i, j + 1) + crate::water::diag_in(w, i - 1, j - 1)
            + crate::water::diag_in(w, i + 1, j - 1) + crate::water::diag_in(w, i - 1, j + 1);
    let gin = |i: int, j: int| crate::water::inflow(w, i, j);
    crate::grid_sum::lemma_sum_rect_add(t1, t2, g1, 2, 30, 2, 30);
    crate::grid_sum::lemma_sum_rect_add(g1, t3, g2, 2, 30, 2, 30);
    crate::grid_sum::lemma_sum_rect_add(g2, t4, g3, 2, 30, 2, 30);
    crate::grid_sum::lemma_sum_rect_add(g3, t5, g4, 2, 30, 2, 30);
    crate::grid_sum::lemma_sum_rect_add(g4, t6, g5, 2, 30, 2, 30);
    crate::grid_sum::lemma_sum_rect_add(g5, t7, g6, 2, 30, 2, 30);
    crate::grid_sum::lemma_sum_rect_add(g6, t8, gin, 2, 30, 2, 30);
    assert(crate::grid_sum::sum_rect(gin, 2, 30, 2, 30) == 4 * sa + 4 * sd);
    // total loss over the interior
    let lf = |i: int, j: int| crate::water::loss(at(w, i, j));
    let a2 = |i: int, j: int|
        crate::water::adj_out(at(w, i, j)) + crate::water::adj_out(at(w, i, j));
    let a4 = |i: int, j: int|
        crate::water::adj_out(at(w, i, j)) + crate::water::adj_out(at(w, i, j))
            + crate::water::adj_out(at(w, i, j)) + crate::water::adj_out(at(w, i, j));
    let d2 = |i: int, j: int|
        crate::water::diag_out(at(w, i, j)) + crate::water::diag_out(at(w, i, j));
    let d4 = |i: int, j: int|
        crate::water::diag_out(at(w, i, j)) + crate::water::diag_out(at(w, i, j))
            + crate::water::diag_out(at(w, i, j)) + crate::water::diag_out(at(w, i, j));
    crate::grid_sum::lemma_sum_rect_add(fa, fa, a2, 3, 29, 3, 29);
    crate::grid_sum::lemma_sum_rect_add(a2, a2, a4, 3, 29, 3, 29);
    crate::grid_sum::lemma_sum_rect_add(fd, fd, d2, 3, 29, 3, 29);
    crate::grid_sum::lemma_sum_rect_add(d2, d2, d4, 3, 29, 3, 29);
    crate::grid_sum::lemma_sum_rect_add(a4, d4, lf, 3, 29, 3, 29);
    assert(crate::grid_sum::sum_rect(lf, 3, 29, 3, 29) == 4 * sa + 4 * sd);
    crate::grid_sum::lemma_sum_rect_shrink(lf, 2, 30, 2, 30, 3, 29, 3, 29);
    // the net change is inflow minus loss
    let nl = |i: int, j: int| -crate::water::loss(at(w, i, j));
    let dd = |i: int, j: int| delta_at(w, i, j);
    crate::grid_sum::lemma_sum_rect_neg(lf, nl, 2, 30, 2, 30);
    crate::grid_sum::lemma_sum_rect_add(gin, nl, dd, 2, 30, 2, 30);
}

/// With no evaporation, a diffusion pass conserves total moisture exactly,
/// provided all moisture sits at least three tiles from the edge (a tile
/// nearer the border trades moisture with the frozen rings one-sidedly)
/// and every tile is under half the cap (so the cap never cuts a value).
pub proof fn lemma_diffuse_conserves_mass(w: Seq<u64>)
    requires
        w.len() == AREA,
        forall|k: int| 0 <= k < AREA ==> w[k] <= MOIST_CAP / 2,
        forall|i: int, j: int|
            0 <= i < 32 && 0 <= j < 32 && !(3 <= i < 29 && 3 <= j < 29) ==> #[trigger] at(w, i, j)
                == 0,
    ensures
        crate::water::total_moisture(diffuse_spec(w)) == crate::water::total_moisture(w),
{
    let fw = |i: int, j: int| at(w, i, j);
    let fg = |i: int, j: int| at(diffuse_spec(w), i, j);
    let dd = |i: int, j: int| delta_at(w, i, j);
    let fh = |i: int, j: int| at(w, i, j) + delta_at(w, i, j);
    assert forall|i: int, j: int| 0 <= i < 32 && 0 <= j < 32 implies #[trigger] fg(i, j) == fh(
        i,
        j,
    ) by {
        lemma_diffuse_no_clamp(w, i, j);
    }
    crate::grid_sum::lemma_sum_rect_ext(fg, fh, 0, 32, 0, 32);
    crate::grid_sum::lemma_sum_rect_add(fw, dd, fh, 0, 32, 0, 32);
    crate::grid_sum::lemma_sum_rect_shrink(dd, 0, 32, 0, 32, 2, 30, 2, 30);
    lemma_sum_delta_zero(w);
    assert(crate::water::total_moisture(w) == crate::grid_sum::sum_rect(fw, 0, 32, 0, 32));
    assert(crate::water::total_moisture(diffuse_spec(w)) == crate::grid_sum::sum_rect(
        fg,
        0,
        32,
        0,
        32,
    ));
}

/// A crop that thirsts for nothing is never water-limited: while it
/// lives, each day advances its growth by exactly one whole unit, and the
/// day's physiology cannot kill it.
pub proof fn lemma_no_thirst_full_growth(c: CropData, m: u64)
    requires
        wf_crop(c),
        c.stage != Stage::Dead,
        c.genome_derived.thirst == 0,
    ensures
        spec_live_update(c, m).0.growth == c.growth + SCALE,
        spec_live_update(c, m).0.stage == c.stage,
{
}

/// A day whose water balance drives health below zero kills the crop on
/// that very day: after physiology and stage advancement its stage is
/// Dead, and the advancement fires no spreading.
pub proof fn lemma_starvation_kills_same_day(c: CropData, m: u64)
    requires
        wf_crop(c),
        c.stage != Stage::Dead,
        c.health + (m as int) / 10 - c.genome_derived.thirst < 0,
    ensures
        spec_advance(spec_live_update(c, m).0).0.stage == Stage::Dead,
        !spec_advance(spec_live_update(c, m).0).1,
{
}

/// A dead crop decays by exactly the fixed rate each day, and its tile
/// goes back to bare soil on the day the decayed growth would fall below
/// zero.
pub proof fn lemma_dead_crop_decays(
    c: Seq<Option<CropData>>,
    w: Seq<u64>,
    s: Seq<u64>,
    i: int,
    j: int,
)
    requires
        c.len() == AREA,
        0 <= i < 32,
        0 <= j < 32,
        c[gidx(i, j)] matches Some(cr) && cr.stage == Stage::Dead,
    ensures
        ({
            let cr = c[gidx(i, j)]->Some_0;
            if cr.growth < DECAY {
                spec_cell(c, w, s, i, j).0[gidx(i, j)] is None
            } else {
                spec_cell(c, w, s, i, j).0[gidx(i, j)] matches Some(d) && d.growth == cr.growth
                    - DECAY && d.stage == Stage::Dead
            }
        }),
        spec_cell(c, w, s, i, j).1 == w,
        spec_cell(c, w, s, i, j).2 == s,
{
}

/// What one whole day leaves of a grid whose only crop is a dead one on
/// tile `k`: the crop's growth decayed by the fixed rate, or bare soil
/// once the decayed growth would fall below zero.
pub open spec fn lone_dead_after(c: Seq<Option<CropData>>, k: int) -> Seq<Option<CropData>> {
    let cr = c[k]->Some_0;
    if cr.growth < DECAY {
        c.update(k, None)
    } else {
        c.update(
            k,
            Some(
                CropData {
                    genome: cr.genome,
                    genome_derived: cr.genome_derived,
                    stage: cr.stage,
                    growth: (cr.growth - DECAY) as i64,
                    health: cr.health,
                },
            ),
        )
    }
}

/// The day's pass over the first `n` tiles changes nothing until it
/// reaches the lone dead crop, and nothing after it.
proof fn lemma_lone_dead_prefix(
    c: Seq<Option<CropData>>,
    w: Seq<u64>,
    s: Seq<u64>,
    k: int,
    n: nat,
)
    requires
        c.len() == AREA,
        n <= AREA,
        0 <= k < AREA,
        c[k] matches Some(cr) && cr.stage == Stage::Dead,
        forall|m: int| 0 <= m < AREA && m != k ==> c[m] is None,
    ensures
        crate::crop::spec_tick_cells(c, w, s, n) == if n <= k {
            (c, w, s)
        } else {
            (lone_dead_after(c, k), w, s)
        },
    decreases n,
{
    if n > 0 {
        let m = n - 1;
        lemma_lone_dead_prefix(c, w, s, k, (n - 1) as nat);
        assert(32 * (m / 32) + m % 32 == m);
        assert(gidx(m / 32, m % 32) == m);
        if m > k {
            assert(lone_dead_after(c, k)[m] is None);
        }
    }
}

/// A grid holding a single dead crop passes a day with its water and its
/// random stream untouched: the crop decays by exactly the fixed rate, and
/// its tile goes back to bare soil on the day the decayed growth would
/// fall below zero.
pub proof fn lemma_lone_dead_tick(c: Seq<Option<CropData>>, w: Seq<u64>, s: Seq<u64>, k: int)
    requires
        c.len() == AREA,
        0 <= k < AREA,
        c[k] matches Some(cr) && cr.stage == Stage::Dead,
        forall|m: int| 0 <= m < AREA && m != k ==> c[m] is None,
    ensures
        spec_update_crops(c, w, s).0 == lone_dead_after(c, k),
        spec_update_crops(c, w, s).1 == w,
        spec_update_crops(c, w, s).2 == s,
{
    lemma_lone_dead_prefix(c, w, s, k, AREA as nat);
}

/// Day after day, a lone dead crop just loses the fixed decay rate: after
/// `d` days (while any growth remains) it still stands, its growth lower
/// by exactly `d` decays, and water and stream are untouched.
proof fn lemma_lone_dead_run(
    c: Seq<Option<CropData>>,
    w: Seq<u64>,
    s: Seq<u64>,
    k: int,
    d: nat,
)
    requires
        c.len() == AREA,
        0 <= k < AREA,
        c[k] matches Some(cr) && cr.stage == Stage::Dead && cr.growth >= 0,
        forall|m: int| 0 <= m < AREA && m != k ==> c[m] is None,
        d * DECAY <= c[k]->Some_0.growth,
    ensures
        crate::crop::spec_run_days(c, w, s, d).0.len() == AREA,
        crate::crop::spec_run_days(c, w, s, d).0[k] matches Some(cc) && cc.stage == Stage::Dead
            && cc.growth == c[k]->Some_0.growth - d * DECAY && cc.genome == c[k]->Some_0.genome
            && cc.genome_derived == c[k]->Some_0.genome_derived && cc.health
            == c[k]->Some_0.health,
        forall|m: int|
            0 <= m < AREA && m != k ==> crate::crop::spec_run_days(c, w, s, d).0[m] is None,
        crate::crop::spec_run_days(c, w, s, d).1 == w,
        crate::crop::spec_run_days(c, w, s, d).2 == s,
    decreases d,
{
    if d > 0 {
        assert((d - 1) * DECAY <= d * DECAY) by (nonlinear_arith)
            requires
                d >= 1,
                DECAY > 0,
        ;
        assert(d * DECAY == (d - 1) * DECAY + DECAY) by (nonlinear_arith);
        lemma_lone_dead_run(c, w, s, k, (d - 1) as nat);
        let prev = crate::crop::spec_run_days(c, w, s, (d - 1) as nat);
        lemma_lone_dead_tick(prev.0, prev.1, prev.2, k);
        assert(prev.0[k]->Some_0.growth >= DECAY);
    }
}

/// The tile of a lone dead crop goes back to bare soil after exactly
/// `growth / DECAY + 1` days: the decays before the last leave some
/// growth, and the last takes it below zero.
pub proof fn lemma_lone_dead_cleared_on_schedule(
    c: Seq<Option<CropData>>,
    w: Seq<u64>,
    s: Seq<u64>,
    k: int,
)
    requires
        c.len() == AREA,
        0 <= k < AREA,
        c[k] matches Some(cr) && cr.stage == Stage::Dead && cr.growth >= 0,
        forall|m: int| 0 <= m < AREA && m != k ==> c[m] is None,
    ensures
        ({
            let n = (c[k]->Some_0.growth / DECAY + 1) as nat;
            &&& forall|m: int|
                0 <= m < AREA ==> crate::crop::spec_run_days(c, w, s, n).0[m] is None
            &&& crate::crop::spec_run_days(c, w, s, n).1 == w
            &&& crate::crop::spec_run_days(c, w, s, n).2 == s
        }),
{
    let g = c[k]->Some_0.growth as int;
    let q = g / (DECAY as int);
    vstd::arithmetic::div_mod::lemma_fundamental_div_mod(g, DECAY as int);
    vstd::arithmetic::div_mod::lemma_remainder_lower(g, DECAY as int);
    vstd::arithmetic::div_mod::lemma_remainder_upper(g, DECAY as int);
    vstd::arithmetic::div_mod::lemma_div_pos_is_pos(g, DECAY as int);
    assert(q * DECAY <= g);
    assert(g - q * DECAY < DECAY);
    lemma_lone_dead_run(c, w, s, k, q as nat);
    let prev = crate::crop::spec_run_days(c, w, s, q as nat);
    lemma_lone_dead_tick(prev.0, prev.1, prev.2, k);
    assert(prev.0[k]->Some_0.growth < DECAY);
    assert(lone_dead_after(prev.0, k) == prev.0.update(k, None));
    assert forall|m: int|
        0 <= m < AREA implies (#[trigger] crate::crop::spec_run_days(c, w, s, (q + 1) as nat).0[m])
        is None by {
        assert(crate::crop::spec_run_days(c, w, s, (q + 1) as nat).0 == prev.0.update(k, None));
    }
}

/// Whatever one day does is a function of the starting grids and stream
/// alone: two runs from identical state take identical steps. Together
/// with the contracts of the per-day operators, a fixed seed reproduces a
/// run bit for bit.
pub proof fn lemma_update_deterministic(
    c1: Seq<Option<CropData>>,
    w1: Seq<u64>,
    s1: Seq<u64>,
    c2: Seq<Option<CropData>>,
    w2: Seq<u64>,
    s2: Seq<u64>,
)
    requires
        c1 == c2,
        w1 == w2,
        s1 == s2,
    ensures
        spec_update_crops(c1, w1, s1) == spec_update_crops(c2, w2, s2),
{
}

/// What spreading leaves on a sown tile: a seedling with no growth and
/// full health whose genome is the parent's, each trait perturbed by some
/// independent draw from `[MUT_MIN, MUT_MAX)` and clamped back into the
/// unit interval.
pub open spec fn mutated_seedling_of(nc: Option<CropData>, g: SeedData) -> bool {
    &&& nc matches Some(o)
    &&& nc->Some_0.stage == Stage::Seedling
    &&& nc->Some_0.growth == 0
    &&& nc->Some_0.health == nc->Some_0.genome_derived.max_health
    &&& nc->Some_0.genome_derived == spec_derive(nc->Some_0.genome)
    &&& nc->Some_0.genome.species == g.species
    &&& exists|dr: int|
        MUT_MIN <= dr < MUT_MAX && nc->Some_0.genome.richness == #[trigger] clamp_unit_spec(
            g.richness + dr,
        )
    &&& exists|dv: int|
        MUT_MIN <= dv < MUT_MAX && nc->Some_0.genome.volume == #[trigger] clamp_unit_spec(
            g.volume + dv,
        )
}

/// The mutated genome of one sowing is the parent's genome with each trait
/// perturbed by a bounded draw and clamped, and the offspring planted from
/// it is exactly such a seedling.
proof fn lemma_mutate_within_range(g: SeedData, s: Seq<u64>)
    requires
        wf_genome(g),
    ensures
        mutated_seedling_of(Some(spec_crop(spec_mutate(g, s).0)), g),
{
    let m = spec_mutate(g, s).0;
    let s1 = crate::rng::rand_step_spec(s);
    let d1 = rand_range_spec(s, MUT_MIN as int, MUT_MAX as int);
    let d2 = rand_range_spec(s1, MUT_MIN as int, MUT_MAX as int);
    lemma_rand_range_bounds(s, MUT_MIN as int, MUT_MAX as int);
    lemma_rand_range_bounds(s1, MUT_MIN as int, MUT_MAX as int);
    lemma_crop_wf(m);
    lemma_derive_bounds(m);
    let o = spec_crop(m);
    assert(o.genome.richness == clamp_unit_spec(g.richness + d1));
    assert(o.genome.volume == clamp_unit_spec(g.volume + d2));
    assert(o.genome_derived == spec_derive(o.genome));
}

/// A crop that reaches the move from Spreading to Dead with all eight
/// neighbours bare and inside the two-ring border sows exactly eight new
/// seedlings, one per neighbour, each a bounded mutation of the parent
/// genome.
#[verifier::rlimit(100)]
pub proof fn lemma_spread_fills_empty_neighbours(
    c: Seq<Option<CropData>>,
    s: Seq<u64>,
    i: int,
    j: int,
    g: SeedData,
)
    requires
        c.len() == AREA,
        wf_genome(g),
        3 <= i < 29,
        3 <= j < 29,
        c[gidx(i - 1, j - 1)] is None,
        c[gidx(i, j - 1)] is None,
        c[gidx(i + 1, j - 1)] is None,
        c[gidx(i - 1, j)] is None,
        c[gidx(i + 1, j)] is None,
        c[gidx(i - 1, j + 1)] is None,
        c[gidx(i, j + 1)] is None,
        c[gidx(i + 1, j + 1)] is None,
    ensures
        forall|di: int, dj: int|
            -1 <= di <= 1 && -1 <= dj <= 1 && !(di == 0 && dj == 0) ==> mutated_seedling_of(
                spec_spread(c, s, i, j, g).0[#[trigger] gidx(i + di, j + dj)],
                g,
            ),
        spec_spread(c, s, i, j, g).0[gidx(i, j)] == c[gidx(i, j)],
{
    let t1 = gidx(i - 1, j - 1);
    let t2 = gidx(i, j - 1);
    let t3 = gidx(i + 1, j - 1);
    let t4 = gidx(i - 1, j);
    let t5 = gidx(i + 1, j);
    let t6 = gidx(i - 1, j + 1);
    let t7 = gidx(i, j + 1);
    let t8 = gidx(i + 1, j + 1);
    assert(t1 != t2 && t1 != t3 && t1 != t4 && t1 != t5 && t1 != t6 && t1 != t7 && t1 != t8);
    assert(t2 != t3 && t2 != t4 && t2 != t5 && t2 != t6 && t2 != t7 && t2 != t8);
    assert(t3 != t4 && t3 != t5 && t3 != t6 && t3 != t7 && t3 != t8);
    assert(t4 != t5 && t4 != t6 && t4 != t7 && t4 != t8);
    assert(t5 != t6 && t5 != t7 && t5 != t8);
    assert(t6 != t7 && t6 != t8);
    assert(t7 != t8);
    let r1 = crate::crop::spec_spread_one(c, s, i - 1, j - 1, g);
    let r2 = crate::crop::spec_spread_one(r1.0, r1.1, i, j - 1, g);
    let r3 = crate::crop::spec_spread_one(r2.0, r2.1, i + 1, j - 1, g);
    let r4 = crate::crop::spec_spread_one(r3.0, r3.1, i - 1, j, g);
    let r5 = crate::crop::spec_spread_one(r4.0, r4.1, i + 1, j, g);
    let r6 = crate::crop::spec_spread_one(r5.0, r5.1, i - 1, j + 1, g);
    let r7 = crate::crop::spec_spread_one(r6.0, r6.1, i, j + 1, g);
    let r8 = crate::crop::spec_spread_one(r7.0, r7.1, i + 1, j + 1, g);
    lemma_mutate_within_range(g, s);
    assert(crate::crop::spread_eligible(c, i - 1, j - 1));
    assert(r1.0 == c.update(t1, Some(spec_crop(spec_mutate(g, s).0))));
    assert(mutated_seedling_of(r1.0[t1], g));
    lemma_mutate_within_range(g, r1.1);
    assert(r1.0[t2] is None);
    assert(crate::crop::spread_eligible(r1.0, i, j - 1));
    assert(mutated_seedling_of(r2.0[t2], g));
    lemma_mutate_within_range(g, r2.1);
    assert(r2.0[t3] is None);
    assert(crate::crop::spread_eligible(r2.0, i + 1, j - 1));
    assert(mutated_seedling_of(r3.0[t3], g));
    lemma_mutate_within_range(g, r3.1);
    assert(r3.0[t4] is None);
    assert(crate::crop::spread_eligible(r3.0, i - 1, j));
    assert(mutated_seedling_of(r4.0[t4], g));
    lemma_mutate_within_range(g, r4.1);
    assert(r4.0[t5] is None);
    assert(crate::crop::spread_eligible(r4.0, i + 1, j));
    assert(mutated_seedling_of(r5.0[t5], g));
    lemma_mutate_within_range(g, r5.1);
    assert(r5.0[t6] is None);
    assert(crate::crop::spread_eligible(r5.0, i - 1, j + 1));
    assert(mutated_seedling_of(r6.0[t6], g));
    lemma_mutate_within_range(g, r6.1);
    assert(r6.0[t7] is None);
    assert(crate::crop::spread_eligible(r6.0, i, j + 1));
    assert(mutated_seedling_of(r7.0[t7], g));
    lemma_mutate_within_range(g, r7.1);
    assert(r7.0[t8] is None);
    assert(crate::crop::spread_eligible(r7.0, i + 1, j + 1));
    assert(mutated_seedling_of(r8.0[t8], g));
    assert(r8.0[t1] == r1.0[t1]);
    assert(r8.0[t2] == r2.0[t2]);
    assert(r8.0[t3] == r3.0[t3]);
    assert(r8.0[t4] == r4.0[t4]);
    assert(r8.0[t5] == r5.0[t5]);
    assert(r8.0[t6] == r6.0[t6]);
    assert(r8.0[t7] == r7.0[t7]);
    assert(spec_spread(c, s, i, j, g).0 == r8.0);
    assert(r8.0[gidx(i, j)] == c[gidx(i, j)]);
    assert forall|di: int, dj: int|
        -1 <= di <= 1 && -1 <= dj <= 1 && !(di == 0 && dj == 0) implies mutated_seedling_of(
        spec_spread(c, s, i, j, g).0[#[trigger] gidx(i + di, j + dj)],
        g,
    ) by {
        let t = gidx(i + di, j + dj);
        assert(t == t1 || t == t2 || t == t3 || t == t4 || t == t5 || t == t6 || t == t7 || t
            == t8);
    }
}

} // verus!
