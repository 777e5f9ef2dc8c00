//! The moisture field: a fixed 32x32 grid of non-negative fixed-point
//! moisture values, with a diffusion operator and a rain operator.

use vstd::prelude::*;

verus! {

/// Grid width and height in tiles.
pub const WIDTH: usize = 32;

/// Number of tiles in the grid.
pub const AREA: usize = 1024;

/// Largest moisture value a tile may hold, in fixed-point steps: one
/// million whole units, far beyond what rain (which averages a tile toward
/// 200 whole units) can reach. The cap keeps every product in the diffusion
/// stencil inside the machine word.
pub const MOIST_CAP: u64 = 1_000_000_000_000;

/// Denominator of the diffusion coefficients.
pub const COEFF_DEN: u64 = 100_000;

/// Outflow to each of the four orthogonal neighbours, per `COEFF_DEN`:
/// a diffusion rate of 0.7 per day, split 0.65 to the orthogonal side,
/// gives 0.7 / 4 * 0.65 = 0.11375 per neighbour.
pub const ADJ_NUM: u64 = 11_375;

/// Outflow to each of the four diagonal neighbours, per `COEFF_DEN`:
/// 0.7 / 4 * (1 - 0.65) = 0.06125 per neighbour.
pub const DIAG_NUM: u64 = 6_125;

/// Fraction of a tile destroyed per day (evaporation), per `COEFF_DEN`.
pub const EVAP_NUM: u64 = 0;

/// Fixed amount a rain event averages each inner tile toward: 200 whole
/// units of moisture.
pub const RAIN_AMOUNT: u64 = 200_000_000;

/// Flat row-major index of the tile in row `i`, column `j`.
pub open spec fn gidx(i: int, j: int) -> int {
    i * 32 + j
}

/// The moisture value of one tile, as an unbounded integer.
pub open spec fn at(w: Seq<u64>, i: int, j: int) -> int {
    w[gidx(i, j)] as int
}

/// The tiles strictly inside the two-ring border: only they take part in
/// diffusion and rain.
pub open spec fn interior(i: int, j: int) -> bool {
    2 <= i < 30 && 2 <= j < 30
}

/// Outflow of a tile of value `v` toward one orthogonal neighbour.
pub open spec fn adj_out(v: int) -> int {
    v * (ADJ_NUM as int) / (COEFF_DEN as int)
}

/// Outflow of a tile of value `v` toward one diagonal neighbour.
pub open spec fn diag_out(v: int) -> int {
    v * (DIAG_NUM as int) / (COEFF_DEN as int)
}

/// Moisture of a tile of value `v` destroyed by evaporation.
pub open spec fn evap_out(v: int) -> int {
    v * (EVAP_NUM as int) / (COEFF_DEN as int)
}

/// Everything a tile of value `v` loses in one diffusion pass: its eight
/// outflows plus evaporation.
pub open spec fn loss(v: int) -> int {
    4 * adj_out(v) + 4 * diag_out(v) + evap_out(v)
}

/// The orthogonal outflow the tile at `(ni, nj)` sends to a neighbour.
/// Only interior tiles are sources: a border tile sends nothing.
pub open spec fn adj_in(w: Seq<u64>, ni: int, nj: int) -> int {
    if interior(ni, nj) {
        adj_out(at(w, ni, nj))
    } else {
        0
    }
}

/// The diagonal outflow the tile at `(ni, nj)` sends to a neighbour.
/// Only interior tiles are sources: a border tile sends nothing.
pub open spec fn diag_in(w: Seq<u64>, ni: int, nj: int) -> int {
    if interior(ni, nj) {
        diag_out(at(w, ni, nj))
    } else {
        0
    }
}

/// Everything an interior tile gains in one diffusion pass: one orthogonal
/// outflow from each of its four orthogonal neighbours and one diagonal
/// outflow from each of its four diagonal neighbours, counting only
/// neighbours that are themselves interior — moisture is redistributed
/// among interior tiles alone.
pub open spec fn inflow(w: Seq<u64>, i: int, j: int) -> int {
    adj_in(w, i - 1, j) + adj_in(w, i + 1, j) + adj_in(w, i, j - 1) + adj_in(w, i, j + 1)
        + diag_in(w, i - 1, j - 1) + diag_in(w, i + 1, j - 1) + diag_in(w, i - 1, j + 1) + diag_in(
        w,
        i + 1,
        j + 1,
    )
}

/// Net change of one tile in one diffusion pass. Border tiles (the
/// outermost two rings) neither gain nor lose: their change is zero.
pub open spec fn delta_at(w: Seq<u64>, i: int, j: int) -> int {
    if interior(i, j) {
        inflow(w, i, j) - loss(at(w, i, j))
    } else {
        0
    }
}

/// The value of one tile after a diffusion pass: its old value plus its
/// net change, capped at the moisture cap.
pub open spec fn diffused_at(w: Seq<u64>, i: int, j: int) -> int {
    let v = at(w, i, j) + delta_at(w, i, j);
    if v > MOIST_CAP {
        MOIST_CAP as int
    } else {
        v
    }
}

/// The whole grid after a diffusion pass.
pub open spec fn diffuse_spec(w: Seq<u64>) -> Seq<u64> {
    Seq::new(AREA as nat, |k: int| diffused_at(w, k / 32, k % 32) as u64)
}

/// The value of one tile after a rain event: interior tiles are averaged
/// with the fixed rain amount, border tiles are untouched.
pub open spec fn rained_at(w: Seq<u64>, i: int, j: int) -> int {
    if interior(i, j) {
        (at(w, i, j) + RAIN_AMOUNT) / 2
    } else {
        at(w, i, j)
    }
}

/// The whole grid after a rain event.
pub open spec fn rain_spec(w: Seq<u64>) -> Seq<u64> {
    Seq::new(AREA as nat, |k: int| rained_at(w, k / 32, k % 32) as u64)
}

/// Total moisture held by the whole grid.
pub open spec fn total_moisture(w: Seq<u64>) -> int {
    crate::grid_sum::sum_rect(|i: int, j: int| at(w, i, j), 0, 32, 0, 32)
}

/// A 32x32 grid of moisture values, flattened row-major.
pub struct MoistureGrid {
    cells: Vec<u64>,
}

impl View for MoistureGrid {
    type V = Seq<u64>;

    closed spec fn view(&self) -> Seq<u64> {
        self.cells@
    }
}

impl MoistureGrid {
    /// A grid holds one value per tile, each within the moisture cap.
    pub open spec fn wf(&self) -> bool {
        &&& self@.len() == AREA
        &&& forall|k: int| 0 <= k < AREA ==> self@[k] <= MOIST_CAP
    }

    /// A dry grid: every tile at zero.
    pub fn new() -> (r: MoistureGrid)
        ensures
            r.wf(),
            r@ == Seq::new(AREA as nat, |k: int| 0u64),
    {
        let mut cells: Vec<u64> = Vec::new();
        let mut k: usize = 0;
        while k < AREA
            invariant
                k <= AREA,
                cells@.len() == k,
                forall|m: int| 0 <= m < k ==> cells@[m] == 0u64,
            decreases AREA - k,
        {
            cells.push(0);
            k = k + 1;
        }
        proof {
            assert(cells@ =~= Seq::new(AREA as nat, |k: int| 0u64));
        }
        MoistureGrid { cells }
    }

    /// Read one tile.
    pub fn get(&self, i: usize, j: usize) -> (r: u64)
        requires
            self.wf(),
            i < WIDTH,
            j < WIDTH,
        ensures
            r == self@[i as int * 32 + j],
    {
        self.cells[i * 32 + j]
    }

    /// Write one tile, clamping the value to the moisture cap so that a
    /// caller can never push the field out of range.
    pub fn set(&mut self, i: usize, j: usize, v: u64)
        requires
            old(self).wf(),
            i < WIDTH,
            j < WIDTH,
        ensures
            final(self).wf(),
            final(self)@ == old(self)@.update(
                i as int * 32 + j,
                if v > MOIST_CAP { MOIST_CAP } else { v },
            ),
    {
        let capped: u64 = if v > MOIST_CAP {
            MOIST_CAP
        } else {
            v
        };
        self.cells.set(i * 32 + j, capped);
    }
}

/// The orthogonal outflow the tile at `(ni, nj)` sends to a neighbour:
/// nothing unless the tile is itself interior.
fn adj_in_tile(map: &MoistureGrid, ni: usize, nj: usize) -> (r: u64)
    requires
        map.wf(),
        ni < WIDTH,
        nj < WIDTH,
    ensures
        r as int == adj_in(map@, ni as int, nj as int),
        r <= MOIST_CAP / COEFF_DEN * ADJ_NUM,
{
    if 2 <= ni && ni < 30 && 2 <= nj && nj < 30 {
        map.cells[ni * 32 + nj] * ADJ_NUM / COEFF_DEN
    } else {
        0
    }
}

/// The diagonal outflow the tile at `(ni, nj)` sends to a neighbour:
/// nothing unless the tile is itself interior.
fn diag_in_tile(map: &MoistureGrid, ni: usize, nj: usize) -> (r: u64)
    requires
        map.wf(),
        ni < WIDTH,
        nj < WIDTH,
    ensures
        r as int == diag_in(map@, ni as int, nj as int),
        r <= MOIST_CAP / COEFF_DEN * DIAG_NUM,
{
    if 2 <= ni && ni < 30 && 2 <= nj && nj < 30 {
        map.cells[ni * 32 + nj] * DIAG_NUM / COEFF_DEN
    } else {
        0
    }
}

/// One day of moisture redistribution.
///
/// Every value is read from the grid as it stood before the pass, so the
/// stencil is order-independent; only interior tiles are sources, and the
/// outermost two rings receive and lose nothing. Each new value is exactly
/// the old value plus the tile's net change, capped at the moisture cap.
pub fn diffuse_water(map: &mut MoistureGrid)
    requires
        old(map).wf(),
    ensures
        final(map).wf(),
        final(map)@ == diffuse_spec(old(map)@),
{
    let ghost w = map@;
    let mut out: Vec<u64> = Vec::new();
    let mut k: usize = 0;
    while k < AREA
        invariant
            map.wf(),
            map@ == w,
            k <= AREA,
            out@.len() == k,
            forall|m: int| 0 <= m < k ==> out@[m] == diffuse_spec(w)[m],
        decreases AREA - k,
    {
        let i: usize = k / 32;
        let j: usize = k % 32;
        let v: u64 = map.cells[k];
        if 2 <= i && i < 30 && 2 <= j && j < 30 {
            let gain: u64 = adj_in_tile(map, i - 1, j) + adj_in_tile(map, i + 1, j) + adj_in_tile(
                map,
                i,
                j - 1,
            ) + adj_in_tile(map, i, j + 1) + diag_in_tile(map, i - 1, j - 1) + diag_in_tile(
                map,
                i + 1,
                j - 1,
            ) + diag_in_tile(map, i - 1, j + 1) + diag_in_tile(map, i + 1, j + 1);
            let lost: u64 = 4 * (v * ADJ_NUM / COEFF_DEN) + 4 * (v * DIAG_NUM / COEFF_DEN) + v
                * EVAP_NUM / COEFF_DEN;
            let nv: u64 = v + gain - lost;
            let capped: u64 = if nv > MOIST_CAP {
                MOIST_CAP
            } else {
                nv
            };
            proof {
                assert(gain == inflow(w, i as int, j as int));
                assert(lost == loss(at(w, i as int, j as int)));
                assert(capped == diffused_at(w, i as int, j as int));
            }
            out.push(capped);
        } else {
            proof {
                assert(delta_at(w, i as int, j as int) == 0);
            }
            out.push(v);
        }
        proof {
            assert(out@[k as int] == diffuse_spec(w)[k as int]);
        }
        k = k + 1;
    }
    map.cells = out;
    proof {
        assert(map@ =~= diffuse_spec(w));
    }
}

/// One rain event: every tile strictly inside the two-ring border is
/// averaged with the fixed rain amount; border tiles are untouched.
pub fn rain(map: &mut MoistureGrid)
    requires
        old(map).wf(),
    ensures
        final(map).wf(),
        final(map)@ == rain_spec(old(map)@),
{
    let ghost w = map@;
    let mut out: Vec<u64> = Vec::new();
    let mut k: usize = 0;
    while k < AREA
        invariant
            map.wf(),
            map@ == w,
            k <= AREA,
            out@.len() == k,
            forall|m: int| 0 <= m < k ==> out@[m] == rain_spec(w)[m],
        decreases AREA - k,
    {
        let i: usize = k / 32;
        let j: usize = k % 32;
        let v: u64 = map.cells[k];
        if 2 <= i && i < 30 && 2 <= j && j < 30 {
            out.push((v + RAIN_AMOUNT) / 2);
        } else {
            out.push(v);
        }
        proof {
            assert(out@[k as int] == rain_spec(w)[k as int]);
        }
        k = k + 1;
    }
    map.cells = out;
    proof {
        assert(map@ =~= rain_spec(w));
    }
}

} // verus!
