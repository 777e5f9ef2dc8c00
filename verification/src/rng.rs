//! The deterministic pseudo-random stream that drives seed mutation.
//!
//! A four-word shift register: each draw hands out the oldest word and mixes
//! the other three into a replacement. The stream is an explicit value, not
//! process-wide state, so a run is reproducible from its starting state.

use vstd::prelude::*;
use crate::units::SCALE;

verus! {

/// The mixed word that refills the shift register after a draw.
pub open spec fn rand_mix_spec(s: Seq<u64>) -> u64 {
    s[0] ^ (s[1] << 2u64) ^ (s[1] >> 0u64) ^ (s[2] << 4u64) ^ (s[2] >> 1u64)
        ^ (s[3] << 6u64) ^ (s[3] >> 2u64)
}

/// The register state after one draw: the words shift down and the mixed
/// word enters at the top.
pub open spec fn rand_step_spec(s: Seq<u64>) -> Seq<u64> {
    seq![s[1], s[2], s[3], rand_mix_spec(s)]
}

/// The value a draw hands out: the oldest word of the register.
pub open spec fn rand_out_spec(s: Seq<u64>) -> u64 {
    s[0]
}

/// A proportion of a whole unit drawn from the register: the low sixteen
/// bits of the drawn word, scaled into `[0, SCALE)`.
pub open spec fn rand_proportion_spec(s: Seq<u64>) -> int {
    (rand_out_spec(s) % 65536) * (SCALE as int) / 65536
}

/// A value drawn from `[min, max)` (or `min` itself when the range is
/// empty): the proportion applied to the width of the range.
pub open spec fn rand_range_spec(s: Seq<u64>, min: int, max: int) -> int {
    rand_proportion_spec(s) * (max - min) / (SCALE as int) + min
}

/// A drawn proportion lies in `[0, SCALE)`.
pub proof fn lemma_rand_proportion_bounds(s: Seq<u64>)
    ensures
        0 <= rand_proportion_spec(s) < SCALE,
{
    let x = (rand_out_spec(s) % 65536) as int;
    assert(0 <= x < 65536);
    assert(x * (SCALE as int) >= 0) by (nonlinear_arith)
        requires
            x >= 0,
            SCALE > 0,
    ;
    assert(x * (SCALE as int) <= 65535 * (SCALE as int)) by (nonlinear_arith)
        requires
            x <= 65535,
            SCALE > 0,
    ;
    vstd::arithmetic::div_mod::lemma_div_is_ordered(x * (SCALE as int), 65535 * (SCALE as int), 65536);
    vstd::arithmetic::div_mod::lemma_div_is_ordered(0, x * (SCALE as int), 65536);
}

/// A drawn range value lies in `[min, max)`, or is `min` itself when the
/// range is empty.
pub proof fn lemma_rand_range_bounds(s: Seq<u64>, min: int, max: int)
    requires
        min <= max,
    ensures
        min <= rand_range_spec(s, min, max),
        min < max ==> rand_range_spec(s, min, max) < max,
        min == max ==> rand_range_spec(s, min, max) == min,
{
    lemma_rand_proportion_bounds(s);
    let p = rand_proportion_spec(s);
    let span = max - min;
    assert(p * span >= 0) by (nonlinear_arith)
        requires
            p >= 0,
            span >= 0,
    ;
    vstd::arithmetic::div_mod::lemma_div_is_ordered(0, p * span, SCALE as int);
    if min < max {
        assert(p * span < (SCALE as int) * span) by (nonlinear_arith)
            requires
                0 <= p < SCALE,
                span > 0,
        ;
        assert(p * span / (SCALE as int) < span) by (nonlinear_arith)
            requires
                p * span < (SCALE as int) * span,
                span > 0,
                SCALE > 0,
        ;
    } else {
        assert(p * span == 0) by (nonlinear_arith)
            requires
                span == 0,
        ;
    }
}

/// The deterministic generator: a value, not hidden process state, so that
/// a fixed starting state reproduces a fixed sequence of draws.
pub struct Rng {
    s0: u64,
    s1: u64,
    s2: u64,
    s3: u64,
}

impl View for Rng {
    type V = Seq<u64>;

    closed spec fn view(&self) -> Seq<u64> {
        seq![self.s0, self.s1, self.s2, self.s3]
    }
}

impl Rng {
    /// The fixed starting state of a fresh stream.
    pub fn new() -> (r: Rng)
        ensures
            r@ == seq![32767u64, 32767u64, 32767u64, 32767u64],
    {
        Rng { s0: 32767, s1: 32767, s2: 32767, s3: 32767 }
    }

    /// A stream started from four chosen words, for replaying a run.
    pub fn from_state(s0: u64, s1: u64, s2: u64, s3: u64) -> (r: Rng)
        ensures
            r@ == seq![s0, s1, s2, s3],
    {
        Rng { s0, s1, s2, s3 }
    }
}

/// Draw one raw word: hand out the oldest word and advance the register.
pub fn rand_int(rng: &mut Rng) -> (r: u64)
    ensures
        r == rand_out_spec(old(rng)@),
        final(rng)@ == rand_step_spec(old(rng)@),
{
    let old_root: u64 = rng.s0;
    let mut new_root: u64 = old_root;
    new_root = new_root ^ (rng.s1 << 2u64) ^ (rng.s1 >> 0u64);
    new_root = new_root ^ (rng.s2 << 4u64) ^ (rng.s2 >> 1u64);
    new_root = new_root ^ (rng.s3 << 6u64) ^ (rng.s3 >> 2u64);
    rng.s0 = rng.s1;
    rng.s1 = rng.s2;
    rng.s2 = rng.s3;
    rng.s3 = new_root;
    old_root
}

/// Draw a proportion of a whole unit, in `[0, SCALE)`.
pub fn rand_proportion(rng: &mut Rng) -> (r: i64)
    ensures
        r == rand_proportion_spec(old(rng)@),
        final(rng)@ == rand_step_spec(old(rng)@),
        0 <= r < SCALE,
{
    let val: u64 = rand_int(rng);
    let scaled: u64 = (val % 65536) * (SCALE as u64) / 65536;
    scaled as i64
}

/// Draw a value from `[min, max)`, or `min` itself when `min == max`.
///
/// The width of the range is capped so that the scaling product stays
/// inside the machine word.
pub fn rand_range(rng: &mut Rng, min: i64, max: i64) -> (r: i64)
    requires
        min <= max,
        max - min <= 1_000_000_000,
    ensures
        r == rand_range_spec(old(rng)@, min as int, max as int),
        final(rng)@ == rand_step_spec(old(rng)@),
        min <= r,
        min < max ==> r < max,
        min == max ==> r == min,
{
    let p: i64 = rand_proportion(rng);
    let span: u64 = (max - min) as u64;
    proof {
        crate::units::lemma_mul_le(p as int, span as int, SCALE as int, 1_000_000_000);
    }
    let off: u64 = (p as u64) * span / (SCALE as u64);
    proof {
        assert((p as int) * (span as int) / (SCALE as int) <= span as int)
            by (nonlinear_arith)
            requires
                0 <= p < SCALE,
                span >= 0,
                SCALE > 0,
        ;
        if min < max {
            assert((p as int) * (span as int) < (SCALE as int) * (span as int))
                by (nonlinear_arith)
                requires
                    0 <= p < SCALE,
                    span > 0,
            ;
            assert((p as int) * (span as int) / (SCALE as int) < span as int)
                by (nonlinear_arith)
                requires
                    (p as int) * (span as int) < (SCALE as int) * (span as int),
                    span > 0,
                    SCALE > 0,
            ;
        }
    }
    min + (off as i64)
}

} // verus!
