//! Deterministic 2D gradient noise with fractal composition.
//!
//! All arithmetic is fixed point (`FIELD_ONE` stands for 1.0), so a
//! sample is a pure integer function of the permutation table, the
//! parameters and the position: identical inputs give a bit-identical
//! output on every machine, which the caching layer and the reproducible
//! world depend on.
//!
//! A sample at a position works on the continuous coordinate
//! `pos * frequency / scale`, shifted by a large constant before
//! flooring so that lattice and permutation indices stay non-negative
//! for every position the library accepts; without the shift, positions
//! left of the origin would fold onto mirrored lattice cells.
use vstd::prelude::*;

use crate::rng::seeded_shuffle;
use crate::rng::shuffled_by;
use crate::FIELD_ONE;
use crate::WorldGenError;

verus! {

/// Length of the permutation table minus one; the table holds each of
/// `0 ..= PERMUTATION_LENGTH` exactly once.
pub const PERMUTATION_LENGTH: usize = 16384;

/// Shift, in lattice units, applied to the continuous coordinate before
/// flooring. It exceeds the largest scaled coordinate the preconditions
/// admit, so shifted coordinates are never negative.
pub const LATTICE_OFFSET: i64 = 0x4000_0000;

/// Largest world coordinate a sample may be asked for.
pub const MAX_WORLD_COORD: i64 = 1_000_000;

/// Largest fixed-point scale divisor accepted.
pub const MAX_SCALE: i64 = 100_000_000_000;

/// Largest octave count accepted.
pub const MAX_OCTAVES: u32 = 8;

/// Bound on a shifted, scaled fixed-point coordinate.
pub const MAX_SHIFTED: i64 = 20_000_000_000_000;

/// Bound on the magnitude of a single-octave sample: 2.0 in fixed
/// point, since each corner dot product stays within that range and
/// interpolation never leaves the span of its endpoints.
pub const PERLIN_BOUND: i64 = 20_000;

/// Bound on the magnitude of a fractal sample: one octave bound per
/// octave of the sum.
pub const NOISE_BOUND: i64 = 160_000;

pub open spec fn spec_identity_perm() -> Seq<usize> {
    Seq::new((PERMUTATION_LENGTH + 1) as nat, |i: int| i as usize)
}

/// The quintic smoothing curve 6t^5 - 15t^4 + 10t^3, in fixed point.
pub open spec fn spec_fade(t: int) -> int {
    ((6 * t - 15 * FIELD_ONE) * t + 10 * FIELD_ONE * FIELD_ONE) * t * t * t
        / (FIELD_ONE * FIELD_ONE * FIELD_ONE * FIELD_ONE)
}

/// Interpolation between `a` and `b` by `t / FIELD_ONE`, written so that
/// the division always sees a non-negative numerator.
pub open spec fn spec_lerp(t: int, a: int, b: int) -> int {
    if b >= a {
        a + t * (b - a) / (FIELD_ONE as int)
    } else {
        a - t * (a - b) / (FIELD_ONE as int)
    }
}

/// Dot product of `(x, y)` with one of the four constant gradient
/// vectors (1,1), (-1,1), (-1,-1), (1,-1), selected by `h % 4`.
pub open spec fn spec_grad_dot(h: int, x: int, y: int) -> int {
    let m = h % 4;
    if m == 0 {
        x + y
    } else if m == 1 {
        -x + y
    } else if m == 2 {
        -x - y
    } else {
        x - y
    }
}

/// One octave of gradient noise at the shifted fixed-point coordinate
/// `(sx, sy)`: corner gradients hashed through the permutation table,
/// their dot products interpolated by the fade curve in both axes.
pub open spec fn spec_perlin(perm: Seq<usize>, sx: int, sy: int) -> int {
    let size = perm.len() as int;
    let nx = sx / (FIELD_ONE as int);
    let ny = sy / (FIELD_ONE as int);
    let fx = sx % (FIELD_ONE as int);
    let fy = sy % (FIELD_ONE as int);
    let v_tr = perm[(perm[(nx + 1) % size] + (ny + 1) % size) % size] as int;
    let v_tl = perm[(perm[nx % size] + (ny + 1) % size) % size] as int;
    let v_br = perm[(perm[(nx + 1) % size] + ny % size) % size] as int;
    let v_bl = perm[(perm[nx % size] + ny % size) % size] as int;
    let d_tr = spec_grad_dot(v_tr, fx - FIELD_ONE, fy - FIELD_ONE);
    let d_tl = spec_grad_dot(v_tl, fx, fy - FIELD_ONE);
    let d_br = spec_grad_dot(v_br, fx - FIELD_ONE, fy);
    let d_bl = spec_grad_dot(v_bl, fx, fy);
    let u = spec_fade(fx);
    let v = spec_fade(fy);
    spec_lerp(u, spec_lerp(v, d_bl, d_tl), spec_lerp(v, d_br, d_tr))
}

/// The shifted continuous coordinate of world position `p` at the given
/// frequency and scale, in fixed point.
pub open spec fn spec_scaled(p: int, freq: int, scale: int) -> int {
    (p * freq * FIELD_ONE + LATTICE_OFFSET * FIELD_ONE * scale) / scale
}

/// Frequency of octave `n`: lacunarity raised to `n`, in fixed point.
pub open spec fn spec_freq(lac: int, n: nat) -> int
    decreases n,
{
    if n == 0 {
        FIELD_ONE as int
    } else {
        spec_freq(lac, (n - 1) as nat) * lac / (FIELD_ONE as int)
    }
}

/// Amplitude of octave `n`: persistence raised to `n`, in fixed point.
pub open spec fn spec_amp(pers: int, n: nat) -> int
    decreases n,
{
    if n == 0 {
        FIELD_ONE as int
    } else {
        spec_amp(pers, (n - 1) as nat) * pers / (FIELD_ONE as int)
    }
}

/// An octave's contribution: the sample scaled by the amplitude, the
/// division again kept to non-negative numerators.
pub open spec fn spec_term(amp: int, pval: int) -> int {
    if pval >= 0 {
        amp * pval / (FIELD_ONE as int)
    } else {
        -(amp * (-pval) / (FIELD_ONE as int))
    }
}

/// One octave sampled at a world position.
pub open spec fn spec_octave(perm: Seq<usize>, pos: (int, int), freq: int, scale: int) -> int {
    spec_perlin(perm, spec_scaled(pos.0, freq, scale), spec_scaled(pos.1, freq, scale))
}

/// The fractal sum of the first `n` octaves.
pub open spec fn spec_fbm(
    perm: Seq<usize>,
    lac: int,
    pers: int,
    pos: (int, int),
    scale: int,
    n: nat,
) -> int
    decreases n,
{
    if n == 0 {
        0
    } else {
        spec_fbm(perm, lac, pers, pos, scale, (n - 1) as nat) + spec_term(
            spec_amp(pers, (n - 1) as nat),
            spec_octave(perm, pos, spec_freq(lac, (n - 1) as nat), scale),
        )
    }
}

/// The full sample: the fractal sum, or a single unscaled octave when
/// the octave count is zero.
pub open spec fn spec_noise(
    perm: Seq<usize>,
    lac: int,
    pers: int,
    octaves: nat,
    pos: (int, int),
    scale: int,
) -> int {
    if octaves == 0 {
        spec_perlin(
            perm,
            spec_scaled(pos.0, FIELD_ONE as int, FIELD_ONE as int),
            spec_scaled(pos.1, FIELD_ONE as int, FIELD_ONE as int),
        )
    } else {
        spec_fbm(perm, lac, pers, pos, scale, octaves)
    }
}

pub open spec fn valid_noise_params(lac: int, pers: int, octaves: int) -> bool {
    &&& FIELD_ONE <= lac <= 2 * FIELD_ONE
    &&& 0 < pers <= FIELD_ONE
    &&& 0 <= octaves <= MAX_OCTAVES
}

/// Deterministic multi-octave gradient noise, immutable once built.
#[derive(Debug)]
pub struct PerlinNoiseGenerator {
    permutations: Vec<usize>,
    lacunarity: i64,
    persistence: i64,
    octaves: u32,
}

impl PerlinNoiseGenerator {
    /// The permutation table holds only valid indices and the parameters
    /// sit in their accepted ranges.
    pub closed spec fn wf(self) -> bool {
        &&& self.permutations@.len() == PERMUTATION_LENGTH + 1
        &&& forall|i: int|
            0 <= i < self.permutations@.len() ==> (#[trigger] self.permutations@[i])
                <= PERMUTATION_LENGTH
        &&& valid_noise_params(self.lacunarity as int, self.persistence as int, self.octaves as int)
    }

    pub closed spec fn spec_permutations(self) -> Seq<usize> {
        self.permutations@
    }

    pub closed spec fn spec_lacunarity(self) -> int {
        self.lacunarity as int
    }

    pub closed spec fn spec_persistence(self) -> int {
        self.persistence as int
    }

    pub closed spec fn spec_octaves(self) -> nat {
        self.octaves as nat
    }

    /// The sample this generator gives at `pos` with the given scale.
    pub closed spec fn spec_sample(self, pos: (int, int), scale: int) -> int {
        spec_noise(
            self.permutations@,
            self.lacunarity as int,
            self.persistence as int,
            self.octaves as nat,
            pos,
            scale,
        )
    }

    /// Build a generator: shuffle the permutation table with the seeded,
    /// portable generator and validate the parameters. Errs exactly on
    /// parameters outside the accepted ranges.
    pub fn new(seed: u64, lacunarity: i64, persistence: i64, octaves: u32) -> (r: Result<
        Self,
        WorldGenError,
    >)
        ensures
            match r {
                Ok(g) => {
                    &&& valid_noise_params(lacunarity as int, persistence as int, octaves as int)
                    &&& g.wf()
                    &&& g.spec_permutations() == shuffled_by(seed, spec_identity_perm())
                    &&& g.spec_permutations().to_multiset() == spec_identity_perm().to_multiset()
                    &&& g.spec_lacunarity() == lacunarity as int
                    &&& g.spec_persistence() == persistence as int
                    &&& g.spec_octaves() == octaves as nat
                },
                Err(e) => {
                    &&& !valid_noise_params(lacunarity as int, persistence as int, octaves as int)
                    &&& e == WorldGenError::InvalidNoiseParams
                },
            },
    {
        if !(FIELD_ONE <= lacunarity && lacunarity <= 2 * FIELD_ONE && 0 < persistence
            && persistence <= FIELD_ONE && octaves <= MAX_OCTAVES) {
            return Err(WorldGenError::InvalidNoiseParams);
        }
        let mut table: Vec<usize> = Vec::new();
        for i in 0..(PERMUTATION_LENGTH + 1)
            invariant
                table@.len() == i,
                forall|j: int| 0 <= j < i ==> #[trigger] table@[j] == j,
        {
            table.push(i);
        }
        proof {
            assert(table@ =~= spec_identity_perm());
        }
        seeded_shuffle(seed, &mut table);
        proof {
            broadcast use vstd::seq_lib::group_to_multiset_ensures;

            assert(table@.to_multiset().len() == table@.len());
            assert(spec_identity_perm().to_multiset().len() == spec_identity_perm().len());
            assert(table@.len() == PERMUTATION_LENGTH + 1);
            assert forall|i: int| 0 <= i < table@.len() implies (#[trigger] table@[i])
                <= PERMUTATION_LENGTH by {
                assert(table@.contains(table@[i]));
                assert(table@.to_multiset().count(table@[i]) > 0);
                assert(spec_identity_perm().to_multiset().count(table@[i]) > 0);
                assert(spec_identity_perm().contains(table@[i]));
                let j = choose|j: int|
                    0 <= j < spec_identity_perm().len() && spec_identity_perm()[j] == table@[i];
                assert(table@[i] == j as usize);
            }
        }
        Ok(
            PerlinNoiseGenerator {
                permutations: table,
                lacunarity,
                persistence,
                octaves,
            },
        )
    }

    /// The fade curve on a fixed-point fraction.
    fn fade(t: i64) -> (r: i64)
        requires
            0 <= t <= FIELD_ONE,
        ensures
            r == spec_fade(t as int),
            0 <= r <= FIELD_ONE,
    {
        let tt: i128 = t as i128;
        proof {
            assert(-900_000_000 <= (6 * (t as int) - 150_000) * (t as int) <= 0) by (nonlinear_arith)
                requires
                    0 <= t <= 10_000,
            ;
        }
        let g: i128 = (6 * tt - 15 * (FIELD_ONE as i128)) * tt + 10 * (FIELD_ONE as i128) * (
        FIELD_ONE as i128);
        proof {
            assert(0 <= (g as int) * (t as int) <= 10_000_000_000_000) by (nonlinear_arith)
                requires
                    0 <= g <= 1_000_000_000,
                    0 <= t <= 10_000,
            ;
        }
        let a1: i128 = g * tt;
        proof {
            assert(0 <= (a1 as int) * (t as int) <= 100_000_000_000_000_000) by (nonlinear_arith)
                requires
                    0 <= a1 <= 10_000_000_000_000,
                    0 <= t <= 10_000,
            ;
        }
        let a2: i128 = a1 * tt;
        proof {
            assert(0 <= (a2 as int) * (t as int) <= 1_000_000_000_000_000_000_000) by (nonlinear_arith)
                requires
                    0 <= a2 <= 100_000_000_000_000_000,
                    0 <= t <= 10_000,
            ;
        }
        let a3: i128 = a2 * tt;
        let r128: i128 = a3 / ((FIELD_ONE as i128) * (FIELD_ONE as i128) * (FIELD_ONE as i128)
            * (FIELD_ONE as i128));
        proof {
            lemma_fade_range(t as int);
        }
        r128 as i64
    }

    /// Fixed-point interpolation; the two branches keep the numerator of
    /// the division non-negative.
    fn lerp(t: i64, a: i64, b: i64) -> (r: i64)
        requires
            0 <= t <= 10 * FIELD_ONE,
            -(50 * FIELD_ONE) <= a <= 50 * FIELD_ONE,
            -(50 * FIELD_ONE) <= b <= 50 * FIELD_ONE,
        ensures
            r == spec_lerp(t as int, a as int, b as int),
    {
        if b >= a {
            proof {
                assert(0 <= (t as int) * (b - a) <= 100_000_000_000) by (nonlinear_arith)
                    requires
                        0 <= t <= 100_000,
                        0 <= b - a <= 1_000_000,
                ;
            }
            a + (t * (b - a)) / FIELD_ONE
        } else {
            proof {
                assert(0 <= (t as int) * (a - b) <= 100_000_000_000) by (nonlinear_arith)
                    requires
                        0 <= t <= 100_000,
                        0 <= a - b <= 1_000_000,
                ;
            }
            a - (t * (a - b)) / FIELD_ONE
        }
    }

    /// One octave at a shifted fixed-point coordinate.
    fn perlin(&self, sx: i64, sy: i64) -> (r: i64)
        requires
            self.wf(),
            0 <= sx <= MAX_SHIFTED,
            0 <= sy <= MAX_SHIFTED,
        ensures
            r == spec_perlin(self.permutations@, sx as int, sy as int),
            -PERLIN_BOUND <= r <= PERLIN_BOUND,
    {
        let size = self.permutations.len();
        let nx = sx / FIELD_ONE;
        let ny = sy / FIELD_ONE;
        let fx = sx % FIELD_ONE;
        let fy = sy % FIELD_ONE;

        let ix0 = (nx as usize) % size;
        let ix1 = ((nx + 1) as usize) % size;
        let iy0 = (ny as usize) % size;
        let iy1 = ((ny + 1) as usize) % size;

        let v_tr = self.permutations[(self.permutations[ix1] + iy1) % size];
        let v_tl = self.permutations[(self.permutations[ix0] + iy1) % size];
        let v_br = self.permutations[(self.permutations[ix1] + iy0) % size];
        let v_bl = self.permutations[(self.permutations[ix0] + iy0) % size];

        let d_tr = Self::grad_dot(v_tr, fx - FIELD_ONE, fy - FIELD_ONE);
        let d_tl = Self::grad_dot(v_tl, fx, fy - FIELD_ONE);
        let d_br = Self::grad_dot(v_br, fx - FIELD_ONE, fy);
        let d_bl = Self::grad_dot(v_bl, fx, fy);

        let u = Self::fade(fx);
        let v = Self::fade(fy);

        let inner_a = Self::lerp(v, d_bl, d_tl);
        let inner_b = Self::lerp(v, d_br, d_tr);
        proof {
            lemma_lerp_magnitude(v as int, d_bl as int, d_tl as int, 2 * FIELD_ONE);
            lemma_lerp_magnitude(v as int, d_br as int, d_tr as int, 2 * FIELD_ONE);
        }
        let r = Self::lerp(u, inner_a, inner_b);
        proof {
            lemma_lerp_magnitude(u as int, inner_a as int, inner_b as int, 2 * FIELD_ONE);
        }
        r
    }

    /// Dot product with the gradient selected by `h`.
    fn grad_dot(h: usize, x: i64, y: i64) -> (r: i64)
        requires
            -FIELD_ONE <= x <= FIELD_ONE,
            -FIELD_ONE <= y <= FIELD_ONE,
        ensures
            r == spec_grad_dot(h as int, x as int, y as int),
            -(2 * FIELD_ONE) <= r <= 2 * FIELD_ONE,
    {
        match h % 4 {
            0 => x + y,
            1 => -x + y,
            2 => -x - y,
            _ => x - y,
        }
    }

    /// The shifted continuous coordinate of `p` at this frequency and
    /// scale.
    fn scaled_coord(p: i64, freq: i64, scale: i64) -> (r: i64)
        requires
            -MAX_WORLD_COORD <= p <= MAX_WORLD_COORD,
            FIELD_ONE <= freq <= 256 * FIELD_ONE,
            FIELD_ONE <= scale <= MAX_SCALE,
        ensures
            r == spec_scaled(p as int, freq as int, scale as int),
            0 <= r <= MAX_SHIFTED,
    {
        let ghost ni: int = p * freq * FIELD_ONE + LATTICE_OFFSET * FIELD_ONE * scale;
        proof {
            assert(0 <= ni <= scale * MAX_SHIFTED) by (nonlinear_arith)
                requires
                    ni == p * freq * FIELD_ONE + LATTICE_OFFSET * FIELD_ONE * scale,
                    -MAX_WORLD_COORD <= p <= MAX_WORLD_COORD,
                    FIELD_ONE <= freq <= 256 * FIELD_ONE,
                    FIELD_ONE <= scale <= MAX_SCALE,
                    FIELD_ONE == 10000,
                    LATTICE_OFFSET == 0x4000_0000,
                    MAX_WORLD_COORD == 1_000_000,
                    MAX_SCALE == 100_000_000_000,
                    MAX_SHIFTED == 20_000_000_000_000,
            ;
            assert(0 <= ni / (scale as int) <= MAX_SHIFTED) by (nonlinear_arith)
                requires
                    0 <= ni <= scale * MAX_SHIFTED,
                    FIELD_ONE <= scale,
                    FIELD_ONE == 10000,
            ;
        }
        proof {
            assert(-2_560_000_000_000 <= (p as int) * (freq as int) <= 2_560_000_000_000)
                by (nonlinear_arith)
                requires
                    -1_000_000 <= p <= 1_000_000,
                    0 < freq <= 2_560_000,
            ;
            assert(-26_000_000_000_000_000_000 <= (LATTICE_OFFSET as int) * (FIELD_ONE as int) * (
            scale as int) <= 26_000_000_000_000_000_000_000_000_000) by (nonlinear_arith)
                requires
                    0 < scale <= 100_000_000_000,
                    LATTICE_OFFSET == 0x4000_0000,
                    FIELD_ONE == 10_000,
            ;
        }
        let num: i128 = (p as i128) * (freq as i128) * (FIELD_ONE as i128) + (LATTICE_OFFSET
            as i128) * (FIELD_ONE as i128) * (scale as i128);
        let r128: i128 = num / (scale as i128);
        r128 as i64
    }

    /// Sample the noise field at a world position with the given
    /// fixed-point scale divisor. Pure: the result is pinned, value by
    /// value, by `spec_sample`.
    #[verifier::rlimit(60)]
    pub fn noise(&self, pos: (i64, i64), scale: i64) -> (r: i64)
        requires
            self.wf(),
            -MAX_WORLD_COORD <= pos.0 <= MAX_WORLD_COORD,
            -MAX_WORLD_COORD <= pos.1 <= MAX_WORLD_COORD,
            FIELD_ONE <= scale <= MAX_SCALE,
        ensures
            r == self.spec_sample((pos.0 as int, pos.1 as int), scale as int),
            r == spec_noise(
                self.spec_permutations(),
                self.spec_lacunarity(),
                self.spec_persistence(),
                self.spec_octaves(),
                (pos.0 as int, pos.1 as int),
                scale as int,
            ),
            -NOISE_BOUND <= r <= NOISE_BOUND,
    {
        if self.octaves == 0 {
            let sx = Self::scaled_coord(pos.0, FIELD_ONE, FIELD_ONE);
            let sy = Self::scaled_coord(pos.1, FIELD_ONE, FIELD_ONE);
            return self.perlin(sx, sy);
        }
        let ghost lac = self.lacunarity as int;
        let ghost pers = self.persistence as int;
        let mut result: i64 = 0;
        let mut freq: i64 = FIELD_ONE;
        let mut amp: i64 = FIELD_ONE;
        let mut oct: u32 = 0;
        while oct < self.octaves
            invariant
                self.wf(),
                -MAX_WORLD_COORD <= pos.0 <= MAX_WORLD_COORD,
                -MAX_WORLD_COORD <= pos.1 <= MAX_WORLD_COORD,
                FIELD_ONE <= scale <= MAX_SCALE,
                0 <= oct <= self.octaves,
                freq == spec_freq(lac, oct as nat),
                amp == spec_amp(pers, oct as nat),
                result == spec_fbm(
                    self.permutations@,
                    lac,
                    pers,
                    (pos.0 as int, pos.1 as int),
                    scale as int,
                    oct as nat,
                ),
                -(oct * PERLIN_BOUND) <= result <= oct * PERLIN_BOUND,
                lac == self.lacunarity as int,
                pers == self.persistence as int,
            decreases self.octaves - oct,
        {
            proof {
                lemma_freq_range(lac, oct as nat);
                lemma_pow2_bound(oct as nat);
                lemma_amp_bounds(pers, oct as nat);
            }
            let sx = Self::scaled_coord(pos.0, freq, scale);
            let sy = Self::scaled_coord(pos.1, freq, scale);
            let p = self.perlin(sx, sy);
            let term: i64 = if p >= 0 {
                proof {
                    assert(0 <= (amp as int) * (p as int) <= 100_000_000_000) by (nonlinear_arith)
                        requires
                            0 <= amp <= 10_000,
                            0 <= p <= 10_000_000,
                    ;
                }
                amp * p / FIELD_ONE
            } else {
                proof {
                    assert(0 <= (amp as int) * (-p as int) <= 100_000_000_000) by (nonlinear_arith)
                        requires
                            0 <= amp <= 10_000,
                            -10_000_000 <= p < 0,
                    ;
                }
                -(amp * (-p) / FIELD_ONE)
            };
            proof {
                lemma_term_magnitude(amp as int, p as int);
            }
            result = result + term;
            proof {
                assert(0 <= (freq as int) * (self.lacunarity as int) <= 51_200_000_000)
                    by (nonlinear_arith)
                    requires
                        0 <= freq <= 2_560_000,
                        0 <= self.lacunarity <= 20_000,
                ;
                assert(0 <= (amp as int) * (self.persistence as int) <= 100_000_000)
                    by (nonlinear_arith)
                    requires
                        0 <= amp <= 10_000,
                        0 <= self.persistence <= 10_000,
                ;
            }
            freq = freq * self.lacunarity / FIELD_ONE;
            amp = amp * self.persistence / FIELD_ONE;
            oct = oct + 1;
        }
        result
    }
}

/// Interpolation with a weight in `[0, 1]` never leaves the span of
/// its endpoints.
proof fn lemma_lerp_magnitude(t: int, a: int, b: int, m: int)
    requires
        0 <= t <= FIELD_ONE,
        0 <= m,
        -m <= a <= m,
        -m <= b <= m,
    ensures
        -m <= spec_lerp(t, a, b) <= m,
{
    let one = FIELD_ONE as int;
    if b >= a {
        assert(0 <= t * (b - a) / one <= b - a) by (nonlinear_arith)
            requires
                one == 10_000,
                0 <= t <= one,
                0 <= b - a,
        ;
    } else {
        assert(0 <= t * (a - b) / one <= a - b) by (nonlinear_arith)
            requires
                one == 10_000,
                0 <= t <= one,
                0 <= a - b,
        ;
    }
}

/// An octave's contribution never exceeds the sample it scales.
proof fn lemma_term_magnitude(amp: int, p: int)
    requires
        0 <= amp <= FIELD_ONE,
        -PERLIN_BOUND <= p <= PERLIN_BOUND,
    ensures
        -PERLIN_BOUND <= spec_term(amp, p) <= PERLIN_BOUND,
{
    let one = FIELD_ONE as int;
    if p >= 0 {
        assert(0 <= amp * p / one <= p) by (nonlinear_arith)
            requires
                one == FIELD_ONE as int,
                0 <= amp <= one,
                0 <= p,
        ;
    } else {
        assert(0 <= amp * (-p) / one <= -p) by (nonlinear_arith)
            requires
                one == FIELD_ONE as int,
                0 <= amp <= one,
                p < 0,
        ;
    }
}

pub open spec fn pow2(n: nat) -> int
    decreases n,
{
    if n == 0 {
        1
    } else {
        2 * pow2((n - 1) as nat)
    }
}

/// For the octave counts the library accepts, `pow2` stays at 256 or
/// below.
proof fn lemma_pow2_bound(n: nat)
    requires
        n <= MAX_OCTAVES,
    ensures
        pow2(n) <= 256,
{
    assert(pow2(0) == 1);
    assert(pow2(1) == 2);
    assert(pow2(2) == 4);
    assert(pow2(3) == 8);
    assert(pow2(4) == 16);
    assert(pow2(5) == 32);
    assert(pow2(6) == 64);
    assert(pow2(7) == 128);
    assert(pow2(8) == 256);
}

/// The frequency never shrinks and at most doubles per octave.
proof fn lemma_freq_range(lac: int, n: nat)
    requires
        FIELD_ONE <= lac <= 2 * FIELD_ONE,
    ensures
        FIELD_ONE <= spec_freq(lac, n) <= pow2(n) * FIELD_ONE,
    decreases n,
{
    let one = FIELD_ONE as int;
    if n == 0 {
    } else {
        lemma_freq_range(lac, (n - 1) as nat);
        let prev = spec_freq(lac, (n - 1) as nat);
        assert(prev <= prev * lac / one <= 2 * prev) by (nonlinear_arith)
            requires
                one == FIELD_ONE as int,
                one <= lac <= 2 * one,
                one <= prev,
        ;
        assert(pow2(n) == 2 * pow2((n - 1) as nat));
    }
}

/// Amplitudes never grow: persistence is at most one.
proof fn lemma_amp_bounds(pers: int, n: nat)
    requires
        0 < pers <= FIELD_ONE,
    ensures
        0 <= spec_amp(pers, n) <= FIELD_ONE,
    decreases n,
{
    let one = FIELD_ONE as int;
    if n == 0 {
    } else {
        lemma_amp_bounds(pers, (n - 1) as nat);
        let prev = spec_amp(pers, (n - 1) as nat);
        assert(0 <= prev * pers / one <= prev) by (nonlinear_arith)
            requires
                one == FIELD_ONE as int,
                0 < pers <= one,
                0 <= prev <= one,
        ;
    }
}



/// The fade curve stays within `[0, 1]` in fixed point on `[0, 1]`:
/// the complement `1 - fade(t)` factors as `(1 - t)^3 (6t^2 + 3t + 1)`,
/// a product of non-negative terms.
proof fn lemma_fade_range(t: int)
    requires
        0 <= t <= FIELD_ONE,
    ensures
        0 <= spec_fade(t) <= FIELD_ONE,
{
    let q = 10_000_000_000_000_000int;
    let n = ((6 * t - 150_000) * t + 1_000_000_000) * t * t * t;
    let u = 10_000 - t;
    let h = 6 * t * t + 30_000 * t + 100_000_000;
    assert(100_000_000_000_000_000_000 - n == (u * u * u) * h) by (nonlinear_arith)
        requires
            n == ((6 * t - 150_000) * t + 1_000_000_000) * t * t * t,
            u == 10_000 - t,
            h == 6 * t * t + 30_000 * t + 100_000_000,
    ;
    assert(0 <= (u * u * u) * h) by (nonlinear_arith)
        requires
            0 <= u,
            0 <= t,
            h == 6 * t * t + 30_000 * t + 100_000_000,
    ;
    assert(0 <= n) by (nonlinear_arith)
        requires
            0 <= t <= 10_000,
            n == ((6 * t - 150_000) * t + 1_000_000_000) * t * t * t,
    ;
    assert(0 <= n / q <= 10_000) by (nonlinear_arith)
        requires
            0 <= n <= 100_000_000_000_000_000_000,
            q == 10_000_000_000_000_000,
    ;
    assert(spec_fade(t) == n / q);
}

/// The fade curve is Lipschitz on `[0, 1]`: a step of `d` moves the
/// output by at most `60 d`, plus one unit of fixed-point rounding.
#[verifier::rlimit(100)]
proof fn lemma_fade_diff(a: int, b: int)
    requires
        0 <= b <= a <= FIELD_ONE,
    ensures
        -(60 * (a - b) + 1) <= spec_fade(a) - spec_fade(b) <= 60 * (a - b) + 1,
{
    let q = 10_000_000_000_000_000int;
    let na = ((6 * a - 150_000) * a + 1_000_000_000) * a * a * a;
    let nb = ((6 * b - 150_000) * b + 1_000_000_000) * b * b * b;
    let s3 = a * a + a * b + b * b;
    let s4 = a * a * a + a * a * b + a * b * b + b * b * b;
    let s5 = a * a * a * a + a * a * a * b + a * a * b * b + a * b * b * b + b * b * b * b;
    assert(a * a * a - b * b * b == (a - b) * s3) by (nonlinear_arith)
        requires
            s3 == a * a + a * b + b * b,
    ;
    assert(a * a * a * a - b * b * b * b == (a - b) * s4) by (nonlinear_arith)
        requires
            s4 == a * a * a + a * a * b + a * b * b + b * b * b,
    ;
    assert(a * a * a * a * a - b * b * b * b * b == (a - b) * s5) by (nonlinear_arith)
        requires
            s5 == a * a * a * a + a * a * a * b + a * a * b * b + a * b * b * b + b * b * b * b,
    ;
    assert(na == 6 * (a * a * a * a * a) - 150_000 * (a * a * a * a) + 1_000_000_000 * (a * a
        * a)) by (nonlinear_arith)
        requires
            na == ((6 * a - 150_000) * a + 1_000_000_000) * a * a * a,
    ;
    assert(nb == 6 * (b * b * b * b * b) - 150_000 * (b * b * b * b) + 1_000_000_000 * (b * b
        * b)) by (nonlinear_arith)
        requires
            nb == ((6 * b - 150_000) * b + 1_000_000_000) * b * b * b,
    ;
    assert(0 <= s3 <= 300_000_000 && 0 <= s4 <= 4_000_000_000_000 && 0 <= s5
        <= 50_000_000_000_000_000) by (nonlinear_arith)
        requires
            0 <= b <= a <= 10_000,
            s3 == a * a + a * b + b * b,
            s4 == a * a * a + a * a * b + a * b * b + b * b * b,
            s5 == a * a * a * a + a * a * a * b + a * a * b * b + a * b * b * b + b * b * b * b,
    ;
    let r = 6 * s5 - 150_000 * s4 + 1_000_000_000 * s3;
    assert(na - nb == (a - b) * r) by (nonlinear_arith)
        requires
            na - nb == 6 * ((a - b) * s5) - 150_000 * ((a - b) * s4) + 1_000_000_000 * ((a - b)
                * s3),
            r == 6 * s5 - 150_000 * s4 + 1_000_000_000 * s3,
    ;
    assert(-(60 * q) <= r <= 60 * q);
    assert(-(60 * q * (a - b)) <= na - nb <= 60 * q * (a - b)) by (nonlinear_arith)
        requires
            na - nb == (a - b) * r,
            -(60 * q) <= r <= 60 * q,
            b <= a,
            q == 10_000_000_000_000_000,
    ;
    assert(0 <= nb && 0 <= na) by (nonlinear_arith)
        requires
            0 <= b <= a <= 10_000,
            na == ((6 * a - 150_000) * a + 1_000_000_000) * a * a * a,
            nb == ((6 * b - 150_000) * b + 1_000_000_000) * b * b * b,
    ;
    let qa = na / q;
    let qb = nb / q;
    assert(q * qa <= na < q * qa + q && q * qb <= nb < q * qb + q) by {
        vstd::arithmetic::div_mod::lemma_fundamental_div_mod(na, q);
        vstd::arithmetic::div_mod::lemma_mod_bound(na, q);
        vstd::arithmetic::div_mod::lemma_fundamental_div_mod(nb, q);
        vstd::arithmetic::div_mod::lemma_mod_bound(nb, q);
    }
    assert(-(60 * (a - b) + 1) <= qa - qb <= 60 * (a - b) + 1) by (nonlinear_arith)
        requires
            q * qa <= na < q * qa + q,
            q * qb <= nb < q * qb + q,
            -(60 * q * (a - b)) <= na - nb <= 60 * q * (a - b),
            q == 10_000_000_000_000_000,
            b <= a,
    ;
    assert(spec_fade(a) == qa && spec_fade(b) == qb);
}

/// Interpolations with nearby weights and endpoints stay near each
/// other: the difference is bounded by the endpoint drift, the weight
/// drift scaled by the endpoint spread, and two units of rounding.
#[verifier::rlimit(100)]
proof fn lemma_lerp_diff(t1: int, a1: int, b1: int, t2: int, a2: int, b2: int, m: int, dt: int, dd: int)
    requires
        0 <= t1 <= 10 * FIELD_ONE,
        0 <= t2 <= 10 * FIELD_ONE,
        -m <= a1 <= m && -m <= b1 <= m && -m <= a2 <= m && -m <= b2 <= m,
        0 <= m,
        -dt <= t1 - t2 <= dt,
        -dd <= a1 - a2 <= dd,
        -dd <= b1 - b2 <= dd,
        0 <= dt,
        0 <= dd,
    ensures
        -(21 * dd + 2 * m * dt / (FIELD_ONE as int) + 2) <= spec_lerp(t1, a1, b1) - spec_lerp(
            t2,
            a2,
            b2,
        ) <= 21 * dd + 2 * m * dt / (FIELD_ONE as int) + 2,
{
    let one = FIELD_ONE as int;
    let n1 = t1 * (b1 - a1);
    let n2 = t2 * (b2 - a2);
    assert(-n1 == t1 * (a1 - b1) && -n2 == t2 * (a2 - b2)) by (nonlinear_arith)
        requires
            n1 == t1 * (b1 - a1),
            n2 == t2 * (b2 - a2),
    ;
    let q1 = spec_lerp(t1, a1, b1) - a1;
    let q2 = spec_lerp(t2, a2, b2) - a2;
    assert(n1 - one < one * q1 <= n1 + one && n2 - one < one * q2 <= n2 + one) by {
        if b1 >= a1 {
            vstd::arithmetic::div_mod::lemma_fundamental_div_mod(n1, one);
            vstd::arithmetic::div_mod::lemma_mod_bound(n1, one);
            assert(one * q1 <= n1 < one * q1 + one) by (nonlinear_arith)
                requires
                    q1 == n1 / one,
                    n1 == one * (n1 / one) + n1 % one,
                    0 <= n1 % one < one,
            ;
        } else {
            vstd::arithmetic::div_mod::lemma_fundamental_div_mod(-n1, one);
            vstd::arithmetic::div_mod::lemma_mod_bound(-n1, one);
            assert(n1 <= one * q1 < n1 + one) by (nonlinear_arith)
                requires
                    q1 == -((-n1) / one),
                    -n1 == one * ((-n1) / one) + (-n1) % one,
                    0 <= (-n1) % one < one,
            ;
        }
        if b2 >= a2 {
            vstd::arithmetic::div_mod::lemma_fundamental_div_mod(n2, one);
            vstd::arithmetic::div_mod::lemma_mod_bound(n2, one);
            assert(one * q2 <= n2 < one * q2 + one) by (nonlinear_arith)
                requires
                    q2 == n2 / one,
                    n2 == one * (n2 / one) + n2 % one,
                    0 <= n2 % one < one,
            ;
        } else {
            vstd::arithmetic::div_mod::lemma_fundamental_div_mod(-n2, one);
            vstd::arithmetic::div_mod::lemma_mod_bound(-n2, one);
            assert(n2 <= one * q2 < n2 + one) by (nonlinear_arith)
                requires
                    q2 == -((-n2) / one),
                    -n2 == one * ((-n2) / one) + (-n2) % one,
                    0 <= (-n2) % one < one,
            ;
        }
    }
    assert(-(2 * m * dt + 20 * one * dd) <= n1 - n2 <= 2 * m * dt + 20 * one * dd)
        by (nonlinear_arith)
        requires
            n1 == t1 * (b1 - a1),
            n2 == t2 * (b2 - a2),
            0 <= t1 <= 10 * one,
            0 <= t2 <= 10 * one,
            -m <= a1 <= m && -m <= b1 <= m && -m <= a2 <= m && -m <= b2 <= m,
            -dt <= t1 - t2 <= dt,
            -dd <= a1 - a2 <= dd,
            -dd <= b1 - b2 <= dd,
            0 <= m,
    ;
    assert(-(21 * dd + 2 * m * dt / one + 2) <= (a1 + q1) - (a2 + q2) <= 21 * dd + 2 * m * dt
        / one + 2) by (nonlinear_arith)
        requires
            n1 - one < one * q1 <= n1 + one,
            n2 - one < one * q2 <= n2 + one,
            -(2 * m * dt + 20 * one * dd) <= n1 - n2 <= 2 * m * dt + 20 * one * dd,
            -dd <= a1 - a2 <= dd,
            0 <= dd,
            0 <= dt,
            0 <= m,
            one == 10_000,
    ;
}

/// Law: single-octave noise is continuous. Two positions in the same
/// lattice cell whose fixed-point coordinates differ by `dx` and `dy`
/// give samples within `11000 (dx + dy)` of each other, plus a small
/// constant for fixed-point rounding. Positions within epsilon of each
/// other land in the same cell for small epsilon, so nearby samples
/// never jump.
#[verifier::rlimit(100)]
#[verifier::spinoff_prover]
pub proof fn lemma_single_octave_continuity(perm: Seq<usize>, sx1: int, sy1: int, sx2: int, sy2: int)
    requires
        perm.len() == PERMUTATION_LENGTH + 1,
        forall|i: int| 0 <= i < perm.len() ==> (#[trigger] perm[i]) <= PERMUTATION_LENGTH,
        0 <= sx1 && 0 <= sy1 && 0 <= sx2 && 0 <= sy2,
        sx1 / (FIELD_ONE as int) == sx2 / (FIELD_ONE as int),
        sy1 / (FIELD_ONE as int) == sy2 / (FIELD_ONE as int),
    ensures
        ({
            let dx = if sx1 >= sx2 { sx1 - sx2 } else { sx2 - sx1 };
            let dy = if sy1 >= sy2 { sy1 - sy2 } else { sy2 - sy1 };
            -(11_000 * (dx + dy) + 250) <= spec_perlin(perm, sx1, sy1) - spec_perlin(
                perm,
                sx2,
                sy2,
            ) <= 11_000 * (dx + dy) + 250
        }),
{
    let one = FIELD_ONE as int;
    let dx = if sx1 >= sx2 { sx1 - sx2 } else { sx2 - sx1 };
    let dy = if sy1 >= sy2 { sy1 - sy2 } else { sy2 - sy1 };
    let d = dx + dy;
    let nx = sx1 / one;
    let ny = sy1 / one;
    let fx1 = sx1 % one;
    let fy1 = sy1 % one;
    let fx2 = sx2 % one;
    let fy2 = sy2 % one;
    assert(0 <= fx1 < one && 0 <= fy1 < one && 0 <= fx2 < one && 0 <= fy2 < one && fx1 - fx2 == sx1
        - sx2 && fy1 - fy2 == sy1 - sy2) by {
        vstd::arithmetic::div_mod::lemma_fundamental_div_mod(sx1, one);
        vstd::arithmetic::div_mod::lemma_mod_bound(sx1, one);
        vstd::arithmetic::div_mod::lemma_fundamental_div_mod(sx2, one);
        vstd::arithmetic::div_mod::lemma_mod_bound(sx2, one);
        vstd::arithmetic::div_mod::lemma_fundamental_div_mod(sy1, one);
        vstd::arithmetic::div_mod::lemma_mod_bound(sy1, one);
        vstd::arithmetic::div_mod::lemma_fundamental_div_mod(sy2, one);
        vstd::arithmetic::div_mod::lemma_mod_bound(sy2, one);
    }
    let size = perm.len() as int;
    let v_tr = perm[(perm[(nx + 1) % size] + (ny + 1) % size) % size] as int;
    let v_tl = perm[(perm[nx % size] + (ny + 1) % size) % size] as int;
    let v_br = perm[(perm[(nx + 1) % size] + ny % size) % size] as int;
    let v_bl = perm[(perm[nx % size] + ny % size) % size] as int;

    let d_tr1 = spec_grad_dot(v_tr, fx1 - one, fy1 - one);
    let d_tl1 = spec_grad_dot(v_tl, fx1, fy1 - one);
    let d_br1 = spec_grad_dot(v_br, fx1 - one, fy1);
    let d_bl1 = spec_grad_dot(v_bl, fx1, fy1);
    let d_tr2 = spec_grad_dot(v_tr, fx2 - one, fy2 - one);
    let d_tl2 = spec_grad_dot(v_tl, fx2, fy2 - one);
    let d_br2 = spec_grad_dot(v_br, fx2 - one, fy2);
    let d_bl2 = spec_grad_dot(v_bl, fx2, fy2);

    let u1 = spec_fade(fx1);
    let v1 = spec_fade(fy1);
    let u2 = spec_fade(fx2);
    let v2 = spec_fade(fy2);
    lemma_fade_range(fx1);
    lemma_fade_range(fy1);
    lemma_fade_range(fx2);
    lemma_fade_range(fy2);
    if fx1 >= fx2 {
        lemma_fade_diff(fx1, fx2);
    } else {
        lemma_fade_diff(fx2, fx1);
    }
    if fy1 >= fy2 {
        lemma_fade_diff(fy1, fy2);
    } else {
        lemma_fade_diff(fy2, fy1);
    }
    assert(-(60 * dx + 1) <= u1 - u2 <= 60 * dx + 1);
    assert(-(60 * dy + 1) <= v1 - v2 <= 60 * dy + 1);

    let inner_a1 = spec_lerp(v1, d_bl1, d_tl1);
    let inner_b1 = spec_lerp(v1, d_br1, d_tr1);
    let inner_a2 = spec_lerp(v2, d_bl2, d_tl2);
    let inner_b2 = spec_lerp(v2, d_br2, d_tr2);
    lemma_lerp_magnitude(v1, d_bl1, d_tl1, 2 * FIELD_ONE);
    lemma_lerp_magnitude(v1, d_br1, d_tr1, 2 * FIELD_ONE);
    lemma_lerp_magnitude(v2, d_bl2, d_tl2, 2 * FIELD_ONE);
    lemma_lerp_magnitude(v2, d_br2, d_tr2, 2 * FIELD_ONE);
    lemma_lerp_diff(v1, d_bl1, d_tl1, v2, d_bl2, d_tl2, 2 * FIELD_ONE, 60 * dy + 1, d);
    lemma_lerp_diff(v1, d_br1, d_tr1, v2, d_br2, d_tr2, 2 * FIELD_ONE, 60 * dy + 1, d);
    assert(2 * (2 * FIELD_ONE) * (60 * dy + 1) / (FIELD_ONE as int) == 240 * dy + 4)
        by (nonlinear_arith)
        requires
            FIELD_ONE == 10_000,
            0 <= dy,
    ;
    assert(-(21 * d + 240 * dy + 4 + 2) <= inner_a1 - inner_a2 <= 21 * d + 240 * dy + 4 + 2);
    assert(-(21 * d + 240 * dy + 4 + 2) <= inner_b1 - inner_b2 <= 21 * d + 240 * dy + 4 + 2);

    lemma_lerp_diff(
        u1,
        inner_a1,
        inner_b1,
        u2,
        inner_a2,
        inner_b2,
        42 * FIELD_ONE,
        60 * dx + 1,
        261 * d + 6,
    );
    assert(2 * (42 * FIELD_ONE) * (60 * dx + 1) / (FIELD_ONE as int) == 5040 * dx + 84)
        by (nonlinear_arith)
        requires
            FIELD_ONE == 10_000,
            0 <= dx,
    ;
    assert(spec_perlin(perm, sx1, sy1) == spec_lerp(u1, inner_a1, inner_b1));
    assert(spec_perlin(perm, sx2, sy2) == spec_lerp(u2, inner_a2, inner_b2));
}


/// Law: the sampler computes the documented fractal formula. The
/// per-generator sample equals the open composition over the
/// generator's table and parameters: with no octaves, one base sample
/// of the raw position -- independent of the scale divisor, the
/// lacunarity and the persistence -- and otherwise the sum over
/// octaves of amplitude-scaled samples at frequency-scaled positions.
pub proof fn lemma_sample_definition(g: PerlinNoiseGenerator, pos: (int, int), scale: int)
    ensures
        g.spec_sample(pos, scale) == spec_noise(
            g.spec_permutations(),
            g.spec_lacunarity(),
            g.spec_persistence(),
            g.spec_octaves(),
            pos,
            scale,
        ),
{
}

/// Law: a sample depends on the permutation table and the parameters
/// alone. Two generators that agree on them give bit-identical samples
/// at every position and scale.
pub proof fn lemma_sample_deterministic(
    g1: PerlinNoiseGenerator,
    g2: PerlinNoiseGenerator,
    pos: (int, int),
    scale: int,
)
    requires
        g1.spec_permutations() == g2.spec_permutations(),
        g1.spec_lacunarity() == g2.spec_lacunarity(),
        g1.spec_persistence() == g2.spec_persistence(),
        g1.spec_octaves() == g2.spec_octaves(),
    ensures
        g1.spec_sample(pos, scale) == g2.spec_sample(pos, scale),
{
}

} // verus!
