//! Biome classification from coherent-noise samples.
//!
//! Noise is seen here as integers: a sample is a value in `[-1, 1]` scaled by
//! `NOISE_SCALE`. Sampling itself is left to a `NoiseSource` supplied by the
//! caller; everything decided from the samples is computed here.
use vstd::prelude::*;

verus! {

/// A noise sample of `1.0` is represented by this integer.
pub const NOISE_SCALE: i32 = 1_000_000;

/// Biome noise is read at one sample per this many blocks.
pub const BIOME_PERIOD: u32 = 200;

/// Elevation noise is read at one sample per this many blocks.
pub const ELEVATION_PERIOD: u32 = 100;

/// Tree-placement noise is read at one sample per this many blocks.
pub const TREE_PERIOD: u32 = 20;

/// A deterministic, seeded 2D coherent-noise function.
///
/// `sample(seed, x, z, period)` is the noise for `seed` at the point
/// `(x / period, z / period)`, scaled by `NOISE_SCALE`: a function of the
/// source and its arguments alone, named `sample_spec`. Nothing is assumed of
/// its range: callers clamp it into `[-NOISE_SCALE, NOISE_SCALE]`.
pub trait NoiseSource {
    spec fn sample_spec(&self, seed: u32, x: i64, z: i64, period: u32) -> i32;

    fn sample(&self, seed: u32, x: i64, z: i64, period: u32) -> (r: i32)
        ensures
            r == self.sample_spec(seed, x, z, period),
    ;
}

/// Noise that is the same value everywhere: a level world.
#[derive(Clone, Copy, Debug, PartialEq, Eq, Structural)]
pub struct ConstantNoise {
    pub value: i32,
}

impl NoiseSource for ConstantNoise {
    open spec fn sample_spec(&self, seed: u32, x: i64, z: i64, period: u32) -> i32 {
        self.value
    }

    fn sample(&self, seed: u32, x: i64, z: i64, period: u32) -> (r: i32) {
        self.value
    }
}

/// Terrain style of one column.
#[derive(Clone, Copy, Debug, PartialEq, Eq, Structural)]
pub enum Biome {
    Plains,
    Mountains,
    Desert,
}

/// What a noise channel is used for; each gets its own seed.
#[derive(Clone, Copy, Debug, PartialEq, Eq, Structural)]
pub enum NoiseChannel {
    Biome,
    Elevation,
    Tree,
}

pub open spec fn clamp_spec(v: int) -> int {
    if v < -NOISE_SCALE {
        -NOISE_SCALE as int
    } else if v > NOISE_SCALE {
        NOISE_SCALE as int
    } else {
        v
    }
}

pub open spec fn biome_of(biome_sample: int) -> Biome {
    if biome_sample < -300_000 {
        Biome::Desert
    } else if biome_sample < 300_000 {
        Biome::Plains
    } else {
        Biome::Mountains
    }
}

/// Base elevation and spread of a biome, in blocks.
pub open spec fn biome_base(b: Biome) -> (int, int) {
    match b {
        Biome::Desert => (64, 10),
        Biome::Plains => (68, 15),
        Biome::Mountains => (80, 50),
    }
}

/// `base + floor(spread * e)`, where `e` is the elevation sample as a fraction of `NOISE_SCALE`.
pub open spec fn elevation_of(b: Biome, elevation_sample: int) -> int {
    let (base, spread) = biome_base(b);
    base + (elevation_sample + NOISE_SCALE) * spread / (NOISE_SCALE as int) - spread
}

/// Seed of a noise channel: the world seed offset by a small per-channel constant.
pub open spec fn channel_seed_spec(seed: u32, channel: NoiseChannel) -> u32 {
    match channel {
        NoiseChannel::Biome => seed,
        NoiseChannel::Elevation => ((seed + 1) % 0x1_0000_0000) as u32,
        NoiseChannel::Tree => ((seed + 2) % 0x1_0000_0000) as u32,
    }
}

pub open spec fn channel_period_spec(channel: NoiseChannel) -> u32 {
    match channel {
        NoiseChannel::Biome => BIOME_PERIOD,
        NoiseChannel::Elevation => ELEVATION_PERIOD,
        NoiseChannel::Tree => TREE_PERIOD,
    }
}

/// Seed of a noise channel: the world seed offset by a small per-channel constant
/// (wrapping), so that independent phenomena do not correlate.
pub fn channel_seed(seed: u32, channel: NoiseChannel) -> (r: u32)
    ensures
        r == channel_seed_spec(seed, channel),
{
    match channel {
        NoiseChannel::Biome => seed,
        NoiseChannel::Elevation => seed.wrapping_add(1),
        NoiseChannel::Tree => seed.wrapping_add(2),
    }
}

/// Blocks per noise sample on a channel.
pub fn channel_period(channel: NoiseChannel) -> (r: u32)
    ensures
        r == channel_period_spec(channel),
        r > 0,
{
    match channel {
        NoiseChannel::Biome => BIOME_PERIOD,
        NoiseChannel::Elevation => ELEVATION_PERIOD,
        NoiseChannel::Tree => TREE_PERIOD,
    }
}

/// Brings a raw sample into `[-NOISE_SCALE, NOISE_SCALE]`.
pub fn clamp_sample(v: i32) -> (r: i32)
    ensures
        r as int == clamp_spec(v as int),
        -NOISE_SCALE <= r <= NOISE_SCALE,
{
    if v < -NOISE_SCALE {
        -NOISE_SCALE
    } else if v > NOISE_SCALE {
        NOISE_SCALE
    } else {
        v
    }
}

/// The clamped sample of one channel of `source` at world column `(x, z)`.
pub open spec fn channel_sample<S: NoiseSource>(source: &S, seed: u32, channel: NoiseChannel, x: i64, z: i64) -> int {
    clamp_spec(source.sample_spec(channel_seed_spec(seed, channel), x, z, channel_period_spec(channel)) as int)
}

/// Reads one channel of `source` at world column `(x, z)`, clamped into range.
pub fn sample_channel<S: NoiseSource>(source: &S, seed: u32, channel: NoiseChannel, x: i64, z: i64) -> (r: i32)
    ensures
        r as int == channel_sample(source, seed, channel, x, z),
        -NOISE_SCALE <= r <= NOISE_SCALE,
{
    let raw = source.sample(channel_seed(seed, channel), x, z, channel_period(channel));
    clamp_sample(raw)
}

/// Classifies a column from its biome and elevation samples (both in
/// `[-NOISE_SCALE, NOISE_SCALE]`): below -0.3 Desert, below 0.3 Plains, else
/// Mountains; the elevation is the biome's base plus its spread times the
/// elevation sample, rounded down.
pub fn classify(biome_sample: i32, elevation_sample: i32) -> (r: (Biome, i32))
    requires
        -NOISE_SCALE <= biome_sample <= NOISE_SCALE,
        -NOISE_SCALE <= elevation_sample <= NOISE_SCALE,
    ensures
        r.0 == biome_of(biome_sample as int),
        r.1 as int == elevation_of(r.0, elevation_sample as int),
        30 <= r.1 <= 130,
{
    let biome = if biome_sample < -300_000 {
        Biome::Desert
    } else if biome_sample < 300_000 {
        Biome::Plains
    } else {
        Biome::Mountains
    };
    let base: i64 = match biome {
        Biome::Desert => 64,
        Biome::Plains => 68,
        Biome::Mountains => 80,
    };
    let spread: i64 = match biome {
        Biome::Desert => 10,
        Biome::Plains => 15,
        Biome::Mountains => 50,
    };
    assert(base as int == biome_base(biome).0 && spread as int == biome_base(biome).1);
    proof {
        match biome {
            Biome::Desert => {},
            Biome::Plains => {},
            Biome::Mountains => {},
        }
    }
    assert(base - spread >= 30 && base + spread <= 130 && spread > 0);
    let shifted = (elevation_sample as i64 + NOISE_SCALE as i64) * spread;
    proof {
        assert(0 <= shifted <= 2 * NOISE_SCALE * spread) by (nonlinear_arith)
            requires
                shifted == (elevation_sample + NOISE_SCALE) * spread,
                0 <= elevation_sample + NOISE_SCALE <= 2 * NOISE_SCALE,
                0 < spread <= 50;
        assert(0 <= shifted / (NOISE_SCALE as i64) <= 2 * spread) by (nonlinear_arith)
            requires 0 <= shifted <= 2 * NOISE_SCALE * spread, NOISE_SCALE == 1_000_000;
    }
    let elevation = base + shifted / (NOISE_SCALE as i64) - spread;
    (biome, elevation as i32)
}

/// Biome classifier over a noise source: one seed for biome noise, the next for
/// elevation noise.
pub struct BiomeGenerator {
    pub seed: u32,
}

impl BiomeGenerator {
    pub fn new(seed: u32) -> (r: BiomeGenerator)
        ensures
            r.seed == seed,
    {
        BiomeGenerator { seed }
    }

    /// Biome and base elevation of world column `(x, z)`.
    pub fn get_biome_and_elevation<S: NoiseSource>(&self, source: &S, x: i64, z: i64) -> (r: (Biome, i32))
        ensures
            r.0 == biome_of(channel_sample(source, self.seed, NoiseChannel::Biome, x, z)),
            r.1 as int == elevation_of(r.0, channel_sample(source, self.seed, NoiseChannel::Elevation, x, z)),
    {
        let b = sample_channel(source, self.seed, NoiseChannel::Biome, x, z);
        let e = sample_channel(source, self.seed, NoiseChannel::Elevation, x, z);
        classify(b, e)
    }
}

/// Classified elevations lie in `[30, 130]`.
pub proof fn lemma_elevation_bounds(b: Biome, e: int)
    requires
        -NOISE_SCALE <= e <= NOISE_SCALE,
    ensures
        30 <= elevation_of(b, e) <= 130,
{
    let (base, spread) = biome_base(b);
    assert(0 <= (e + NOISE_SCALE) * spread / (NOISE_SCALE as int) <= 2 * spread) by (nonlinear_arith)
        requires
            0 <= e + NOISE_SCALE <= 2 * NOISE_SCALE,
            10 <= spread <= 50,
            NOISE_SCALE == 1_000_000;
    match b {
        Biome::Desert => {},
        Biome::Plains => {},
        Biome::Mountains => {},
    }
}

} // verus!
