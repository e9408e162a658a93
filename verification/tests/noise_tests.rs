//! Noise: bit-identical reproducibility across instances, and
//! continuity of nearby samples.
use world_gen::perlin_noise::PerlinNoiseGenerator;
use world_gen::FIELD_ONE;

#[test]
fn same_seed_gives_bit_identical_samples() {
    let a = PerlinNoiseGenerator::new(42, 13_000, 5_000, 4).unwrap();
    let b = PerlinNoiseGenerator::new(42, 13_000, 5_000, 4).unwrap();
    let scale = 4480 * FIELD_ONE;
    for x in -50..50i64 {
        for y in -50..50i64 {
            assert_eq!(a.noise((x * 97, y * 89), scale), b.noise((x * 97, y * 89), scale));
        }
    }
}

#[test]
fn different_seeds_give_different_fields() {
    let a = PerlinNoiseGenerator::new(1, 13_000, 5_000, 4).unwrap();
    let b = PerlinNoiseGenerator::new(2, 13_000, 5_000, 4).unwrap();
    let scale = 4480 * FIELD_ONE;
    let mut differing = 0;
    for x in 0..100i64 {
        if a.noise((x * 131, x * 57), scale) != b.noise((x * 131, x * 57), scale) {
            differing += 1;
        }
    }
    assert!(differing > 50);
}

#[test]
fn repeated_calls_are_bit_identical() {
    let g = PerlinNoiseGenerator::new(7, 17_000, 6_000, 8).unwrap();
    let scale = 1120 * FIELD_ONE;
    for x in -20..20i64 {
        let first = g.noise((x * 1000, -x * 313), scale);
        let second = g.noise((x * 1000, -x * 313), scale);
        assert_eq!(first, second);
    }
}

#[test]
fn single_octave_noise_is_continuous() {
    // With a large scale divisor, adjacent integer positions are a
    // small epsilon apart in the continuous sampling space: epsilon is
    // 1/scale lattice units, so the output step must stay within a
    // small bound proportional to it.
    let g = PerlinNoiseGenerator::new(1234, 13_000, 5_000, 1).unwrap();
    let scale = 1000 * FIELD_ONE;
    let mut max_step = 0i64;
    for x in -500..500i64 {
        let here = g.noise((x, 0), scale);
        let there = g.noise((x + 1, 0), scale);
        let step = (here - there).abs();
        if step > max_step {
            max_step = step;
        }
    }
    // One step of 0.001 lattice units may move the output by no more
    // than 0.01 (100 fixed-point units); the gradient of the fade curve
    // is bounded well below that.
    assert!(max_step <= 100, "largest step {max_step}");
}

#[test]
fn octave_count_zero_degenerates_to_base_sample() {
    let g0 = PerlinNoiseGenerator::new(5, 13_000, 5_000, 0).unwrap();
    let a = g0.noise((10, 20), FIELD_ONE);
    let b = g0.noise((10, 20), 7777 * FIELD_ONE);
    // With no octaves the scale divisor is not consulted.
    assert_eq!(a, b);
}

#[test]
fn rejects_parameters_out_of_range() {
    assert!(PerlinNoiseGenerator::new(1, 9_999, 5_000, 4).is_err());
    assert!(PerlinNoiseGenerator::new(1, 20_001, 5_000, 4).is_err());
    assert!(PerlinNoiseGenerator::new(1, 13_000, 0, 4).is_err());
    assert!(PerlinNoiseGenerator::new(1, 13_000, 10_001, 4).is_err());
    assert!(PerlinNoiseGenerator::new(1, 13_000, 5_000, 9).is_err());
    assert!(PerlinNoiseGenerator::new(1, 13_000, 5_000, 8).is_ok());
}
