use harmonics::level::{level_of, Amplitude, HARMONIC_COUNT, MAX_LEVEL};
use harmonics::tables::{
    clamp_level, compute_levels, levels_from_raw, get_random_levels, get_saw_levels, get_sine_levels,
    get_square_levels, get_triangle_levels, Waveform,
};

fn amp(negative: bool, num: u16, den: u16) -> Amplitude {
    Amplitude { negative, num, den }
}

#[test]
fn level_of_full_scale() {
    assert_eq!(level_of(&amp(false, 1, 1)), 127);
    assert_eq!(level_of(&amp(true, 5, 5)), 127);
}

#[test]
fn level_of_exact_values() {
    assert_eq!(level_of(&amp(false, 1, 2)), 119);
    assert_eq!(level_of(&amp(false, 1, 3)), 114);
    assert_eq!(level_of(&amp(false, 3, 4)), 123);
    assert_eq!(level_of(&amp(false, 1, 64)), 79);
    assert_eq!(level_of(&amp(false, 1, 4096)), 31);
}

#[test]
fn level_of_ignores_sign() {
    for den in 1..200u16 {
        assert_eq!(level_of(&amp(true, 1, den)), level_of(&amp(false, 1, den)));
    }
}

#[test]
fn level_of_is_not_clamped_below() {
    assert_eq!(level_of(&amp(false, 1, 65535)), -1);
}

#[test]
fn level_of_monotone_in_magnitude() {
    let mut previous = i32::MIN;
    for num in 1..=100u16 {
        let level = level_of(&amp(false, num, 100));
        assert!(level >= previous);
        previous = level;
    }
}

#[test]
fn every_model_gives_64_levels_in_range() {
    for w in [Waveform::Sine, Waveform::Saw, Waveform::Square, Waveform::Triangle, Waveform::Random] {
        let levels = compute_levels(w);
        assert_eq!(levels.len(), HARMONIC_COUNT);
        assert!(levels.iter().all(|&l| l <= MAX_LEVEL));
    }
}

#[test]
fn sine_table() {
    let levels = get_sine_levels();
    assert_eq!(levels[0], 127);
    assert!(levels[1..].iter().all(|&l| l == 0));
    assert_eq!(compute_levels(Waveform::Sine), levels);
}

#[test]
fn saw_table_values() {
    let levels = get_saw_levels();
    assert_eq!(levels[0], 127);
    assert_eq!(levels[1], 119);
    assert_eq!(levels[2], 114);
    assert_eq!(levels[3], 111);
    assert_eq!(levels[63], 79);
    assert_eq!(compute_levels(Waveform::Saw), levels);
}

#[test]
fn square_is_saw_without_even_harmonics() {
    let saw = get_saw_levels();
    let square = get_square_levels();
    for i in 0..HARMONIC_COUNT {
        let n = i + 1;
        if n % 2 == 0 {
            assert_eq!(square[i], 0);
        } else {
            assert_eq!(square[i], saw[i]);
        }
    }
    assert_eq!(compute_levels(Waveform::Square), square);
}

#[test]
fn triangle_table_values() {
    let levels = get_triangle_levels();
    for i in 0..HARMONIC_COUNT {
        if (i + 1) % 2 == 0 {
            assert_eq!(levels[i], 0);
        }
    }
    assert_eq!(levels[0], 127);
    assert_eq!(levels[2], 101);
    assert_eq!(levels[4], 89);
    assert_eq!(levels[62], 31);
    assert_eq!(compute_levels(Waveform::Triangle), levels);
}

#[test]
fn random_levels_spread() {
    let mut seen = [false; 128];
    let mut lowest = u8::MAX;
    let mut highest = 0u8;
    for _ in 0..1000 {
        let levels = get_random_levels();
        assert_eq!(levels.len(), HARMONIC_COUNT);
        for &l in &levels {
            assert!(l <= 127);
            seen[l as usize] = true;
            lowest = lowest.min(l);
            highest = highest.max(l);
        }
    }
    assert!(lowest <= 5);
    assert!(highest >= 122);
    assert!(seen.iter().filter(|&&s| s).count() >= 120);
}

#[test]
fn clamp_level_bounds() {
    assert_eq!(clamp_level(-40), 0);
    assert_eq!(clamp_level(0), 0);
    assert_eq!(clamp_level(64), 64);
    assert_eq!(clamp_level(127), 127);
    assert_eq!(clamp_level(128), 127);
    assert_eq!(clamp_level(i64::MAX), 127);
}

#[test]
fn raw_levels_of_unit_amplitude() {
    let raw = vec![Some(127i64); 64];
    assert_eq!(levels_from_raw(&raw), Ok(vec![127u8; 64]));
}

#[test]
fn raw_levels_are_clamped() {
    let mut raw = vec![Some(50i64); 64];
    raw[0] = Some(400);
    raw[1] = Some(-3);
    raw[2] = Some(i64::MIN);
    let levels = levels_from_raw(&raw).unwrap();
    assert_eq!(levels[0], 127);
    assert_eq!(levels[1], 0);
    assert_eq!(levels[2], 0);
    assert_eq!(levels[3], 50);
    assert_eq!(levels.len(), 64);
}

#[test]
fn raw_levels_fail_on_first_missing() {
    let mut raw = vec![Some(100i64); 64];
    raw[9] = None;
    raw[20] = None;
    assert_eq!(levels_from_raw(&raw), Err(10));
    raw[0] = None;
    assert_eq!(levels_from_raw(&raw), Err(1));
}
