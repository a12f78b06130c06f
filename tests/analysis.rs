use interpol::config::{ConfigError, Detection, PitchConfig};
use interpol::notes::{nearest_reference, standard_guitar_tuning};
use interpol::peak::{bin_frequency_mhz, peak_bin, search_band_end};
use realfft::RealFftPlanner;

fn key(m: f32) -> u32 {
    if m.is_nan() {
        0
    } else {
        m.to_bits()
    }
}

fn hann(samples: &mut [f32]) {
    let n = samples.len();
    for (i, s) in samples.iter_mut().enumerate() {
        *s *= 0.5 * (1.0 - (std::f32::consts::TAU * i as f32 / n as f32).cos());
    }
}

#[test]
fn single_nonzero_bin_is_the_peak() {
    for k in [1usize, 7, 42, 99] {
        let mut keys = vec![0u32; 100];
        keys[k] = key(0.25);
        assert_eq!(peak_bin(&keys, 100), k);
    }
}

#[test]
fn peak_ties_go_to_the_first() {
    let keys = vec![key(1.0), key(3.0), key(2.0), key(3.0), key(0.5)];
    assert_eq!(peak_bin(&keys, 5), 1);
}

#[test]
fn silent_spectrum_gives_bin_zero() {
    let keys = vec![0u32; 64];
    assert_eq!(peak_bin(&keys, 64), 0);
    assert_eq!(peak_bin(&keys, 0), 0);
    assert_eq!(peak_bin(&Vec::new(), 10), 0);
}

#[test]
fn peak_search_stays_within_the_band() {
    let keys = vec![key(0.1), key(2.0), key(0.3), key(9.0)];
    assert_eq!(peak_bin(&keys, 3), 1);
    assert_eq!(peak_bin(&keys, 4), 3);
    assert_eq!(peak_bin(&keys, 1000), 3);
}

#[test]
fn band_end_scales_with_oversampling() {
    assert_eq!(search_band_end(48_000, 960_000, 500), 10_000);
    assert_eq!(search_band_end(48_000, 480_000, 500), 5_000);
    assert_eq!(search_band_end(44_100, 44_100, 500), 500);
    assert_eq!(search_band_end(48_000, 1_000, 30_000), 501);
    assert_eq!(search_band_end(48_000, 1_000, 0), 0);
}

#[test]
fn bin_frequency_in_millihertz() {
    assert_eq!(bin_frequency_mhz(824, 48_000, 480_000), 82_400);
    assert_eq!(bin_frequency_mhz(1, 48_000, 7), 6_857_142);
    assert_eq!(bin_frequency_mhz(0, 48_000, 480_000), 0);
}

#[test]
fn guitar_table_is_standard_tuning() {
    assert_eq!(
        standard_guitar_tuning(),
        vec![82_410, 110_000, 146_830, 196_000, 246_940, 329_630]
    );
}

#[test]
fn exact_table_frequency_matches_its_entry() {
    let table = standard_guitar_tuning();
    // 110 Hz is bin 1100 of a 480000-point transform at 48 kHz.
    assert_eq!(nearest_reference(&table, 1100, 48_000, 480_000), 1);
    // 82.41 Hz is bin 8241 of a 4800000-point transform at 48 kHz.
    assert_eq!(nearest_reference(&table, 8241, 48_000, 4_800_000), 0);
    // 329.63 Hz.
    assert_eq!(nearest_reference(&table, 32_963, 48_000, 4_800_000), 5);
}

#[test]
fn nearest_reference_uses_linear_distance() {
    let table = standard_guitar_tuning();
    // 164.82 Hz, one octave above low E, lies nearer to D (146.83 Hz).
    assert_eq!(nearest_reference(&table, 16_482, 48_000, 4_800_000), 2);
    // 400 Hz is nearest to high E.
    assert_eq!(nearest_reference(&table, 4_000, 48_000, 480_000), 5);
    // 1 Hz is nearest to low E.
    assert_eq!(nearest_reference(&table, 10, 48_000, 480_000), 0);
}

#[test]
fn nearest_reference_ties_go_to_the_first() {
    let table = vec![100_000u64, 200_000, 200_000];
    // 150 Hz is 50 Hz from both of the first two entries.
    assert_eq!(nearest_reference(&table, 1_500, 48_000, 480_000), 0);
    // 250 Hz is nearest to the two equal entries; the first wins.
    assert_eq!(nearest_reference(&table, 2_500, 48_000, 480_000), 1);
}

#[test]
fn configuration_is_validated() {
    let t = standard_guitar_tuning;
    assert!(PitchConfig::new(48_000, 48_000, 960_000, 500, 500, t()).is_ok());
    let bad = [
        PitchConfig::new(0, 48_000, 960_000, 500, 500, t()),
        PitchConfig::new(48_000, 0, 960_000, 500, 500, t()),
        PitchConfig::new(48_000, 48_000, 960_000, 0, 500, t()),
        PitchConfig::new(48_000, 48_000, 960_000, 48_000, 500, t()),
        PitchConfig::new(48_000, 48_000, 47_999, 500, 500, t()),
        PitchConfig::new(48_000, 48_000, 960_000, 500, 500, Vec::new()),
    ];
    for r in bad {
        assert_eq!(r.err(), Some(ConfigError::InvalidConfiguration));
    }
}

#[test]
fn configuration_keeps_its_parameters() {
    let c = PitchConfig::new(44_100, 4_096, 16_384, 512, 800, vec![440_000]).unwrap();
    assert_eq!(c.sample_rate(), 44_100);
    assert_eq!(c.window_size(), 4_096);
    assert_eq!(c.transform_size(), 16_384);
    assert_eq!(c.hop_size(), 512);
    assert_eq!(c.max_hz(), 800);
    assert_eq!(c.references(), &vec![440_000u64]);
}

#[test]
fn silence_is_no_pitch() {
    let c = PitchConfig::new(48_000, 1_000, 480_000, 500, 500, standard_guitar_tuning()).unwrap();
    let keys = vec![0u32; 240_001];
    assert_eq!(c.estimate(&keys), Detection::NoPitch);
}

#[test]
fn estimate_on_a_synthetic_spectrum() {
    let c = PitchConfig::new(48_000, 1_000, 480_000, 500, 500, standard_guitar_tuning()).unwrap();
    let mut keys = vec![0u32; 240_001];
    keys[1_960] = key(3.0);
    assert_eq!(c.estimate(&keys), Detection::Pitch { bin: 1_960, note: 3 });
    // A stronger bin above 500 Hz lies outside the band.
    keys[6_000] = key(10.0);
    assert_eq!(c.estimate(&keys), Detection::Pitch { bin: 1_960, note: 3 });
}

#[test]
fn sinusoid_at_low_e_matches_the_lowest_string() {
    const FS: usize = 48_000;
    const LENGTH: usize = 1_000;
    const TRANSFORM: usize = 480_000;
    let c = PitchConfig::new(FS as u32, LENGTH, TRANSFORM, 500, 500, standard_guitar_tuning())
        .unwrap();

    let mut planner = RealFftPlanner::<f32>::new();
    let r2c = planner.plan_fft_forward(TRANSFORM);
    let mut input = r2c.make_input_vec();
    for (t, v) in input[..LENGTH].iter_mut().enumerate() {
        *v = (std::f32::consts::TAU * 82.4 * t as f32 / FS as f32).sin();
    }
    hann(&mut input[..LENGTH]);
    let mut spectrum = r2c.make_output_vec();
    r2c.process(&mut input, &mut spectrum).unwrap();
    let keys: Vec<u32> = spectrum.iter().map(|z| key(z.norm())).collect();

    match c.estimate(&keys) {
        Detection::Pitch { bin, note } => {
            assert_eq!(note, 0);
            let freq = bin as f64 * FS as f64 / TRANSFORM as f64;
            let cents = 1200.0 * (freq / 82.41).log2();
            assert!(cents.abs() < 10.0, "cents {}", cents);
        }
        Detection::NoPitch => panic!("no pitch found"),
    }
}

#[test]
fn sinusoid_peak_lies_at_its_bin() {
    const FS: usize = 48_000;
    const LENGTH: usize = 4_800;
    const TRANSFORM: usize = 192_000;
    let mut planner = RealFftPlanner::<f32>::new();
    let r2c = planner.plan_fft_forward(TRANSFORM);
    let mut input = r2c.make_input_vec();
    for (t, v) in input[..LENGTH].iter_mut().enumerate() {
        *v = (std::f32::consts::TAU * 440.0 * t as f32 / FS as f32).sin();
    }
    hann(&mut input[..LENGTH]);
    let mut spectrum = r2c.make_output_vec();
    r2c.process(&mut input, &mut spectrum).unwrap();
    let keys: Vec<u32> = spectrum.iter().map(|z| key(z.norm())).collect();
    let end = search_band_end(FS as u32, TRANSFORM, 500);
    assert_eq!(end, 2_000);
    let bin = peak_bin(&keys, end);
    // round(440 * 192000 / 48000) = 1760
    assert!((1_759..=1_761).contains(&bin), "bin {}", bin);
}
