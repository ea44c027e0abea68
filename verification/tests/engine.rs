use eq_layer::engine::{Biquad, Equalizer, History, ParametricEq, QuadBiquad};
use eq_layer::eq::{EqProfile, Filter, FilterType};

type Coeffs = [f32; 5];

fn kernel(c: &Coeffs, x: f32, x1: f32, x2: f32, y1: f32, y2: f32) -> f32 {
    c[0] * x + c[1] * x1 + c[2] * x2 - c[3] * y1 - c[4] * y2
}

fn scale(gain: f32, x: f32) -> f32 {
    gain * x
}

fn value(text: &[u8]) -> f32 {
    std::str::from_utf8(text).unwrap().parse().unwrap()
}

fn low_pass(frequency: f32, q: f32, sample_rate: f32) -> Coeffs {
    let omega = 2.0 * std::f32::consts::PI * frequency / sample_rate;
    let (sin, cos) = omega.sin_cos();
    let alpha = sin / (2.0 * q);
    let a0 = 1.0 + alpha;
    [
        (1.0 - cos) / 2.0 / a0,
        (1.0 - cos) / a0,
        (1.0 - cos) / 2.0 / a0,
        -2.0 * cos / a0,
        (1.0 - alpha) / a0,
    ]
}

fn coefficients(band: &Filter) -> Coeffs {
    match band.filter_type {
        FilterType::LowPass => low_pass(value(band.frequency.as_bytes()), value(band.q_factor.as_bytes()), 48000.0),
        _ => [value(band.gain.as_bytes()), 0.0, 0.0, 0.0, 0.0],
    }
}

fn level_db(engine: &mut Equalizer<Coeffs, f32>, frequency: f32) -> f32 {
    let mut peak = 0.0f32;
    for n in 0..48000 {
        let x = (2.0 * std::f32::consts::PI * frequency * n as f32 / 48000.0).sin();
        let y = engine.process_sample(x, &scale, &kernel);
        if n >= 24000 {
            peak = peak.max(y.abs());
        }
    }
    20.0 * peak.log10()
}

#[test]
fn a_unit_shifts_its_history() {
    let mut unit: Biquad<Coeffs, f32> = Biquad::new([1.0, 2.0, 3.0, 4.0, 5.0], 0.0);
    assert_eq!(unit.history, History { x1: 0.0, x2: 0.0, y1: 0.0, y2: 0.0 });
    assert_eq!(unit.process(1.0, &kernel), 1.0);
    assert_eq!(unit.history, History { x1: 1.0, x2: 0.0, y1: 1.0, y2: 0.0 });
    assert_eq!(unit.process(10.0, &kernel), 10.0 + 2.0 - 4.0);
    assert_eq!(unit.history, History { x1: 10.0, x2: 1.0, y1: 8.0, y2: 1.0 });
    assert_eq!(unit.process(100.0, &kernel), 100.0 + 20.0 + 3.0 - 32.0 - 5.0);
    assert_eq!(unit.history, History { x1: 100.0, x2: 10.0, y1: 86.0, y2: 8.0 });
    assert_eq!(unit.coeffs, [1.0, 2.0, 3.0, 4.0, 5.0]);
}

#[test]
fn the_scalar_engine_makes_a_unit_of_each_enabled_band() {
    let text = "Filter 1: ON PK Gain 2\n\
                Filter 2: OFF PK Gain 3\n\
                Filter 3: ON NO Gain 5\n\
                Filter 4: ON AP Gain 7\n\
                Filter 5: ON HSC Gain 11\n";
    let profile = EqProfile::from_str(text).unwrap();
    let mut engine: Equalizer<Coeffs, f32> = Equalizer::from_profile(&profile, 0.5, 0.0, &coefficients);
    assert_eq!(engine.len(), 3);
    assert_eq!(engine.process_sample(1.0, &scale, &kernel), 0.5 * 2.0 * 7.0 * 11.0);
    assert_eq!(engine.process_sample(-2.0, &scale, &kernel), -2.0 * 0.5 * 2.0 * 7.0 * 11.0);
}

#[test]
fn an_engine_without_units_applies_the_gain_only() {
    let mut engine: Equalizer<Coeffs, f32> =
        Equalizer::from_profile(&EqProfile::default(), 0.25, 0.0, &coefficients);
    assert_eq!(engine.len(), 0);
    assert_eq!(engine.process_sample(8.0, &scale, &kernel), 2.0);
}

#[test]
fn each_unit_takes_the_output_of_the_unit_before_it() {
    let first = |_: &Filter| -> Coeffs { [0.0, 1.0, 0.0, 0.0, 0.0] };
    let profile = EqProfile::from_str("Filter 1: ON PK\nFilter 2: ON PK\n").unwrap();
    let mut engine: Equalizer<Coeffs, f32> = Equalizer::from_profile(&profile, 1.0, 0.0, &first);
    let out: Vec<f32> =
        [1.0, 2.0, 3.0, 4.0].iter().map(|x| engine.process_sample(*x, &scale, &kernel)).collect();
    assert_eq!(out, vec![0.0, 0.0, 1.0, 2.0]);
}

#[test]
fn a_low_pass_band_passes_low_and_damps_high_frequencies() {
    let profile = EqProfile::from_str("Filter 1: ON LP Fc 1000 Hz Q 0.707\n").unwrap();
    let mut engine: Equalizer<Coeffs, f32> = Equalizer::from_profile(&profile, 1.0, 0.0, &coefficients);
    let low = level_db(&mut engine, 100.0);
    assert!(low.abs() <= 0.5, "{}", low);
    let mut engine: Equalizer<Coeffs, f32> = Equalizer::from_profile(&profile, 1.0, 0.0, &coefficients);
    let high = level_db(&mut engine, 2000.0);
    assert!(high <= -3.0, "{}", high);
}

#[test]
fn the_vectorized_engine_makes_a_unit_of_each_enabled_band() {
    let text = "Filter 1: ON PK Gain 2\n\
                Filter 2: OFF PK Gain 3\n\
                Filter 3: ON AP Gain 7\n\
                Filter 4: ON LSC Gain 11\n";
    let profile = EqProfile::from_str(text).unwrap();
    let mut engine: ParametricEq<Coeffs, f32> =
        ParametricEq::from_profile(&profile, 0.5, 0.0, &coefficients);
    assert_eq!(engine.len(), 2);
    let mut data = [1.0, 2.0, 3.0, 4.0, 5.0, 6.0];
    engine.process_buffer(&mut data, &scale, &kernel);
    assert_eq!(data, [11.0, 22.0, 33.0, 44.0, 55.0, 66.0]);
}

#[test]
fn the_vectorized_engine_applies_the_gain_before_the_units() {
    let profile = EqProfile::from_str("Preamp: -20.0 dB\n").unwrap();
    let gain = 10.0f32.powf(value(profile.preamp_db.as_bytes()) / 20.0);
    let mut engine: ParametricEq<Coeffs, f32> =
        ParametricEq::from_profile(&profile, gain, 0.0, &coefficients);
    assert_eq!(engine.len(), 0);
    let mut data = [1.0, -1.0, 0.5, 0.0];
    engine.process_buffer(&mut data, &scale, &kernel);
    for (got, expected) in data.iter().zip([0.1, -0.1, 0.05, 0.0]) {
        assert!((got - expected).abs() <= 1e-6, "{} {}", got, expected);
    }
    let mut scalar: Equalizer<Coeffs, f32> =
        Equalizer::from_profile(&profile, gain, 0.0, &coefficients);
    for (x, got) in [1.0, -1.0, 0.5, 0.0].iter().zip(data) {
        assert_eq!(scalar.process_sample(*x, &scale, &kernel), got);
    }
}

#[test]
fn the_gain_stays_when_units_are_added_and_changed() {
    let mut engine: ParametricEq<Coeffs, f32> = ParametricEq::new(3.0);
    engine.add_band([2.0, 0.0, 0.0, 0.0, 0.0], 0.0);
    engine.update_band(0, [5.0, 0.0, 0.0, 0.0, 0.0]);
    let mut data = [1.0, 2.0, 3.0, 4.0, 5.0];
    engine.process_buffer(&mut data, &scale, &kernel);
    assert_eq!(data, [15.0, 30.0, 45.0, 60.0, 75.0]);
    assert_eq!(engine.process_lane(1, 1.0, &scale, &kernel), 15.0);
    assert_eq!(engine.len(), 1);
}

#[test]
fn the_lanes_have_their_own_histories() {
    let mut engine: ParametricEq<Coeffs, f32> = ParametricEq::new(1.0);
    engine.add_band([0.0, 1.0, 0.0, 0.0, 0.0], 0.0);
    let mut data = [1.0, 2.0, 3.0, 4.0, 5.0, 6.0, 7.0, 8.0, 9.0, 10.0];
    engine.process_buffer(&mut data, &scale, &kernel);
    assert_eq!(data, [0.0, 0.0, 0.0, 0.0, 1.0, 2.0, 3.0, 4.0, 5.0, 6.0]);
    let mut more = [11.0, 12.0, 13.0];
    engine.process_buffer(&mut more, &scale, &kernel);
    assert_eq!(more, [9.0, 10.0, 7.0]);
    let mut none: [f32; 0] = [];
    engine.process_buffer(&mut none, &scale, &kernel);
}

#[test]
fn each_lane_gives_what_the_scalar_engine_gives() {
    let profile =
        EqProfile::from_str("Filter 1: ON LP Fc 1000 Hz Q 0.707\nFilter 2: ON LP Fc 300 Hz Q 2\n")
            .unwrap();
    let mut scalar: Equalizer<Coeffs, f32> = Equalizer::from_profile(&profile, 0.25, 0.0, &coefficients);
    let mut vector: ParametricEq<Coeffs, f32> =
        ParametricEq::from_profile(&profile, 0.25, 0.0, &coefficients);
    let samples: Vec<f32> = (0..97).map(|n| ((n * 37 % 19) as f32 - 9.0) / 10.0).collect();
    let expected: Vec<f32> =
        samples.iter().map(|x| scalar.process_sample(*x, &scale, &kernel)).collect();
    let mut data: Vec<f32> = Vec::new();
    for x in &samples {
        data.extend_from_slice(&[*x; 4]);
    }
    let head = &mut data[..4 * 50 + 2];
    vector.process_buffer(head, &scale, &kernel);
    for (n, y) in expected.iter().enumerate().take(50) {
        for lane in 0..4 {
            assert_eq!(head[4 * n + lane], *y);
        }
    }
    assert_eq!(head[200], expected[50]);
    assert_eq!(head[201], expected[50]);
    assert_eq!(vector.process_lane(2, samples[50], &scale, &kernel), expected[50]);
    assert_eq!(vector.process_lane(3, samples[50], &scale, &kernel), expected[50]);
    let tail = &mut data[4 * 51..];
    vector.process_buffer(tail, &scale, &kernel);
    for (n, y) in expected.iter().enumerate().skip(51) {
        for lane in 0..4 {
            assert_eq!(tail[4 * (n - 51) + lane], *y);
        }
    }
}

#[test]
fn new_coefficients_keep_the_history() {
    let mut engine: ParametricEq<Coeffs, f32> = ParametricEq::new(1.0);
    engine.add_band([1.0, 0.0, 0.0, 0.0, 0.0], 0.0);
    engine.add_band([1.0, 0.0, 0.0, 0.0, 0.0], 0.0);
    assert_eq!(engine.len(), 2);
    let mut data = [1.0, 2.0, 3.0, 4.0];
    engine.process_buffer(&mut data, &scale, &kernel);
    assert_eq!(data, [1.0, 2.0, 3.0, 4.0]);
    engine.update_band(1, [0.0, 1.0, 0.0, 0.0, 0.0]);
    engine.update_band(2, [9.0, 9.0, 9.0, 9.0, 9.0]);
    assert_eq!(engine.len(), 2);
    let mut data = [5.0, 6.0, 7.0, 8.0];
    engine.process_buffer(&mut data, &scale, &kernel);
    assert_eq!(data, [1.0, 2.0, 3.0, 4.0]);
}

#[test]
fn a_unit_of_four_lanes() {
    let mut unit: QuadBiquad<Coeffs, f32> = QuadBiquad::new([1.0, 1.0, 0.0, 0.0, 0.0], 0.0);
    assert_eq!(unit.process_lane(2, 3.0, &kernel), 3.0);
    assert_eq!(unit.process_lane(2, 4.0, &kernel), 7.0);
    assert_eq!(unit.process_lane(0, 4.0, &kernel), 4.0);
    assert_eq!(unit.lanes[2], History { x1: 4.0, x2: 3.0, y1: 7.0, y2: 3.0 });
    assert_eq!(unit.lanes[1], History { x1: 0.0, x2: 0.0, y1: 0.0, y2: 0.0 });
    unit.update_coeffs([2.0, 0.0, 0.0, 0.0, 0.0]);
    assert_eq!(unit.lanes[2], History { x1: 4.0, x2: 3.0, y1: 7.0, y2: 3.0 });
    assert_eq!(unit.process_lane(2, 1.0, &kernel), 2.0);
}
