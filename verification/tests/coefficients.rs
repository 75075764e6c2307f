use biquad::coefficients::{
    band_pass_coefficients, high_pass_coefficients, low_pass_coefficients, normalize,
    BiquadCoefficients, Phasor, Section,
};

fn phasor(sample_rate: f64, frequency: f64) -> Phasor<f64> {
    let w0 = 2.0 * std::f64::consts::PI * frequency / sample_rate;
    Phasor { cos: w0.cos(), sin: w0.sin() }
}

fn close(a: f64, b: f64) -> bool {
    (a - b).abs() <= 1e-12
}

#[test]
fn normalize_divides_each_coefficient_by_a0() {
    let c = normalize(Section { b0: 1.0f64, b1: 2.0, b2: 3.0, a0: 4.0, a1: 5.0, a2: 6.0 });
    assert_eq!(c.b0, 0.25);
    assert_eq!(c.b1, 0.5);
    assert_eq!(c.b2, 0.75);
    assert_eq!(c.a1, 1.25);
    assert_eq!(c.a2, 1.5);
}

#[test]
fn low_pass_exact_values() {
    let c = low_pass_coefficients(Phasor { cos: 0.5f64, sin: 0.25 });
    assert_eq!(c.b0, 0.2);
    assert_eq!(c.b1, 0.4);
    assert_eq!(c.b2, 0.2);
    assert_eq!(c.a1, -0.8);
    assert_eq!(c.a2, 0.6);
}

#[test]
fn high_pass_exact_values() {
    let c = high_pass_coefficients(Phasor { cos: 0.5f64, sin: 0.25 });
    assert_eq!(c.b0, 0.6);
    assert_eq!(c.b1, -1.2);
    assert_eq!(c.b2, 0.6);
    assert_eq!(c.a1, -0.8);
    assert_eq!(c.a2, 0.6);
}

#[test]
fn band_pass_exact_values() {
    // alpha = 0.5 * 1.5 / 2 * 2 / 3 = 0.25
    let c = band_pass_coefficients(Phasor { cos: 0.5f64, sin: 0.5 }, 1.5, 3.0, 2.0);
    assert_eq!(c.b0, 0.2);
    assert_eq!(c.b1, 0.0);
    assert_eq!(c.b2, -0.2);
    assert_eq!(c.a1, -0.8);
    assert_eq!(c.a2, 0.6);
}

#[test]
fn low_pass_in_single_precision() {
    let c = low_pass_coefficients(Phasor { cos: 0.5f32, sin: 0.25 });
    assert_eq!(c.b0, 0.2f32);
    assert_eq!(c.b1, 0.4f32);
    assert_eq!(c.b2, 0.2f32);
    assert_eq!(c.a1, -0.8f32);
    assert_eq!(c.a2, 0.6f32);
}

#[test]
fn low_pass_matches_cookbook_formulas() {
    let (sample_rate, cutoff) = (44100.0f64, 1000.0f64);
    let p = phasor(sample_rate, cutoff);
    let c = low_pass_coefficients(p);
    let a0 = 1.0 + p.sin;
    assert!(close(c.b0, (1.0 - p.cos) / 2.0 / a0));
    assert!(close(c.b1, (1.0 - p.cos) / a0));
    assert!(close(c.b2, (1.0 - p.cos) / 2.0 / a0));
    assert!(close(c.a1, -2.0 * p.cos / a0));
    assert!(close(c.a2, (1.0 - p.sin) / a0));
}

#[test]
fn high_pass_matches_cookbook_formulas() {
    let p = phasor(48000.0, 5000.0);
    let c = high_pass_coefficients(p);
    let a0 = 1.0 + p.sin;
    assert!(close(c.b0, (1.0 + p.cos) / 2.0 / a0));
    assert!(close(c.b1, -(1.0 + p.cos) / a0));
    assert!(close(c.b2, (1.0 + p.cos) / 2.0 / a0));
    assert!(close(c.a1, -2.0 * p.cos / a0));
    assert!(close(c.a2, (1.0 - p.sin) / a0));
}

#[test]
fn band_pass_matches_cookbook_formulas() {
    let (sample_rate, center, bandwidth) = (44100.0f64, 2000.0f64, 500.0f64);
    let p = phasor(sample_rate, center);
    let c = band_pass_coefficients(p, std::f64::consts::SQRT_2, center, bandwidth);
    let alpha = p.sin * std::f64::consts::SQRT_2 / 2.0 * bandwidth / center;
    let a0 = 1.0 + alpha;
    assert_eq!(c.b0, p.sin / 2.0 / a0);
    assert_eq!(c.b1, 0.0);
    assert_eq!(c.b2, -p.sin / 2.0 / a0);
    assert_eq!(c.a1, -2.0 * p.cos / a0);
    assert_eq!(c.a2, (1.0 - alpha) / a0);
}

#[test]
fn normalized_coefficients_keep_the_ratios_of_the_section() {
    let p = phasor(44100.0, 1000.0);
    let c = low_pass_coefficients(p);
    let a0 = 1.0 + p.sin;
    // multiplying back by a0 recovers the unnormalized section
    assert!(close(c.b0 * a0, (1.0 - p.cos) / 2.0));
    assert!(close(c.b1 * a0, 1.0 - p.cos));
    assert!(close(c.b2 * a0, (1.0 - p.cos) / 2.0));
    assert!(close(c.a1 * a0, -2.0 * p.cos));
    assert!(close(c.a2 * a0, 1.0 - p.sin));
    assert!(close(c.b1 / c.b0, 2.0));
    assert_eq!(c.b0, c.b2);
}

#[test]
fn low_pass_has_unit_gain_at_dc_and_high_pass_none() {
    let p = phasor(44100.0, 1000.0);
    let lp = low_pass_coefficients(p);
    let hp = high_pass_coefficients(p);
    assert!(close((lp.b0 + lp.b1 + lp.b2) / (1.0 + lp.a1 + lp.a2), 1.0));
    assert!(close(hp.b0 + hp.b1 + hp.b2, 0.0));
}

#[test]
fn derivation_is_repeatable() {
    let p = phasor(44100.0, 1234.5);
    let c: BiquadCoefficients<f64> = low_pass_coefficients(p);
    let d: BiquadCoefficients<f64> = low_pass_coefficients(p);
    assert_eq!(c.b0.to_bits(), d.b0.to_bits());
    assert_eq!(c.b1.to_bits(), d.b1.to_bits());
    assert_eq!(c.b2.to_bits(), d.b2.to_bits());
    assert_eq!(c.a1.to_bits(), d.a1.to_bits());
    assert_eq!(c.a2.to_bits(), d.a2.to_bits());
}

#[test]
fn cutoff_at_nyquist_gives_ordinary_numbers() {
    // w0 = π: cos = -1, sin = 0
    let c = low_pass_coefficients(Phasor { cos: -1.0f64, sin: 0.0 });
    assert_eq!(c.b0, 1.0);
    assert_eq!(c.b1, 2.0);
    assert_eq!(c.b2, 1.0);
    assert_eq!(c.a1, 2.0);
    assert_eq!(c.a2, 1.0);
}

#[test]
fn vanishing_denominator_gives_infinities_not_a_failure() {
    // sin = -1 makes a0 = 0
    let c = low_pass_coefficients(Phasor { cos: 0.0f64, sin: -1.0 });
    assert!(c.b0.is_infinite());
    assert!(c.b1.is_infinite());
    assert!(c.a2.is_infinite());
    assert!(c.a1.is_nan());
}

#[test]
fn not_a_number_propagates_through_derivation() {
    let c = high_pass_coefficients(Phasor { cos: f64::NAN, sin: 0.5 });
    assert!(c.b0.is_nan());
    assert!(c.b1.is_nan());
    assert!(c.a1.is_nan());
    assert_eq!(c.a2, 0.5 / 1.5);
}
