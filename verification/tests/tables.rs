use modplay::engine::lut::{exp2_768, lut_sinc, FACTOR_ONE, FINE_STEPS, HALF_SINE, SEMITONES};
use modplay::engine::message::Message;
use modplay::engine::module::{Effect, Note, VolEffect};
use modplay::engine::player::Interpolation;

#[test]
fn semitone_table_holds_twelfth_roots_of_two() {
    for (a, factor) in SEMITONES.iter().enumerate() {
        let exact = 2f64.powf(a as f64 / 12.0) * FACTOR_ONE as f64;
        assert!((*factor as f64 - exact).abs() <= 1.0, "semitone {}", a);
    }
}

#[test]
fn fine_table_holds_768th_roots_of_two() {
    for (b, factor) in FINE_STEPS.iter().enumerate() {
        let exact = 2f64.powf(b as f64 / 768.0) * FACTOR_ONE as f64;
        assert!((*factor as f64 - exact).abs() <= 1.0, "step {}", b);
    }
}

#[test]
fn sine_table_holds_half_a_period() {
    for (r, value) in HALF_SINE.iter().enumerate() {
        let exact = (std::f64::consts::PI * r as f64 / 64.0).sin() * 65536.0;
        assert!((*value as f64 - exact).abs() <= 0.5, "entry {}", r);
    }
}

#[test]
fn exp2_at_whole_octaves_is_exact() {
    assert_eq!(exp2_768(0), FACTOR_ONE);
    assert_eq!(exp2_768(768), 2 * FACTOR_ONE);
    assert_eq!(exp2_768(-768), FACTOR_ONE / 2);
    assert_eq!(exp2_768(13055 / 768 * 768), FACTOR_ONE << 16);
    assert_eq!(exp2_768(-6144), FACTOR_ONE >> 8);
    assert_eq!(exp2_768(64), SEMITONES[1]);
    assert_eq!(exp2_768(1), FINE_STEPS[1]);
    assert_eq!(exp2_768(-767), FINE_STEPS[1] / 2);
}

#[test]
fn exp2_follows_the_power_of_two() {
    for x in (-6144..=13055).step_by(7) {
        let exact = 2f64.powf(x as f64 / 768.0);
        let got = exp2_768(x) as f64 / FACTOR_ONE as f64;
        assert!((got / exact - 1.0).abs() < 1e-6, "exponent {}: {} against {}", x, got, exact);
    }
}

#[test]
fn sinc_values() {
    assert_eq!(lut_sinc(0), 65536);
    for k in 1..40 {
        assert_eq!(lut_sinc(64 * k), 0);
        assert_eq!(lut_sinc(-64 * k), 0);
    }
    for j in -2200..=2200 {
        let x = j as f64 / 64.0;
        let exact = if j == 0 {
            1.0
        } else {
            (std::f64::consts::PI * x).sin() / (std::f64::consts::PI * x)
        };
        let got = lut_sinc(j) as f64 / 65536.0;
        assert!((got - exact).abs() < 1e-4, "sinc({}/64): {} against {}", j, got, exact);
        assert_eq!(lut_sinc(j), lut_sinc(-j));
    }
    assert_eq!(lut_sinc(i32::MIN), 0);
}

#[test]
fn defaults() {
    assert_eq!(Note::default(), Note::Empty);
    assert_eq!(Effect::default(), Effect::Empty);
    assert_eq!(VolEffect::default(), VolEffect::Empty);
    assert_eq!(Interpolation::default(), Interpolation::Nearest);
    assert_ne!(Message::Stop, Message::Pause);
    assert_ne!(Message::Pause, Message::Resume);
}
