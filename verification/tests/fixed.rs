use mold::fixed::{isqrt, scale, ONE};
use mold::trig::{cos, sin, HALF_TURN, QUARTER_TURN};

#[test]
fn one_is_the_unit_of_the_product() {
    assert_eq!(ONE, 65_536);
    assert_eq!(scale(ONE, 12_345), 12_345);
    assert_eq!(scale(12_345, ONE), 12_345);
    assert_eq!(scale(0, u32::MAX), 0);
}

#[test]
fn products_round_down() {
    // 0.5 * 0.02 = 0.01, a little under 656 units
    assert_eq!(scale(32_768, 1_311), 655);
    // 4 * 0.02
    assert_eq!(scale(262_144, 1_311), 5_244);
    // 15 * 0.02 = 0.3 cells
    assert_eq!(scale(983_040, 1_311), 19_665);
    assert_eq!(scale(1, 65_535), 0);
    assert_eq!(scale(3, 65_535), 2);
    assert_eq!(scale(u32::MAX, u32::MAX), 0xffff_fffe_0000);
}

#[test]
fn square_roots_round_down() {
    assert_eq!(isqrt(0), 0);
    assert_eq!(isqrt(1), 1);
    assert_eq!(isqrt(3), 1);
    assert_eq!(isqrt(4), 2);
    assert_eq!(isqrt(99), 9);
    assert_eq!(isqrt(100), 10);
    assert_eq!(isqrt(1 << 32), 65_536);
    assert_eq!(isqrt((1 << 32) - 1), 65_535);
    assert_eq!(isqrt(u64::MAX), 0xffff_ffff);
    assert_eq!(isqrt(16_384 * 65_536), 32_768);
}

#[test]
fn sine_and_cosine_at_the_quarter_turns() {
    assert_eq!((sin(0), cos(0)), (0, 65_536));
    assert_eq!((sin(QUARTER_TURN), cos(QUARTER_TURN)), (65_536, 0));
    assert_eq!((sin(HALF_TURN), cos(HALF_TURN)), (0, -65_536));
    assert_eq!((sin(3 * QUARTER_TURN), cos(3 * QUARTER_TURN)), (-65_536, 0));
}

#[test]
fn sine_and_cosine_between_the_quarter_turns() {
    assert_eq!((sin(8_192), cos(8_192)), (46_260, 46_260));
    assert_eq!((sin(5_461), cos(5_461)), (32_766, 56_680));
    assert_eq!((sin(1_000), cos(1_000)), (6_355, 65_231));
    assert_eq!((sin(60_000), cos(60_000)), (-33_170, 56_442));
}

#[test]
fn whole_turns_of_an_angle_are_dropped() {
    assert_eq!(sin(ONE + 8_192), sin(8_192));
    assert_eq!(cos(7 * ONE + 60_000), cos(60_000));
    assert_eq!(sin(u32::MAX), sin(ONE - 1));
    assert_eq!(cos(u32::MAX), cos(ONE - 1));
}

#[test]
fn sine_and_cosine_stay_close_to_the_true_values() {
    let mut worst: f64 = 0.0;
    let mut angle: u32 = 0;
    while angle < ONE {
        let turn: f64 = 2.0 * std::f64::consts::PI * (angle as f64) / 65_536.0;
        let s = sin(angle) as f64 / 65_536.0;
        let c = cos(angle) as f64 / 65_536.0;
        assert!((-1.0..=1.0).contains(&s) && (-1.0..=1.0).contains(&c));
        worst = worst.max((s - turn.sin()).abs()).max((c - turn.cos()).abs());
        angle += 1;
    }
    assert!(worst < 0.002, "worst error {}", worst);
}

#[test]
fn half_a_turn_flips_the_sign() {
    let mut angle: u32 = 1;
    while angle < HALF_TURN {
        assert_eq!(sin(angle + HALF_TURN), -sin(angle));
        assert_eq!(cos(angle + HALF_TURN), -cos(angle));
        angle += 131;
    }
}
