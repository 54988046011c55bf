use mold::config::Rgb;
use mold::palette::{display_table, rgb, FIRST_HUE};

const ONE: u32 = 65_536;

#[test]
fn the_six_corners_of_the_wheel() {
    assert_eq!(rgb(0), Rgb { r: ONE, g: 0, b: 0 });
    assert_eq!(rgb(ONE / 2), Rgb { r: 0, g: ONE, b: ONE });
    assert_eq!(rgb(10_922), Rgb { r: ONE, g: 65_532, b: 0 });
    assert_eq!(rgb(10_923), Rgb { r: 65_534, g: ONE, b: 0 });
    assert_eq!(rgb(21_845), Rgb { r: 2, g: ONE, b: 0 });
    assert_eq!(rgb(21_846), Rgb { r: 0, g: ONE, b: 4 });
    assert_eq!(rgb(ONE - 1), Rgb { r: ONE, g: 0, b: 6 });
}

#[test]
fn whole_turns_of_hue_are_dropped() {
    assert_eq!(rgb(ONE), rgb(0));
    assert_eq!(rgb(ONE + 13_107), rgb(13_107));
    assert_eq!(rgb(3 * ONE + 40_000), rgb(40_000));
    assert_eq!(rgb(u32::MAX), rgb(ONE - 1));
}

#[test]
fn every_hue_is_fully_saturated_and_bright() {
    let mut hue: u32 = 0;
    while hue < 2 * ONE {
        let c = rgb(hue);
        assert!(c.r <= ONE && c.g <= ONE && c.b <= ONE);
        assert!(c.r == ONE || c.g == ONE || c.b == ONE);
        assert!(c.r == 0 || c.g == 0 || c.b == 0);
        hue += 97;
    }
}

#[test]
fn the_first_hue_is_a_fifth_of_the_wheel() {
    assert_eq!(FIRST_HUE, 13_107);
    // a hue of 0.2 lies in the second sixth, with red at 0.8
    assert_eq!(rgb(FIRST_HUE), Rgb { r: 52_430, g: ONE, b: 0 });
}

#[test]
fn eight_species_cycle_once_round_the_wheel() {
    let table = display_table(8);
    let expected = [
        Rgb { r: 52_430, g: ONE, b: 0 },
        Rgb { r: 3_278, g: ONE, b: 0 },
        Rgb { r: 0, g: ONE, b: 45_874 },
        Rgb { r: 0, g: 36_046, b: ONE },
        Rgb { r: 13_106, g: 0, b: ONE },
        Rgb { r: 62_258, g: 0, b: ONE },
        Rgb { r: ONE, g: 0, b: 19_662 },
        Rgb { r: ONE, g: 29_490, b: 0 },
    ];
    assert_eq!(table.len(), 8);
    for i in 0..8 {
        assert_eq!(table[i].color, expected[i]);
        assert_eq!(table[i].weight, ONE);
    }
}

#[test]
fn a_single_species_has_the_first_hue() {
    let table = display_table(1);
    assert_eq!(table.len(), 1);
    assert_eq!(table[0].color, rgb(FIRST_HUE));
    assert!(display_table(0).is_empty());
}
