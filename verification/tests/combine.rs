use mold::combine::{combine, PresentationBuffer};
use mold::config::{DisplaySettings, Rgb};
use mold::field::Field;
use mold::palette::display_table;

const ONE: u32 = 65_536;

fn shown(r: u32, g: u32, b: u32, weight: u32) -> DisplaySettings {
    DisplaySettings { color: Rgb { r, g, b }, weight }
}

fn image_of(display: &Vec<DisplaySettings>, trail: &Field) -> Vec<u8> {
    let mut out = PresentationBuffer::new(trail.width, trail.height);
    for byte in out.pixels.iter_mut() {
        *byte = 0x5a;
    }
    combine(display, trail, &mut out);
    assert_eq!((out.width, out.height), (trail.width, trail.height));
    out.pixels
}

#[test]
fn a_new_buffer_has_four_zero_bytes_per_pixel() {
    let buffer = PresentationBuffer::new(7, 3);
    assert_eq!((buffer.width, buffer.height), (7, 3));
    assert_eq!(buffer.pixels, vec![0u8; 84]);
    assert!(PresentationBuffer::new(0, 9).pixels.is_empty());
}

#[test]
fn an_empty_trail_is_black_and_opaque() {
    let trail = Field::new(3, 2, 2);
    let image = image_of(&display_table(2), &trail);
    assert_eq!(image.len(), 24);
    for pixel in image.chunks(4) {
        assert_eq!(pixel, [0, 0, 0, 255]);
    }
}

#[test]
fn one_species_shows_in_its_colour() {
    let mut trail = Field::new(2, 2, 1);
    trail.put(0, 0, 0, ONE);
    trail.put(1, 0, 0, ONE / 2);
    trail.put(0, 1, 0, ONE / 4);
    trail.put(1, 1, 0, 40 * ONE);
    let image = image_of(&vec![shown(ONE, 0, ONE / 2, ONE)], &trail);
    assert_eq!(
        image,
        vec![
            255, 0, 127, 255, // 1.0
            127, 0, 63, 255, // 0.5
            63, 0, 31, 255, // 0.25
            255, 0, 255, 255, // 40, held to the display range
        ]
    );
}

#[test]
fn species_add_up_by_colour_and_weight() {
    let mut trail = Field::new(1, 1, 3);
    trail.put(0, 0, 0, ONE / 2);
    trail.put(0, 0, 1, ONE / 4);
    trail.put(0, 0, 2, ONE);
    let display = vec![
        shown(ONE, 0, 0, ONE),
        shown(0, ONE, 0, 2 * ONE),
        shown(ONE / 4, ONE / 4, ONE, ONE / 2),
    ];
    // red: 0.5 + 0.125 = 0.625, green: 0.5 + 0.125 = 0.625, blue: 0.5
    assert_eq!(image_of(&display, &trail), vec![159, 159, 127, 255]);
}

#[test]
fn a_weight_of_zero_hides_a_species() {
    let mut trail = Field::new(1, 1, 2);
    trail.put(0, 0, 0, u32::MAX);
    trail.put(0, 0, 1, ONE / 2);
    let display = vec![shown(ONE, ONE, ONE, 0), shown(0, 0, ONE, ONE)];
    assert_eq!(image_of(&display, &trail), vec![0, 0, 127, 255]);
}

#[test]
fn the_largest_values_do_not_overflow() {
    let mut trail = Field::new(1, 1, 4);
    for layer in 0..4 {
        trail.put(0, 0, layer, u32::MAX);
    }
    let display = vec![shown(u32::MAX, u32::MAX, 0, u32::MAX); 4];
    assert_eq!(image_of(&display, &trail), vec![255, 255, 0, 255]);
}

#[test]
fn pixels_are_stored_row_by_row() {
    let mut trail = Field::new(3, 2, 1);
    trail.put(2, 0, 0, ONE);
    trail.put(0, 1, 0, ONE / 2);
    let image = image_of(&vec![shown(ONE, ONE, ONE, ONE)], &trail);
    let expected: Vec<u8> = vec![
        0, 0, 0, 255, 0, 0, 0, 255, 255, 255, 255, 255, // row 0
        127, 127, 127, 255, 0, 0, 0, 255, 0, 0, 0, 255, // row 1
    ];
    assert_eq!(image, expected);
}

#[test]
fn combining_twice_gives_the_same_bytes() {
    let mut trail = Field::new(16, 9, 8);
    let mut seed: u32 = 12_345;
    for cell in trail.cells.iter_mut() {
        seed = seed.wrapping_mul(1_664_525).wrapping_add(1_013_904_223);
        *cell = seed % (3 * ONE);
    }
    let display = display_table(8);
    let first = image_of(&display, &trail);
    let second = image_of(&display, &trail);
    assert_eq!(first, second);
    assert_eq!(first.len(), 16 * 9 * 4);
    assert!(first.chunks(4).all(|p| p[3] == 255));
    assert!(first.chunks(4).any(|p| p[0] != 0 || p[1] != 0 || p[2] != 0));
}
