use mold::dispatch::{div_ceil, LAYERS_PER_TEXTURE, WORKGROUP_SIZE};

#[test]
fn group_count_for_full_width() {
    assert_eq!(div_ceil(1080, WORKGROUP_SIZE), 34);
}

#[test]
fn group_count_rounds_up_only_on_a_remainder() {
    assert_eq!(div_ceil(0, 32), 0);
    assert_eq!(div_ceil(1, 32), 1);
    assert_eq!(div_ceil(32, 32), 1);
    assert_eq!(div_ceil(33, 32), 2);
    assert_eq!(div_ceil(64, 32), 2);
    assert_eq!(div_ceil(500_000, 32), 15_625);
    assert_eq!(div_ceil(u32::MAX, 1), u32::MAX);
    assert_eq!(div_ceil(8, LAYERS_PER_TEXTURE), 2);
    assert_eq!(div_ceil(5, LAYERS_PER_TEXTURE), 2);
}
