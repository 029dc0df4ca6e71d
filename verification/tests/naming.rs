use tilegrid::naming::tile_file_name;
use tilegrid::naming::u32_to_string;

#[test]
fn renders_zero() {
    assert_eq!(u32_to_string(0), "0");
}

#[test]
fn renders_single_digit() {
    assert_eq!(u32_to_string(7), "7");
}

#[test]
fn renders_multi_digit() {
    assert_eq!(u32_to_string(10), "10");
    assert_eq!(u32_to_string(5093), "5093");
}

#[test]
fn renders_largest_value() {
    assert_eq!(u32_to_string(u32::MAX), "4294967295");
}

#[test]
fn builds_tile_name() {
    assert_eq!(tile_file_name("photo", 2, 13), "photo_2_13.png");
}

#[test]
fn builds_tile_name_for_origin() {
    assert_eq!(tile_file_name("scan", 0, 0), "scan_0_0.png");
}

#[test]
fn keeps_underscores_of_the_stem() {
    assert_eq!(tile_file_name("a_b", 1, 2), "a_b_1_2.png");
}

#[test]
fn same_inputs_same_name() {
    // Names are a pure function of stem and grid position, so a repeated
    // run targets exactly the same files.
    let first = tile_file_name("img", 3, 4);
    let second = tile_file_name("img", 3, 4);
    assert_eq!(first, second);
}
