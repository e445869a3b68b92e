use rt_next_week::camera::{resolve_image_height, row_seed, stratified_side, GOLDEN_RATIO_U64};

#[test]
fn row_seed_of_first_row_is_the_seed() {
    assert_eq!(row_seed(42, 0), 42);
}

#[test]
fn row_seed_wraps_modulo_two_to_the_64() {
    assert_eq!(row_seed(42, 1), 42u64.wrapping_add(GOLDEN_RATIO_U64));
    assert_eq!(row_seed(u64::MAX, 1), GOLDEN_RATIO_U64 - 1);
    assert_eq!(row_seed(0, 2), GOLDEN_RATIO_U64.wrapping_mul(2));
}

#[test]
fn row_seeds_differ_between_rows() {
    let seeds: Vec<u64> = (0..1000u64).map(|j| row_seed(7, j)).collect();
    let mut sorted = seeds.clone();
    sorted.sort_unstable();
    sorted.dedup();
    assert_eq!(sorted.len(), seeds.len());
}

#[test]
fn stratified_side_is_integer_square_root() {
    assert_eq!(stratified_side(400), 20);
    assert_eq!(stratified_side(10), 3);
    assert_eq!(stratified_side(4), 2);
    assert_eq!(stratified_side(3), 1);
    assert_eq!(stratified_side(1), 1);
    assert_eq!(stratified_side(0), 0);
    assert_eq!(stratified_side(u32::MAX), 65535);
    for n in 0..5000u32 {
        assert_eq!(stratified_side(n), (n as f64).sqrt() as u32);
    }
}

#[test]
fn test_height_derived_from_aspect_ratio() {
    let derived = (800u32 as f64 / (4.0 / 3.0)) as u32;
    assert_eq!(resolve_image_height(0, derived), 600);
}

#[test]
fn test_explicit_height_overrides_aspect_ratio() {
    assert_eq!(resolve_image_height(2160, 3840), 2160);
}

#[test]
fn test_height_clamped_to_minimum() {
    let derived = (100u32 as f64 / 1000.0) as u32;
    assert_eq!(resolve_image_height(0, derived), 1);
}

#[test]
fn test_4k_resolution() {
    let width: u32 = 3840;
    let height = resolve_image_height(2160, (width as f64 / (16.0 / 9.0)) as u32);
    assert_eq!(width, 3840);
    assert_eq!(height, 2160);
}
