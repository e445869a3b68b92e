use rt_next_week::denoise::{median_filter, DenoiseConfig};

#[test]
fn test_median_removes_spike() {
    let mut data = vec![[100u16; 3]; 9];
    data[4] = [65535, 65535, 65535];
    median_filter(&mut data, 3, 3, 1);
    assert!(data[4][0] < 65535);
}

#[test]
fn test_median_preserves_uniform() {
    let mut data = vec![[500u16, 200u16, 300u16]; 16];
    median_filter(&mut data, 4, 4, 1);
    assert_eq!(data[5][0], 500);
    assert_eq!(data[5][1], 200);
    assert_eq!(data[5][2], 300);
}

#[test]
fn test_median_preserves_size() {
    let mut data = vec![[0u16; 3]; 25];
    let original_len = data.len();
    median_filter(&mut data, 5, 5, 2);
    assert_eq!(data.len(), original_len);
}

#[test]
fn test_median_1x1_no_panic() {
    let mut data = vec![[500u16; 3]];
    median_filter(&mut data, 1, 1, 2);
    assert_eq!(data[0][0], 500);
}

#[test]
fn test_denoise_config_disabled() {
    let cfg = DenoiseConfig::disabled();
    assert!(!cfg.enabled);
}

#[test]
fn test_denoise_config_median() {
    let cfg = DenoiseConfig::median(2);
    assert!(cfg.enabled);
    assert_eq!(cfg.radius, 2);
}

#[test]
fn median_spike_replaced_by_neighbour_value() {
    let mut data = vec![[100u16, 7, 9]; 9];
    data[4] = [65535, 0, 9];
    median_filter(&mut data, 3, 3, 1);
    assert_eq!(data[4], [100, 7, 9]);
    for p in &data {
        assert_eq!(*p, [100, 7, 9]);
    }
}

#[test]
fn median_radius_zero_is_identity() {
    let input: Vec<[u16; 3]> = (0..12u16).map(|i| [i, 100 - i, i * 3]).collect();
    let mut data = input.clone();
    median_filter(&mut data, 4, 3, 0);
    assert_eq!(data, input);
}

#[test]
fn median_uniform_image_is_fixed_point() {
    let mut data = vec![[42u16, 1, 65535]; 35];
    median_filter(&mut data, 7, 5, 3);
    assert!(data.iter().all(|p| *p == [42, 1, 65535]));
}

#[test]
fn median_entries_past_image_are_zeroed() {
    let mut data = vec![[9u16; 3]; 6];
    median_filter(&mut data, 2, 2, 1);
    assert_eq!(&data[..4], &[[9u16; 3]; 4][..]);
    assert_eq!(data[4], [0, 0, 0]);
    assert_eq!(data[5], [0, 0, 0]);
}

#[test]
fn median_clamps_window_at_borders() {
    // 3x1 row: values 10, 20, 90 in the red channel, radius 1.
    // Window at x = 0 (3 rows of the clamped row): 10,10,20 three times -> median 10.
    // Window at x = 2: 20,90,90 three times -> median 90.
    let mut data = vec![[10u16, 0, 0], [20, 0, 0], [90, 0, 0]];
    median_filter(&mut data, 3, 1, 1);
    assert_eq!(data[0][0], 10);
    assert_eq!(data[1][0], 20);
    assert_eq!(data[2][0], 90);
}

#[test]
fn median_channels_are_independent() {
    // Each channel takes its own median: the output pixel need not be an input pixel.
    let mut data = vec![
        [1u16, 9, 5], [2, 8, 5], [3, 7, 5],
        [4, 6, 5], [5, 5, 5], [6, 4, 5],
        [7, 3, 5], [8, 2, 5], [9, 1, 0],
    ];
    median_filter(&mut data, 3, 3, 1);
    assert_eq!(data[4], [5, 5, 5]);
}

#[test]
fn median_empty_image_zeroes_everything() {
    let mut data = vec![[3u16; 3]; 4];
    median_filter(&mut data, 0, 5, 1);
    assert!(data.iter().all(|p| *p == [0, 0, 0]));
}

#[test]
fn median_width_beyond_i32_zeroes_everything() {
    let mut data = vec![[3u16; 3]; 3];
    median_filter(&mut data, 1 << 31, 1, 1);
    assert!(data.iter().all(|p| *p == [0, 0, 0]));
}

#[test]
fn median_filter_is_monotone() {
    let a: Vec<[u16; 3]> = (0..20u16).map(|i| [i * 7 % 13, i, 100 - i]).collect();
    let b: Vec<[u16; 3]> = a.iter().enumerate().map(|(i, p)| [p[0] + (i as u16 % 3), p[1] + 5, p[2]]).collect();
    let mut fa = a.clone();
    let mut fb = b.clone();
    median_filter(&mut fa, 5, 4, 1);
    median_filter(&mut fb, 5, 4, 1);
    for i in 0..20 {
        for c in 0..3 {
            assert!(fa[i][c] <= fb[i][c]);
        }
    }
}

#[test]
fn median_wrapped_radius_zeroes_everything() {
    let mut data = vec![[7u16, 8, 9]; 6];
    median_filter(&mut data, 3, 2, u32::MAX);
    assert!(data.iter().all(|p| *p == [0, 0, 0]));
    let mut data = vec![[7u16, 8, 9]; 4];
    median_filter(&mut data, 2, 2, u32::MAX - 23168);
    assert!(data.iter().all(|p| *p == [0, 0, 0]));
}

#[test]
fn median_zero_height_ignores_width_and_radius() {
    let mut data = vec![[5u16, 6, 7]; 4];
    median_filter(&mut data, i32::MAX as u32, 0, 100);
    assert!(data.iter().all(|p| *p == [0, 0, 0]));
}
