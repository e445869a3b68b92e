use rt_next_week::gpu::{driver_report, gpu_status, GpuStatus, ProbeError};
use rand::rngs::SmallRng;
use rand::SeedableRng;
use rt_next_week::color_io::scale_10bit_to_16bit;
use rt_next_week::pdf::Pdf;
use rt_next_week::rng::pick_index;
use rt_next_week::texture::{checker_is_even, image_texel_offset};

#[test]
fn scale_10bit_endpoints_and_midpoint() {
    assert_eq!(scale_10bit_to_16bit(0), 0);
    assert_eq!(scale_10bit_to_16bit(1023), 65535);
    assert_eq!(scale_10bit_to_16bit(512), 32799);
    for v in 0..1024u16 {
        assert_eq!(scale_10bit_to_16bit(v), (v as f64 * (65535.0 / 1023.0)) as u16);
    }
}

#[test]
fn checker_parity() {
    assert!(checker_is_even(0, 0, 0));
    assert!(!checker_is_even(-1, 0, 0));
    assert!(checker_is_even(-1, -1, 0));
    assert!(!checker_is_even(3, 4, 6));
}

#[test]
fn texel_offsets_clamped_to_image() {
    assert_eq!(image_texel_offset(0, 0, 4, 2), 0);
    assert_eq!(image_texel_offset(1, 1, 4, 2), 15);
    assert_eq!(image_texel_offset(4, 2, 4, 2), 21);
    assert_eq!(image_texel_offset(100, 0, 4, 2), 9);
}

#[test]
fn pick_index_in_range() {
    let mut rng = SmallRng::seed_from_u64(3);
    assert_eq!(pick_index(&mut rng, 0), None);
    let mut seen = [false; 5];
    for _ in 0..200 {
        let i = pick_index(&mut rng, 5).unwrap();
        assert!(i < 5);
        seen[i] = true;
    }
    assert!(seen.iter().all(|&s| s));
}

#[test]
fn pdf_constructors() {
    let s: Pdf<u8> = Pdf::sphere();
    assert!(matches!(s, Pdf::Sphere));
    let m = Pdf::mixture(Pdf::sphere(), Pdf::Cosine(5u8));
    match m.clone() {
        Pdf::Mixture(a, b) => {
            assert!(matches!(*a, Pdf::Sphere));
            assert!(matches!(*b, Pdf::Cosine(5)));
        }
        _ => panic!("expected a mixture"),
    }
}

#[test]
fn driver_report_steps() {
    let r = driver_report(100, 12040, Some(1), true, true, Some((8, 6)), Some(1 << 30));
    assert!(!r.available);
    assert_eq!(r.error, Some(ProbeError::InitFailed));
    assert_eq!(r.driver_version, None);

    let r = driver_report(0, 12040, None, true, true, None, None);
    assert_eq!(r.error, Some(ProbeError::DeviceCountFailed));
    assert_eq!(r.driver_version, Some((12, 4)));
    assert!(!r.available);

    let r = driver_report(0, 12040, Some(0), true, true, None, None);
    assert_eq!(r.error, Some(ProbeError::NoDevices));

    let r = driver_report(0, 12040, Some(2), false, true, None, None);
    assert_eq!(r.error, Some(ProbeError::DeviceGetFailed));
    assert!(!r.available);

    let r = driver_report(0, 12040, Some(2), true, false, None, None);
    assert_eq!(r.error, Some(ProbeError::NameFailed));
    assert!(r.available);
    assert_eq!(r.vram_mb, None);
}

#[test]
fn driver_report_success() {
    let r = driver_report(0, 12040, Some(2), true, true, Some((8, 6)), Some(8 * 1024 * 1024 * 1024 + 5));
    assert!(r.available);
    assert_eq!(r.error, None);
    assert_eq!(r.driver_version, Some((12, 4)));
    assert_eq!(r.compute_capability, Some((8, 6)));
    assert_eq!(r.vram_mb, Some(8192));
    assert_eq!(r.device_count, Some(2));
    assert!(!r.driver_too_old);
    assert!(!r.cc_below_turing);

    let r = driver_report(0, 11080, Some(1), true, true, Some((7, 0)), None);
    assert_eq!(r.driver_version, Some((11, 8)));
    assert!(r.driver_too_old);
    assert!(r.cc_below_turing);
    assert_eq!(r.vram_mb, None);

    let r = driver_report(0, 12000, Some(1), true, true, Some((7, 5)), None);
    assert!(!r.driver_too_old);
    assert!(!r.cc_below_turing);

    let r = driver_report(0, -1500, Some(1), true, true, None, None);
    assert_eq!(r.driver_version, Some((-1, -50)));
    assert!(!r.cc_below_turing);
}

#[test]
fn gpu_status_cases() {
    assert_eq!(gpu_status(true, true), GpuStatus::Available);
    assert_eq!(gpu_status(false, true), GpuStatus::Available);
    assert_eq!(gpu_status(true, false), GpuStatus::NoOptix);
    assert_eq!(gpu_status(false, false), GpuStatus::NoCudaDriver);
}
