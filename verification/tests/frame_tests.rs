use holo::frame::{resize_nearest, Bitmap};

#[test]
fn from_raw_checks_the_length() {
    assert!(Bitmap::from_raw(2, 2, vec![0u8; 12]).is_some());
    assert!(Bitmap::from_raw(2, 2, vec![0u8; 11]).is_none());
    assert!(Bitmap::from_raw(2, 2, vec![0u8; 13]).is_none());
    assert!(Bitmap::from_raw(0, 5, Vec::new()).is_some());
}

#[test]
fn resize_to_same_size_keeps_pixels() {
    let data = vec![1u8, 2, 3, 4, 5, 6, 7, 8, 9, 10, 11, 12];
    let img = Bitmap::from_raw(2, 2, data.clone()).unwrap();
    let out = resize_nearest(&img, 2, 2);
    assert_eq!(out.width, 2);
    assert_eq!(out.height, 2);
    assert_eq!(out.data, data);
}

#[test]
fn upscale_replicates_the_single_pixel() {
    let img = Bitmap::from_raw(1, 1, vec![10u8, 20, 30]).unwrap();
    let out = resize_nearest(&img, 3, 3);
    assert_eq!(out.width, 3);
    assert_eq!(out.height, 3);
    assert_eq!(out.data.len(), 27);
    for p in 0..9 {
        assert_eq!(&out.data[3 * p..3 * p + 3], &[10, 20, 30]);
    }
}

#[test]
fn downscale_samples_nearest_neighbor() {
    // A 4x1 strip of distinct pixels halved: columns 0 and 2 survive
    // (x * 4 / 2 = 2 * x).
    let data = vec![0u8, 0, 0, 1, 1, 1, 2, 2, 2, 3, 3, 3];
    let img = Bitmap::from_raw(4, 1, data).unwrap();
    let out = resize_nearest(&img, 2, 1);
    assert_eq!(out.data, vec![0u8, 0, 0, 2, 2, 2]);
}

#[test]
fn resize_red_source_stays_red() {
    let mut data = Vec::new();
    for _ in 0..100 * 50 {
        data.extend_from_slice(&[255u8, 0, 0]);
    }
    let img = Bitmap::from_raw(100, 50, data).unwrap();
    let out = resize_nearest(&img, 240, 240);
    assert_eq!(out.width, 240);
    assert_eq!(out.height, 240);
    assert_eq!(out.data.len(), 3 * 240 * 240);
    for p in 0..240 * 240 {
        assert_eq!(&out.data[3 * p..3 * p + 3], &[255, 0, 0]);
    }
}
