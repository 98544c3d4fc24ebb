use screen_ghost::frame::downscale_image_bgra;
use screen_ghost::frame::pack_pitched_rows;
use screen_ghost::frame::Image;
use screen_ghost::scale::Ratio;

#[test]
fn pack_strips_row_pitch() {
    // two rows of 2 pixels (8 bytes), with 4 bytes of pitch padding each
    let mut src = Vec::new();
    src.extend_from_slice(&[1, 2, 3, 4, 5, 6, 7, 8]);
    src.extend_from_slice(&[0xAA, 0xAA, 0xAA, 0xAA]); // padding
    src.extend_from_slice(&[9, 10, 11, 12, 13, 14, 15, 16]);
    src.extend_from_slice(&[0xBB, 0xBB, 0xBB, 0xBB]); // padding
    let frame = pack_pitched_rows(&src, 12, 2, 2);
    assert_eq!(frame.width, 2);
    assert_eq!(frame.height, 2);
    assert_eq!(frame.data.len(), 2 * 2 * 4, "BGRA invariant");
    assert_eq!(
        frame.data,
        vec![1, 2, 3, 4, 5, 6, 7, 8, 9, 10, 11, 12, 13, 14, 15, 16],
    );
}

#[test]
fn pack_tight_pitch_copies_everything() {
    let src: Vec<u8> = (0u8..16).collect();
    let frame = pack_pitched_rows(&src, 8, 2, 2);
    assert_eq!(frame.data, src);
}

#[test]
fn downscale_half_keeps_top_left_pixels() {
    // 2x2 down to 1x1: the single pixel comes from the source origin
    let img = Image {
        width: 2,
        height: 2,
        data: vec![1, 2, 3, 4, 5, 6, 7, 8, 9, 10, 11, 12, 13, 14, 15, 16],
    };
    let small = downscale_image_bgra(&img, Ratio::new(1, 2));
    assert_eq!(small.width, 1);
    assert_eq!(small.height, 1);
    assert_eq!(small.data, vec![1, 2, 3, 4]);
}

#[test]
fn downscale_four_to_two_samples_even_pixels() {
    // 4x1 down to 2x1: destination pixels read source columns 0 and 2
    let img = Image {
        width: 4,
        height: 1,
        data: vec![
            10, 11, 12, 13, //
            20, 21, 22, 23, //
            30, 31, 32, 33, //
            40, 41, 42, 43,
        ],
    };
    let small = downscale_image_bgra(&img, Ratio::new(1, 2));
    assert_eq!((small.width, small.height), (2, 1));
    assert_eq!(small.data, vec![10, 11, 12, 13, 30, 31, 32, 33]);
}

#[test]
fn downscale_keeps_bgra_invariant() {
    let img = Image { width: 31, height: 17, data: vec![7; 31 * 17 * 4] };
    let small = downscale_image_bgra(&img, Ratio::new(3, 10));
    // 31 * 0.3 = 9.3 -> 9, 17 * 0.3 = 5.1 -> 5
    assert_eq!((small.width, small.height), (9, 5));
    assert_eq!(small.data.len(), (small.width * small.height * 4) as usize);
}

#[test]
fn downscale_never_collapses_to_zero() {
    let img = Image { width: 2, height: 2, data: vec![3; 16] };
    let small = downscale_image_bgra(&img, Ratio::new(1, 10));
    assert_eq!((small.width, small.height), (1, 1));
}
