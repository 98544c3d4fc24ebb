use screen_ghost::frame::Image;
use screen_ghost::validate::has_valid_content;

fn filled(width: i32, height: i32, pixel: [u8; 4]) -> Image {
    let n = (width * height) as usize;
    let mut data = Vec::with_capacity(n * 4);
    for _ in 0..n {
        data.extend_from_slice(&pixel);
    }
    Image { width, height, data }
}

#[test]
fn all_zero_frame_rejected() {
    let img = filled(64, 64, [0, 0, 0, 0]);
    assert!(!has_valid_content(&img));
}

#[test]
fn uniform_nonzero_frame_rejected() {
    let img = filled(64, 64, [5, 7, 9, 255]);
    assert!(!has_valid_content(&img));
}

#[test]
fn uniform_white_frame_rejected() {
    let img = filled(32, 16, [255, 255, 255, 255]);
    assert!(!has_valid_content(&img));
}

#[test]
fn two_colors_with_nonzero_accepted() {
    // 8x8: the sample grid visits every pixel; one non-zero pixel differs
    // from the remaining zero ones.
    let mut img = filled(8, 8, [0, 0, 0, 0]);
    img.data[0] = 1;
    img.data[1] = 2;
    img.data[2] = 3;
    img.data[3] = 4;
    assert!(has_valid_content(&img));
}

#[test]
fn varied_frame_accepted() {
    let mut img = filled(100, 50, [10, 20, 30, 255]);
    // change the last pixel, which the grid samples (position 99, 49)
    let n = img.data.len();
    img.data[n - 4] = 200;
    assert!(has_valid_content(&img));
}

#[test]
fn single_pixel_frame_rejected() {
    // every sample lands on the same pixel, so no two samples differ
    let img = filled(1, 1, [9, 9, 9, 9]);
    assert!(!has_valid_content(&img));
}

#[test]
fn empty_frame_rejected() {
    let img = Image { width: 0, height: 0, data: Vec::new() };
    assert!(!has_valid_content(&img));
}

#[test]
fn variation_only_off_grid_rejected() {
    // 15x1: the grid samples columns g*14/7 = even columns only; an odd
    // column differing is never seen.
    let mut img = filled(15, 1, [1, 1, 1, 1]);
    img.data[4] = 99; // column 1, off the sample grid
    assert!(!has_valid_content(&img));
}
