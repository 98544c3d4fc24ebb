use screen_ghost::mask::mosaic_from_rect;
use screen_ghost::mask::Mosaic;
use screen_ghost::rect::Rect;
use screen_ghost::scale::map_region_back;
use screen_ghost::scale::round_div_u64;
use screen_ghost::scale::Ratio;

#[test]
fn round_div_exact_values() {
    assert_eq!(round_div_u64(10, 2), 5);
    assert_eq!(round_div_u64(3, 2), 2, "1.5 rounds up");
    assert_eq!(round_div_u64(1, 2), 1, "0.5 rounds up");
    assert_eq!(round_div_u64(1, 3), 0);
    assert_eq!(round_div_u64(2, 3), 1);
    assert_eq!(round_div_u64(0, 7), 0);
}

#[test]
fn map_back_half_ratio() {
    let detected = Rect::new(100, 100, 40, 40);
    let mapped = map_region_back(&detected, Ratio::new(1, 2));
    assert_eq!(mapped, Rect::new(200, 200, 80, 80));
}

#[test]
fn map_back_rounds_to_nearest() {
    // ratio 3/10: coordinates divide by 0.3
    let detected = Rect::new(100, 1, 0, 2);
    let mapped = map_region_back(&detected, Ratio::new(3, 10));
    assert_eq!(mapped.x, 333); // 333.33 rounds down
    assert_eq!(mapped.y, 3); // 3.33 rounds down
    assert_eq!(mapped.width, 0);
    assert_eq!(mapped.height, 7); // 6.67 rounds up
}

#[test]
fn map_back_identity_ratio() {
    let detected = Rect::new(12, 34, 56, 78);
    let mapped = map_region_back(&detected, Ratio::new(1, 1));
    assert_eq!(mapped, detected);
}

#[test]
fn mosaic_enlarges_about_center() {
    // scale 1.2: width 40 -> 48, the near edge moves out by 4
    let m = mosaic_from_rect(&Rect::new(100, 100, 40, 40), Ratio::new(12, 10));
    assert_eq!(m, Mosaic { x: 96, y: 96, width: 48, height: 48 });
    // centre is preserved exactly: 2*96 + 48 == 2*100 + 40
    assert_eq!(2 * m.x + m.width, 2 * 100 + 40);
    assert_eq!(2 * m.y + m.height, 2 * 100 + 40);
}

#[test]
fn mosaic_identity_scale() {
    let m = mosaic_from_rect(&Rect::new(5, 6, 7, 8), Ratio::new(1, 1));
    assert_eq!(m, Mosaic { x: 5, y: 6, width: 7, height: 8 });
}

#[test]
fn mosaic_shrinking_scale_keeps_center() {
    let m = mosaic_from_rect(&Rect::new(100, 100, 40, 40), Ratio::new(1, 2));
    assert_eq!(m, Mosaic { x: 110, y: 110, width: 20, height: 20 });
    assert_eq!(2 * m.x + m.width, 2 * 100 + 40);
}

#[test]
fn mosaic_center_within_half_pixel() {
    // odd growth: width 5 at scale 1.4 -> 7, shift rounds; centre moves by
    // at most half a pixel (one unit in doubled coordinates)
    let r = Rect::new(10, 20, 5, 9);
    let m = mosaic_from_rect(&r, Ratio::new(14, 10));
    assert_eq!(m.width, 7);
    assert_eq!(m.height, 13); // 12.6 rounds up
    let dx = (2 * m.x + m.width) - (2 * r.x + r.width);
    let dy = (2 * m.y + m.height) - (2 * r.y + r.height);
    assert!(dx.abs() <= 1, "centre moved by {dx}/2 pixels");
    assert!(dy.abs() <= 1, "centre moved by {dy}/2 pixels");
}
