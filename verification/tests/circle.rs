use berry_art::circle::{band_test, internal_render_circle};
use berry_art::compose::debug_print_pixels;
use berry_art::pixel::{RenderError, SetPixelRequest};

#[test]
pub fn test_circle_small() {
    let pixels = internal_render_circle(4, 5, 3, 0xffffff).unwrap();
    let board = debug_print_pixels(&pixels).unwrap();
    assert_eq!(&board[0][..15], "...............");
    assert_eq!(&board[1][..15], "...............");
    assert_eq!(&board[2][..15], "...XXX.........");
    assert_eq!(&board[3][..15], "..X...X........");
    assert_eq!(&board[4][..15], ".X.....X.......");
    assert_eq!(&board[5][..15], ".X.....X.......");
    assert_eq!(&board[6][..15], ".X.....X.......");
    assert_eq!(&board[7][..15], "..X...X........");
    assert_eq!(&board[8][..15], "...XXX.........");
    assert_eq!(&board[9][..15], "...............");
}

#[test]
fn circle_writes_its_ring_row_by_row() {
    let pixels = internal_render_circle(4, 5, 3, 0xffffff).unwrap();
    let cells: Vec<(u32, u32)> = pixels.iter().map(|p| (p.x, p.y)).collect();
    assert_eq!(
        cells,
        vec![
            (3, 2), (4, 2), (5, 2), (2, 3), (6, 3), (1, 4), (7, 4), (1, 5), (7, 5), (1, 6),
            (7, 6), (2, 7), (6, 7), (3, 8), (4, 8), (5, 8),
        ]
    );
    assert!(pixels.iter().all(|p| p.color == 0xffffff));
}

#[test]
fn circle_of_radius_zero_is_its_center() {
    let pixels = internal_render_circle(4, 5, 0, 0x0000ff).unwrap();
    assert_eq!(pixels, vec![SetPixelRequest { x: 4, y: 5, color: 0x0000ff }]);
}

#[test]
fn circle_of_radius_one_holds_its_center_too() {
    let pixels = internal_render_circle(10, 10, 1, 1).unwrap();
    let cells: Vec<(u32, u32)> = pixels.iter().map(|p| (p.x, p.y)).collect();
    assert_eq!(
        cells,
        vec![(9, 9), (10, 9), (11, 9), (9, 10), (10, 10), (11, 10), (9, 11), (10, 11), (11, 11)]
    );
}

#[test]
fn circle_is_clipped_to_the_canvas() {
    let cells = |cx: i32, cy: i32, r: u32| -> Vec<(u32, u32)> {
        internal_render_circle(cx, cy, r, 0).unwrap().iter().map(|p| (p.x, p.y)).collect()
    };
    assert_eq!(cells(-3, 0, 3), vec![(0, 0), (0, 1)]);
    assert_eq!(cells(49, 49, 2), vec![(48, 47), (49, 47), (47, 48), (48, 48), (47, 49)]);
    assert_eq!(cells(60, 60, 3), vec![]);
    assert_eq!(cells(25, 25, 100), vec![]);
    assert_eq!(cells(-5, 25, 2), vec![]);
}

#[test]
fn circle_takes_the_widest_arguments() {
    assert_eq!(internal_render_circle(i32::MIN, i32::MAX, u32::MAX, 0).unwrap(), vec![]);
    assert_eq!(internal_render_circle(i32::MAX, i32::MIN, u32::MAX, 0).unwrap(), vec![]);
    assert_eq!(internal_render_circle(i32::MIN, i32::MIN, 0, 0).unwrap(), vec![]);
}

#[test]
fn every_cell_of_a_circle_passes_the_band_test_and_no_other_does() {
    let (cx, cy, r) = (20i32, 22i32, 15u32);
    let pixels = internal_render_circle(cx, cy, r, 0xff0000).unwrap();
    for p in &pixels {
        assert!(p.x < 50 && p.y < 50);
        let d2 = (p.x as i64 - cx as i64).pow(2) + (p.y as i64 - cy as i64).pow(2);
        let r = r as i64;
        assert!(r * r - r <= d2 && d2 <= r * r + r);
    }
    for y in 0..50u32 {
        for x in 0..50u32 {
            let written = pixels.iter().filter(|p| p.x == x && p.y == y).count();
            assert_eq!(written, if band_test(cx, cy, r, x, y) { 1 } else { 0 });
        }
    }
}

#[test]
fn band_test_compares_the_squared_distance() {
    // radius 3: 6 <= d2 <= 12
    assert!(!band_test(4, 5, 3, 4, 5));
    assert!(!band_test(4, 5, 3, 6, 6));
    assert!(band_test(4, 5, 3, 6, 7));
    assert!(band_test(4, 5, 3, 4, 2));
    assert!(band_test(4, 5, 3, 2, 7));
    assert!(!band_test(4, 5, 3, 1, 2));
}

#[test]
fn circle_refuses_a_color_above_24_bits() {
    assert_eq!(internal_render_circle(4, 5, 3, 0x1000000), Err(RenderError::InvalidInput));
    assert!(internal_render_circle(4, 5, 3, 0xffffff).is_ok());
}
