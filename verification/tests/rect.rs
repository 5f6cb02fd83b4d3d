use berry_art::compose::debug_print_pixels;
use berry_art::pixel::{RenderError, SetPixelRequest};
use berry_art::rect::{check_rect, internal_render_rect};

#[test]
pub fn test_rect_small() {
    let pixels = internal_render_rect(1, 1, 2, 1, 0xffffff).unwrap();
    let board = debug_print_pixels(&pixels).unwrap();
    assert_eq!(&board[0][..15], "...............", "Line 0");
    assert_eq!(&board[1][..15], ".XX............", "Line 1");
    assert_eq!(&board[2][..15], "...............", "Line 2");
}

#[test]
pub fn test_rect_complex() {
    let pixels = internal_render_rect(3, 5, 4, 4, 0xffffff).unwrap();
    let board = debug_print_pixels(&pixels).unwrap();
    assert_eq!(&board[0][..15], "...............", "Line 0");
    assert_eq!(&board[1][..15], "...............", "Line 1");
    assert_eq!(&board[2][..15], "...............", "Line 2");
    assert_eq!(&board[3][..15], "...............", "Line 3");
    assert_eq!(&board[4][..15], "...............", "Line 4");
    assert_eq!(&board[5][..15], "...XXXX........", "Line 5");
    assert_eq!(&board[6][..15], "...XXXX........", "Line 6");
    assert_eq!(&board[7][..15], "...XXXX........", "Line 7");
    assert_eq!(&board[8][..15], "...XXXX........", "Line 8");
    assert_eq!(&board[9][..15], "...............", "Line 9");
    assert_eq!(pixels.len(), 4 * 4);
}

#[test]
fn rect_of_two_cells_writes_them_left_to_right() {
    let pixels = internal_render_rect(1, 1, 2, 1, 0xffffff).unwrap();
    assert_eq!(
        pixels,
        vec![
            SetPixelRequest { x: 1, y: 1, color: 0xffffff },
            SetPixelRequest { x: 2, y: 1, color: 0xffffff },
        ]
    );
}

#[test]
fn rect_runs_down_each_column_before_the_next() {
    let pixels = internal_render_rect(10, 20, 2, 3, 0x123456).unwrap();
    let cells: Vec<(u32, u32)> = pixels.iter().map(|p| (p.x, p.y)).collect();
    assert_eq!(cells, vec![(10, 20), (10, 21), (10, 22), (11, 20), (11, 21), (11, 22)]);
}

#[test]
fn rect_has_one_write_per_cell_inside_the_box_in_one_color() {
    let (left, top, width, height, color) = (7u32, 40u32, 13u32, 10u32, 0x00ff00u32);
    let pixels = internal_render_rect(left, top, width, height, color).unwrap();
    assert_eq!(pixels.len() as u32, width * height);
    for p in &pixels {
        assert!(left <= p.x && p.x < left + width);
        assert!(top <= p.y && p.y < top + height);
        assert_eq!(p.color, color);
    }
    for x in left..left + width {
        for y in top..top + height {
            assert_eq!(pixels.iter().filter(|p| p.x == x && p.y == y).count(), 1);
        }
    }
}

#[test]
fn rect_may_cover_the_whole_canvas() {
    let pixels = internal_render_rect(0, 0, 50, 50, 0).unwrap();
    assert_eq!(pixels.len(), 2500);
    assert_eq!(pixels[0], SetPixelRequest { x: 0, y: 0, color: 0 });
    assert_eq!(pixels[2499], SetPixelRequest { x: 49, y: 49, color: 0 });
}

#[test]
fn rect_refuses_what_leaves_the_canvas() {
    assert_eq!(internal_render_rect(50, 0, 1, 1, 0), Err(RenderError::InvalidInput));
    assert_eq!(internal_render_rect(0, 50, 1, 1, 0), Err(RenderError::InvalidInput));
    assert_eq!(internal_render_rect(0, 0, 0, 1, 0), Err(RenderError::InvalidInput));
    assert_eq!(internal_render_rect(0, 0, 1, 0, 0), Err(RenderError::InvalidInput));
    assert_eq!(internal_render_rect(0, 0, 51, 1, 0), Err(RenderError::InvalidInput));
    assert_eq!(internal_render_rect(0, 0, 1, 51, 0), Err(RenderError::InvalidInput));
    assert_eq!(internal_render_rect(49, 0, 2, 1, 0), Err(RenderError::InvalidInput));
    assert_eq!(internal_render_rect(0, 49, 1, 2, 0), Err(RenderError::InvalidInput));
    assert_eq!(internal_render_rect(0, 0, 1, 1, 0x1000000), Err(RenderError::InvalidInput));
    assert_eq!(
        internal_render_rect(u32::MAX, u32::MAX, u32::MAX, u32::MAX, u32::MAX),
        Err(RenderError::InvalidInput)
    );
}

#[test]
fn check_rect_agrees_with_the_renderer() {
    assert!(check_rect(49, 49, 1, 1));
    assert!(check_rect(0, 0, 50, 50));
    assert!(!check_rect(49, 49, 2, 1));
    assert!(!check_rect(0, 0, 0, 0));
}
