use berry_art::compose::debug_print_pixels;
use berry_art::invert::{internal_invert_rect, invert_color};
use berry_art::pixel::{RenderError, SetPixelRequest};
use berry_art::{BOARD_HEIGHT, BOARD_WIDTH};

fn apply(board: &mut Vec<Vec<u32>>, pixels: &[SetPixelRequest]) {
    for p in pixels {
        board[p.y as usize][p.x as usize] = p.color;
    }
}

#[test]
pub fn test_invert_rect() {
    // Red map
    let input_board = vec![vec![0xff0000u32; BOARD_WIDTH as usize]; BOARD_WIDTH as usize];
    let pixels = internal_invert_rect(input_board, 4, 2, 3, 4).unwrap();
    let board = debug_print_pixels(&pixels).unwrap();
    assert_eq!(&board[0][..15], "...............");
    assert_eq!(&board[1][..15], "...............");
    assert_eq!(&board[2][..15], "....XXX........");
    assert_eq!(&board[3][..15], "....XXX........");
    assert_eq!(&board[4][..15], "....XXX........");
    assert_eq!(&board[5][..15], "....XXX........");
    assert_eq!(&board[6][..15], "...............");
    assert_eq!(pixels.len(), 12);
    assert!(
        pixels.iter().all(|p| p.color == 0x00ffff),
        "Colors are invalid"
    );
}

#[test]
fn invert_runs_along_each_row_before_the_next() {
    let mut board = vec![vec![0u32; 50]; 50];
    for y in 0..50 {
        for x in 0..50 {
            board[y][x] = (y * 50 + x) as u32;
        }
    }
    let pixels = internal_invert_rect(board, 4, 2, 3, 2).unwrap();
    assert_eq!(
        pixels,
        vec![
            SetPixelRequest { x: 4, y: 2, color: 0xffffff - 104 },
            SetPixelRequest { x: 5, y: 2, color: 0xffffff - 105 },
            SetPixelRequest { x: 6, y: 2, color: 0xffffff - 106 },
            SetPixelRequest { x: 4, y: 3, color: 0xffffff - 154 },
            SetPixelRequest { x: 5, y: 3, color: 0xffffff - 155 },
            SetPixelRequest { x: 6, y: 3, color: 0xffffff - 156 },
        ]
    );
}

#[test]
fn invert_color_is_the_distance_from_white() {
    assert_eq!(invert_color(0), 0xffffff);
    assert_eq!(invert_color(0xffffff), 0);
    assert_eq!(invert_color(0xff0000), 0x00ffff);
    assert_eq!(invert_color(0x123456), 0xedcba9);
}

#[test]
fn invert_color_takes_what_is_no_color_for_white() {
    assert_eq!(invert_color(0x1000000), 0);
    assert_eq!(invert_color(0xfffffff), 0);
    assert_eq!(invert_color(u32::MAX), 0);
}

#[test]
fn inverting_twice_gives_the_board_back() {
    let color = 0x336699u32;
    let start = vec![vec![color; 50]; 50];
    let mut board = start.clone();
    let first = internal_invert_rect(board.clone(), 4, 2, 30, 40).unwrap();
    assert!(first.iter().all(|p| p.color == 0xffffff - color));
    apply(&mut board, &first);
    assert_ne!(board, start);
    let second = internal_invert_rect(board.clone(), 4, 2, 30, 40).unwrap();
    assert!(second.iter().all(|p| p.color == color));
    apply(&mut board, &second);
    assert_eq!(board, start);
}

#[test]
fn inverting_twice_gives_a_board_of_many_colors_back() {
    let mut start = vec![vec![0u32; 50]; 50];
    for y in 0..50 {
        for x in 0..50 {
            start[y][x] = ((y * 50 + x) * 6007 % 0x1000000) as u32;
        }
    }
    let mut board = start.clone();
    let first = internal_invert_rect(board.clone(), 0, 0, 50, 50).unwrap();
    apply(&mut board, &first);
    let second = internal_invert_rect(board.clone(), 0, 0, 50, 50).unwrap();
    apply(&mut board, &second);
    assert_eq!(board, start);
}

#[test]
fn invert_refuses_what_leaves_the_canvas() {
    let board = vec![vec![0u32; 50]; 50];
    assert_eq!(internal_invert_rect(board.clone(), 50, 0, 1, 1), Err(RenderError::InvalidInput));
    assert_eq!(internal_invert_rect(board.clone(), 0, 50, 1, 1), Err(RenderError::InvalidInput));
    assert_eq!(internal_invert_rect(board.clone(), 0, 0, 0, 1), Err(RenderError::InvalidInput));
    assert_eq!(internal_invert_rect(board.clone(), 0, 0, 1, 0), Err(RenderError::InvalidInput));
    assert_eq!(internal_invert_rect(board.clone(), 48, 0, 3, 1), Err(RenderError::InvalidInput));
    assert_eq!(internal_invert_rect(board.clone(), 0, 48, 1, 3), Err(RenderError::InvalidInput));
    assert!(internal_invert_rect(board, 48, 48, 2, 2).is_ok());
}

#[test]
fn invert_refuses_a_board_that_does_not_cover_the_canvas() {
    let short = vec![vec![0u32; 50]; 49];
    assert_eq!(internal_invert_rect(short, 0, 0, 1, 1), Err(RenderError::InvalidInput));
    let mut narrow = vec![vec![0u32; 50]; BOARD_HEIGHT as usize];
    narrow[49].pop();
    assert_eq!(internal_invert_rect(narrow, 0, 0, 1, 1), Err(RenderError::InvalidInput));
    assert_eq!(internal_invert_rect(vec![], 0, 0, 1, 1), Err(RenderError::InvalidInput));
}
