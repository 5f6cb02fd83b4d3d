use berry_art::compose::DedupPolicy;
use berry_art::contract::Contract;
use berry_art::pixel::{RenderError, SetPixelRequest};
use berry_art::shake::{internal_pixel_shake, random_stream, row_offset};
use near_sdk::borsh::BorshSerialize;
use near_sdk::{MockedBlockchain, RuntimeFeesConfig, VMConfig, VMContext};

fn board() -> Vec<Vec<u32>> {
    (0..50u32).map(|y| (0..50u32).map(|x| (y * 50 + x) * 3 % 1000).collect()).collect()
}

fn snapshot(board: &Vec<Vec<u32>>) -> Vec<Vec<u8>> {
    board
        .iter()
        .map(|row| row.iter().map(|c| (*c, 0u32)).collect::<Vec<(u32, u32)>>().try_to_vec().unwrap())
        .collect()
}

fn expected_offset(distance: u64, byte: u8) -> u32 {
    (50 + (byte as i64 % (2 * distance as i64 + 1)) - distance as i64).rem_euclid(50) as u32
}

fn host_sha256(seed: &[u8]) -> Vec<u8> {
    let context = VMContext {
        current_account_id: "art.testnet".to_string(),
        signer_account_id: "alice.testnet".to_string(),
        signer_account_pk: vec![0, 1, 2],
        predecessor_account_id: "alice.testnet".to_string(),
        input: vec![],
        block_index: 0,
        block_timestamp: 0,
        epoch_height: 0,
        account_balance: 0,
        account_locked_balance: 0,
        storage_usage: 0,
        attached_deposit: 0,
        prepaid_gas: 10u64.pow(18),
        random_seed: seed.to_vec(),
        is_view: false,
        output_data_receivers: vec![],
    };
    near_sdk::env::set_blockchain_interface(Box::new(MockedBlockchain::new(
        context,
        VMConfig::default(),
        RuntimeFeesConfig::default(),
        vec![],
        Default::default(),
        Default::default(),
        None,
    )));
    assert_eq!(near_sdk::env::random_seed(), seed.to_vec());
    near_sdk::env::sha256(seed)
}

#[test]
fn row_offset_follows_the_formula() {
    assert_eq!(row_offset(3, 0), 47);
    assert_eq!(row_offset(3, 3), 0);
    assert_eq!(row_offset(3, 6), 3);
    assert_eq!(row_offset(3, 7), 47);
    assert_eq!(row_offset(3, 10), 0);
    assert_eq!(row_offset(3, 255), 0);
    assert_eq!(row_offset(3, 254), 49);
    assert_eq!(row_offset(0, 200), 0);
    assert_eq!(row_offset(49, 98), 49);
    assert_eq!(row_offset(49, 0), 1);
}

#[test]
fn row_offset_takes_any_distance() {
    assert_eq!(row_offset(100, 0), 0);
    assert_eq!(row_offset(100, 7), 7);
    assert_eq!(row_offset(u32::MAX, 255), expected_offset(u32::MAX as u64, 255));
    assert_eq!(row_offset(u32::MAX, 255), 10);
    for distance in [0u32, 1, 2, 24, 25, 49, 50, 51, 127, 128, 1000, 0x8000_0000] {
        for byte in 0..=255u8 {
            assert_eq!(row_offset(distance, byte), expected_offset(distance as u64, byte));
        }
    }
}

#[test]
fn random_stream_is_the_seed_and_then_its_hash() {
    assert_eq!(random_stream(vec![1, 2, 3], vec![4, 5]), vec![1, 2, 3, 4, 5]);
    assert_eq!(random_stream(vec![], vec![]), Vec::<u8>::new());
}

#[test]
fn the_stream_of_a_host_seed_has_a_byte_for_every_row() {
    let seed: Vec<u8> = (0..32u8).collect();
    let hash = host_sha256(&seed);
    assert_eq!(hash.len(), 32);
    let stream = random_stream(seed.clone(), hash.clone());
    assert_eq!(stream.len(), 64);
    assert_eq!(&stream[..32], &seed[..]);
    assert_eq!(&stream[32..], &hash[..]);
    assert_eq!(stream, random_stream(seed.clone(), host_sha256(&seed)));
    let abc = host_sha256(b"abc");
    assert_eq!(&abc[..4], &[0xba, 0x78, 0x16, 0xbf]);
}

#[test]
fn shake_moves_every_row_by_its_offset() {
    let board = board();
    let stream: Vec<u8> = (0..64u32).map(|k| (k * 37 % 256) as u8).collect();
    let pixels = internal_pixel_shake(&board, 5, &stream).unwrap();
    assert_eq!(pixels.len(), 2500);
    for y in 0..50u32 {
        let offset = expected_offset(5, stream[y as usize]);
        for x in 0..50u32 {
            assert_eq!(
                pixels[(y * 50 + x) as usize],
                SetPixelRequest {
                    x: (x + offset) % 50,
                    y,
                    color: board[y as usize][x as usize],
                }
            );
        }
    }
}

#[test]
fn shake_keeps_the_colors_of_every_row() {
    let board = board();
    let stream: Vec<u8> = (0..50u32).map(|k| (k * 101 % 256) as u8).collect();
    let pixels = internal_pixel_shake(&board, 20, &stream).unwrap();
    let mut shaken = vec![vec![u32::MAX; 50]; 50];
    for p in &pixels {
        assert_eq!(shaken[p.y as usize][p.x as usize], u32::MAX);
        shaken[p.y as usize][p.x as usize] = p.color;
    }
    assert_ne!(shaken, board);
    for y in 0..50 {
        let mut before = board[y].clone();
        let mut after = shaken[y].clone();
        before.sort();
        after.sort();
        assert_eq!(before, after);
    }
}

#[test]
fn shake_by_no_distance_writes_the_board_as_it_is() {
    let board = board();
    let pixels = internal_pixel_shake(&board, 0, &vec![77; 50]).unwrap();
    for p in &pixels {
        assert_eq!(p.color, board[p.y as usize][p.x as usize]);
    }
}

#[test]
fn shake_refuses_a_stream_shorter_than_the_canvas_is_high() {
    let board = board();
    assert_eq!(internal_pixel_shake(&board, 3, &vec![0; 49]), Err(RenderError::InvalidInput));
    assert!(internal_pixel_shake(&board, 3, &vec![0; 50]).is_ok());
}

#[test]
fn shake_refuses_a_board_that_does_not_cover_the_canvas() {
    let mut board = board();
    board[10].push(0);
    assert_eq!(internal_pixel_shake(&board, 3, &vec![0; 64]), Err(RenderError::InvalidInput));
    board.truncate(10);
    assert_eq!(internal_pixel_shake(&board, 3, &vec![0; 64]), Err(RenderError::InvalidInput));
}

#[test]
fn pixel_shake_reads_the_snapshot_and_composes_the_writes() {
    let board = board();
    let seed: Vec<u8> = (100..132u8).collect();
    let hash = host_sha256(&seed);
    let mut contract = Contract::default();
    let out = contract.pixel_shake(snapshot(&board), 4, seed.clone(), hash.clone()).unwrap();
    let stream = random_stream(seed, hash);
    assert_eq!(out.pixels, internal_pixel_shake(&board, 4, &stream).unwrap());
    assert_eq!(out.board, vec![vec![b'X'; 50]; 50]);
}

#[test]
fn pixel_shake_refuses_a_seed_that_is_too_short() {
    let mut contract = Contract { policy: DedupPolicy::Overwrite };
    let out = contract.pixel_shake(snapshot(&board()), 4, vec![0; 17], vec![0; 32]);
    assert_eq!(out.unwrap_err(), RenderError::InvalidInput);
}

#[test]
fn pixel_shake_refuses_a_board_with_what_is_no_color() {
    let mut board = board();
    board[3][3] = 0x1000000;
    let mut contract = Contract::default();
    let out = contract.pixel_shake(snapshot(&board), 4, vec![0; 32], vec![0; 32]);
    assert_eq!(out.unwrap_err(), RenderError::InvalidInput);
}
