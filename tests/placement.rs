use pixelboard::identity::IpAddress;
use pixelboard::pixels::Pixel;
use pixelboard::placement::{place, submit, Outcome, PlaceRequestBody};
use pixelboard::rate_limit::{RateLimiter, NANOS_PER_SEC};

fn apply(board: &mut Vec<u8>, log: &mut Vec<u8>, o: &Outcome) {
    if let Outcome::Accepted { offset, byte, record } = o {
        board[*offset as usize] = *byte;
        log.extend_from_slice(record);
    }
}

#[test]
fn accept_then_cooldown_then_accept() {
    let mut limiter = RateLimiter::new();
    let mut board = b"0000".to_vec();
    let mut log = Vec::new();
    let addr = IpAddress::V4(0xc000_0201);

    let req = PlaceRequestBody { pixel: Pixel::Red, index: 2 };
    let o = submit(&mut limiter, addr, &req, 1000 * NANOS_PER_SEC, board.len() as u64);
    assert_eq!(o.status_code(), 200);
    apply(&mut board, &mut log, &o);
    assert_eq!(board, b"0050".to_vec());
    assert_eq!(log, vec![0, 0, 0, 0, 0, 0x0f, 0x42, 0x40, 0, 0, 0, 2, 0, 0, 0, b'5']);

    let req = PlaceRequestBody { pixel: Pixel::Blue, index: 0 };
    let o = submit(&mut limiter, addr, &req, 1001 * NANOS_PER_SEC, board.len() as u64);
    assert_eq!(o, Outcome::RateLimited { wait_secs: 299 });
    assert_eq!(o.status_code(), 429);
    apply(&mut board, &mut log, &o);
    assert_eq!(board, b"0050".to_vec());
    assert_eq!(log.len(), 16);

    let o = submit(&mut limiter, addr, &req, 1301 * NANOS_PER_SEC, board.len() as u64);
    assert_eq!(o.status_code(), 200);
    apply(&mut board, &mut log, &o);
    assert_eq!(board, b"=050".to_vec());
    assert_eq!(log.len(), 32);
}

#[test]
fn index_past_the_end_is_refused() {
    let mut limiter = RateLimiter::new();
    let mut board = b"0050".to_vec();
    let mut log = Vec::new();
    let req = PlaceRequestBody { pixel: Pixel::White, index: 4 };
    let o = submit(&mut limiter, IpAddress::V4(9), &req, 5 * NANOS_PER_SEC, 4);
    assert_eq!(o, Outcome::OutOfBounds { len: 4 });
    assert_eq!(o.status_code(), 400);
    apply(&mut board, &mut log, &o);
    assert_eq!(board, b"0050".to_vec());
    assert!(log.is_empty());
}

#[test]
fn refused_index_still_spends_the_cooldown() {
    let mut limiter = RateLimiter::new();
    let addr = IpAddress::V4(9);
    let bad = PlaceRequestBody { pixel: Pixel::White, index: 10 };
    let good = PlaceRequestBody { pixel: Pixel::White, index: 0 };
    assert_eq!(submit(&mut limiter, addr, &bad, 0, 4), Outcome::OutOfBounds { len: 4 });
    assert_eq!(
        submit(&mut limiter, addr, &good, NANOS_PER_SEC, 4),
        Outcome::RateLimited { wait_secs: 299 }
    );
    assert_eq!(
        submit(&mut limiter, addr, &bad, 2 * NANOS_PER_SEC, 4),
        Outcome::RateLimited { wait_secs: 298 }
    );
}

#[test]
fn addresses_of_one_global_subnet_share_a_cooldown() {
    let mut limiter = RateLimiter::new();
    let a = IpAddress::V6(0x2600_1f18_06d2_0400_0000_0000_0000_0001);
    let b = IpAddress::V6(0x2600_1f18_06d2_0400_ffff_0000_0000_0002);
    let req = PlaceRequestBody { pixel: Pixel::Teal, index: 1 };
    assert_eq!(submit(&mut limiter, a, &req, 0, 4).status_code(), 200);
    assert_eq!(
        submit(&mut limiter, b, &req, 60 * NANOS_PER_SEC, 4),
        Outcome::RateLimited { wait_secs: 240 }
    );
    let c = IpAddress::V6(0xfe80_0000_0000_0000_0000_0000_0000_0002);
    assert_eq!(submit(&mut limiter, c, &req, 60 * NANOS_PER_SEC, 4).status_code(), 200);
}

#[test]
fn millisecond_timestamp_in_record() {
    let mut limiter = RateLimiter::new();
    let req = PlaceRequestBody { pixel: Pixel::Purple, index: 3 };
    let now = 1_700_000_000_123_456_789u128;
    match submit(&mut limiter, IpAddress::V4(1), &req, now, 4) {
        Outcome::Accepted { offset, byte, record } => {
            assert_eq!(offset, 3);
            assert_eq!(byte, b'?');
            assert_eq!(&record[..8], &1_700_000_000_123u64.to_be_bytes());
            assert_eq!(&record[8..], &[0, 0, 0, 3, 0, 0, 0, b'?']);
        }
        other => panic!("unexpected {:?}", other),
    }
}

#[test]
fn place_checks_only_the_offset() {
    let req = PlaceRequestBody { pixel: Pixel::Red, index: 2 };
    assert_eq!(
        place(&req, 1000 * NANOS_PER_SEC, 4),
        Outcome::Accepted {
            offset: 2,
            byte: b'5',
            record: [0, 0, 0, 0, 0, 0x0f, 0x42, 0x40, 0, 0, 0, 2, 0, 0, 0, b'5'],
        }
    );
    assert_eq!(place(&req, 0, 2), Outcome::OutOfBounds { len: 2 });
    assert_eq!(place(&req, 0, 0), Outcome::OutOfBounds { len: 0 });
}
