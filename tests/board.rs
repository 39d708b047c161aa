use pixelboard::board::{board_line, diff_record, u32_be_bytes, u64_be_bytes};
use pixelboard::pixels::Pixel;

#[test]
fn empty_board_reads_empty() {
    assert_eq!(board_line(&Vec::new()), Vec::<u8>::new());
}

#[test]
fn read_stops_at_first_line() {
    assert_eq!(board_line(&b"0123".to_vec()), b"0123".to_vec());
    assert_eq!(board_line(&b"01\n23".to_vec()), b"01".to_vec());
    assert_eq!(board_line(&b"01\r\n23".to_vec()), b"01".to_vec());
    assert_eq!(board_line(&b"01\r".to_vec()), b"01\r".to_vec());
    assert_eq!(board_line(&b"\nabc".to_vec()), Vec::new());
}

#[test]
fn write_then_read_shows_the_byte() {
    let mut board = b"0000".to_vec();
    board[2] = Pixel::Red.to_byte();
    assert_eq!(board_line(&board), b"0050".to_vec());
}

#[test]
fn big_endian_bytes() {
    assert_eq!(u64_be_bytes(0x0102_0304_0506_0708), [1, 2, 3, 4, 5, 6, 7, 8]);
    assert_eq!(u32_be_bytes(0xdead_beef), [0xde, 0xad, 0xbe, 0xef]);
}

#[test]
fn diff_record_layout() {
    let r = diff_record(1_000_000, 2, b'5');
    assert_eq!(r, [0, 0, 0, 0, 0, 0x0f, 0x42, 0x40, 0, 0, 0, 2, 0, 0, 0, b'5']);
}
