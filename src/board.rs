use vstd::prelude::*;
use crate::pixels::{code_of, Pixel};

verus! {

/// The line terminator byte.
pub const NEWLINE: u8 = 10;

/// The carriage return byte, dropped before a terminator.
pub const CARRIAGE_RETURN: u8 = 13;

/// The position of the first line terminator of `s` at or after `i`, or
/// the length of `s` where there is none.
pub open spec fn newline_from(s: Seq<u8>, i: int) -> int
    decreases s.len() - i,
{
    if i >= s.len() {
        s.len() as int
    } else if s[i] == NEWLINE {
        i
    } else {
        newline_from(s, i + 1)
    }
}

/// The first line of `s`: the bytes before its first terminator, without
/// the carriage return that may stand right before that terminator.
pub open spec fn first_line_spec(s: Seq<u8>) -> Seq<u8> {
    let n = newline_from(s, 0);
    if n < s.len() && n > 0 && s[n - 1] == CARRIAGE_RETURN {
        s.subrange(0, n - 1)
    } else {
        s.subrange(0, n)
    }
}

/// The board's content as a read returns it: the bytes of its first line,
/// up to the end where there is no terminator (an empty board reads as
/// empty).
pub fn board_line(content: &Vec<u8>) -> (r: Vec<u8>)
    ensures
        r@ == first_line_spec(content@),
{
    let mut line: Vec<u8> = Vec::new();
    let mut i: usize = 0;
    while i < content.len() && content[i] != NEWLINE
        invariant
            i <= content.len(),
            newline_from(content@, i as int) == newline_from(content@, 0),
            line@ == content@.subrange(0, i as int),
        decreases content.len() - i,
    {
        line.push(content[i]);
        i = i + 1;
        assert(line@ =~= content@.subrange(0, i as int));
    }
    if i < content.len() && i > 0 && content[i - 1] == CARRIAGE_RETURN {
        line.pop();
        assert(line@ =~= content@.subrange(0, i - 1));
    }
    line
}

/// The `n` bytes of `x` in big-endian order (`x` taken modulo `256^n`).
pub open spec fn be_bytes(x: nat, n: nat) -> Seq<u8>
    decreases n,
{
    if n == 0 {
        Seq::empty()
    } else {
        be_bytes(x / 256, (n - 1) as nat).push((x % 256) as u8)
    }
}

/// One record of the change log: the time in milliseconds (eight bytes),
/// the offset (four bytes), three zero bytes and the colour code, all
/// numbers big-endian.
pub open spec fn diff_record_spec(timestamp_ms: u64, offset: u32, color: u8) -> Seq<u8> {
    be_bytes(timestamp_ms as nat, 8) + be_bytes(offset as nat, 4) + seq![0u8, 0u8, 0u8, color]
}

/// The eight big-endian bytes of `x`.
pub fn u64_be_bytes(x: u64) -> (r: [u8; 8])
    ensures
        r@ == be_bytes(x as nat, 8),
{
    let x1 = x / 256;
    let x2 = x1 / 256;
    let x3 = x2 / 256;
    let x4 = x3 / 256;
    let x5 = x4 / 256;
    let x6 = x5 / 256;
    let x7 = x6 / 256;
    let r = [
        (x7 % 256) as u8,
        (x6 % 256) as u8,
        (x5 % 256) as u8,
        (x4 % 256) as u8,
        (x3 % 256) as u8,
        (x2 % 256) as u8,
        (x1 % 256) as u8,
        (x % 256) as u8,
    ];
    proof {
        reveal_with_fuel(be_bytes, 9);
    }
    assert(r@ =~= be_bytes(x as nat, 8));
    r
}

/// The four big-endian bytes of `x`.
pub fn u32_be_bytes(x: u32) -> (r: [u8; 4])
    ensures
        r@ == be_bytes(x as nat, 4),
{
    let x1 = x / 256;
    let x2 = x1 / 256;
    let x3 = x2 / 256;
    let r = [(x3 % 256) as u8, (x2 % 256) as u8, (x1 % 256) as u8, (x % 256) as u8];
    proof {
        reveal_with_fuel(be_bytes, 5);
    }
    assert(r@ =~= be_bytes(x as nat, 4));
    r
}

/// The change-log record of a placement of colour code `color` at
/// `offset`, made at `timestamp_ms` milliseconds since the epoch.
pub fn diff_record(timestamp_ms: u64, offset: u32, color: u8) -> (r: [u8; 16])
    ensures
        r@ == diff_record_spec(timestamp_ms, offset, color),
{
    let t = u64_be_bytes(timestamp_ms);
    let o = u32_be_bytes(offset);
    let r = [
        t[0], t[1], t[2], t[3], t[4], t[5], t[6], t[7], o[0], o[1], o[2], o[3], 0, 0, 0, color,
    ];
    assert(r@ =~= diff_record_spec(timestamp_ms, offset, color));
    r
}

proof fn lemma_newline_at_or_after(s: Seq<u8>, i: int)
    requires
        0 <= i <= s.len(),
    ensures
        i <= newline_from(s, i) <= s.len(),
    decreases s.len() - i,
{
    if i < s.len() && s[i] != NEWLINE {
        lemma_newline_at_or_after(s, i + 1);
    }
}

proof fn lemma_newline_beyond(s: Seq<u8>, o: int, i: int)
    requires
        0 <= i <= o < s.len(),
        forall|j: int| 0 <= j <= o ==> s[j] != NEWLINE,
    ensures
        newline_from(s, i) > o,
    decreases o - i,
{
    if i < o {
        lemma_newline_beyond(s, o, i + 1);
    } else {
        lemma_newline_at_or_after(s, i + 1);
    }
}

/// Writing a colour at an offset of a board whose bytes before that offset
/// hold no line terminator, then reading the board, shows that colour's
/// code at that offset.
pub proof fn lemma_write_then_read(board: Seq<u8>, offset: int, p: Pixel)
    requires
        0 <= offset < board.len(),
        forall|j: int| 0 <= j < offset ==> board[j] != NEWLINE,
    ensures
        ({
            let r = first_line_spec(board.update(offset, code_of(p)));
            &&& offset < r.len()
            &&& r[offset] == code_of(p)
        }),
{
    let s = board.update(offset, code_of(p));
    assert forall|j: int| 0 <= j <= offset implies s[j] != NEWLINE by {
        if j < offset {
            assert(s[j] == board[j]);
        }
    }
    lemma_newline_beyond(s, offset, 0);
    assert(s[offset] == code_of(p));
    lemma_newline_at_or_after(s, 0);
    let n = newline_from(s, 0);
    let line = first_line_spec(s);
    if n < s.len() && n > 0 && s[n - 1] == CARRIAGE_RETURN {
        assert(n - 1 != offset);
        assert(line == s.subrange(0, n - 1));
    } else {
        assert(line == s.subrange(0, n));
    }
    assert(line[offset] == s[offset]);
}

} // verus!
