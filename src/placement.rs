use vstd::prelude::*;
use crate::board::{diff_record, diff_record_spec};
use crate::identity::{identity_of, resolve_identity, IpAddress};
use crate::pixels::{code_of, Pixel};
use crate::rate_limit::{admit_spec, record_spec, RateLimiter, COOLDOWN, MAX_TIME, NANOS_PER_SEC};

verus! {

/// Nanoseconds in one millisecond.
pub const NANOS_PER_MILLI: u128 = 1_000_000;

/// A request to paint one cell of the board.
#[derive(Clone, Copy, Debug, PartialEq, Eq, Structural)]
pub struct PlaceRequestBody {
    pub pixel: Pixel,
    pub index: u32,
}

/// What the service decides for one request.
#[derive(Clone, Copy, Debug, PartialEq, Eq)]
pub enum Outcome {
    /// The request is taken: write `byte` at `offset` of the board and
    /// append `record` to the change log.
    Accepted { offset: u32, byte: u8, record: [u8; 16] },
    /// The caller's identity is still cooling down for this many seconds.
    RateLimited { wait_secs: u128 },
    /// The offset is not below the board's length.
    OutOfBounds { len: u64 },
}

/// The change-log timestamp of a clock reading: whole milliseconds, kept
/// to their low 64 bits.
pub open spec fn millis_of(now: u128) -> u64 {
    (now / NANOS_PER_MILLI) as u64
}

/// Whether `o` is the decision for a request at `now` on a board of
/// `board_len` bytes once its caller has passed the rate limiter: an offset
/// at or past the end is refused; any other is accepted with the colour's
/// code and the change-log record of the placement.
pub open spec fn place_spec(req: PlaceRequestBody, now: u128, board_len: u64, o: Outcome) -> bool {
    if req.index >= board_len {
        o == Outcome::OutOfBounds { len: board_len }
    } else {
        o matches Outcome::Accepted { offset, byte, record }
            && offset == req.index
            && byte == code_of(req.pixel)
            && record@ == diff_record_spec(millis_of(now), req.index, code_of(req.pixel))
    }
}

/// Whether `o` is the decision for a request at `now` from `addr` on a
/// board of `board_len` bytes, given each identity's last accepted time:
/// the identity's cooldown is checked first, then the offset.
pub open spec fn submit_spec(
    last: Map<IpAddress, u128>,
    addr: IpAddress,
    req: PlaceRequestBody,
    now: u128,
    board_len: u64,
    o: Outcome,
) -> bool {
    match admit_spec(last, identity_of(addr), now) {
        Err(w) => o == Outcome::RateLimited { wait_secs: w },
        Ok(_) => place_spec(req, now, board_len, o),
    }
}

/// Decides a placement request made at `now` (nanoseconds since the
/// epoch) from `addr` on a board that is `board_len` bytes long. The
/// caller's identity is stamped whenever its cooldown has run out, also
/// where the offset is then refused.
pub fn submit(
    limiter: &mut RateLimiter,
    addr: IpAddress,
    req: &PlaceRequestBody,
    now: u128,
    board_len: u64,
) -> (r: Outcome)
    requires
        old(limiter).wf(),
        now <= MAX_TIME,
    ensures
        final(limiter).wf(),
        final(limiter)@ == record_spec(old(limiter)@, identity_of(addr), now),
        submit_spec(old(limiter)@, addr, *req, now, board_len, r),
{
    let key = resolve_identity(addr);
    if let Err(wait_secs) = limiter.check_and_record(key, now) {
        return Outcome::RateLimited { wait_secs };
    }
    place(req, now, board_len)
}

/// The step that follows an admitted request made at `now`: checks the
/// offset against the board's current length `board_len` and, where it is
/// in range, gives the byte to write and the record to append.
pub fn place(req: &PlaceRequestBody, now: u128, board_len: u64) -> (r: Outcome)
    ensures
        place_spec(*req, now, board_len, r),
{
    if req.index as u64 >= board_len {
        return Outcome::OutOfBounds { len: board_len };
    }
    let byte = req.pixel.to_byte();
    let millis = #[verifier::truncate] ((now / NANOS_PER_MILLI) as u64);
    Outcome::Accepted { offset: req.index, byte, record: diff_record(millis, req.index, byte) }
}

/// Once a placement is accepted at `t0`, a request from any address of the
/// same identity is refused at every `t` with `t0 < t < t0 + COOLDOWN`,
/// with a wait of the whole seconds left until `t0 + COOLDOWN`; from
/// `t0 + COOLDOWN` on the cooldown no longer refuses it.
pub proof fn lemma_cooldown_after_accept(
    last: Map<IpAddress, u128>,
    first_addr: IpAddress,
    first_req: PlaceRequestBody,
    t0: u128,
    first_len: u64,
    first: Outcome,
    addr: IpAddress,
    req: PlaceRequestBody,
    t: u128,
    board_len: u64,
    o: Outcome,
)
    requires
        submit_spec(last, first_addr, first_req, t0, first_len, first),
        (first is Accepted),
        identity_of(addr) == identity_of(first_addr),
        submit_spec(record_spec(last, identity_of(first_addr), t0), addr, req, t, board_len, o),
    ensures
        t0 < t < t0 + COOLDOWN ==> (o == Outcome::RateLimited {
            wait_secs: ((t0 + COOLDOWN - t) / NANOS_PER_SEC as int) as u128,
        }),
        t >= t0 + COOLDOWN ==> !(o is RateLimited),
{
}

/// An offset at or past the board's end is never written, whatever the
/// rate limiter holds; once the caller's cooldown has run out, it is
/// refused as out of bounds.
pub proof fn lemma_out_of_bounds_refused(
    last: Map<IpAddress, u128>,
    addr: IpAddress,
    req: PlaceRequestBody,
    now: u128,
    board_len: u64,
    o: Outcome,
)
    requires
        req.index >= board_len,
        submit_spec(last, addr, req, now, board_len, o),
    ensures
        !(o is Accepted),
        (admit_spec(last, identity_of(addr), now) is Ok) ==> (o == Outcome::OutOfBounds {
            len: board_len,
        }),
{
}

/// The HTTP status that answers an outcome.
pub open spec fn status_spec(o: Outcome) -> u16 {
    match o {
        Outcome::Accepted { .. } => 200,
        Outcome::RateLimited { .. } => 429,
        Outcome::OutOfBounds { .. } => 400,
    }
}

impl Outcome {
    /// The HTTP status of the response: 200, 429 or 400.
    pub fn status_code(&self) -> (r: u16)
        ensures
            r == status_spec(*self),
    {
        match self {
            Outcome::Accepted { .. } => 200,
            Outcome::RateLimited { .. } => 429,
            Outcome::OutOfBounds { .. } => 400,
        }
    }
}

} // verus!
