use vstd::prelude::*;
use std::collections::HashMap;
use crate::identity::IpAddress;

verus! {

broadcast use vstd::std_specs::hash::group_hash_axioms;

/// Nanoseconds in one second.
pub const NANOS_PER_SEC: u128 = 1_000_000_000;

/// The minimum time between two accepted placements of one identity:
/// five minutes, in nanoseconds.
pub const COOLDOWN: u128 = 300 * NANOS_PER_SEC;

/// The latest instant a clock reading can name, in nanoseconds since the
/// epoch: `u64::MAX` whole seconds and the largest sub-second part.
pub const MAX_TIME: u128 = 18_446_744_073_709_551_615 * NANOS_PER_SEC + 999_999_999;

/// What the rate limiter decides for a key at a time, given the time of
/// each key's last accepted placement: `Err` carries the remaining wait
/// in whole seconds (rounded down).
pub open spec fn admit_spec(last: Map<IpAddress, u128>, key: IpAddress, now: u128) -> Result<(), u128> {
    if last.contains_key(key) && last[key] + COOLDOWN > now {
        Err(((last[key] + COOLDOWN - now) / NANOS_PER_SEC as int) as u128)
    } else {
        Ok(())
    }
}

/// The record of accepted placements after a decision: an admitted key is
/// stamped with the time; a refused one leaves the record as it was.
pub open spec fn record_spec(last: Map<IpAddress, u128>, key: IpAddress, now: u128) -> Map<IpAddress, u128> {
    if admit_spec(last, key, now) is Ok {
        last.insert(key, now)
    } else {
        last
    }
}

/// For each identity, the time of its last accepted placement, in
/// nanoseconds since the epoch.
pub struct RateLimiter {
    v4: HashMap<u32, u128>,
    v6: HashMap<u128, u128>,
}

impl View for RateLimiter {
    type V = Map<IpAddress, u128>;

    closed spec fn view(&self) -> Map<IpAddress, u128> {
        Map::new(
            |k: IpAddress|
                match k {
                    IpAddress::V4(a) => self.v4@.contains_key(a),
                    IpAddress::V6(a) => self.v6@.contains_key(a),
                },
            |k: IpAddress|
                match k {
                    IpAddress::V4(a) => self.v4@[a],
                    IpAddress::V6(a) => self.v6@[a],
                },
        )
    }
}

impl RateLimiter {
    /// Every recorded time is a clock reading.
    pub open spec fn wf(&self) -> bool {
        forall|k: IpAddress| #[trigger] self@.contains_key(k) ==> self@[k] <= MAX_TIME
    }

    /// A limiter that has seen nobody.
    pub fn new() -> (r: RateLimiter)
        ensures
            r.wf(),
            r@ == Map::<IpAddress, u128>::empty(),
    {
        let r = RateLimiter { v4: HashMap::new(), v6: HashMap::new() };
        assert(r@ =~= Map::<IpAddress, u128>::empty());
        r
    }

    /// The time of the last accepted placement of `key`, if any.
    pub fn last_accepted(&self, key: IpAddress) -> (r: Option<u128>)
        ensures
            r == (if self@.contains_key(key) { Some(self@[key]) } else { None::<u128> }),
    {
        match key {
            IpAddress::V4(a) => match self.v4.get(&a) {
                Some(t) => Some(*t),
                None => None,
            },
            IpAddress::V6(a) => match self.v6.get(&a) {
                Some(t) => Some(*t),
                None => None,
            },
        }
    }

    /// Refuses `key` while its cooldown runs, with the seconds left;
    /// otherwise stamps `key` with `now` and admits it.
    pub fn check_and_record(&mut self, key: IpAddress, now: u128) -> (r: Result<(), u128>)
        requires
            old(self).wf(),
            now <= MAX_TIME,
        ensures
            final(self).wf(),
            r == admit_spec(old(self)@, key, now),
            final(self)@ == record_spec(old(self)@, key, now),
    {
        if let Some(t) = self.last_accepted(key) {
            assert(t <= MAX_TIME);
            if t + COOLDOWN > now {
                return Err((t + COOLDOWN - now) / NANOS_PER_SEC);
            }
        }
        let ghost before = self@;
        match key {
            IpAddress::V4(a) => {
                self.v4.insert(a, now);
            },
            IpAddress::V6(a) => {
                self.v6.insert(a, now);
            },
        }
        assert(self@ =~= before.insert(key, now));
        Ok(())
    }
}

} // verus!
