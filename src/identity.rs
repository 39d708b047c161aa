use vstd::prelude::*;

verus! {

/// A caller's network address, as the integer that its octets spell in
/// network order.
#[derive(Clone, Copy, Debug, PartialEq, Eq, Structural)]
pub enum IpAddress {
    V4(u32),
    V6(u128),
}

/// The top 64 bits of an IPv6 address: the part that names its subnet.
pub const SUBNET_MASK: u128 = 0xffff_ffff_ffff_ffff_0000_0000_0000_0000;

/// Whether the first `len` bits of `a` agree with those of `prefix`, i.e.
/// whether `a` lies in the block `prefix/len` (for `1 <= len <= 128`).
pub open spec fn in_block(a: u128, prefix: u128, len: u128) -> bool {
    (a >> ((128 - len) as u128)) == (prefix >> ((128 - len) as u128))
}

/// The blocks inside `2001::/23` that are nevertheless globally reachable:
/// the PCP and TURN anycast addresses, AMT, AS112-v6 and ORCHIDv2.
pub open spec fn ietf_global_exception(a: u128) -> bool {
    ||| a == 0x2001_0001_0000_0000_0000_0000_0000_0001
    ||| a == 0x2001_0001_0000_0000_0000_0000_0000_0002
    ||| in_block(a, 0x2001_0003_0000_0000_0000_0000_0000_0000, 32)
    ||| in_block(a, 0x2001_0004_0112_0000_0000_0000_0000_0000, 48)
    ||| in_block(a, 0x2001_0020_0000_0000_0000_0000_0000_0000, 28)
}

/// Whether an IPv6 address is globally reachable: it lies in none of the
/// special-purpose blocks, where the IETF protocol assignment block counts
/// only outside its globally reachable exceptions.
pub open spec fn is_global_spec(a: u128) -> bool {
    !{
        ||| a == 0
        ||| a == 1
        ||| in_block(a, 0x0000_0000_0000_0000_0000_ffff_0000_0000, 96)
        ||| in_block(a, 0x0064_ff9b_0001_0000_0000_0000_0000_0000, 48)
        ||| in_block(a, 0x0100_0000_0000_0000_0000_0000_0000_0000, 64)
        ||| (in_block(a, 0x2001_0000_0000_0000_0000_0000_0000_0000, 23)
            && !ietf_global_exception(a))
        ||| in_block(a, 0x2002_0000_0000_0000_0000_0000_0000_0000, 16)
        ||| in_block(a, 0x2001_0db8_0000_0000_0000_0000_0000_0000, 32)
        ||| in_block(a, 0xfc00_0000_0000_0000_0000_0000_0000_0000, 7)
        ||| in_block(a, 0xfe80_0000_0000_0000_0000_0000_0000_0000, 10)
    }
}

/// The rate-limit bucket of an address: a globally reachable IPv6 address
/// is cut down to its /64 subnet; any other address stands for itself.
pub open spec fn identity_of(addr: IpAddress) -> IpAddress {
    match addr {
        IpAddress::V6(a) => if is_global_spec(a) {
            IpAddress::V6(a & SUBNET_MASK)
        } else {
            addr
        },
        IpAddress::V4(_) => addr,
    }
}

/// The `i`-th sixteen-bit segment of an IPv6 address, counted from the top.
pub open spec fn segment(a: u128, i: int) -> u16 {
    (a >> ((112 - 16 * i) as u128)) as u16
}

/// The address that eight segments spell, the first one topmost.
pub open spec fn from_segments_spec(s: Seq<u16>) -> u128 {
    (s[0] as u128) << 112u128 | (s[1] as u128) << 96u128 | (s[2] as u128) << 80u128 | (
    s[3] as u128) << 64u128 | (s[4] as u128) << 48u128 | (s[5] as u128) << 32u128 | (
    s[6] as u128) << 16u128 | (s[7] as u128)
}

/// The eight segments of an IPv6 address, the topmost first.
pub fn segments(a: u128) -> (r: [u16; 8])
    ensures
        r@ == seq![
            segment(a, 0), segment(a, 1), segment(a, 2), segment(a, 3),
            segment(a, 4), segment(a, 5), segment(a, 6), segment(a, 7),
        ],
{
    let r = [
        #[verifier::truncate] ((a >> 112u128) as u16),
        #[verifier::truncate] ((a >> 96u128) as u16),
        #[verifier::truncate] ((a >> 80u128) as u16),
        #[verifier::truncate] ((a >> 64u128) as u16),
        #[verifier::truncate] ((a >> 48u128) as u16),
        #[verifier::truncate] ((a >> 32u128) as u16),
        #[verifier::truncate] ((a >> 16u128) as u16),
        #[verifier::truncate] (a as u16),
    ];
    assert(a >> 0u128 == a) by (bit_vector);
    assert(r@ =~= seq![
        segment(a, 0), segment(a, 1), segment(a, 2), segment(a, 3),
        segment(a, 4), segment(a, 5), segment(a, 6), segment(a, 7),
    ]);
    r
}

/// The IPv6 address that eight segments spell, the first one topmost.
pub fn from_segments(s: [u16; 8]) -> (r: u128)
    ensures
        r == from_segments_spec(s@),
{
    (s[0] as u128) << 112u128 | (s[1] as u128) << 96u128 | (s[2] as u128) << 80u128 | (
    s[3] as u128) << 64u128 | (s[4] as u128) << 48u128 | (s[5] as u128) << 32u128 | (
    s[6] as u128) << 16u128 | (s[7] as u128)
}

/// Keeps the four segments of the subnet prefix and zeroes the four of
/// the interface identifier.
pub fn mask_ipv6_host_identifier(array: [u16; 8]) -> (r: [u16; 8])
    ensures
        r@ == seq![array@[0], array@[1], array@[2], array@[3], 0u16, 0u16, 0u16, 0u16],
{
    let r = [array[0], array[1], array[2], array[3], 0, 0, 0, 0];
    assert(r@ =~= seq![array@[0], array@[1], array@[2], array@[3], 0u16, 0u16, 0u16, 0u16]);
    r
}

proof fn lemma_segment_blocks(a: u128, s0: u16, s1: u16, s2: u16, s3: u16, s4: u16, s5: u16)
    by (bit_vector)
    requires
        s0 == (a >> 112u128) as u16,
        s1 == (a >> 96u128) as u16,
        s2 == (a >> 80u128) as u16,
        s3 == (a >> 64u128) as u16,
        s4 == (a >> 48u128) as u16,
        s5 == (a >> 32u128) as u16,
    ensures
        (s0 == 0 && s1 == 0 && s2 == 0 && s3 == 0 && s4 == 0 && s5 == 0xffff) == in_block(
            a,
            0x0000_0000_0000_0000_0000_ffff_0000_0000,
            96,
        ),
        (s0 == 0x64 && s1 == 0xff9b && s2 == 1) == in_block(
            a,
            0x0064_ff9b_0001_0000_0000_0000_0000_0000,
            48,
        ),
        (s0 == 0x100 && s1 == 0 && s2 == 0 && s3 == 0) == in_block(
            a,
            0x0100_0000_0000_0000_0000_0000_0000_0000,
            64,
        ),
        (s0 == 0x2001 && s1 < 0x200) == in_block(a, 0x2001_0000_0000_0000_0000_0000_0000_0000, 23),
        (s0 == 0x2001 && s1 == 3) == in_block(a, 0x2001_0003_0000_0000_0000_0000_0000_0000, 32),
        (s0 == 0x2001 && s1 == 4 && s2 == 0x112) == in_block(
            a,
            0x2001_0004_0112_0000_0000_0000_0000_0000,
            48,
        ),
        (s0 == 0x2001 && 0x20 <= s1 && s1 <= 0x2f) == in_block(
            a,
            0x2001_0020_0000_0000_0000_0000_0000_0000,
            28,
        ),
        (s0 == 0x2002) == in_block(a, 0x2002_0000_0000_0000_0000_0000_0000_0000, 16),
        (s0 == 0x2001 && s1 == 0xdb8) == in_block(a, 0x2001_0db8_0000_0000_0000_0000_0000_0000, 32),
        (s0 & 0xfe00 == 0xfc00) == in_block(a, 0xfc00_0000_0000_0000_0000_0000_0000_0000, 7),
        (s0 & 0xffc0 == 0xfe80) == in_block(a, 0xfe80_0000_0000_0000_0000_0000_0000_0000, 10),
{
}

/// Whether an IPv6 address is globally reachable, decided on its segments.
pub fn is_global(ip: u128) -> (r: bool)
    ensures
        r == is_global_spec(ip),
{
    let s = segments(ip);
    let (s0, s1, s2, s3, s4, s5) = (s[0], s[1], s[2], s[3], s[4], s[5]);
    proof {
        lemma_segment_blocks(ip, s0, s1, s2, s3, s4, s5);
    }
    // the PCP and TURN anycast addresses, AMT, AS112-v6 and ORCHIDv2
    let ietf_exception = ip == 0x2001_0001_0000_0000_0000_0000_0000_0001
        || ip == 0x2001_0001_0000_0000_0000_0000_0000_0002
        || (s0 == 0x2001 && s1 == 3)
        || (s0 == 0x2001 && s1 == 4 && s2 == 0x112)
        || (s0 == 0x2001 && 0x20 <= s1 && s1 <= 0x2f);
    !(ip == 0
        || ip == 1
        || (s0 == 0 && s1 == 0 && s2 == 0 && s3 == 0 && s4 == 0 && s5 == 0xffff)
        || (s0 == 0x64 && s1 == 0xff9b && s2 == 1)
        || (s0 == 0x100 && s1 == 0 && s2 == 0 && s3 == 0)
        || (s0 == 0x2001 && s1 < 0x200 && !ietf_exception)
        || s0 == 0x2002
        || (s0 == 0x2001 && s1 == 0xdb8)
        || (s0 & 0xfe00) == 0xfc00
        || (s0 & 0xffc0) == 0xfe80)
}

proof fn lemma_masked_segments(a: u128)
    by (bit_vector)
    ensures
        ((a >> 112u128) as u16 as u128) << 112u128 | ((a >> 96u128) as u16 as u128) << 96u128
            | ((a >> 80u128) as u16 as u128) << 80u128 | ((a >> 64u128) as u16 as u128) << 64u128
            | (0u16 as u128) << 48u128 | (0u16 as u128) << 32u128 | (0u16 as u128) << 16u128 | (
        0u16 as u128) == a & SUBNET_MASK,
{
}

/// The rate-limit bucket of a caller's address.
pub fn resolve_identity(addr: IpAddress) -> (r: IpAddress)
    ensures
        r == identity_of(addr),
{
    match addr {
        IpAddress::V6(a) => {
            if is_global(a) {
                let masked = from_segments(mask_ipv6_host_identifier(segments(a)));
                proof {
                    lemma_masked_segments(a);
                }
                IpAddress::V6(masked)
            } else {
                addr
            }
        },
        IpAddress::V4(_) => addr,
    }
}

/// Two globally reachable IPv6 addresses that differ only in their low
/// 64 bits fall into one rate-limit bucket.
pub proof fn lemma_global_subnet_shares_identity(a: u128, b: u128)
    requires
        is_global_spec(a),
        is_global_spec(b),
        a >> 64u128 == b >> 64u128,
    ensures
        identity_of(IpAddress::V6(a)) == identity_of(IpAddress::V6(b)),
{
    assert(a >> 64u128 == b >> 64u128 ==> a & SUBNET_MASK == b & SUBNET_MASK) by (bit_vector);
}

/// Whether an IPv6 address is unique-local (`fc00::/7`) or link-local
/// (`fe80::/10`).
pub open spec fn is_local_spec(a: u128) -> bool {
    in_block(a, 0xfc00_0000_0000_0000_0000_0000_0000_0000, 7) || in_block(
        a,
        0xfe80_0000_0000_0000_0000_0000_0000_0000,
        10,
    )
}

/// Distinct unique-local or link-local addresses keep distinct rate-limit
/// buckets.
pub proof fn lemma_local_addresses_stay_distinct(a: u128, b: u128)
    requires
        is_local_spec(a),
        is_local_spec(b),
        a != b,
    ensures
        identity_of(IpAddress::V6(a)) != identity_of(IpAddress::V6(b)),
{
}

} // verus!
