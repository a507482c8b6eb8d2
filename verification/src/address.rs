use vstd::prelude::*;
use crate::text::{decimal, hex_lower, push_char, push_decimal, push_hex};

verus! {

/// A peer's IP address in std's numeric form: `u32::from(Ipv4Addr)` and
/// `u128::from(Ipv6Addr)`, both big-endian.
#[derive(Clone, Copy, Debug, PartialEq, Eq, Structural)]
pub enum PeerAddr {
    V4(u32),
    V6(u128),
}

/// Octet `i` (0 is the first written) of an IPv4 address.
pub open spec fn octet(addr: u32, i: nat) -> nat {
    if i == 0 {
        (addr / 16777216) as nat % 256
    } else if i == 1 {
        (addr / 65536) as nat % 256
    } else if i == 2 {
        (addr / 256) as nat % 256
    } else {
        addr as nat % 256
    }
}

/// Segment 0 or 1 (the first two written) of an IPv6 address.
pub open spec fn segment(addr: u128, i: nat) -> nat {
    if i == 0 {
        (addr / 0x10000000000000000000000000000) as nat % 65536
    } else {
        (addr / 0x1000000000000000000000000) as nat % 65536
    }
}

/// The text `.x.x`.
pub open spec fn dot_x_x() -> Seq<char> {
    seq!['.', 'x', '.', 'x']
}

/// The text `:x:x:x:x:x:x`: the six hidden IPv6 segments.
pub open spec fn hidden_segments() -> Seq<char> {
    seq![':', 'x', ':', 'x', ':', 'x', ':', 'x', ':', 'x', ':', 'x']
}

/// The two leading segments of an IPv6 address in lower-case hex, then the
/// other six hidden: `a:b:x:x:x:x:x:x`.
pub open spec fn masked_v6(addr: u128) -> Seq<char> {
    hex_lower(segment(addr, 0)) + seq![':'] + hex_lower(segment(addr, 1)) + hidden_segments()
}

pub(crate) fn push_octet(s: &mut String, addr: u32, i: usize)
    requires
        i < 4,
    ensures
        final(s)@ == old(s)@ + decimal(octet(addr, i as nat)),
{
    let v: u32 = if i == 0 {
        addr / 16777216 % 256
    } else if i == 1 {
        addr / 65536 % 256
    } else if i == 2 {
        addr / 256 % 256
    } else {
        addr % 256
    };
    push_decimal(s, v as u64);
}

pub(crate) fn push_segment(s: &mut String, addr: u128, i: usize)
    requires
        i < 2,
    ensures
        final(s)@ == old(s)@ + hex_lower(segment(addr, i as nat)),
{
    let v: u128 = if i == 0 {
        addr / 0x10000000000000000000000000000 % 65536
    } else {
        addr / 0x1000000000000000000000000 % 65536
    };
    push_hex(s, v as u64);
}

pub(crate) fn push_chars(s: &mut String, cs: &[char])
    ensures
        final(s)@ == old(s)@ + cs@,
{
    let mut i: usize = 0;
    while i < cs.len()
        invariant
            i <= cs@.len(),
            s@ == old(s)@ + cs@.take(i as int),
        decreases cs@.len() - i,
    {
        push_char(s, cs[i]);
        assert(cs@.take(i + 1) =~= cs@.take(i as int).push(cs@[i as int]));
        i = i + 1;
    }
    assert(cs@.take(cs@.len() as int) =~= cs@);
}

/// Appends `a:b:x:x:x:x:x:x` for an IPv6 address.
pub(crate) fn push_masked_v6(s: &mut String, addr: u128)
    ensures
        final(s)@ == old(s)@ + masked_v6(addr),
{
    push_segment(s, addr, 0);
    push_char(s, ':');
    push_segment(s, addr, 1);
    let hidden: [char; 12] = [':', 'x', ':', 'x', ':', 'x', ':', 'x', ':', 'x', ':', 'x'];
    push_chars(s, hidden.as_slice());
    assert(hidden@ =~= hidden_segments());
    assert(s@ =~= old(s)@ + masked_v6(addr));
}

} // verus!
