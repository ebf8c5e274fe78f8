//! Network masks of IPv4 prefix lengths and the specificity keys derived from them.

use vstd::prelude::*;

verus! {

/// The longest prefix an IPv4 address admits.
pub const MAX_PREFIX_LEN: u8 = 32;

/// The network mask of a prefix length: the top `len` bits set.
/// Lengths above 32 are given the full mask.
pub open spec fn net_mask(len: u8) -> u32 {
    if len == 0 {
        0u32
    } else if len >= 32 {
        0xffff_ffffu32
    } else {
        0xffff_ffffu32 << ((32 - len) as u32)
    }
}

/// The host-bits mask of a prefix length, the complement of its network mask.
/// A longer prefix has a smaller host mask, so ascending host masks run from
/// the most specific prefix length to the least specific one.
pub open spec fn host_mask(len: u8) -> u32 {
    (0xffff_ffffu32 - net_mask(len)) as u32
}

/// Computes the network mask of a prefix length.
pub fn prefix_mask(len: u8) -> (m: u32)
    ensures
        m == net_mask(len),
{
    if len == 0 {
        0
    } else if len >= MAX_PREFIX_LEN {
        u32::MAX
    } else {
        let shift: u32 = 32 - len as u32;
        u32::MAX << shift
    }
}

/// A longer prefix has a strictly larger network mask.
pub proof fn lemma_net_mask_increases(shorter: u8, longer: u8)
    requires
        shorter < longer <= MAX_PREFIX_LEN,
    ensures
        net_mask(shorter) < net_mask(longer),
        host_mask(longer) < host_mask(shorter),
{
    assert(net_mask(shorter) < net_mask(longer)) by (bit_vector)
        requires
            shorter < longer <= 32u8,
    ;
}

} // verus!
