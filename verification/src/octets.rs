//! IPv4 addresses as 32-bit integers and as four octets in network order.

use vstd::prelude::*;

verus! {

/// The integer that four octets spell, most significant octet first.
pub open spec fn octets_value(octets: Seq<u8>) -> u32
    recommends
        octets.len() == 4,
{
    (octets[0] as int * 0x100_0000 + octets[1] as int * 0x1_0000 + octets[2] as int * 0x100
        + octets[3] as int) as u32
}

/// The four octets of an integer, most significant octet first.
pub open spec fn value_octets(x: u32) -> Seq<u8> {
    seq![
        (x / 0x100_0000) as u8,
        (x / 0x1_0000 % 0x100) as u8,
        (x / 0x100 % 0x100) as u8,
        (x % 0x100) as u8,
    ]
}

/// Splits an address into its four octets, most significant first.
pub fn as_br(x: u32) -> (octets: [u8; 4])
    ensures
        octets@ == value_octets(x),
{
    assert(x >> 24u32 == x / 0x100_0000 && (x >> 24u32) < 0x100) by (bit_vector);
    assert((x >> 16u32) & 0xff == x / 0x1_0000 % 0x100 && (x >> 16u32) & 0xff < 0x100)
        by (bit_vector);
    assert((x >> 8u32) & 0xff == x / 0x100 % 0x100 && (x >> 8u32) & 0xff < 0x100) by (bit_vector);
    assert(x & 0xff == x % 0x100 && x & 0xff < 0x100) by (bit_vector);
    let octets = [
        (x >> 24) as u8,
        ((x >> 16) & 0xff) as u8,
        ((x >> 8) & 0xff) as u8,
        (x & 0xff) as u8,
    ];
    assert(octets@ =~= value_octets(x));
    octets
}

/// Joins four octets, most significant first, into an address.
pub fn as_u32_be(array: &[u8; 4]) -> (x: u32)
    ensures
        x == octets_value(array@),
{
    let a: u32 = array[0] as u32;
    let b: u32 = array[1] as u32;
    let c: u32 = array[2] as u32;
    let d: u32 = array[3] as u32;
    assert(a << 24u32 == a * 0x100_0000 && b << 16u32 == b * 0x1_0000 && c << 8u32 == c * 0x100
        && d << 0u32 == d) by (bit_vector)
        requires
            a < 0x100,
            b < 0x100,
            c < 0x100,
            d < 0x100,
    ;
    (a << 24) + (b << 16) + (c << 8) + (d << 0)
}

/// Splitting an address and joining the octets gives the address back.
pub proof fn lemma_join_split(x: u32)
    ensures
        octets_value(value_octets(x)) == x,
{
}

/// Joining four octets and splitting the address gives the octets back.
pub proof fn lemma_split_join(octets: Seq<u8>)
    requires
        octets.len() == 4,
    ensures
        value_octets(octets_value(octets)) == octets,
{
    assert(value_octets(octets_value(octets)) =~= octets);
}

} // verus!
