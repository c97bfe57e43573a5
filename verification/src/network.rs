//! IP networks: netmasks and prefixes.

use vstd::prelude::*;

verus! {

/// The netmask of an IPv4 prefix: that many leading ones.
pub open spec fn v4_mask(prefix: u8) -> u32 {
    if prefix == 0 {
        0
    } else {
        0xffff_ffffu32 << ((32 - prefix) as u32)
    }
}

/// The netmask of an IPv6 prefix: that many leading ones.
pub open spec fn v6_mask(prefix: u8) -> u128 {
    if prefix == 0 {
        0
    } else {
        0xffff_ffff_ffff_ffff_ffff_ffff_ffff_ffffu128 << ((128 - prefix) as u128)
    }
}

/// Whether a number is the netmask of an IPv4 prefix.
pub open spec fn is_v4_netmask(netmask: u32) -> bool {
    exists|prefix: u8| prefix <= 32 && netmask == #[trigger] v4_mask(prefix)
}

/// The prefix that an IPv4 netmask stands for.
pub open spec fn v4_prefix_of(netmask: u32) -> u8 {
    choose|prefix: u8| prefix <= 32 && netmask == #[trigger] v4_mask(prefix)
}

/// Whether a number is the netmask of an IPv6 prefix.
pub open spec fn is_v6_netmask(netmask: u128) -> bool {
    exists|prefix: u8| prefix <= 128 && netmask == #[trigger] v6_mask(prefix)
}

/// Declares `ipnetwork::IpNetworkError`, what is wrong with a network, of which
/// nothing is known here.
#[verifier::external_type_specification]
#[verifier::external_body]
pub struct ExIpNetworkError(ipnetwork::IpNetworkError);

/// Calls `ipnetwork::IpNetwork::with_netmask` on an IPv4 address and netmask, and
/// `ipnetwork::IpNetwork::prefix` on the network.
///
/// Claims that the netmask is accepted exactly where it is a run of ones followed
/// by a run of zeros, and that the prefix is the number of ones.
#[verifier::external_body]
pub(crate) fn v4_prefix(ip: u32, netmask: u32) -> (found: Result<u8, ipnetwork::IpNetworkError>)
    ensures
        found matches Ok(prefix) ==> prefix <= 32 && netmask == v4_mask(prefix),
        found is Ok <==> is_v4_netmask(netmask),
{
    let network = ipnetwork::IpNetwork::with_netmask(
        ip.to_be_bytes().into(),
        netmask.to_be_bytes().into(),
    )?;
    Ok(network.prefix())
}

/// Calls `ipnetwork::IpNetwork::with_netmask` on an IPv6 address and netmask, and
/// `ipnetwork::IpNetwork::prefix` on the network.
///
/// Claims that the netmask is accepted exactly where it is a run of ones followed
/// by a run of zeros, and that the prefix is the number of ones.
#[verifier::external_body]
pub(crate) fn v6_prefix(ip: u128, netmask: u128) -> (found: Result<u8, ipnetwork::IpNetworkError>)
    ensures
        found matches Ok(prefix) ==> prefix <= 128 && netmask == v6_mask(prefix),
        found is Ok <==> is_v6_netmask(netmask),
{
    let network = ipnetwork::IpNetwork::with_netmask(
        ip.to_be_bytes().into(),
        netmask.to_be_bytes().into(),
    )?;
    Ok(network.prefix())
}

/// Calls `ipnetwork::Ipv4Network::new` and `ipnetwork::Ipv4Network::mask`.
///
/// Claims that the mask is that of the prefix, whatever the address.
#[verifier::external_body]
pub(crate) fn v4_mask_of_network(ip: u32, prefix: u8) -> (mask: u32)
    requires
        prefix <= 32,
    ensures
        mask == v4_mask(prefix),
{
    ipnetwork::Ipv4Network::new(ip.into(), prefix).unwrap().mask().into()
}

/// Different IPv4 prefixes have different netmasks.
pub proof fn law_v4_netmask_has_one_prefix(prefix: u8)
    requires
        prefix <= 32,
    ensures
        v4_prefix_of(v4_mask(prefix)) == prefix,
{
    let other = v4_prefix_of(v4_mask(prefix));
    let a = (32 - prefix) as u32;
    let b = (32 - other) as u32;
    assert(a < 32 && b < 32 && 0xffff_ffffu32 << a == 0xffff_ffffu32 << b ==> a == b)
        by (bit_vector);
    assert(a < 32 ==> 0xffff_ffffu32 << a != 0) by (bit_vector);
    assert(b < 32 ==> 0xffff_ffffu32 << b != 0) by (bit_vector);
}

/// An address lies between the first and the last address of an IPv4 network
/// exactly where it agrees with the network on the bits of the netmask.
pub proof fn law_v4_network_is_a_run(ip: u32, prefix: u8, other: u32)
    requires
        prefix <= 32,
    ensures
        (ip & v4_mask(prefix)) <= other <= (ip | !v4_mask(prefix)) <==> other & v4_mask(prefix)
            == ip & v4_mask(prefix),
{
    if prefix == 0 {
        assert(ip & 0 == 0 && other & 0 == 0 && ip | !0u32 == 0xffff_ffff) by (bit_vector);
    } else {
        let shift = (32 - prefix) as u32;
        let mask = 0xffff_ffffu32 << shift;
        assert(shift < 32 && mask == 0xffff_ffffu32 << shift ==> ((ip & mask) <= other && other <= (
        ip | !mask) <==> other & mask == ip & mask)) by (bit_vector);
    }
}

/// An address lies between the first and the last address of an IPv6 network
/// exactly where it agrees with the network on the bits of the netmask.
pub proof fn law_v6_network_is_a_run(ip: u128, prefix: u8, other: u128)
    requires
        prefix <= 128,
    ensures
        (ip & v6_mask(prefix)) <= other <= (ip | !v6_mask(prefix)) <==> other & v6_mask(prefix)
            == ip & v6_mask(prefix),
{
    if prefix == 0 {
        assert(ip & 0 == 0 && other & 0 == 0 && ip | !0u128
            == 0xffff_ffff_ffff_ffff_ffff_ffff_ffff_ffff) by (bit_vector);
    } else {
        let shift = (128 - prefix) as u128;
        let mask = 0xffff_ffff_ffff_ffff_ffff_ffff_ffff_ffffu128 << shift;
        assert(shift < 128 && mask == 0xffff_ffff_ffff_ffff_ffff_ffff_ffff_ffffu128 << shift ==> ((
        ip & mask) <= other && other <= (ip | !mask) <==> other & mask == ip & mask))
            by (bit_vector);
    }
}

/// The netmask of an IPv4 prefix has ones in the places of the prefix, from the
/// left, and zeros in the others.
pub proof fn law_v4_mask_bits(prefix: u8, place: u32)
    requires
        prefix <= 32,
        place < 32,
    ensures
        (v4_mask(prefix) >> place) & 1 == 1 <==> place >= 32 - prefix,
{
    if prefix == 0 {
        assert((0u32 >> place) & 1 == 0) by (bit_vector);
    } else {
        let shift = (32 - prefix) as u32;
        assert(shift < 32 && place < 32 ==> (((0xffff_ffffu32 << shift) >> place) & 1 == 1 <==> place
            >= shift)) by (bit_vector);
    }
}

/// The netmask of an IPv6 prefix has ones in the places of the prefix, from the
/// left, and zeros in the others.
pub proof fn law_v6_mask_bits(prefix: u8, place: u128)
    requires
        prefix <= 128,
        place < 128,
    ensures
        (v6_mask(prefix) >> place) & 1 == 1 <==> place >= 128 - prefix,
{
    if prefix == 0 {
        assert((0u128 >> place) & 1 == 0) by (bit_vector);
    } else {
        let shift = (128 - prefix) as u128;
        assert(shift < 128 && place < 128 ==> (((0xffff_ffff_ffff_ffff_ffff_ffff_ffff_ffffu128
            << shift) >> place) & 1 == 1 <==> place >= shift)) by (bit_vector);
    }
}

/// A number is a netmask exactly where it is zero, or all ones moved to the left.
pub proof fn law_netmasks(v4: u32, v6: u128)
    ensures
        is_v4_netmask(v4) <==> v4 == 0 || exists|places: u32|
            places < 32 && v4 == #[trigger] (0xffff_ffffu32 << places),
        is_v6_netmask(v6) <==> v6 == 0 || exists|places: u128|
            places < 128 && v6 == #[trigger] (
            0xffff_ffff_ffff_ffff_ffff_ffff_ffff_ffffu128 << places),
{
    if is_v4_netmask(v4) {
        let prefix = choose|prefix: u8| prefix <= 32 && v4 == #[trigger] v4_mask(prefix);
        if prefix > 0 {
            assert(v4 == 0xffff_ffffu32 << ((32 - prefix) as u32));
        }
    }
    if v4 == 0 {
        assert(v4 == v4_mask(0));
    } else if exists|places: u32| places < 32 && v4 == #[trigger] (0xffff_ffffu32 << places) {
        let places = choose|places: u32|
            places < 32 && v4 == #[trigger] (0xffff_ffffu32 << places);
        assert(v4 == v4_mask((32 - places) as u8));
    }
    if is_v6_netmask(v6) {
        let prefix = choose|prefix: u8| prefix <= 128 && v6 == #[trigger] v6_mask(prefix);
        if prefix > 0 {
            assert(v6 == 0xffff_ffff_ffff_ffff_ffff_ffff_ffff_ffffu128 << ((128 - prefix) as u128));
        }
    }
    if v6 == 0 {
        assert(v6 == v6_mask(0));
    } else if exists|places: u128|
        places < 128 && v6 == #[trigger] (
        0xffff_ffff_ffff_ffff_ffff_ffff_ffff_ffffu128 << places) {
        let places = choose|places: u128|
            places < 128 && v6 == #[trigger] (
            0xffff_ffff_ffff_ffff_ffff_ffff_ffff_ffffu128 << places);
        assert(v6 == v6_mask((128 - places) as u8));
    }
}

} // verus!
