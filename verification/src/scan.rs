//! Which addresses to look at for printers.

use vstd::prelude::*;

use crate::address::{
    addresses, contains_address, law_addresses_are_distinct,
    law_addresses_are_the_numbers_between, law_run_of_v4_addresses, law_run_of_v6_addresses,
    IpAddress, Targets,
};
use crate::network::{
    is_v4_netmask, is_v6_netmask, law_v4_netmask_has_one_prefix, law_v4_network_is_a_run,
    law_v6_network_is_a_run, v4_mask, v4_mask_of_network, v4_prefix, v4_prefix_of, v6_mask,
    v6_prefix,
};

verus! {

/// The IPv4 address and netmask of a network interface.
#[derive(Clone, Copy, Debug, PartialEq, Eq)]
pub struct InterfaceV4 {
    pub ip: u32,
    pub netmask: u32,
}

/// The IPv6 address and netmask of a network interface.
#[derive(Clone, Copy, Debug, PartialEq, Eq)]
pub struct InterfaceV6 {
    pub ip: u128,
    pub netmask: u128,
}

/// The address and the netmask of a network interface.
#[derive(Clone, Copy, Debug, PartialEq, Eq)]
pub enum InterfaceAddr {
    V4(InterfaceV4),
    V6(InterfaceV6),
}

/// A network interface of this machine.
#[derive(Clone, Copy, Debug, PartialEq, Eq)]
pub struct Interface {
    pub loopback: bool,
    pub addr: InterfaceAddr,
}

impl Interface {
    /// The address of the interface.
    pub open spec fn spec_ip(self) -> IpAddress {
        match self.addr {
            InterfaceAddr::V4(InterfaceV4 { ip, .. }) => IpAddress::V4(ip),
            InterfaceAddr::V6(InterfaceV6 { ip, .. }) => IpAddress::V6(ip),
        }
    }

    /// The address of the interface.
    #[verifier::when_used_as_spec(spec_ip)]
    pub fn ip(self) -> (ip: IpAddress)
        ensures
            ip == self.ip(),
            self.addr matches InterfaceAddr::V4(addr) ==> ip == IpAddress::V4(addr.ip),
            self.addr matches InterfaceAddr::V6(addr) ==> ip == IpAddress::V6(addr.ip),
    {
        match self.addr {
            InterfaceAddr::V4(InterfaceV4 { ip, .. }) => IpAddress::V4(ip),
            InterfaceAddr::V6(InterfaceV6 { ip, .. }) => IpAddress::V6(ip),
        }
    }
}

/// The addresses of an IPv4 network, without the one to skip.
pub open spec fn v4_targets(ip: u32, netmask: u32, skip: Option<int>) -> Seq<IpAddress> {
    addresses(true, (ip & netmask) as int, (ip | !netmask) as int, skip)
}

/// The addresses of an IPv6 network, without the one to skip.
pub open spec fn v6_targets(ip: u128, netmask: u128, skip: Option<int>) -> Seq<IpAddress> {
    addresses(false, (ip & netmask) as int, (ip | !netmask) as int, skip)
}

/// The eight bits just above the host bits of a network.
pub open spec fn rim_mask(prefix: u8) -> u32 {
    0xffu32 << ((32 - prefix) as u32)
}

/// The address in the place of another in the neighboring network with a number.
pub open spec fn neighbor_ip(ip: u32, prefix: u8, num: u32) -> u32 {
    (ip & !rim_mask(prefix)) | ((num << ((32 - prefix) as u32)) & rim_mask(prefix))
}

/// The address at which the gateway of a network is expected.
pub open spec fn gateway_of(ip: u32, prefix: u8) -> u32 {
    (ip & v4_mask(prefix)) | 1
}

/// A neighboring network that may be reachable.
#[derive(Debug)]
pub struct Neighbor {
    /// The address that answers where the network can be reached.
    pub gateway: u32,
    /// The addresses to look at then.
    pub targets: Targets,
}

/// The addresses of a [`Neighbor`].
pub struct NeighborView {
    pub gateway: u32,
    pub targets: Seq<IpAddress>,
}

impl View for Neighbor {
    type V = NeighborView;

    open spec fn view(&self) -> NeighborView {
        NeighborView { gateway: self.gateway, targets: self.targets@ }
    }
}

impl Neighbor {
    /// The addresses to look at, if the gateway answered.
    pub fn reached(self, gateway_answered: bool) -> (targets: Option<Targets>)
        ensures
            targets is Some <==> gateway_answered,
            targets matches Some(targets) ==> targets@ == self@.targets,
            targets matches Some(targets) ==> targets@ == self.targets@,
    {
        if gateway_answered {
            Some(self.targets)
        } else {
            None
        }
    }
}

/// The neighboring network with a number.
pub open spec fn neighbor(ip: u32, prefix: u8, num: u32) -> NeighborView {
    NeighborView {
        gateway: gateway_of(neighbor_ip(ip, prefix, num), prefix),
        targets: v4_targets(neighbor_ip(ip, prefix, num), v4_mask(prefix), None),
    }
}

/// The numbers below a bound of the neighboring networks, in ascending order.
pub open spec fn neighbor_numbers(ip: u32, prefix: u8, bound: nat) -> Seq<u32>
    decreases bound,
{
    if bound == 0 {
        Seq::empty()
    } else {
        let num = (bound - 1) as u32;
        let before = neighbor_numbers(ip, prefix, (bound - 1) as nat);
        if neighbor_ip(ip, prefix, num) == ip {
            before
        } else {
            before.push(num)
        }
    }
}

/// The neighboring networks with numbers below a bound, in ascending order.
pub open spec fn neighbors_below(ip: u32, prefix: u8, bound: nat) -> Seq<NeighborView> {
    neighbor_numbers(ip, prefix, bound).map_values(|num: u32| neighbor(ip, prefix, num))
}

/// The neighboring networks: all those with the numbers 0 to 255, without the
/// network itself.
pub open spec fn neighbors(ip: u32, prefix: u8) -> Seq<NeighborView> {
    neighbors_below(ip, prefix, 256)
}

/// The views of some neighboring networks.
pub open spec fn neighbors_view(neighbors: Seq<Neighbor>) -> Seq<NeighborView> {
    neighbors.map_values(|neighbor: Neighbor| neighbor@)
}

/// Finds the neighboring networks of a network of at most 256 addresses.
pub fn neighbor_networks(ip: u32, prefix: u8) -> (found: Vec<Neighbor>)
    requires
        24 <= prefix <= 32,
    ensures
        neighbors_view(found@) == neighbors(ip, prefix),
{
    let shift: u32 = 32 - prefix as u32;
    let rim: u32 = 0xffu32 << shift;
    let keep: u32 = !rim;
    let mut found: Vec<Neighbor> = Vec::new();
    let mut num: u32 = 0;
    while num < 256
        invariant
            24 <= prefix <= 32,
            shift == 32 - prefix,
            rim == rim_mask(prefix),
            keep == !rim,
            num <= 256,
            neighbors_view(found@) == neighbors_below(ip, prefix, num as nat),
        decreases 256 - num,
    {
        let neigh_ip: u32 = (ip & keep) | ((num << shift) & rim);
        if neigh_ip != ip {
            let mask: u32 = v4_mask_of_network(neigh_ip, prefix);
            let gateway: u32 = (neigh_ip & mask) | 1;
            let first: u32 = neigh_ip & mask;
            let last: u32 = neigh_ip | !mask;
            let targets: Targets = Targets::new(true, first as u128, last as u128, None);
            found.push(Neighbor { gateway, targets });
            assert(neighbors_below(ip, prefix, (num + 1) as nat) == neighbors_below(
                ip,
                prefix,
                num as nat,
            ).push(neighbor(ip, prefix, num)));
        }
        num = num + 1;
    }
    found
}

/// The networks to look at on behalf of an interface.
#[derive(Debug)]
pub struct NetworkScan {
    /// The addresses of the interface's own network, without its own.
    pub targets: Targets,
    /// The neighboring networks.
    pub neighbors: Vec<Neighbor>,
}

/// What to do about an interface.
#[derive(Debug)]
pub enum InterfaceScan {
    /// The interface leads to no other machine.
    Loopback,
    /// An interface before it has the same address.
    AlreadyTried,
    /// The netmask does not describe a network.
    UnusableNetwork,
    /// The interface's networks are looked at.
    Network(NetworkScan),
}

/// The addresses of an [`InterfaceScan`].
pub enum InterfaceScanView {
    Loopback,
    AlreadyTried,
    UnusableNetwork,
    Network { targets: Seq<IpAddress>, neighbors: Seq<NeighborView> },
}

impl View for InterfaceScan {
    type V = InterfaceScanView;

    open spec fn view(&self) -> InterfaceScanView {
        match *self {
            InterfaceScan::Loopback => InterfaceScanView::Loopback,
            InterfaceScan::AlreadyTried => InterfaceScanView::AlreadyTried,
            InterfaceScan::UnusableNetwork => InterfaceScanView::UnusableNetwork,
            InterfaceScan::Network(scan) => InterfaceScanView::Network {
                targets: scan.targets@,
                neighbors: neighbors_view(scan.neighbors@),
            },
        }
    }
}

/// Whether an interface before a place, other than a loopback, has an address.
pub open spec fn tried_before(interfaces: Seq<Interface>, place: int, ip: IpAddress) -> bool {
    exists|i: int|
        0 <= i < place && !(#[trigger] interfaces[i]).loopback && interfaces[i].ip() == ip
}

/// The networks to look at on behalf of an address and a netmask.
pub open spec fn network_scan(addr: InterfaceAddr, cluster_search: bool) -> InterfaceScanView {
    match addr {
        InterfaceAddr::V4(InterfaceV4 { ip, netmask }) => if is_v4_netmask(netmask) {
            let prefix = v4_prefix_of(netmask);
            InterfaceScanView::Network {
                targets: v4_targets(ip, netmask, Some(ip as int)),
                neighbors: if cluster_search && prefix >= 24 {
                    neighbors(ip, prefix)
                } else {
                    Seq::empty()
                },
            }
        } else {
            InterfaceScanView::UnusableNetwork
        },
        InterfaceAddr::V6(InterfaceV6 { ip, netmask }) => if is_v6_netmask(netmask) {
            InterfaceScanView::Network {
                targets: v6_targets(ip, netmask, Some(ip as int)),
                neighbors: Seq::empty(),
            }
        } else {
            InterfaceScanView::UnusableNetwork
        },
    }
}

/// What to do about the interface at a place.
pub open spec fn interface_scan(
    interfaces: Seq<Interface>,
    place: int,
    cluster_search: bool,
) -> InterfaceScanView {
    let interface = interfaces[place];
    if interface.loopback {
        InterfaceScanView::Loopback
    } else if tried_before(interfaces, place, interface.ip()) {
        InterfaceScanView::AlreadyTried
    } else {
        network_scan(interface.addr, cluster_search)
    }
}

/// What to do about each of some interfaces, in their order.
pub open spec fn planned(interfaces: Seq<Interface>, cluster_search: bool) -> Seq<
    InterfaceScanView,
> {
    Seq::new(interfaces.len(), |i: int| interface_scan(interfaces, i, cluster_search))
}

/// The views of the parts of a plan.
pub open spec fn plan_view(plan: Seq<InterfaceScan>) -> Seq<InterfaceScanView> {
    plan.map_values(|scan: InterfaceScan| scan@)
}

/// Finds the networks to look at on behalf of an address and a netmask.
///
/// If `cluster_search` is true and the network is an IPv4 network at most /24
/// big, its neighboring networks are among them.
pub fn scan_network(addr: InterfaceAddr, cluster_search: bool) -> (scan: InterfaceScan)
    ensures
        scan@ == network_scan(addr, cluster_search),
{
    match addr {
        InterfaceAddr::V4(InterfaceV4 { ip, netmask }) => {
            match v4_prefix(ip, netmask) {
                Ok(prefix) => {
                    proof {
                        law_v4_netmask_has_one_prefix(prefix);
                        law_v4_network_is_a_run(ip, prefix, ip);
                    }
                    let first: u32 = ip & netmask;
                    let last: u32 = ip | !netmask;
                    let targets: Targets = Targets::new(
                        true,
                        first as u128,
                        last as u128,
                        Some(ip as u128),
                    );
                    let neighbors: Vec<Neighbor> = if cluster_search && prefix >= 24 {
                        neighbor_networks(ip, prefix)
                    } else {
                        Vec::new()
                    };
                    assert(!(cluster_search && prefix >= 24) ==> neighbors_view(neighbors@)
                        == Seq::<NeighborView>::empty());
                    InterfaceScan::Network(NetworkScan { targets, neighbors })
                },
                Err(_) => InterfaceScan::UnusableNetwork,
            }
        },
        InterfaceAddr::V6(InterfaceV6 { ip, netmask }) => {
            match v6_prefix(ip, netmask) {
                Ok(_) => {
                    let first: u128 = ip & netmask;
                    let last: u128 = ip | !netmask;
                    let targets: Targets = Targets::new(false, first, last, Some(ip));
                    let neighbors: Vec<Neighbor> = Vec::new();
                    assert(neighbors_view(neighbors@) == Seq::<NeighborView>::empty());
                    InterfaceScan::Network(NetworkScan { targets, neighbors })
                },
                Err(_) => InterfaceScan::UnusableNetwork,
            }
        },
    }
}

/// Plans a scan of the networks of some interfaces: what to do about each, in
/// their order.
pub fn plan_scan(interfaces: &Vec<Interface>, cluster_search: bool) -> (plan: Vec<InterfaceScan>)
    ensures
        plan_view(plan@) == planned(interfaces@, cluster_search),
{
    let mut tried: Vec<IpAddress> = Vec::new();
    let mut plan: Vec<InterfaceScan> = Vec::new();
    let mut i: usize = 0;
    while i < interfaces.len()
        invariant
            i <= interfaces@.len(),
            plan@.len() == i,
            forall|ip: IpAddress| #[trigger]
                tried@.contains(ip) <==> tried_before(interfaces@, i as int, ip),
            forall|k: int|
                0 <= k < i ==> (#[trigger] plan@[k])@ == interface_scan(
                    interfaces@,
                    k,
                    cluster_search,
                ),
        decreases interfaces@.len() - i,
    {
        let interface: Interface = interfaces[i];
        let ip: IpAddress = interface.ip();
        let ghost before = tried@;
        if interface.loopback {
            plan.push(InterfaceScan::Loopback);
        } else if contains_address(&tried, ip) {
            plan.push(InterfaceScan::AlreadyTried);
        } else {
            tried.push(ip);
            plan.push(scan_network(interface.addr, cluster_search));
        }
        proof {
            assert forall|other: IpAddress| #[trigger] tried@.contains(other) <==> tried_before(
                interfaces@,
                i + 1,
                other,
            ) by {
                if tried_before(interfaces@, i as int, other) {
                    let j = choose|j: int|
                        0 <= j < i && !(#[trigger] interfaces@[j]).loopback && interfaces@[j].ip()
                            == other;
                    assert(interfaces@[j].ip() == other);
                    assert(before.contains(other));
                    let k = choose|k: int| 0 <= k < before.len() && before[k] == other;
                    assert(tried@[k] == other);
                } else if !interface.loopback && other == ip {
                    assert(interfaces@[i as int].ip() == other);
                    assert(tried@[before.len() as int] == other);
                } else if tried@.contains(other) {
                    let k = choose|k: int| 0 <= k < tried@.len() && tried@[k] == other;
                    assert(before.contains(other));
                }
            }
        }
        i = i + 1;
    }
    plan
}

/// The number of addresses at which a printer was found.
pub open spec fn number_found(results: Seq<bool>) -> nat {
    results.filter(|printer: bool| printer).len()
}

/// Counts the addresses at which a printer was found.
pub fn count_found(results: &Vec<bool>) -> (found: u32)
    requires
        number_found(results@) <= u32::MAX,
    ensures
        found == number_found(results@),
{
    let mut found: u32 = 0;
    let mut i: usize = 0;
    while i < results.len()
        invariant
            i <= results@.len(),
            number_found(results@) <= u32::MAX,
            found == number_found(results@.take(i as int)),
        decreases results@.len() - i,
    {
        proof {
            let done = results@.take(i + 1);
            reveal_with_fuel(Seq::filter, 2);
            assert(done.drop_last() == results@.take(i as int));
            assert(results@ == done + results@.skip(i + 1));
            Seq::filter_distributes_over_add(
                done,
                results@.skip(i + 1),
                |printer: bool| printer,
            );
        }
        if results[i] {
            found = found + 1;
        }
        i = i + 1;
    }
    assert(results@.take(results@.len() as int) == results@);
    found
}

/// The own network of an IPv4 interface is visited whole, each address once, but
/// for the address of the interface itself.
pub proof fn law_v4_network_is_visited_whole(ip: u32, prefix: u8, other: u32)
    requires
        prefix <= 32,
    ensures
        v4_targets(ip, v4_mask(prefix), Some(ip as int)).contains(IpAddress::V4(other)) <==> {
            &&& other & v4_mask(prefix) == ip & v4_mask(prefix)
            &&& other != ip
        },
        v4_targets(ip, v4_mask(prefix), Some(ip as int)).no_duplicates(),
{
    let first = (ip & v4_mask(prefix)) as int;
    let last = (ip | !v4_mask(prefix)) as int;
    law_v4_network_is_a_run(ip, prefix, other);
    law_addresses_are_the_numbers_between(true, first, last, Some(ip as int), other as int);
    law_addresses_are_distinct(true, first, last, Some(ip as int));
}

/// The own network of an IPv6 interface is visited whole, each address once, but
/// for the address of the interface itself.
pub proof fn law_v6_network_is_visited_whole(ip: u128, prefix: u8, other: u128)
    requires
        prefix <= 128,
    ensures
        v6_targets(ip, v6_mask(prefix), Some(ip as int)).contains(IpAddress::V6(other)) <==> {
            &&& other & v6_mask(prefix) == ip & v6_mask(prefix)
            &&& other != ip
        },
        v6_targets(ip, v6_mask(prefix), Some(ip as int)).no_duplicates(),
{
    let first = (ip & v6_mask(prefix)) as int;
    let last = (ip | !v6_mask(prefix)) as int;
    law_v6_network_is_a_run(ip, prefix, other);
    law_addresses_are_the_numbers_between(false, first, last, Some(ip as int), other as int);
    law_addresses_are_distinct(false, first, last, Some(ip as int));
}

/// A neighboring network is visited whole, each address once.
pub proof fn law_neighbor_is_visited_whole(ip: u32, prefix: u8, num: u32, other: u32)
    requires
        24 <= prefix <= 32,
    ensures
        neighbor(ip, prefix, num).targets.contains(IpAddress::V4(other)) <==> other & v4_mask(
            prefix,
        ) == neighbor_ip(ip, prefix, num) & v4_mask(prefix),
        neighbor(ip, prefix, num).targets.no_duplicates(),
{
    let neighbor = neighbor_ip(ip, prefix, num);
    let first = (neighbor & v4_mask(prefix)) as int;
    let last = (neighbor | !v4_mask(prefix)) as int;
    law_v4_network_is_a_run(neighbor, prefix, other);
    law_addresses_are_the_numbers_between(true, first, last, None, other as int);
    law_addresses_are_distinct(true, first, last, None);
}

/// The number of an interface's own network among its neighbors.
pub open spec fn own_number(ip: u32, prefix: u8) -> u32 {
    (ip >> ((32 - prefix) as u32)) & 0xff
}

/// A number leads back to the own network exactly where it is its own, and two
/// numbers never lead to the same network.
pub proof fn law_neighbors_differ(ip: u32, prefix: u8, a: u32, b: u32)
    requires
        24 <= prefix <= 32,
        a <= 255,
        b <= 255,
    ensures
        neighbor_ip(ip, prefix, a) == ip <==> a == own_number(ip, prefix),
        neighbor_ip(ip, prefix, a) & v4_mask(prefix) == neighbor_ip(ip, prefix, b) & v4_mask(prefix)
            <==> a == b,
        own_number(ip, prefix) <= 255,
{
    let shift = (32 - prefix) as u32;
    assert(shift <= 8 && a <= 255 ==> ((ip & !(0xffu32 << shift)) | ((a << shift) & (0xffu32
        << shift)) == ip <==> a == (ip >> shift) & 0xff)) by (bit_vector);
    assert(shift <= 8 && a <= 255 && b <= 255 ==> ((((ip & !(0xffu32 << shift)) | ((a << shift) & (
    0xffu32 << shift))) & (0xffff_ffffu32 << shift) == ((ip & !(0xffu32 << shift)) | ((b << shift)
        & (0xffu32 << shift))) & (0xffff_ffffu32 << shift)) <==> a == b)) by (bit_vector);
    assert((ip >> shift) & 0xff <= 255) by (bit_vector);
}

/// No address is visited on behalf of two neighboring networks, nor on behalf of
/// a neighboring network and the own one.
pub proof fn law_networks_are_disjoint(ip: u32, prefix: u8, a: u32, b: u32, other: u32)
    requires
        24 <= prefix <= 32,
        a <= 255,
        b <= 255,
        a != b,
    ensures
        neighbor(ip, prefix, a).targets.contains(IpAddress::V4(other)) ==> !neighbor(
            ip,
            prefix,
            b,
        ).targets.contains(IpAddress::V4(other)),
        a != own_number(ip, prefix) && neighbor(ip, prefix, a).targets.contains(
            IpAddress::V4(other),
        ) ==> !v4_targets(ip, v4_mask(prefix), Some(ip as int)).contains(IpAddress::V4(other)),
{
    law_neighbors_differ(ip, prefix, a, b);
    law_neighbor_is_visited_whole(ip, prefix, a, other);
    law_neighbor_is_visited_whole(ip, prefix, b, other);
    law_v4_network_is_visited_whole(ip, prefix, other);
    let own = own_number(ip, prefix);
    law_neighbors_differ(ip, prefix, a, own);
    law_neighbors_differ(ip, prefix, own, own);
}

/// The own address is never visited, neither on behalf of the own network nor on
/// behalf of a neighboring one.
pub proof fn law_own_address_is_never_visited(ip: u32, prefix: u8, num: u32)
    requires
        24 <= prefix <= 32,
        num <= 255,
        num != own_number(ip, prefix),
    ensures
        !v4_targets(ip, v4_mask(prefix), Some(ip as int)).contains(IpAddress::V4(ip)),
        !neighbor(ip, prefix, num).targets.contains(IpAddress::V4(ip)),
{
    let own = own_number(ip, prefix);
    law_v4_network_is_visited_whole(ip, prefix, ip);
    law_neighbor_is_visited_whole(ip, prefix, num, ip);
    law_neighbors_differ(ip, prefix, num, num);
    law_neighbors_differ(ip, prefix, num, own);
    law_neighbors_differ(ip, prefix, own, own);
}

/// The gateway of a neighboring network of more than one address is one of its
/// addresses.
pub proof fn law_gateway_is_in_its_network(ip: u32, prefix: u8, num: u32)
    requires
        24 <= prefix <= 31,
    ensures
        neighbor(ip, prefix, num).targets.contains(
            IpAddress::V4(neighbor(ip, prefix, num).gateway),
        ),
{
    let gateway = neighbor(ip, prefix, num).gateway;
    let neighbor = neighbor_ip(ip, prefix, num);
    let shift = (32 - prefix) as u32;
    let mask = 0xffff_ffffu32 << shift;
    assert(1 <= shift && shift <= 8 && mask == 0xffff_ffffu32 << shift ==> ((neighbor & mask) | 1)
        & mask == neighbor & mask) by (bit_vector);
    law_neighbor_is_visited_whole(ip, prefix, num, gateway);
}

/// The numbers of the neighboring networks below a bound are those other than
/// the own one, each once and in ascending order.
pub proof fn law_neighbor_numbers(ip: u32, prefix: u8, bound: nat)
    requires
        24 <= prefix <= 32,
        bound <= 256,
    ensures
        forall|num: u32| #[trigger]
            neighbor_numbers(ip, prefix, bound).contains(num) <==> num < bound && num != own_number(
                ip,
                prefix,
            ),
        forall|i: int, j: int|
            0 <= i < j < neighbor_numbers(ip, prefix, bound).len() ==> neighbor_numbers(
                ip,
                prefix,
                bound,
            )[i] < neighbor_numbers(ip, prefix, bound)[j],
        neighbor_numbers(ip, prefix, bound).len() == (if own_number(ip, prefix) < bound {
            bound - 1
        } else {
            bound as int
        }),
    decreases bound,
{
    if bound > 0 {
        let below = (bound - 1) as nat;
        let num = below as u32;
        law_neighbor_numbers(ip, prefix, below);
        law_neighbors_differ(ip, prefix, num, num);
        let before = neighbor_numbers(ip, prefix, below);
        let all = neighbor_numbers(ip, prefix, bound);
        assert forall|i: int| 0 <= i < before.len() implies before[i] < below by {
            assert(before.contains(before[i]));
        }
        assert forall|other: u32| #[trigger]
            all.contains(other) <==> other < bound && other != own_number(ip, prefix) by {
            if all.len() > before.len() {
                assert(all[before.len() as int] == num);
                if before.contains(other) {
                    let i = choose|i: int| 0 <= i < before.len() && before[i] == other;
                    assert(all[i] == other);
                }
            }
        }
    }
}

/// Every other network that agrees with the own one on all bits above the eight
/// that number it is among the 255 neighboring networks, with its gateway and
/// its addresses.
pub proof fn law_every_neighbor_is_listed(ip: u32, prefix: u8, other: u32)
    requires
        24 <= prefix <= 32,
        other & v4_mask((prefix - 8) as u8) == ip & v4_mask((prefix - 8) as u8),
        other & v4_mask(prefix) != ip & v4_mask(prefix),
    ensures
        neighbors(ip, prefix).len() == 255,
        exists|i: int|
            0 <= i < 255 && (#[trigger] neighbors(ip, prefix)[i]).gateway == gateway_of(
                other,
                prefix,
            ) && neighbors(ip, prefix)[i].targets.contains(IpAddress::V4(other)),
{
    let shift = (32 - prefix) as u32;
    let wide = (32 - (prefix - 8)) as u32;
    let num = own_number(other, prefix);
    let rim = 0xffu32 << shift;
    let mask = 0xffff_ffffu32 << shift;
    let cluster = 0xffff_ffffu32 << wide;
    assert(shift <= 8 && wide == shift + 8 && rim == 0xffu32 << shift && mask == 0xffff_ffffu32
        << shift && cluster == 0xffff_ffffu32 << wide && num == (other >> shift) & 0xff && other
        & cluster == ip & cluster ==> ((ip & !rim) | ((num << shift) & rim)) & mask == other & mask)
        by (bit_vector);
    law_neighbors_differ(other, prefix, 0, 0);
    law_neighbors_differ(ip, prefix, num, num);
    law_neighbor_numbers(ip, prefix, 256);
    law_neighbor_is_visited_whole(ip, prefix, num, other);
    let numbers = neighbor_numbers(ip, prefix, 256);
    assert(numbers.contains(num));
    let i = choose|i: int| 0 <= i < numbers.len() && numbers[i] == num;
    assert(neighbors(ip, prefix)[i] == neighbor(ip, prefix, num));
}

/// Neighboring networks are looked at only where a cluster search was asked for,
/// and only on behalf of an IPv4 network of at most 256 addresses.
pub proof fn law_neighbors_only_in_cluster_search(addr: InterfaceAddr, cluster_search: bool)
    ensures
        network_scan(addr, cluster_search) matches InterfaceScanView::Network { neighbors, .. }
            ==> neighbors.len() > 0 ==> {
            &&& cluster_search
            &&& addr matches InterfaceAddr::V4(InterfaceV4 { netmask, .. })
            &&& v4_prefix_of(netmask) >= 24
        },
{
}

/// Neighboring networks agree with the own network on all bits above the eight
/// that number them.
pub proof fn law_neighbors_are_in_one_cluster(ip: u32, prefix: u8, num: u32)
    requires
        24 <= prefix <= 32,
    ensures
        neighbor_ip(ip, prefix, num) & v4_mask((prefix - 8) as u8) == ip & v4_mask(
            (prefix - 8) as u8,
        ),
{
    let shift = (32 - prefix) as u32;
    let wide = (32 - (prefix - 8)) as u32;
    let rim = 0xffu32 << shift;
    let mask = 0xffff_ffffu32 << wide;
    assert(shift <= 8 && wide == shift + 8 && rim == 0xffu32 << shift && mask == 0xffff_ffffu32
        << wide ==> ((ip & !rim) | ((num << shift) & rim)) & mask == ip & mask) by (bit_vector);
}

/// Of the interfaces with one address, only the first is looked at.
pub proof fn law_interface_is_tried_once(
    interfaces: Seq<Interface>,
    i: int,
    j: int,
    cluster_search: bool,
)
    requires
        0 <= i < j < interfaces.len(),
        !interfaces[i].loopback,
        interfaces[i].ip() == interfaces[j].ip(),
    ensures
        !(interface_scan(interfaces, j, cluster_search) is Network),
{
}

/// The numbers of the neighboring networks are all in order, but for the own one,
/// which is left out.
proof fn lemma_number_at(ip: u32, prefix: u8, bound: nat, place: int)
    requires
        24 <= prefix <= 32,
        bound <= 256,
        0 <= place < neighbor_numbers(ip, prefix, bound).len(),
    ensures
        neighbor_numbers(ip, prefix, bound)[place] == (if place < own_number(ip, prefix) {
            place
        } else {
            place + 1
        }),
    decreases bound,
{
    if bound > 0 {
        let below = (bound - 1) as nat;
        law_neighbor_numbers(ip, prefix, below);
        law_neighbor_numbers(ip, prefix, bound);
        law_neighbors_differ(ip, prefix, below as u32, 0);
        if place < neighbor_numbers(ip, prefix, below).len() {
            lemma_number_at(ip, prefix, below, place);
        }
    }
}

/// A network of at most 256 addresses has 255 neighboring networks: in order, all
/// those that differ from it in the eight bits above the host bits. The gateway of
/// each is its first address with the lowest bit set, and its addresses are those
/// that agree with it on the bits of the netmask, each once.
pub proof fn law_list_of_neighbors(
    ip: u32,
    prefix: u8,
    num: u32,
    place: int,
    other: u32,
    v6: u128,
)
    requires
        24 <= prefix <= 32,
        num <= 255,
        num != (ip >> ((32 - prefix) as u32)) & 0xff,
        num < (ip >> ((32 - prefix) as u32)) & 0xff ==> place == num,
        num > (ip >> ((32 - prefix) as u32)) & 0xff ==> place == num - 1,
    ensures
        ({
            let shift = (32 - prefix) as u32;
            let network = (ip & !(0xffu32 << shift)) | (num << shift);
            let mask = 0xffff_ffffu32 << shift;
            let listed = neighbors(ip, prefix)[place];
            &&& neighbors(ip, prefix).len() == 255
            &&& listed.gateway == (network & mask) | 1
            &&& listed.targets.contains(IpAddress::V4(other)) <==> other & mask == network & mask
            &&& listed.targets.no_duplicates()
            &&& !listed.targets.contains(IpAddress::V6(v6))
            &&& forall|i: int, j: int|
                0 <= i < j < listed.targets.len() ==> (#[trigger] listed.targets[i])->V4_0 < (
                #[trigger] listed.targets[j])->V4_0
        }),
{
    let shift = (32 - prefix) as u32;
    law_neighbors_differ(ip, prefix, 0, 0);
    law_neighbor_numbers(ip, prefix, 256);
    lemma_number_at(ip, prefix, 256, place);
    assert(neighbors(ip, prefix)[place] == neighbor(ip, prefix, num));
    assert(shift <= 8 && num <= 255 ==> (num << shift) & (0xffu32 << shift) == num << shift)
        by (bit_vector);
    law_neighbor_is_visited_whole(ip, prefix, num, other);
    let network = neighbor_ip(ip, prefix, num);
    law_run_of_v4_addresses(network & v4_mask(prefix), network | !v4_mask(prefix), None, other);
}

/// A printer that is found counts once, and anything else does not.
pub proof fn law_found_printers_are_counted(results: Seq<bool>, printer: bool)
    ensures
        number_found(Seq::<bool>::empty()) == 0,
        number_found(results.push(printer)) == number_found(results) + (if printer {
            1nat
        } else {
            0nat
        }),
{
    reveal_with_fuel(Seq::filter, 2);
    assert(results.push(printer).drop_last() == results);
}

/// There is a part of the plan for each interface: a loopback is left out, and so
/// is an interface with the address of one before it that is no loopback, and one
/// whose netmask is none; the networks of all others are looked at.
pub proof fn law_plan_covers_each_interface(
    interfaces: Seq<Interface>,
    place: int,
    cluster_search: bool,
)
    requires
        0 <= place < interfaces.len(),
    ensures
        planned(interfaces, cluster_search).len() == interfaces.len(),
        ({
            let part = planned(interfaces, cluster_search)[place];
            let tried = exists|i: int|
                0 <= i < place && !(#[trigger] interfaces[i]).loopback && match (
                    interfaces[i].addr,
                    interfaces[place].addr,
                ) {
                    (InterfaceAddr::V4(a), InterfaceAddr::V4(b)) => a.ip == b.ip,
                    (InterfaceAddr::V6(a), InterfaceAddr::V6(b)) => a.ip == b.ip,
                    _ => false,
                };
            let usable = match interfaces[place].addr {
                InterfaceAddr::V4(a) => is_v4_netmask(a.netmask),
                InterfaceAddr::V6(a) => is_v6_netmask(a.netmask),
            };
            &&& part is Loopback <==> interfaces[place].loopback
            &&& part is AlreadyTried <==> !interfaces[place].loopback && tried
            &&& part is UnusableNetwork <==> !interfaces[place].loopback && !tried && !usable
            &&& part is Network <==> !interfaces[place].loopback && !tried && usable
            &&& part is Network ==> part == network_scan(interfaces[place].addr, cluster_search)
        }),
{
    let interface = interfaces[place];
    if tried_before(interfaces, place, interface.ip()) {
        let i = choose|i: int|
            0 <= i < place && !(#[trigger] interfaces[i]).loopback && interfaces[i].ip()
                == interface.ip();
        assert(interfaces[i].ip() == interface.ip());
    }
}

/// The neighboring networks of an interface are looked for exactly where a cluster
/// search was asked for and the network is an IPv4 network of at most 256
/// addresses; and then all 255 of them are.
pub proof fn law_neighbors_of_an_interface(ip: u32, prefix: u8, v6: InterfaceV6, cluster: bool)
    requires
        prefix <= 32,
    ensures
        ({
            let netmask = if prefix == 0 {
                0
            } else {
                0xffff_ffffu32 << ((32 - prefix) as u32)
            };
            &&& network_scan(
                InterfaceAddr::V4(InterfaceV4 { ip, netmask }),
                cluster,
            ) matches InterfaceScanView::Network { neighbors: found, .. }
            &&& cluster && prefix >= 24 ==> found == neighbors(ip, prefix) && found.len() == 255
            &&& !(cluster && prefix >= 24) ==> found.len() == 0
        }),
        network_scan(InterfaceAddr::V6(v6), cluster) matches InterfaceScanView::Network {
            neighbors: found,
            ..
        } ==> found.len() == 0,
{
    assert(is_v4_netmask(v4_mask(prefix)));
    law_v4_netmask_has_one_prefix(prefix);
    if prefix >= 24 {
        law_neighbors_differ(ip, prefix, 0, 0);
        law_neighbor_numbers(ip, prefix, 256);
    }
}

/// The views of plans hold each of their parts in its place.
pub proof fn law_views_of_plans(
    plan: Seq<InterfaceScan>,
    neighbors: Seq<Neighbor>,
    network: NetworkScan,
    neighbor: Neighbor,
)
    ensures
        plan_view(plan).len() == plan.len(),
        forall|i: int| 0 <= i < plan.len() ==> #[trigger] plan_view(plan)[i] == plan[i]@,
        neighbors_view(neighbors).len() == neighbors.len(),
        forall|i: int|
            0 <= i < neighbors.len() ==> #[trigger] neighbors_view(neighbors)[i] == neighbors[i]@,
        neighbor@.gateway == neighbor.gateway,
        neighbor@.targets == neighbor.targets@,
        InterfaceScan::Loopback@ == InterfaceScanView::Loopback,
        InterfaceScan::AlreadyTried@ == InterfaceScanView::AlreadyTried,
        InterfaceScan::UnusableNetwork@ == InterfaceScanView::UnusableNetwork,
        InterfaceScan::Network(network)@ == (InterfaceScanView::Network {
            targets: network.targets@,
            neighbors: neighbors_view(network.neighbors@),
        }),
{
}

/// The own network of an interface is looked at as a whole, in ascending order and
/// each address once, but for the address of the interface, whether a cluster
/// search was asked for or not.
pub proof fn law_own_network_of_an_interface(
    v4: InterfaceV4,
    v6: InterfaceV6,
    cluster_search: bool,
    other4: u32,
    other6: u128,
)
    ensures
        network_scan(InterfaceAddr::V4(v4), cluster_search) matches InterfaceScanView::Network {
            targets,
            ..
        } ==> {
            &&& targets.contains(IpAddress::V4(other4)) <==> other4 & v4.netmask == v4.ip & v4.netmask
                && other4 != v4.ip
            &&& forall|i: int| 0 <= i < targets.len() ==> (#[trigger] targets[i]) is V4
            &&& forall|i: int, j: int|
                0 <= i < j < targets.len() ==> (#[trigger] targets[i])->V4_0 < (
                #[trigger] targets[j])->V4_0
        },
        network_scan(InterfaceAddr::V6(v6), cluster_search) matches InterfaceScanView::Network {
            targets,
            ..
        } ==> {
            &&& targets.contains(IpAddress::V6(other6)) <==> other6 & v6.netmask == v6.ip & v6.netmask
                && other6 != v6.ip
            &&& forall|i: int| 0 <= i < targets.len() ==> (#[trigger] targets[i]) is V6
            &&& forall|i: int, j: int|
                0 <= i < j < targets.len() ==> (#[trigger] targets[i])->V6_0 < (
                #[trigger] targets[j])->V6_0
        },
{
    if is_v4_netmask(v4.netmask) {
        let prefix = v4_prefix_of(v4.netmask);
        law_v4_network_is_visited_whole(v4.ip, prefix, other4);
        law_run_of_v4_addresses(
            v4.ip & v4.netmask,
            v4.ip | !v4.netmask,
            Some(v4.ip as int),
            other4,
        );
    }
    if is_v6_netmask(v6.netmask) {
        let prefix = choose|prefix: u8|
            prefix <= 128 && v6.netmask == #[trigger] v6_mask(prefix);
        law_v6_network_is_visited_whole(v6.ip, prefix, other6);
        law_run_of_v6_addresses(
            v6.ip & v6.netmask,
            v6.ip | !v6.netmask,
            Some(v6.ip as int),
            other6,
        );
    }
}

} // verus!
