use impsupri::address::{contains_address, IpAddress, Targets};
use impsupri::scan::{
    count_found, neighbor_networks, plan_scan, scan_network, Interface, InterfaceAddr,
    InterfaceScan, InterfaceV4, InterfaceV6, NetworkScan,
};

fn ip(a: u8, b: u8, c: u8, d: u8) -> u32 {
    u32::from_be_bytes([a, b, c, d])
}

fn v4(ip: u32, netmask: u32) -> InterfaceAddr {
    InterfaceAddr::V4(InterfaceV4 { ip, netmask })
}

fn all(targets: &mut Targets) -> Vec<IpAddress> {
    let mut found = Vec::new();
    while let Some(target) = targets.next_target() {
        found.push(target);
    }
    found
}

fn network(scan: InterfaceScan) -> NetworkScan {
    match scan {
        InterfaceScan::Network(network) => network,
        other => panic!("no network: {:?}", other),
    }
}

#[test]
fn targets_are_visited_in_ascending_order() {
    let mut targets = Targets::new(true, 5, 8, Some(6));
    assert_eq!(all(&mut targets), vec![IpAddress::V4(5), IpAddress::V4(7), IpAddress::V4(8)]);
    assert_eq!(targets.next_target(), None);
}

#[test]
fn targets_end_with_the_last_address() {
    let last = u32::MAX as u128;
    let mut targets = Targets::new(true, last - 1, last, None);
    assert_eq!(all(&mut targets), vec![IpAddress::V4(u32::MAX - 1), IpAddress::V4(u32::MAX)]);
    let mut targets = Targets::new(false, u128::MAX - 1, u128::MAX, Some(u128::MAX));
    assert_eq!(all(&mut targets), vec![IpAddress::V6(u128::MAX - 1)]);
    let mut targets = Targets::new(true, 9, 8, None);
    assert_eq!(targets.next_target(), None);
    let mut targets = Targets::new(true, 9, 9, Some(9));
    assert_eq!(targets.next_target(), None);
}

#[test]
fn addresses_are_looked_up() {
    let list = vec![IpAddress::V4(1), IpAddress::V6(2)];
    assert!(contains_address(&list, IpAddress::V6(2)));
    assert!(!contains_address(&list, IpAddress::V4(2)));
    assert!(!contains_address(&Vec::new(), IpAddress::V4(2)));
}

#[test]
fn own_network_is_visited_without_the_own_address() {
    let own = ip(192, 168, 1, 77);
    let mut scan = network(scan_network(v4(own, ip(255, 255, 255, 0)), false));
    let targets = all(&mut scan.targets);
    assert_eq!(targets.len(), 255);
    assert_eq!(targets[0], IpAddress::V4(ip(192, 168, 1, 0)));
    assert_eq!(targets[254], IpAddress::V4(ip(192, 168, 1, 255)));
    assert!(!targets.contains(&IpAddress::V4(own)));
    assert!(scan.neighbors.is_empty());
}

#[test]
fn networks_of_any_size_are_described() {
    let mut scan = network(scan_network(v4(ip(10, 0, 0, 9), ip(255, 255, 255, 255)), false));
    assert_eq!(all(&mut scan.targets), vec![]);
    let mut scan = network(scan_network(v4(ip(10, 0, 0, 9), ip(255, 255, 255, 252)), false));
    assert_eq!(
        all(&mut scan.targets),
        vec![
            IpAddress::V4(ip(10, 0, 0, 8)),
            IpAddress::V4(ip(10, 0, 0, 10)),
            IpAddress::V4(ip(10, 0, 0, 11)),
        ]
    );
    let mut scan = network(scan_network(v4(ip(10, 0, 0, 9), 0), false));
    assert_eq!(scan.targets.next_target(), Some(IpAddress::V4(0)));
    let mut scan = network(scan_network(v4(ip(172, 16, 5, 4), ip(255, 240, 0, 0)), true));
    assert_eq!(scan.targets.next_target(), Some(IpAddress::V4(ip(172, 16, 0, 0))));
    assert!(scan.neighbors.is_empty());
}

#[test]
fn ipv6_networks_have_no_neighbors() {
    let own = 0x2001_0db8_0000_0000_0000_0000_0000_0005u128;
    let mask = u128::MAX << 2;
    let addr = InterfaceAddr::V6(InterfaceV6 { ip: own, netmask: mask });
    let mut scan = network(scan_network(addr, true));
    assert_eq!(
        all(&mut scan.targets),
        vec![IpAddress::V6(own - 1), IpAddress::V6(own + 1), IpAddress::V6(own + 2)]
    );
    assert!(scan.neighbors.is_empty());
}

#[test]
fn netmasks_with_holes_are_refused() {
    let own = ip(10, 0, 0, 9);
    for mask in [ip(255, 0, 255, 0), ip(0, 255, 255, 255), 1, 0x7fff_ffff] {
        assert!(matches!(scan_network(v4(own, mask), true), InterfaceScan::UnusableNetwork));
    }
    for mask in [1u128, u128::MAX >> 1, 0xffff_0000_ffff_0000_0000_0000_0000_0000] {
        let addr = InterfaceAddr::V6(InterfaceV6 { ip: 7, netmask: mask });
        assert!(matches!(scan_network(addr, true), InterfaceScan::UnusableNetwork));
    }
}

#[test]
fn every_netmask_of_a_prefix_is_accepted() {
    for prefix in 0u32..=32 {
        let mask = if prefix == 0 { 0 } else { u32::MAX << (32 - prefix) };
        let scan = network(scan_network(v4(ip(10, 1, 2, 3), mask), true));
        assert_eq!(scan.neighbors.is_empty(), prefix < 24);
    }
    for prefix in 0u32..=128 {
        let mask = if prefix == 0 { 0 } else { u128::MAX << (128 - prefix) };
        let addr = InterfaceAddr::V6(InterfaceV6 { ip: 3, netmask: mask });
        assert!(matches!(scan_network(addr, false), InterfaceScan::Network(_)));
    }
}

#[test]
fn neighbors_of_a_class_c_network() {
    let mut neighbors = neighbor_networks(ip(192, 168, 1, 77), 24);
    assert_eq!(neighbors.len(), 255);
    assert_eq!(neighbors[0].gateway, ip(192, 168, 0, 1));
    assert_eq!(neighbors[1].gateway, ip(192, 168, 2, 1));
    assert_eq!(neighbors[253].gateway, ip(192, 168, 254, 1));
    assert_eq!(neighbors[254].gateway, ip(192, 168, 255, 1));
    let last = all(&mut neighbors[254].targets);
    assert!(last.contains(&IpAddress::V4(ip(192, 168, 255, 50))));
    let targets = all(&mut neighbors[1].targets);
    assert_eq!(targets.len(), 256);
    assert_eq!(targets[0], IpAddress::V4(ip(192, 168, 2, 0)));
    assert_eq!(targets[255], IpAddress::V4(ip(192, 168, 2, 255)));
}

#[test]
fn each_network_has_all_others_as_neighbors() {
    for own in [0, 1, 128, 254, 255] {
        let neighbors = neighbor_networks(ip(192, 168, own, 77), 24);
        let gateways: Vec<u32> = neighbors.iter().map(|neighbor| neighbor.gateway).collect();
        let others: Vec<u32> =
            (0..=255).filter(|num| *num != own).map(|num| ip(192, 168, num, 1)).collect();
        assert_eq!(gateways, others);
    }
}

#[test]
fn neighbors_of_a_smaller_network() {
    let mut neighbors = neighbor_networks(ip(10, 0, 3, 200), 26);
    assert_eq!(neighbors.len(), 255);
    assert_eq!(neighbors[254].gateway, ip(10, 0, 63, 193));
    assert_eq!(neighbors[0].gateway, ip(10, 0, 0, 1));
    assert_eq!(neighbors[1].gateway, ip(10, 0, 0, 65));
    assert_eq!(neighbors[14].gateway, ip(10, 0, 3, 129));
    assert_eq!(neighbors[15].gateway, ip(10, 0, 4, 1));
    assert_eq!(all(&mut neighbors[15].targets).len(), 64);
    let mut single = neighbor_networks(ip(10, 0, 3, 200), 32);
    assert_eq!(single[0].gateway, ip(10, 0, 3, 1));
    assert_eq!(all(&mut single[0].targets), vec![IpAddress::V4(ip(10, 0, 3, 0))]);
}

#[test]
fn networks_of_a_cluster_do_not_overlap() {
    let own = ip(10, 0, 3, 200);
    let mut seen = Vec::new();
    let mut scan = network(scan_network(v4(own, ip(255, 255, 255, 248)), true));
    seen.append(&mut all(&mut scan.targets));
    for neighbor in scan.neighbors.iter_mut() {
        let targets = all(&mut neighbor.targets);
        assert!(targets.contains(&IpAddress::V4(neighbor.gateway)));
        seen.extend(targets);
    }
    let count = seen.len();
    seen.sort_by_key(|ip| match ip {
        IpAddress::V4(n) => *n,
        IpAddress::V6(_) => 0,
    });
    seen.dedup();
    assert_eq!(seen.len(), count);
    assert_eq!(count, 255 * 8 + 7);
}

#[test]
fn a_plan_covers_each_interface_in_order() {
    let mask = ip(255, 255, 255, 0);
    let wired = v4(ip(10, 0, 0, 1), mask);
    let interfaces = vec![
        Interface { loopback: true, addr: v4(ip(127, 0, 0, 1), ip(255, 0, 0, 0)) },
        Interface { loopback: false, addr: v4(ip(10, 9, 9, 9), ip(255, 0, 255, 0)) },
        Interface { loopback: false, addr: wired },
        Interface { loopback: false, addr: wired },
        Interface { loopback: false, addr: v4(ip(10, 9, 9, 9), mask) },
        Interface { loopback: false, addr: v4(ip(127, 0, 0, 1), mask) },
    ];
    let mut plan = plan_scan(&interfaces, false);
    assert_eq!(plan.len(), 6);
    assert!(matches!(plan[0], InterfaceScan::Loopback));
    assert!(matches!(plan[1], InterfaceScan::UnusableNetwork));
    assert!(matches!(plan[3], InterfaceScan::AlreadyTried));
    assert!(matches!(plan[4], InterfaceScan::AlreadyTried));
    assert!(matches!(plan[5], InterfaceScan::Network(_)));
    let mut scan = network(plan.remove(2));
    assert_eq!(all(&mut scan.targets).len(), 255);
    assert!(plan_scan(&Vec::new(), true).is_empty());
}

#[test]
fn a_cluster_search_plans_neighbors() {
    let interfaces = vec![
        Interface { loopback: false, addr: v4(ip(10, 0, 0, 1), ip(255, 255, 255, 0)) },
        Interface { loopback: false, addr: v4(ip(10, 1, 0, 1), ip(255, 255, 254, 0)) },
    ];
    let mut plan = plan_scan(&interfaces, true);
    assert_eq!(network(plan.remove(0)).neighbors.len(), 255);
    assert!(network(plan.remove(0)).neighbors.is_empty());
}

#[test]
fn neighbors_are_visited_where_their_gateway_answers() {
    let mut neighbors = neighbor_networks(ip(10, 0, 3, 200), 30);
    let mut reached = neighbors.remove(2).reached(true).unwrap();
    assert_eq!(all(&mut reached).len(), 4);
    assert!(neighbors.remove(2).reached(false).is_none());
}

#[test]
fn found_printers_are_counted() {
    assert_eq!(count_found(&vec![]), 0);
    assert_eq!(count_found(&vec![true, false, true, true]), 3);
}

#[test]
fn interfaces_tell_their_address() {
    let interface = Interface { loopback: false, addr: v4(5, 0) };
    assert_eq!(interface.ip(), IpAddress::V4(5));
    let addr = InterfaceAddr::V6(InterfaceV6 { ip: 6, netmask: 0 });
    assert_eq!(Interface { loopback: true, addr }.ip(), IpAddress::V6(6));
}
