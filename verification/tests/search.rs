use impsupri::address::{IpAddress, Targets};
use impsupri::scan::{
    count_found, plan_scan, Interface, InterfaceAddr, InterfaceScan, InterfaceV4,
};
use impsupri::search::{itinerary, Itinerary};

fn ip(a: u8, b: u8, c: u8, d: u8) -> u32 {
    u32::from_be_bytes([a, b, c, d])
}

fn all(stops: &mut Itinerary) -> Vec<IpAddress> {
    let mut found = Vec::new();
    while let Some(target) = stops.next_target() {
        found.push(target);
    }
    found
}

fn interface(ip: u32, netmask: u32) -> Interface {
    Interface { loopback: false, addr: InterfaceAddr::V4(InterfaceV4 { ip, netmask }) }
}

/// Which gateways answer on behalf of each interface.
fn answers(plan: &Vec<InterfaceScan>, gateway: u32) -> Vec<Vec<bool>> {
    plan.iter()
        .map(|scan| match scan {
            InterfaceScan::Network(network) => {
                network.neighbors.iter().map(|neighbor| neighbor.gateway == gateway).collect()
            }
            _ => Vec::new(),
        })
        .collect()
}

#[test]
fn an_itinerary_goes_through_its_runs() {
    let mut stops = Itinerary::new();
    assert_eq!(stops.next_target(), None);
    stops.append(Targets::new(true, 1, 2, None));
    stops.append(Targets::new(true, 2, 1, None));
    stops.append(Targets::new(false, 7, 9, Some(8)));
    let expected = [IpAddress::V4(1), IpAddress::V4(2), IpAddress::V6(7), IpAddress::V6(9)];
    assert_eq!(all(&mut stops), expected);
    assert_eq!(stops.next_target(), None);
}

#[test]
fn a_printer_in_the_last_network_of_a_cluster_is_found() {
    let printer = IpAddress::V4(ip(192, 168, 255, 50));
    let interfaces = vec![interface(ip(192, 168, 1, 10), ip(255, 255, 255, 0))];
    let plan = plan_scan(&interfaces, true);
    let answered = answers(&plan, ip(192, 168, 255, 1));
    let targets = all(&mut itinerary(plan, &answered));
    assert_eq!(targets.len(), 255 + 256);
    let results: Vec<bool> = targets.iter().map(|target| *target == printer).collect();
    assert_eq!(count_found(&results), 1);
}

#[test]
fn networks_whose_gateways_are_silent_are_left_out() {
    let interfaces = vec![
        Interface { loopback: true, ..interface(ip(127, 0, 0, 1), ip(255, 0, 0, 0)) },
        interface(ip(10, 0, 0, 1), ip(255, 255, 255, 252)),
        interface(ip(10, 0, 0, 1), ip(255, 255, 255, 0)),
        interface(ip(10, 7, 0, 1), ip(255, 255, 255, 254)),
    ];
    let plan = plan_scan(&interfaces, true);
    let answered = answers(&plan, ip(10, 0, 0, 9));
    let targets = all(&mut itinerary(plan, &answered));
    let expected: Vec<IpAddress> = [
        ip(10, 0, 0, 0),
        ip(10, 0, 0, 2),
        ip(10, 0, 0, 3),
        ip(10, 0, 0, 8),
        ip(10, 0, 0, 9),
        ip(10, 0, 0, 10),
        ip(10, 0, 0, 11),
        ip(10, 7, 0, 0),
    ]
    .into_iter()
    .map(IpAddress::V4)
    .collect();
    assert_eq!(targets, expected);
}

#[test]
fn scans_of_interfaces_are_appended() {
    let interfaces = vec![interface(ip(10, 0, 0, 1), ip(255, 255, 255, 254))];
    let mut stops = Itinerary::new();
    stops.append(Targets::new(true, 5, 5, None));
    for scan in plan_scan(&interfaces, true) {
        stops.append_scan(scan, &vec![true]);
    }
    stops.append_scan(InterfaceScan::Loopback, &Vec::new());
    let expected: Vec<IpAddress> = [5, ip(10, 0, 0, 0), ip(10, 0, 0, 2), ip(10, 0, 0, 3)]
        .into_iter()
        .map(IpAddress::V4)
        .collect();
    assert_eq!(all(&mut stops), expected);
}
