use impsupri::address::IpAddress;
use impsupri::contact::{
    assemble_printer_info, prod_after_page, ContactStep, Contacts, ProdAnswer, ProdStep,
};
use impsupri::html::Document;
use impsupri::printerinfo::{DeviceInfo, Supplies};

fn page(source: &str) -> Document {
    Document::from_source(source.to_owned()).unwrap()
}

fn no_device() -> DeviceInfo {
    DeviceInfo { location: None, model: None, serial: None, name: None, nick: None }
}

fn no_supplies() -> Supplies {
    Supplies { c: None, m: None, y: None, k: None }
}

const ADDR: &str = "10.0.0.9";

#[test]
fn no_address_is_contacted_twice() {
    let mut contacts = Contacts::new();
    assert!(contacts.note(IpAddress::V4(1)));
    assert!(contacts.note(IpAddress::V6(1)));
    assert!(!contacts.note(IpAddress::V4(1)));
    assert!(contacts.note(IpAddress::V4(2)));
    assert!(!contacts.note(IpAddress::V6(1)));
    assert!(!contacts.note(IpAddress::V4(2)));
}

#[test]
fn prodding_finds_a_printer() {
    let step = ProdStep::start();
    assert!(matches!(step, ProdStep::Ping));
    let step = step.next(ADDR, ProdAnswer::Pinged(true));
    match &step {
        ProdStep::Fetch(url) => assert_eq!(url, "http://10.0.0.9/hp/device/DeviceStatus/Index"),
        other => panic!("{:?}", other),
    }
    let step = step.next(ADDR, ProdAnswer::Fetched(Some(page("<body id=PageDeviceStatus>"))));
    match &step {
        ProdStep::Report(addr) => assert_eq!(addr, ADDR),
        other => panic!("{:?}", other),
    }
    assert!(matches!(step.next(ADDR, ProdAnswer::Reported(true)), ProdStep::Done(true)));
}

#[test]
fn ipv6_hosts_stand_in_brackets() {
    let addr = "2001:db8::5";
    match ContactStep::start(addr) {
        ContactStep::FetchDeviceInfo(url) => {
            assert_eq!(url, "http://[2001:db8::5]/hp/device/DeviceInformation/View")
        }
        other => panic!("{:?}", other),
    }
    match ContactStep::start(addr).next(addr, Ok(page("<p id=DeviceName>x</p>"))) {
        ContactStep::FetchSupplies(url, _) => assert_eq!(
            url,
            "http://[2001:db8::5]/hp/device/InternalPages/Index?id=SuppliesStatus"
        ),
        other => panic!("{:?}", other),
    }
    let step = ProdStep::start().next(addr, ProdAnswer::Pinged(true));
    match &step {
        ProdStep::Fetch(url) => {
            assert_eq!(url, "http://[2001:db8::5]/hp/device/DeviceStatus/Index")
        }
        other => panic!("{:?}", other),
    }
    let page = page("<body id='PageDeviceStatus'></body>");
    match step.next(addr, ProdAnswer::Fetched(Some(page))) {
        ProdStep::Report(reported) => assert_eq!(reported, addr),
        other => panic!("{:?}", other),
    }
}

#[test]
fn prodding_ends_where_there_is_no_printer() {
    let fetch = || ProdStep::start().next(ADDR, ProdAnswer::Pinged(true));
    let silent = ProdStep::start().next(ADDR, ProdAnswer::Pinged(false));
    assert!(matches!(silent, ProdStep::Done(false)));
    assert!(matches!(fetch().next(ADDR, ProdAnswer::Fetched(None)), ProdStep::Done(false)));
    let other = fetch().next(ADDR, ProdAnswer::Fetched(Some(page("<body id=Router>"))));
    assert!(matches!(other, ProdStep::Done(false)));
    let report = prod_after_page(ADDR, true);
    assert!(matches!(report.next(ADDR, ProdAnswer::Reported(false)), ProdStep::Done(false)));
    assert!(matches!(prod_after_page(ADDR, false), ProdStep::Done(false)));
}

#[test]
fn contacting_reads_both_pages() {
    let step = ContactStep::start(ADDR);
    match &step {
        ContactStep::FetchDeviceInfo(url) => {
            assert_eq!(url, "http://10.0.0.9/hp/device/DeviceInformation/View")
        }
        other => panic!("{:?}", other),
    }
    let step = step.next(ADDR, Ok(page("<p id=DeviceSerialNumber>S1</p>")));
    match &step {
        ContactStep::FetchSupplies(url, info) => {
            assert_eq!(url, "http://10.0.0.9/hp/device/InternalPages/Index?id=SuppliesStatus");
            assert_eq!(info.serial, Some("S1".to_owned()));
        }
        other => panic!("{:?}", other),
    }
    let supplies = "<div class=consumable-block-yellow><p id=xPagesPrintedWithSupply>5</p></div>";
    match step.next(ADDR, Ok(page(supplies))) {
        ContactStep::Done(Ok(info)) => {
            assert_eq!(info.addr, ADDR);
            assert_eq!(info.info.serial, Some("S1".to_owned()));
            assert_eq!(info.supplies.y.unwrap().printed, Some(5));
            assert!(info.supplies.c.is_none());
        }
        other => panic!("{:?}", other),
    }
}

#[test]
fn contacting_stops_at_the_first_failure() {
    match ContactStep::start(ADDR).next(ADDR, Err("timed out".to_owned())) {
        ContactStep::Done(Err(message)) => assert_eq!(message, "timed out"),
        other => panic!("{:?}", other),
    }
    match ContactStep::start(ADDR).next(ADDR, Ok(page("<i class=loginscreen>"))) {
        ContactStep::Done(Err(message)) => assert_eq!(message, "Hit a login screen"),
        other => panic!("{:?}", other),
    }
    let second = || ContactStep::start(ADDR).next(ADDR, Ok(page("<p id=DeviceName>x</p>")));
    match second().next(ADDR, Err("reset".to_owned())) {
        ContactStep::Done(Err(message)) => assert_eq!(message, "reset"),
        other => panic!("{:?}", other),
    }
    match second().next(ADDR, Ok(page("<i class=loginscreen>"))) {
        ContactStep::Done(Err(message)) => assert_eq!(message, "Hit a login screen"),
        other => panic!("{:?}", other),
    }
    let odd = "<div class=consumable-block-black><p id=PagesPrintedWithSupply>many</p></div>";
    assert!(matches!(second().next(ADDR, Ok(page(odd))), ContactStep::Unreadable));
}

#[test]
fn contacting_reports_an_address_of_which_nothing_is_known() {
    let step = ContactStep::start(ADDR).next(ADDR, Ok(page("<p>hello</p>")));
    match step.next(ADDR, Ok(page("<div class=consumable-block-cyan></div>"))) {
        ContactStep::Done(Err(message)) => assert_eq!(
            message,
            "Could not get any info about supposed printer at address 10.0.0.9"
        ),
        other => panic!("{:?}", other),
    }
}

#[test]
fn printers_without_information_are_not_assembled() {
    let nothing = assemble_printer_info(ADDR, no_device(), no_supplies());
    assert_eq!(
        nothing.unwrap_err(),
        "Could not get any info about supposed printer at address 10.0.0.9"
    );
    let named = DeviceInfo { nick: Some("lab".to_owned()), ..no_device() };
    let info = assemble_printer_info(ADDR, named, no_supplies()).unwrap();
    assert_eq!(info.addr, ADDR);
    assert_eq!(info.info.nick, Some("lab".to_owned()));
    assert!(info.supplies.all_null());
}
