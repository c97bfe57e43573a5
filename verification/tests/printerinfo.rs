use impsupri::printerinfo::{DeviceInfo, PrinterInfo, Supplies, SuppliesCartridge};

fn no_device() -> DeviceInfo {
    DeviceInfo { location: None, model: None, serial: None, name: None, nick: None }
}

fn no_supplies() -> Supplies {
    Supplies { c: None, m: None, y: None, k: None }
}

fn cartridge(estim: Option<u32>, printed: Option<u32>, ink: Option<u16>) -> SuppliesCartridge {
    SuppliesCartridge { estim_pages_remaining: estim, printed, ink_level: ink }
}

#[test]
fn device_info_is_null_without_any_text() {
    assert!(no_device().all_null());
    let text = || Some(String::new());
    assert!(!DeviceInfo { location: text(), ..no_device() }.all_null());
    assert!(!DeviceInfo { model: text(), ..no_device() }.all_null());
    assert!(!DeviceInfo { serial: text(), ..no_device() }.all_null());
    assert!(!DeviceInfo { name: text(), ..no_device() }.all_null());
    assert!(!DeviceInfo { nick: text(), ..no_device() }.all_null());
}

#[test]
fn cartridge_is_null_without_any_number() {
    assert!(cartridge(None, None, None).all_null());
    assert!(!cartridge(Some(0), None, None).all_null());
    assert!(!cartridge(None, Some(0), None).all_null());
    assert!(!cartridge(None, None, Some(0)).all_null());
}

#[test]
fn supplies_are_null_without_any_number() {
    assert!(no_supplies().all_null());
    let null = || Some(cartridge(None, None, None));
    assert!(Supplies { c: null(), m: null(), y: null(), k: null() }.all_null());
    let some = || Some(cartridge(None, Some(1), None));
    assert!(!Supplies { c: some(), ..no_supplies() }.all_null());
    assert!(!Supplies { m: some(), ..no_supplies() }.all_null());
    assert!(!Supplies { y: some(), ..no_supplies() }.all_null());
    assert!(!Supplies { k: some(), ..no_supplies() }.all_null());
}

#[test]
fn printer_is_null_whatever_its_address() {
    let addr = || "10.0.0.1".to_owned();
    assert!(PrinterInfo { addr: addr(), info: no_device(), supplies: no_supplies() }.all_null());
    let named = DeviceInfo { name: Some("HP".to_owned()), ..no_device() };
    assert!(!PrinterInfo { addr: addr(), info: named, supplies: no_supplies() }.all_null());
    let black = Supplies { k: Some(cartridge(None, None, Some(3))), ..no_supplies() };
    assert!(!PrinterInfo { addr: addr(), info: no_device(), supplies: black }.all_null());
}

#[test]
fn cartridges_come_in_the_order_of_the_colors() {
    let supplies = Supplies {
        c: Some(cartridge(None, Some(1), None)),
        m: Some(cartridge(None, Some(2), None)),
        y: None,
        k: Some(cartridge(None, Some(4), None)),
    };
    let printed: Vec<Option<u32>> =
        supplies.as_vec().iter().map(|c| c.and_then(|c| c.printed)).collect();
    assert_eq!(printed, vec![Some(1), Some(2), None, Some(4)]);
    assert!(supplies.as_vec()[2].is_none());
}
