use impsupri::options::OutputMode;
use impsupri::printerinfo::{DeviceInfo, PrinterInfo, Supplies, SuppliesCartridge};
use impsupri::report::{printed_pages_table, report, Report};

fn cartridge(printed: Option<u32>) -> Option<SuppliesCartridge> {
    Some(SuppliesCartridge { estim_pages_remaining: Some(8), printed, ink_level: None })
}

fn printer(serial: Option<&str>, supplies: Supplies) -> PrinterInfo {
    PrinterInfo {
        addr: "10.0.0.1".to_owned(),
        info: DeviceInfo {
            location: None,
            model: Some("model".to_owned()),
            serial: serial.map(str::to_owned),
            name: None,
            nick: None,
        },
        supplies,
    }
}

fn color() -> Supplies {
    Supplies {
        c: cartridge(Some(1)),
        m: cartridge(Some(20)),
        y: cartridge(None),
        k: cartridge(Some(4294967295)),
    }
}

fn mono() -> Supplies {
    Supplies { c: None, m: None, y: None, k: cartridge(Some(0)) }
}

const HEADER: &str = "\"serial\",\"c\",\"m\",\"y\",\"k\"\n";

#[test]
fn a_row_has_five_columns() {
    let text = printed_pages_table(&vec![printer(Some("AB1"), color())]);
    assert_eq!(text, format!("{}\"AB1\",\"1\",\"20\",\"\",\"4294967295\"", HEADER));
}

#[test]
fn mono_printers_have_empty_color_columns() {
    let text = printed_pages_table(&vec![printer(Some("M"), mono())]);
    assert_eq!(text, format!("{}\"M\",\"\",\"\",\"\",\"0\"", HEADER));
}

#[test]
fn printers_without_serial_number_have_no_row() {
    let infos = vec![
        printer(None, color()),
        printer(Some("A"), mono()),
        printer(None, mono()),
        printer(Some("B"), color()),
        printer(None, mono()),
    ];
    let expected = format!(
        "{}\"A\",\"\",\"\",\"\",\"0\"\n\"B\",\"1\",\"20\",\"\",\"4294967295\"",
        HEADER
    );
    assert_eq!(printed_pages_table(&infos), expected);
    assert_eq!(printed_pages_table(&vec![printer(None, mono())]), HEADER);
    assert_eq!(printed_pages_table(&vec![]), HEADER);
}

#[test]
fn an_empty_serial_number_has_a_row() {
    let text = printed_pages_table(&vec![printer(Some(""), mono()), printer(Some(""), mono())]);
    assert_eq!(text, format!("{}\"\",\"\",\"\",\"\",\"0\"\n\"\",\"\",\"\",\"\",\"0\"", HEADER));
}

#[test]
fn reports_follow_the_mode() {
    let infos = vec![printer(Some("A"), mono())];
    assert_eq!(report(&infos, OutputMode::Json), Report::Json);
    assert_eq!(report(&infos, OutputMode::NoOutput), Report::Silent);
    let table = printed_pages_table(&infos);
    assert_eq!(report(&infos, OutputMode::PrintedPages), Report::Table(table));
}

#[test]
fn there_is_no_report_about_nothing() {
    for mode in [OutputMode::Json, OutputMode::NoOutput, OutputMode::PrintedPages] {
        assert_eq!(report(&vec![], mode), Report::NoPrinters);
    }
}
