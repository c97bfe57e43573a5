use impsupri::options::{Options, OutputMode, ScanMode};

fn no_options() -> Options {
    Options {
        disable_ip_list: false,
        ip_list: None,
        scan_mode: None,
        writeless: false,
        no_out: false,
        out: None,
        quiet: None,
        contact_parallel: None,
        ping_parallel: None,
        output_mode: None,
    }
}

#[test]
fn defaults() {
    let options = no_options();
    assert_eq!(options.ip_list_file(), Some("impressoras.txt".to_owned()));
    assert_eq!(options.cluster_search(), Some(true));
    assert_eq!(options.ping_tasks(), 128);
    assert_eq!(options.contact_tasks(), 4);
    assert_eq!(options.chosen_output_mode(), OutputMode::PrintedPages);
    assert_eq!(options.out_file(), Some("relatorio_impressoras.csv".to_owned()));
    assert!(options.prints_report());
    assert!(options.prints_status());
    assert_eq!(ScanMode::default(), ScanMode::Cluster);
    assert_eq!(OutputMode::default(), OutputMode::PrintedPages);
}

#[test]
fn arguments_override_the_defaults() {
    let options = Options {
        ip_list: Some("list.txt".to_owned()),
        scan_mode: Some(ScanMode::Network),
        writeless: true,
        out: Some("report".to_owned()),
        quiet: Some("yes".to_owned()),
        contact_parallel: Some(9),
        ping_parallel: Some(1),
        output_mode: Some(OutputMode::Json),
        ..no_options()
    };
    assert_eq!(options.ip_list_file(), Some("list.txt".to_owned()));
    assert_eq!(options.cluster_search(), Some(false));
    assert_eq!(options.ping_tasks(), 1);
    assert_eq!(options.contact_tasks(), 9);
    assert_eq!(options.chosen_output_mode(), OutputMode::Json);
    assert_eq!(options.out_file(), Some("report".to_owned()));
    assert!(!options.prints_report());
    assert!(!options.prints_status());
}

#[test]
fn parts_can_be_switched_off() {
    let options = Options {
        disable_ip_list: true,
        ip_list: Some("list.txt".to_owned()),
        scan_mode: Some(ScanMode::NoScan),
        no_out: true,
        out: Some("report".to_owned()),
        ..no_options()
    };
    assert_eq!(options.ip_list_file(), None);
    assert_eq!(options.cluster_search(), None);
    assert_eq!(options.out_file(), None);
    let explicit = Options { scan_mode: Some(ScanMode::Cluster), ..no_options() };
    assert_eq!(explicit.cluster_search(), Some(true));
}

#[test]
fn file_names_end_in_the_extension_of_the_mode() {
    let json = Options { output_mode: Some(OutputMode::Json), ..no_options() };
    assert_eq!(json.out_file(), Some("relatorio_impressoras.json".to_owned()));
    let none = Options { output_mode: Some(OutputMode::NoOutput), ..no_options() };
    assert_eq!(none.out_file(), Some("relatorio_impressoras.".to_owned()));
    assert_eq!(OutputMode::Json.extension(), "json");
    assert_eq!(OutputMode::PrintedPages.extension(), "csv");
    assert_eq!(OutputMode::NoOutput.extension(), "");
}
