use impsupri::html::{is_shallow_selector, Document};
use impsupri::printerinfo::{Supplies, SuppliesCartridge};
use impsupri::scrape::{
    accept_document, get_device_info_datum, href_hp, href_hp_device_info, href_hp_supplies_page,
    ink_level, is_device_status_page, is_login_screen, refuse_login_screen, scrape_device_info,
    scrape_supplies_info, try_get_device_info_datum, try_scrape_supplies_info, url_host,
    CartridgeRows,
};

fn page(source: &str) -> Document {
    Document::from_source(source.to_owned()).unwrap()
}

fn rows(estimated: Option<&str>, printed: Option<&str>, ink: Option<&str>) -> CartridgeRows {
    CartridgeRows {
        estimated: estimated.map(str::to_owned),
        printed: printed.map(str::to_owned),
        ink: ink.map(str::to_owned),
    }
}

const BLACK: &str = r#"<html><body>
<div class="consumable-block consumable-block-black">
  <div class="consumable-block-header"><h2>Black</h2><span class="data percentage">40%*</span></div>
  <table>
    <tr><td id="BlackCartridge1-EstimatedPagesRemaining">3400 (approx.)</td></tr>
    <tr><td id="BlackCartridge1-PagesPrintedWithSupply">1250</td></tr>
  </table>
</div>
</body></html>"#;

fn color_page(cyan_printed: &str, black_ink: &str) -> String {
    format!(
        r#"<div class="consumable-block-cyan">
             <div class="consumable-block-header"><p><b class="data percentage">7%</b></p></div>
             <i id="C-PagesPrintedWithSupply">{}</i>
           </div>
           <div class="consumable-block-magenta"></div>
           <div class="consumable-block-black">
             <div class="consumable-block-header"><b class="percentage data">{}</b></div>
             <i id="K-EstimatedPagesRemaining">&lt;20</i>
             <i id="K-PagesPrintedWithSupply">1<b>2</b>3</i>
           </div>
           <div class="consumable-block-black"><i id="PagesPrintedWithSupply">9</i></div>"#,
        cyan_printed, black_ink
    )
}

#[test]
fn urls_of_the_internal_pages() {
    assert_eq!(href_hp("10.0.0.7", "DeviceStatus/Index"), "http://10.0.0.7/hp/device/DeviceStatus/Index");
    assert_eq!(href_hp("", ""), "http:///hp/device/");
    assert_eq!(
        href_hp_supplies_page("printer.local"),
        "http://printer.local/hp/device/InternalPages/Index?id=SuppliesStatus"
    );
    assert_eq!(href_hp_device_info("1.2.3.4"), "http://1.2.3.4/hp/device/DeviceInformation/View");
}

#[test]
fn hosts_of_addresses() {
    for addr in ["::1", "2001:db8::5", "::", "::ffff:10.0.0.7", "FE80::1"] {
        assert_eq!(url_host(addr), format!("[{}]", addr));
    }
    for addr in ["10.0.0.7", "10.0.0.7:8080", "[::1]", "[::1]:80", "face:80", "a:b@10.0.0.7:80", ""] {
        assert_eq!(url_host(addr), addr);
    }
}

#[test]
fn login_screens_are_told_by_their_class() {
    assert!(is_login_screen(&page("<div class='box loginscreen'>Sign in</div>")));
    assert!(!is_login_screen(&page("<div class='loginscreens'>Sign in</div>")));
    assert!(!is_login_screen(&page("<div id='loginscreen'>loginscreen</div>")));
    assert!(!is_login_screen(&page("")));
}

#[test]
fn login_screens_are_refused() {
    let refused = accept_document(page("<p class=loginscreen>"));
    assert_eq!(refused.unwrap_err(), "Hit a login screen");
    let accepted = accept_document(page("<p id=DeviceName>lab</p>")).unwrap();
    assert_eq!(get_device_info_datum(&accepted, "DeviceName"), Some("lab".to_owned()));
    assert_eq!(refuse_login_screen(page(""), true).unwrap_err(), "Hit a login screen");
    assert!(refuse_login_screen(page("<p class=loginscreen>"), false).is_ok());
}

#[test]
fn status_pages_are_told_by_their_body() {
    assert!(is_device_status_page(&page("<html><body id='PageDeviceStatus'></body></html>")));
    assert!(!is_device_status_page(&page("<body><div id='PageDeviceStatus'></div></body>")));
    assert!(!is_device_status_page(&page("<body id='PageDeviceInformation'></body>")));
}

#[test]
fn device_info_is_read_by_id() {
    let source = "<p id=DeviceLocation>Room <b>12</b></p><p id=DeviceModel>M402</p>\
        <p id=ProductName>HP LaserJet</p><p id=DeviceName>lab &amp; co</p>\
        <p id=DeviceSerialNumber>BRX1</p><p id=DeviceModel>second</p>";
    let info = scrape_device_info(page(source));
    assert_eq!(info.location, Some("Room 12".to_owned()));
    assert_eq!(info.model, Some("M402".to_owned()));
    assert_eq!(info.name, Some("HP LaserJet".to_owned()));
    assert_eq!(info.nick, Some("lab & co".to_owned()));
    assert_eq!(info.serial, Some("BRX1".to_owned()));
}

#[test]
fn device_info_is_null_on_another_page() {
    assert!(scrape_device_info(page("<p>nothing here</p>")).all_null());
}

#[test]
fn empty_elements_give_empty_texts() {
    let info = scrape_device_info(page("<p id=DeviceModel></p>"));
    assert_eq!(info.model, Some(String::new()));
    assert!(!info.all_null());
}

#[test]
fn a_datum_is_the_text_of_the_first_element() {
    let document = page("<p id=a>1</p><p id=b>2</p><p id=a>3</p>");
    assert_eq!(get_device_info_datum(&document, "a"), Some("1".to_owned()));
    assert_eq!(get_device_info_datum(&document, "b"), Some("2".to_owned()));
    assert_eq!(get_device_info_datum(&document, "c"), None);
}

#[test]
fn a_name_that_is_no_selector_is_told_apart() {
    let document = page("<p id=a><b>1</b></p><p id=x-1_Y>2</p>");
    assert_eq!(try_get_device_info_datum(&document, ""), None);
    assert_eq!(try_get_device_info_datum(&document, "1a"), None);
    assert_eq!(try_get_device_info_datum(&document, "a["), None);
    assert_eq!(try_get_device_info_datum(&document, "z"), Some(None));
    assert_eq!(try_get_device_info_datum(&document, "x-1_Y"), Some(Some("2".to_owned())));
    assert_eq!(try_get_device_info_datum(&document, "a > b"), Some(Some("1".to_owned())));
}

#[test]
fn deep_selectors_are_refused() {
    let document = page("<p id=a><b>1</b></p>");
    let nested = |depth: usize| format!("a{}b{}", ":not(".repeat(depth), ")".repeat(depth));
    assert_eq!(try_get_device_info_datum(&document, &nested(1)), Some(Some("1".to_owned())));
    assert_eq!(try_get_device_info_datum(&document, &nested(2)), Some(None));
    assert_eq!(try_get_device_info_datum(&document, &nested(63)), Some(Some("1".to_owned())));
    assert_eq!(try_get_device_info_datum(&document, &nested(64)), Some(None));
    assert_eq!(try_get_device_info_datum(&document, &nested(65)), None);
    assert_eq!(try_get_device_info_datum(&document, &nested(100_000)), None);
    let long = "a".repeat(1_000_000);
    assert_eq!(try_get_device_info_datum(&document, &long), Some(None));
}

#[test]
fn long_chains_of_selectors_are_refused() {
    let document = page(&format!("<p id=a></p>{}<p>last</p>", "<p></p>".repeat(1023)));
    let chain = |length: usize| format!("a{}", "+p".repeat(length));
    assert_eq!(try_get_device_info_datum(&document, &chain(1024)), Some(Some("last".to_owned())));
    assert_eq!(try_get_device_info_datum(&document, &chain(1025)), None);
    let both = format!("a~{}p{}{}", ":is(".repeat(64), "+p".repeat(1023), ")".repeat(64));
    assert_eq!(try_get_device_info_datum(&document, &both), Some(Some(String::new())));
}

#[test]
fn selectors_of_what_a_block_holds_are_refused() {
    let document = page("<p id=a title='has('><b>1</b></p>");
    let one = Some(Some("1".to_owned()));
    let refused = [
        "a:has(b)",
        "a:HaS(b)",
        "a:/* */has(b)",
        "a:h\\61s(b)",
        "a:\\h\\000061\\s(b)",
        "a:\\48 \\41\t\\53\r\n(b)",
        "a:not(:has(i))",
    ];
    for name in refused {
        assert_eq!(try_get_device_info_datum(&document, name), None, "{}", name);
        assert!(!is_shallow_selector(&format!("#{}", name)), "{}", name);
    }
    for name in ["a:is(p)", "a:\\69s(p)", "\\61:not(b)", "a[title='has(']", "a:not(.has\\(b\\))"] {
        assert_eq!(try_get_device_info_datum(&document, name), one, "{}", name);
    }
    for name in ["a:hash(b)", "a:h\\0000061s(b)", "a:\\a(b)", "a:has (b)"] {
        assert_eq!(try_get_device_info_datum(&document, name), None, "{}", name);
        assert!(is_shallow_selector(&format!("#{}", name)), "{}", name);
    }
    assert!(is_shallow_selector(""));
    assert!(is_shallow_selector(":\\"));
}

#[test]
fn deep_pages_are_searched() {
    let document = page(&format!("{}<i id=a>1</i>", "<div>".repeat(1_000)));
    assert_eq!(document.first_text("#a"), Some("1".to_owned()));
    assert_eq!(document.first_nested_text("div", "i"), Some("1".to_owned()));
    assert_eq!(document.first_text("div div div #a"), Some("1".to_owned()));
}

#[test]
fn supplies_of_a_mono_printer() {
    let supplies = scrape_supplies_info(page(BLACK));
    let black = SuppliesCartridge {
        estim_pages_remaining: Some(3400),
        printed: Some(1250),
        ink_level: Some(26214),
    };
    assert_eq!(supplies, Supplies { c: None, m: None, y: None, k: Some(black) });
}

#[test]
fn supplies_of_a_color_printer() {
    let supplies = scrape_supplies_info(page(&color_page("+42", "100%")));
    let cyan = SuppliesCartridge { estim_pages_remaining: None, printed: Some(42), ink_level: None };
    let magenta = SuppliesCartridge { estim_pages_remaining: None, printed: None, ink_level: None };
    let black =
        SuppliesCartridge { estim_pages_remaining: None, printed: Some(123), ink_level: Some(65535) };
    assert_eq!(supplies, Supplies { c: Some(cyan), m: Some(magenta), y: None, k: Some(black) });
}

#[test]
fn supplies_that_are_no_numbers_are_told_apart() {
    assert!(try_scrape_supplies_info(page(&color_page("42", "--"))).is_some());
    assert!(try_scrape_supplies_info(page(&color_page("--", "10%"))).is_none());
    assert!(try_scrape_supplies_info(page(&color_page("", "10%"))).is_none());
    assert!(try_scrape_supplies_info(page(&color_page("4294967296", "10%"))).is_none());
    assert!(try_scrape_supplies_info(page(&color_page("42", "65537"))).is_some());
    assert!(try_scrape_supplies_info(page(&color_page("42", "65538"))).is_none());
    assert!(try_scrape_supplies_info(page(&color_page("42", "99999999999"))).is_none());
    let nothing = try_scrape_supplies_info(page("<p>no supplies</p>")).unwrap();
    assert!(nothing.all_null());
}

#[test]
fn rows_become_numbers() {
    let cartridge = rows(Some("12 pages"), Some("+7"), Some("50%")).cartridge();
    assert_eq!(cartridge.estim_pages_remaining, Some(12));
    assert_eq!(cartridge.printed, Some(7));
    assert_eq!(cartridge.ink_level, Some(32767));
    let cartridge = rows(Some("about 12"), Some("0"), Some("n/a")).cartridge();
    assert_eq!(cartridge.estim_pages_remaining, None);
    assert_eq!(cartridge.printed, Some(0));
    assert_eq!(cartridge.ink_level, None);
    let cartridge = rows(Some("4294967296"), None, None).cartridge();
    assert!(cartridge.all_null());
}

#[test]
fn rows_are_readable_where_numbers_are_due() {
    assert!(rows(None, None, None).readable());
    assert!(rows(Some("?"), Some("1"), Some("?")).readable());
    assert!(!rows(None, Some("1 "), None).readable());
    assert!(!rows(None, Some(""), None).readable());
    assert!(!rows(None, None, Some("65538")).readable());
}

#[test]
fn ink_levels_are_parts_of_65535() {
    assert_eq!(ink_level("0%"), Some(0));
    assert_eq!(ink_level("1%"), Some(655));
    assert_eq!(ink_level("99"), Some(64879));
    assert_eq!(ink_level("100%"), Some(65535));
    assert_eq!(ink_level("101%"), Some(654));
    assert_eq!(ink_level("65537"), Some(23592));
    assert_eq!(ink_level("%"), None);
    for percent in 0..=100u32 {
        let level = u32::from(ink_level(&format!("{}%", percent)).unwrap());
        assert_eq!((level * 100 + 65534) / 65535, percent);
    }
    assert_eq!(ink_level(""), None);
}

#[test]
fn pages_are_kept_as_they_were_sent() {
    let document = page("<p id=a>\u{e9}\u{4e2d}</p>");
    assert_eq!(document.first_text("#a"), Some("\u{e9}\u{4e2d}".to_owned()));
    assert_eq!(document.first_text(".a"), None);
    assert!(document.has_match("p"));
}

#[test]
fn nested_elements_are_looked_for_in_the_first_block_only() {
    let document = page("<div class=x><p>1</p><p>2</p></div><div class=x><i>3</i></div>");
    assert_eq!(document.first_nested_text(".x", "p"), Some("1".to_owned()));
    assert_eq!(document.first_nested_text(".x", "i"), None);
    assert_eq!(document.first_nested_text(".y", "p"), None);
}

#[test]
fn pages_that_cannot_be_parsed_are_refused() {
    assert!(Document::from_source("a".repeat(0x2000_0001)).is_some());
    assert!(Document::from_source("\0".repeat(0x2aaa_aaab)).is_none());
    assert!(Document::from_source("\0".repeat(0x2aaa_aaaa)).is_some());
}

#[test]
fn texts_that_grow_are_read() {
    let document = page("<p id=a>&nGt;&nLt;&lt;</p><textarea id=b>\0</textarea>");
    assert_eq!(
        document.first_text("#a"),
        Some("\u{226b}\u{20d2}\u{226a}\u{20d2}<".to_owned())
    );
    assert_eq!(document.first_text("#b"), Some("\u{fffd}".to_owned()));
}
