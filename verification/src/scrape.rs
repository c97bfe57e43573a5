//! Reading the internal web pages of HP printers.

use vstd::prelude::*;

use crate::html::{
    class_selector, device_status_selector, first_nested_text, first_text, id_selector,
    id_suffix_selector, ink_level_selector, is_plain_name, is_selector, is_shallow,
    is_shallow_selector, lemma_plain_id_is_shallow, parses_as_selector, selector_parses, Document,
};
use crate::printerinfo::{DeviceInfo, DeviceInfoView, Supplies, SuppliesCartridge};
use crate::text::{
    chars_of, count_char, decimal_value, hex_digit, is_hex_digit, leading_digits,
    law_digits_are_a_number, law_occurrences_are_counted, leading_digits_of,
    lemma_leading_digits_are_digits, lemma_leading_digits_of_sum, number_of_digits,
    number_of_digits_from, number_of_text, occurrences, optional_text, parse_number,
};

verus! {

/// The address of a page of the internal web site of an HP printer.
pub open spec fn href(addr: Seq<char>, path: Seq<char>) -> Seq<char> {
    "http://"@ + addr + "/hp/device/"@ + path
}

/// Whether an address is written as an IPv6 address: in hexadecimal digits,
/// colons and dots, with two colons at least. No host name and no address with a
/// port is written so.
pub open spec fn is_v6_text(addr: Seq<char>) -> bool {
    &&& occurrences(addr, ':') >= 2
    &&& forall|i: int|
        0 <= i < addr.len() ==> {
            let c = #[trigger] addr[i];
            is_hex_digit(c) || c == ':' || c == '.'
        }
}

/// The host part of a URL for an address, as which an IPv6 address stands in
/// brackets.
pub open spec fn host(addr: Seq<char>) -> Seq<char> {
    if is_v6_text(addr) {
        "["@ + addr + "]"@
    } else {
        addr
    }
}

/// Whether an address is written as an IPv6 address.
fn is_v6(addr: &str) -> (v6: bool)
    ensures
        v6 == is_v6_text(addr@),
{
    let chars: Vec<char> = chars_of(addr);
    let mut i: usize = 0;
    while i < chars.len()
        invariant
            chars@ == addr@,
            i <= chars@.len(),
            forall|k: int|
                0 <= k < i ==> {
                    let c = #[trigger] addr@[k];
                    is_hex_digit(c) || c == ':' || c == '.'
                },
        decreases chars@.len() - i,
    {
        if !hex_digit(chars[i]) && chars[i] != ':' && chars[i] != '.' {
            return false;
        }
        i = i + 1;
    }
    count_char(&chars, ':') >= 2
}

/// Returns the host part of a URL for an address.
pub fn url_host(addr: &str) -> (text: String)
    ensures
        text@ == host(addr@),
{
    if is_v6(addr) {
        let mut text: String = "[".to_owned();
        text.append(addr);
        text.append("]");
        text
    } else {
        addr.to_owned()
    }
}

/// Returns a standard HP printer internal webpage URL.
pub fn href_hp(addr: &str, path: &str) -> (url: String)
    ensures
        url@ == href(addr@, path@),
        url@ == "http://"@ + addr@ + "/hp/device/"@ + path@,
{
    let mut url: String = "http://".to_owned();
    url.append(addr);
    url.append("/hp/device/");
    url.append(path);
    url
}

/// Returns a standard HP printer supplies status page URL.
pub fn href_hp_supplies_page(addr: &str) -> (url: String)
    ensures
        url@ == href(addr@, "InternalPages/Index?id=SuppliesStatus"@),
        url@ == "http://"@ + addr@ + "/hp/device/"@ + "InternalPages/Index?id=SuppliesStatus"@,
{
    href_hp(addr, "InternalPages/Index?id=SuppliesStatus")
}

/// Returns a standard HP printer device information page URL.
pub fn href_hp_device_info(addr: &str) -> (url: String)
    ensures
        url@ == href(addr@, "DeviceInformation/View"@),
        url@ == "http://"@ + addr@ + "/hp/device/"@ + "DeviceInformation/View"@,
{
    href_hp(addr, "DeviceInformation/View")
}

/// Checks if a contacted page is a login screen.
///
/// This is made to filter out invalid hosts, which either are not printers
/// or are not accessible to the scraper anyway.
pub fn is_login_screen(document: &Document) -> (login: bool)
    ensures
        login == (first_text(document@, class_selector("loginscreen"@)) is Some),
        login == (first_text(document@, ".loginscreen"@) is Some),
{
    let mut selector: String = ".".to_owned();
    selector.append("loginscreen");
    proof {
        reveal_strlit("loginscreen");
        assert(is_plain_name("loginscreen"@));
        lemma_login_selector();
    }
    document.has_match(selector.as_str())
}

/// Checks if a contacted page is the device status page of a printer.
pub fn is_device_status_page(document: &Document) -> (printer: bool)
    ensures
        printer == (first_text(document@, device_status_selector()) is Some),
        printer == (first_text(document@, "body#PageDeviceStatus"@) is Some),
{
    document.has_match("body#PageDeviceStatus")
}

/// Refuses a page that is a login screen.
pub fn refuse_login_screen(document: Document, login_screen: bool) -> (page: Result<
    Document,
    String,
>)
    ensures
        match page {
            Ok(page) => !login_screen && page == document,
            Err(message) => login_screen && message@ == "Hit a login screen"@,
        },
{
    if login_screen {
        Err("Hit a login screen".to_owned())
    } else {
        Ok(document)
    }
}

/// Hands back a contacted page, unless it is a login screen.
pub fn accept_document(document: Document) -> (page: Result<Document, String>)
    ensures
        match page {
            Ok(page) => {
                &&& first_text(document@, class_selector("loginscreen"@)) is None
                &&& page == document
            },
            Err(message) => {
                &&& first_text(document@, class_selector("loginscreen"@)) is Some
                &&& message@ == "Hit a login screen"@
            },
        },
        page is Ok <==> first_text(document@, ".loginscreen"@) is None,
{
    proof {
        lemma_login_selector();
    }
    let login_screen: bool = is_login_screen(&document);
    refuse_login_screen(document, login_screen)
}

/// The texts that a cartridge block of a supplies status page shows.
#[derive(Debug)]
pub struct CartridgeRows {
    /// The row of the pages that the cartridge is estimated to last for.
    pub estimated: Option<String>,
    /// The row of the pages that were printed with the cartridge.
    pub printed: Option<String>,
    /// The percentage of the ink that is left.
    pub ink: Option<String>,
}

/// The characters of the texts of a [`CartridgeRows`].
pub struct CartridgeRowsView {
    pub estimated: Option<Seq<char>>,
    pub printed: Option<Seq<char>>,
    pub ink: Option<Seq<char>>,
}

impl View for CartridgeRows {
    type V = CartridgeRowsView;

    open spec fn view(&self) -> CartridgeRowsView {
        CartridgeRowsView {
            estimated: optional_text(self.estimated),
            printed: optional_text(self.printed),
            ink: optional_text(self.ink),
        }
    }
}

/// The percentage that a text starts with.
pub open spec fn percentage(text: Seq<char>) -> nat {
    decimal_value(leading_digits(text))
}

/// The ink level that a percentage stands for, in parts of 65535, of which the
/// lowest 16 bits are kept.
pub open spec fn scaled_ink_level(percentage: nat) -> u16 {
    ((percentage * 65535 / 100) % 65536) as u16
}

/// The ink level that a text shows, if it starts with a number.
pub open spec fn ink_level_of_text(text: Seq<char>) -> Option<u16> {
    if leading_digits(text).len() == 0 {
        None
    } else {
        Some(scaled_ink_level(percentage(text)))
    }
}

impl CartridgeRowsView {
    /// Whether the row of printed pages, if there is one, is a number, and the
    /// percentage can be scaled within 32 bits.
    pub open spec fn readable(self) -> bool {
        &&& self.printed matches Some(text) ==> number_of_text(text) is Some
        &&& self.ink matches Some(text) ==> percentage(text) * 65535 <= u32::MAX
    }

    /// The numbers that the texts stand for.
    pub open spec fn cartridge(self) -> SuppliesCartridge {
        SuppliesCartridge {
            estim_pages_remaining: match self.estimated {
                Some(text) => number_of_digits(leading_digits(text)),
                None => None,
            },
            printed: match self.printed {
                Some(text) => number_of_text(text),
                None => None,
            },
            ink_level: match self.ink {
                Some(text) => ink_level_of_text(text),
                None => None,
            },
        }
    }
}

/// Reads the ink level that a text shows.
pub fn ink_level(text: &str) -> (level: Option<u16>)
    requires
        percentage(text@) * 65535 <= u32::MAX,
    ensures
        level == ink_level_of_text(text@),
{
    let digits: Vec<char> = leading_digits_of(text);
    if digits.len() == 0 {
        return None;
    }
    assert(digits@.skip(0) == digits@);
    proof {
        lemma_leading_digits_are_digits(text@);
    }
    match number_of_digits_from(&digits, 0) {
        Some(percent) => {
            let scaled: u32 = percent * 65535 / 100;
            assert(scaled as u16 == scaled % 65536) by (bit_vector);
            Some(scaled as u16)
        },
        None => None,
    }
}

/// Whether a percentage can be scaled within 32 bits.
fn ink_is_readable(text: &str) -> (readable: bool)
    ensures
        readable == (percentage(text@) * 65535 <= u32::MAX),
{
    let digits: Vec<char> = leading_digits_of(text);
    assert(digits@.skip(0) == digits@);
    proof {
        lemma_leading_digits_are_digits(text@);
    }
    if digits.len() == 0 {
        return true;
    }
    match number_of_digits_from(&digits, 0) {
        Some(percent) => percent <= 65537,
        None => false,
    }
}

impl CartridgeRows {
    /// Whether the row of printed pages, if there is one, is a number, and the
    /// percentage can be scaled within 32 bits.
    pub fn readable(&self) -> (readable: bool)
        ensures
            readable == self@.readable(),
    {
        let printed: bool = match &self.printed {
            Some(text) => parse_number(text.as_str()).is_some(),
            None => true,
        };
        let ink: bool = match &self.ink {
            Some(text) => ink_is_readable(text.as_str()),
            None => true,
        };
        printed && ink
    }

    /// Reads the numbers that the texts stand for.
    pub fn cartridge(&self) -> (cartridge: SuppliesCartridge)
        requires
            self@.readable(),
        ensures
            cartridge == self@.cartridge(),
            cartridge.printed == (match self.printed {
                Some(text) => number_of_text(text@),
                None => None,
            }),
            self.estimated is None ==> cartridge.estim_pages_remaining is None,
            self.ink is None ==> cartridge.ink_level is None,
            self.ink matches Some(text) ==> (cartridge.ink_level is Some <==> text@.len() > 0
                && '0' <= text@[0] <= '9'),
    {
        let estim_pages_remaining: Option<u32> = match &self.estimated {
            Some(text) => {
                let digits: Vec<char> = leading_digits_of(text.as_str());
                assert(digits@.skip(0) == digits@);
                number_of_digits_from(&digits, 0)
            },
            None => None,
        };
        let printed: Option<u32> = match &self.printed {
            Some(text) => parse_number(text.as_str()),
            None => None,
        };
        let ink_level: Option<u16> = match &self.ink {
            Some(text) => ink_level(text.as_str()),
            None => None,
        };
        SuppliesCartridge { estim_pages_remaining, printed, ink_level }
    }
}

/// The selector of the block of a color on a supplies status page.
pub open spec fn cartridge_block_selector(colname: Seq<char>) -> Seq<char> {
    class_selector("consumable-block-"@ + colname)
}

/// The texts of the block of a color on a supplies status page, if the page has
/// such a block.
pub open spec fn cartridge_rows(page: Seq<char>, colname: Seq<char>) -> Option<CartridgeRowsView> {
    let block = cartridge_block_selector(colname);
    if first_text(page, block) is Some {
        Some(
            CartridgeRowsView {
                estimated: first_nested_text(
                    page,
                    block,
                    id_suffix_selector("EstimatedPagesRemaining"@),
                ),
                printed: first_nested_text(
                    page,
                    block,
                    id_suffix_selector("PagesPrintedWithSupply"@),
                ),
                ink: first_nested_text(page, block, ink_level_selector()),
            },
        )
    } else {
        None
    }
}

/// The block of a single cartridge on a supplies status page: the first element
/// that its selector matches.
struct CartridgeBlock<'a> {
    document: &'a Document,
    selector: String,
}

/// Select a single cartridge's div block out of a supplies status page.
fn get_cartridge_block<'a>(document: &'a Document, colname: &str) -> (block: Option<
    CartridgeBlock<'a>,
>)
    requires
        is_selector(cartridge_block_selector(colname@)),
    ensures
        block is Some <==> first_text(document@, cartridge_block_selector(colname@)) is Some,
        block matches Some(block) ==> {
            &&& block.document == document
            &&& block.selector@ == cartridge_block_selector(colname@)
        },
{
    let mut selector: String = ".".to_owned();
    selector.append("consumable-block-");
    selector.append(colname);
    assert(selector@ == cartridge_block_selector(colname@));
    if document.has_match(selector.as_str()) {
        Some(CartridgeBlock { document, selector })
    } else {
        None
    }
}

/// Extract a single datum from a cartridge block.
fn get_cartridge_row(block: &CartridgeBlock<'_>, row_name: &str) -> (text: Option<String>)
    requires
        is_selector(block.selector@),
        is_selector(id_suffix_selector(row_name@)),
    ensures
        optional_text(text) == first_nested_text(
            block.document@,
            block.selector@,
            id_suffix_selector(row_name@),
        ),
{
    let mut selector: String = "[id$=\"".to_owned();
    selector.append(row_name);
    selector.append("\"]");
    block.document.first_nested_text(block.selector.as_str(), selector.as_str())
}

/// Reads the texts of the block of a color.
fn get_cartridge_rows(colname: &str, document: &Document) -> (rows: Option<CartridgeRows>)
    requires
        is_selector(cartridge_block_selector(colname@)),
    ensures
        match rows {
            Some(rows) => cartridge_rows(document@, colname@) == Some(rows@),
            None => cartridge_rows(document@, colname@) is None,
        },
{
    proof {
        reveal_strlit("EstimatedPagesRemaining");
        reveal_strlit("PagesPrintedWithSupply");
        assert(is_plain_name("EstimatedPagesRemaining"@));
        assert(is_plain_name("PagesPrintedWithSupply"@));
    }
    match get_cartridge_block(document, colname) {
        Some(block) => {
            let estimated: Option<String> = get_cartridge_row(&block, "EstimatedPagesRemaining");
            let printed: Option<String> = get_cartridge_row(&block, "PagesPrintedWithSupply");
            let ink: Option<String> = document.first_nested_text(
                block.selector.as_str(),
                ".consumable-block-header > .data.percentage",
            );
            Some(CartridgeRows { estimated, printed, ink })
        },
        None => None,
    }
}

/// Whether the texts of a cartridge block, if there is one, can be read.
pub open spec fn rows_readable(rows: Option<CartridgeRowsView>) -> bool {
    match rows {
        Some(rows) => rows.readable(),
        None => true,
    }
}

/// The numbers of a cartridge block, if there is one.
pub open spec fn rows_cartridge(rows: Option<CartridgeRowsView>) -> Option<SuppliesCartridge> {
    match rows {
        Some(rows) => Some(rows.cartridge()),
        None => None,
    }
}

/// Parses all information relevant to a single color cartridge.
fn scrape_cartridge_color(colname: &str, document: &Document) -> (cartridge: Option<
    SuppliesCartridge,
>)
    requires
        is_selector(cartridge_block_selector(colname@)),
        rows_readable(cartridge_rows(document@, colname@)),
    ensures
        cartridge == rows_cartridge(cartridge_rows(document@, colname@)),
{
    match get_cartridge_rows(colname, document) {
        Some(rows) => Some(rows.cartridge()),
        None => None,
    }
}

/// Whether the block of a color, if there is one, can be read.
fn color_is_readable(colname: &str, document: &Document) -> (readable: bool)
    requires
        is_selector(cartridge_block_selector(colname@)),
    ensures
        readable == rows_readable(cartridge_rows(document@, colname@)),
{
    match get_cartridge_rows(colname, document) {
        Some(rows) => rows.readable(),
        None => true,
    }
}

/// Whether each of the four cartridges of a supplies status page can be read.
pub open spec fn supplies_readable(page: Seq<char>) -> bool {
    &&& rows_readable(cartridge_rows(page, "cyan"@))
    &&& rows_readable(cartridge_rows(page, "magenta"@))
    &&& rows_readable(cartridge_rows(page, "yellow"@))
    &&& rows_readable(cartridge_rows(page, "black"@))
}

/// The supplies that a supplies status page shows.
pub open spec fn supplies_of_page(page: Seq<char>) -> Supplies {
    Supplies {
        c: rows_cartridge(cartridge_rows(page, "cyan"@)),
        m: rows_cartridge(cartridge_rows(page, "magenta"@)),
        y: rows_cartridge(cartridge_rows(page, "yellow"@)),
        k: rows_cartridge(cartridge_rows(page, "black"@)),
    }
}

/// The blocks of the colors have plain selectors.
proof fn lemma_block_selectors()
    ensures
        is_selector(cartridge_block_selector("cyan"@)),
        is_selector(cartridge_block_selector("magenta"@)),
        is_selector(cartridge_block_selector("yellow"@)),
        is_selector(cartridge_block_selector("black"@)),
{
    reveal_strlit("consumable-block-");
    reveal_strlit("cyan");
    reveal_strlit("magenta");
    reveal_strlit("yellow");
    reveal_strlit("black");
    assert(is_plain_name("consumable-block-"@ + "cyan"@));
    assert(is_plain_name("consumable-block-"@ + "magenta"@));
    assert(is_plain_name("consumable-block-"@ + "yellow"@));
    assert(is_plain_name("consumable-block-"@ + "black"@));
}

/// Scrapes information from a supplies status page, once for each color.
///
/// The rows of printed pages have to be numbers, and the percentages small
/// enough to be scaled; [`try_scrape_supplies_info`] looks first.
pub fn scrape_supplies_info(document: Document) -> (supplies: Supplies)
    requires
        supplies_readable(document@),
    ensures
        supplies == supplies_of_page(document@),
        supplies.c is Some <==> first_text(document@, ".consumable-block-cyan"@) is Some,
        supplies.c matches Some(cartridge) ==> cartridge.printed == (match first_nested_text(
            document@,
            ".consumable-block-cyan"@,
            "[id$=\"PagesPrintedWithSupply\"]"@,
        ) {
            Some(text) => number_of_text(text),
            None => None,
        }),
        supplies.m is Some <==> first_text(document@, ".consumable-block-magenta"@) is Some,
        supplies.m matches Some(cartridge) ==> cartridge.printed == (match first_nested_text(
            document@,
            ".consumable-block-magenta"@,
            "[id$=\"PagesPrintedWithSupply\"]"@,
        ) {
            Some(text) => number_of_text(text),
            None => None,
        }),
        supplies.y is Some <==> first_text(document@, ".consumable-block-yellow"@) is Some,
        supplies.y matches Some(cartridge) ==> cartridge.printed == (match first_nested_text(
            document@,
            ".consumable-block-yellow"@,
            "[id$=\"PagesPrintedWithSupply\"]"@,
        ) {
            Some(text) => number_of_text(text),
            None => None,
        }),
        supplies.k is Some <==> first_text(document@, ".consumable-block-black"@) is Some,
        supplies.k matches Some(cartridge) ==> cartridge.printed == (match first_nested_text(
            document@,
            ".consumable-block-black"@,
            "[id$=\"PagesPrintedWithSupply\"]"@,
        ) {
            Some(text) => number_of_text(text),
            None => None,
        }),
{
    proof {
        lemma_block_selectors();
        law_supplies_are_read_by_color(document@);
    }
    Supplies {
        c: scrape_cartridge_color("cyan", &document),
        m: scrape_cartridge_color("magenta", &document),
        y: scrape_cartridge_color("yellow", &document),
        k: scrape_cartridge_color("black", &document),
    }
}

/// Scrapes information from a supplies status page, or returns `None` where a
/// row of printed pages is no number or a percentage is too large.
pub fn try_scrape_supplies_info(document: Document) -> (supplies: Option<Supplies>)
    ensures
        match supplies {
            Some(supplies) => {
                &&& supplies_readable(document@)
                &&& supplies == supplies_of_page(document@)
            },
            None => !supplies_readable(document@),
        },
{
    proof {
        lemma_block_selectors();
    }
    if color_is_readable("cyan", &document) && color_is_readable("magenta", &document)
        && color_is_readable("yellow", &document) && color_is_readable("black", &document) {
        Some(scrape_supplies_info(document))
    } else {
        None
    }
}

/// Get a single datum of information from the device info page.
///
/// The name after a `#` has to be a selector; [`try_get_device_info_datum`]
/// looks first.
pub fn get_device_info_datum(doc: &Document, infoname: &str) -> (datum: Option<String>)
    requires
        is_selector(id_selector(infoname@)),
    ensures
        optional_text(datum) == first_text(doc@, id_selector(infoname@)),
        optional_text(datum) == first_text(doc@, "#"@ + infoname@),
{
    let mut selector: String = "#".to_owned();
    selector.append(infoname);
    doc.first_text(selector.as_str())
}

/// Get a single datum of information from the device info page, or `None` where
/// the name after a `#` is no selector, or one that is nested too deeply.
pub fn try_get_device_info_datum(doc: &Document, infoname: &str) -> (datum: Option<Option<String>>)
    ensures
        datum is Some <==> is_shallow(id_selector(infoname@)) && selector_parses(
            id_selector(infoname@),
        ),
        is_plain_name(infoname@) ==> datum is Some,
        datum matches Some(datum) ==> optional_text(datum) == first_text(
            doc@,
            id_selector(infoname@),
        ),
        datum matches Some(datum) ==> optional_text(datum) == first_text(doc@, "#"@ + infoname@),
{
    let mut selector: String = "#".to_owned();
    selector.append(infoname);
    proof {
        if is_plain_name(infoname@) {
            lemma_plain_id_is_shallow(infoname@);
        }
    }
    if is_shallow_selector(selector.as_str()) && parses_as_selector(selector.as_str()) {
        Some(get_device_info_datum(doc, infoname))
    } else {
        None
    }
}

/// The information that a device info page shows.
pub open spec fn device_info_of_page(page: Seq<char>) -> DeviceInfoView {
    DeviceInfoView {
        location: first_text(page, id_selector("DeviceLocation"@)),
        model: first_text(page, id_selector("DeviceModel"@)),
        name: first_text(page, id_selector("ProductName"@)),
        nick: first_text(page, id_selector("DeviceName"@)),
        serial: first_text(page, id_selector("DeviceSerialNumber"@)),
    }
}

/// Scrapes information from a device info page.
pub fn scrape_device_info(document: Document) -> (info: DeviceInfo)
    ensures
        info@ == device_info_of_page(document@),
        optional_text(info.location) == first_text(document@, "#DeviceLocation"@),
        optional_text(info.model) == first_text(document@, "#DeviceModel"@),
        optional_text(info.name) == first_text(document@, "#ProductName"@),
        optional_text(info.nick) == first_text(document@, "#DeviceName"@),
        optional_text(info.serial) == first_text(document@, "#DeviceSerialNumber"@),
{
    proof {
        law_device_info_is_read_by_id(document@);
        reveal_strlit("DeviceLocation");
        reveal_strlit("DeviceModel");
        reveal_strlit("ProductName");
        reveal_strlit("DeviceName");
        reveal_strlit("DeviceSerialNumber");
        assert(is_plain_name("DeviceLocation"@));
        assert(is_plain_name("DeviceModel"@));
        assert(is_plain_name("ProductName"@));
        assert(is_plain_name("DeviceName"@));
        assert(is_plain_name("DeviceSerialNumber"@));
    }
    DeviceInfo {
        location: get_device_info_datum(&document, "DeviceLocation"),
        model: get_device_info_datum(&document, "DeviceModel"),
        name: get_device_info_datum(&document, "ProductName"),
        nick: get_device_info_datum(&document, "DeviceName"),
        serial: get_device_info_datum(&document, "DeviceSerialNumber"),
    }
}

/// A percentage of at most a hundred is scaled without loss: none is 0, a
/// hundred is 65535, more ink gives a higher level, and the level gives back the
/// percentage.
pub proof fn law_ink_level_of_percentage(low: nat, high: nat)
    requires
        low <= high <= 100,
    ensures
        scaled_ink_level(low) == low * 65535 / 100,
        low < high ==> scaled_ink_level(low) < scaled_ink_level(high),
        scaled_ink_level(0) == 0,
        scaled_ink_level(100) == 65535,
        (scaled_ink_level(low) * 100 + 65534) / 65535 == low,
{
}

/// The selector of a login screen.
proof fn lemma_login_selector()
    ensures
        class_selector("loginscreen"@) == ".loginscreen"@,
{
    reveal_strlit(".");
    reveal_strlit("loginscreen");
    reveal_strlit(".loginscreen");
}

/// A URL starts with the scheme, goes on with the host and the directory of the
/// pages of a printer, and ends in the path of the page.
pub proof fn law_url_is_made_of_its_parts(addr: Seq<char>, path: Seq<char>)
    ensures
        href(addr, path).len() == 18 + addr.len() + path.len(),
        href(addr, path).take(7) == seq!['h', 't', 't', 'p', ':', '/', '/'],
        href(addr, path).subrange(7, 7 + addr.len() as int) == addr,
        href(addr, path).subrange(7 + addr.len() as int, 18 + addr.len() as int) == seq![
            '/',
            'h',
            'p',
            '/',
            'd',
            'e',
            'v',
            'i',
            'c',
            'e',
            '/',
        ],
        href(addr, path).skip(18 + addr.len() as int) == path,
{
    reveal_strlit("http://");
    reveal_strlit("/hp/device/");
}

/// An address stands in brackets exactly where it has two colons at least and
/// consists of hexadecimal digits, colons and dots; any other is a host as it is.
pub proof fn law_brackets_stand_round_ipv6_only(addr: Seq<char>)
    ensures
        ({
            &&& exists|i: int, j: int|
                0 <= i < j < addr.len() && #[trigger] addr[i] == ':' && #[trigger] addr[j] == ':'
            &&& forall|i: int|
                0 <= i < addr.len() ==> '0' <= #[trigger] addr[i] && addr[i] <= '9' || 'a'
                    <= addr[i] && addr[i] <= 'f' || 'A' <= addr[i] && addr[i] <= 'F' || addr[i]
                    == ':' || addr[i] == '.'
        }) ==> host(addr) == seq!['['] + addr + seq![']'],
        !({
            &&& exists|i: int, j: int|
                0 <= i < j < addr.len() && #[trigger] addr[i] == ':' && #[trigger] addr[j] == ':'
            &&& forall|i: int|
                0 <= i < addr.len() ==> '0' <= #[trigger] addr[i] && addr[i] <= '9' || 'a'
                    <= addr[i] && addr[i] <= 'f' || 'A' <= addr[i] && addr[i] <= 'F' || addr[i]
                    == ':' || addr[i] == '.'
        }) ==> host(addr) == addr,
{
    reveal_strlit("[");
    reveal_strlit("]");
    lemma_two_occurrences(addr, ':');
}

/// A character occurs twice at least exactly where it stands at two places, and
/// once at least where it stands at one.
proof fn lemma_two_occurrences(s: Seq<char>, c: char)
    ensures
        occurrences(s, c) >= 2 <==> exists|i: int, j: int|
            0 <= i < j < s.len() && #[trigger] s[i] == c && #[trigger] s[j] == c,
        occurrences(s, c) >= 1 <==> exists|i: int| 0 <= i < s.len() && #[trigger] s[i] == c,
    decreases s.len(),
{
    if s.len() == 0 {
        law_occurrences_are_counted(s, c, c);
        assert(s == Seq::<char>::empty());
    } else {
        let before = s.drop_last();
        let last = s.len() - 1;
        lemma_two_occurrences(before, c);
        law_occurrences_are_counted(before, s.last(), c);
        assert(before.push(s.last()) == s);
        if occurrences(before, c) >= 1 {
            let i = choose|i: int| 0 <= i < before.len() && #[trigger] before[i] == c;
            assert(s[i] == c);
            assert(s[last] == s.last());
        }
        if occurrences(before, c) >= 2 {
            let (i, j) = choose|i: int, j: int|
                0 <= i < j < before.len() && #[trigger] before[i] == c && #[trigger] before[j]
                    == c;
            assert(s[i] == c && s[j] == c);
        }
        if exists|i: int, j: int|
            0 <= i < j < s.len() && #[trigger] s[i] == c && #[trigger] s[j] == c {
            let (i, j) = choose|i: int, j: int|
                0 <= i < j < s.len() && #[trigger] s[i] == c && #[trigger] s[j] == c;
            assert(before[i] == c);
            if j < last {
                assert(before[j] == c);
            }
        }
        if exists|i: int| 0 <= i < s.len() && #[trigger] s[i] == c {
            let i = choose|i: int| 0 <= i < s.len() && #[trigger] s[i] == c;
            if i < last {
                assert(before[i] == c);
            }
        }
    }
}

/// The texts of a cartridge become its numbers, each its own: the printed pages
/// are the whole row; the estimated pages are the digits that their row starts
/// with; the ink level is the percentage that its text starts with, in parts of
/// 65535. Where there is no text, or no digit at its start, there is no number.
pub proof fn law_rows_become_numbers(rows: CartridgeRowsView, digits: Seq<char>, rest: Seq<char>)
    requires
        digits.len() > 0,
        forall|i: int| 0 <= i < digits.len() ==> '0' <= #[trigger] digits[i] && digits[i] <= '9',
        rest.len() == 0 || !('0' <= rest[0] <= '9'),
    ensures
        rows.cartridge().printed == (match rows.printed {
            Some(text) => number_of_text(text),
            None => None,
        }),
        rows.estimated is None || rows.estimated == Some(rest)
            ==> rows.cartridge().estim_pages_remaining is None,
        rows.estimated == Some(digits + rest) ==> rows.cartridge().estim_pages_remaining
            == number_of_text(digits),
        rows.ink is None || rows.ink == Some(rest) ==> rows.cartridge().ink_level is None,
        rows.ink == Some(digits + rest) ==> (number_of_text(digits) matches Some(n) ==> n <= 65537
            ==> rows.cartridge().ink_level == Some(((n * 65535 / 100) % 65536) as u16)),
        ink_level_of_text(rest) is None,
        number_of_text(digits) matches Some(n) ==> ink_level_of_text(digits + rest) == Some(
            ((n * 65535 / 100) % 65536) as u16,
        ),
{
    lemma_leading_digits_of_sum(digits, rest);
    lemma_leading_digits_of_sum(Seq::empty(), rest);
    assert(Seq::<char>::empty() + rest == rest);
    law_digits_are_a_number(digits);
    assert('0' <= digits[0] && digits[0] <= '9');
}

/// The texts of a cartridge can be read exactly where the row of printed pages, if
/// there is one, is a number, and the percentage, if there is one, is a number of
/// at most 65537.
pub proof fn law_readable_rows(rows: CartridgeRowsView, digits: Seq<char>, rest: Seq<char>)
    requires
        digits.len() > 0,
        forall|i: int| 0 <= i < digits.len() ==> '0' <= #[trigger] digits[i] && digits[i] <= '9',
        rest.len() == 0 || !('0' <= rest[0] <= '9'),
    ensures
        rows.ink is None || rows.ink == Some(rest) ==> (rows.readable() <==> (
        rows.printed matches Some(text) ==> number_of_text(text) is Some)),
        rows.ink == Some(digits + rest) ==> (rows.readable() <==> {
            &&& rows.printed matches Some(text) ==> number_of_text(text) is Some
            &&& number_of_text(digits) matches Some(n) && n <= 65537
        }),
{
    lemma_leading_digits_of_sum(digits, rest);
    lemma_leading_digits_of_sum(Seq::empty(), rest);
    assert(Seq::<char>::empty() + rest == rest);
    law_digits_are_a_number(digits);
    lemma_leading_digits_are_digits(digits + rest);
    assert('0' <= digits[0] && digits[0] <= '9');
}

/// The view of the texts of a cartridge holds each in its place.
pub proof fn law_view_of_rows(rows: CartridgeRows)
    ensures
        match rows.estimated {
            Some(text) => rows@.estimated == Some(text@),
            None => rows@.estimated is None,
        },
        match rows.printed {
            Some(text) => rows@.printed == Some(text@),
            None => rows@.printed is None,
        },
        match rows.ink {
            Some(text) => rows@.ink == Some(text@),
            None => rows@.ink is None,
        },
{
}

/// The selectors of the blocks and the rows of a supplies status page.
proof fn lemma_supplies_selectors()
    ensures
        cartridge_block_selector("cyan"@) == ".consumable-block-cyan"@,
        cartridge_block_selector("magenta"@) == ".consumable-block-magenta"@,
        cartridge_block_selector("yellow"@) == ".consumable-block-yellow"@,
        cartridge_block_selector("black"@) == ".consumable-block-black"@,
        id_suffix_selector("EstimatedPagesRemaining"@) == "[id$=\"EstimatedPagesRemaining\"]"@,
        id_suffix_selector("PagesPrintedWithSupply"@) == "[id$=\"PagesPrintedWithSupply\"]"@,
{
    reveal_strlit(".");
    reveal_strlit("consumable-block-");
    reveal_strlit("cyan");
    reveal_strlit("magenta");
    reveal_strlit("yellow");
    reveal_strlit("black");
    reveal_strlit(".consumable-block-cyan");
    reveal_strlit(".consumable-block-magenta");
    reveal_strlit(".consumable-block-yellow");
    reveal_strlit(".consumable-block-black");
    reveal_strlit("[id$=\"");
    reveal_strlit("\"]");
    reveal_strlit("EstimatedPagesRemaining");
    reveal_strlit("PagesPrintedWithSupply");
    reveal_strlit("[id$=\"EstimatedPagesRemaining\"]");
    reveal_strlit("[id$=\"PagesPrintedWithSupply\"]");
}

/// Each cartridge of the supplies depends on the block of its own color alone: it
/// is there exactly where the block is, and its numbers are those of the rows in
/// that block.
pub proof fn law_supplies_are_read_by_color(page: Seq<char>)
    ensures
        supplies_of_page(page).c is Some <==> first_text(page, ".consumable-block-cyan"@) is Some,
        supplies_of_page(page).c matches Some(cartridge) ==> cartridge.printed == (
        match first_nested_text(
            page,
            ".consumable-block-cyan"@,
            "[id$=\"PagesPrintedWithSupply\"]"@,
        ) {
            Some(text) => number_of_text(text),
            None => None,
        }),
        supplies_of_page(page).m is Some <==> first_text(page, ".consumable-block-magenta"@) is Some,
        supplies_of_page(page).m matches Some(cartridge) ==> cartridge.printed == (
        match first_nested_text(
            page,
            ".consumable-block-magenta"@,
            "[id$=\"PagesPrintedWithSupply\"]"@,
        ) {
            Some(text) => number_of_text(text),
            None => None,
        }),
        supplies_of_page(page).y is Some <==> first_text(page, ".consumable-block-yellow"@) is Some,
        supplies_of_page(page).y matches Some(cartridge) ==> cartridge.printed == (
        match first_nested_text(
            page,
            ".consumable-block-yellow"@,
            "[id$=\"PagesPrintedWithSupply\"]"@,
        ) {
            Some(text) => number_of_text(text),
            None => None,
        }),
        supplies_of_page(page).k is Some <==> first_text(page, ".consumable-block-black"@) is Some,
        supplies_of_page(page).k matches Some(cartridge) ==> cartridge.printed == (
        match first_nested_text(
            page,
            ".consumable-block-black"@,
            "[id$=\"PagesPrintedWithSupply\"]"@,
        ) {
            Some(text) => number_of_text(text),
            None => None,
        }),
        supplies_of_page(page).c matches Some(cartridge) ==> cartridge == (
        CartridgeRowsView {
            estimated: first_nested_text(
                page,
                ".consumable-block-cyan"@,
                "[id$=\"EstimatedPagesRemaining\"]"@,
            ),
            printed: first_nested_text(
                page,
                ".consumable-block-cyan"@,
                "[id$=\"PagesPrintedWithSupply\"]"@,
            ),
            ink: first_nested_text(
                page,
                ".consumable-block-cyan"@,
                ".consumable-block-header > .data.percentage"@,
            ),
        }).cartridge(),
        supplies_of_page(page).m matches Some(cartridge) ==> cartridge == (
        CartridgeRowsView {
            estimated: first_nested_text(
                page,
                ".consumable-block-magenta"@,
                "[id$=\"EstimatedPagesRemaining\"]"@,
            ),
            printed: first_nested_text(
                page,
                ".consumable-block-magenta"@,
                "[id$=\"PagesPrintedWithSupply\"]"@,
            ),
            ink: first_nested_text(
                page,
                ".consumable-block-magenta"@,
                ".consumable-block-header > .data.percentage"@,
            ),
        }).cartridge(),
        supplies_of_page(page).y matches Some(cartridge) ==> cartridge == (
        CartridgeRowsView {
            estimated: first_nested_text(
                page,
                ".consumable-block-yellow"@,
                "[id$=\"EstimatedPagesRemaining\"]"@,
            ),
            printed: first_nested_text(
                page,
                ".consumable-block-yellow"@,
                "[id$=\"PagesPrintedWithSupply\"]"@,
            ),
            ink: first_nested_text(
                page,
                ".consumable-block-yellow"@,
                ".consumable-block-header > .data.percentage"@,
            ),
        }).cartridge(),
        supplies_of_page(page).k matches Some(cartridge) ==> cartridge == (
        CartridgeRowsView {
            estimated: first_nested_text(
                page,
                ".consumable-block-black"@,
                "[id$=\"EstimatedPagesRemaining\"]"@,
            ),
            printed: first_nested_text(
                page,
                ".consumable-block-black"@,
                "[id$=\"PagesPrintedWithSupply\"]"@,
            ),
            ink: first_nested_text(
                page,
                ".consumable-block-black"@,
                ".consumable-block-header > .data.percentage"@,
            ),
        }).cartridge(),
{
    lemma_supplies_selectors();
}

/// A supplies status page can be read exactly where each block that it has can be.
pub proof fn law_supplies_are_readable_by_color(page: Seq<char>)
    ensures
        supplies_readable(page) <==> {
            &&& first_text(page, ".consumable-block-cyan"@) is Some ==> (
            CartridgeRowsView {
                estimated: first_nested_text(
                    page,
                    ".consumable-block-cyan"@,
                    "[id$=\"EstimatedPagesRemaining\"]"@,
                ),
                printed: first_nested_text(
                    page,
                    ".consumable-block-cyan"@,
                    "[id$=\"PagesPrintedWithSupply\"]"@,
                ),
                ink: first_nested_text(
                    page,
                    ".consumable-block-cyan"@,
                    ".consumable-block-header > .data.percentage"@,
                ),
            }).readable()
            &&& first_text(page, ".consumable-block-magenta"@) is Some ==> (
            CartridgeRowsView {
                estimated: first_nested_text(
                    page,
                    ".consumable-block-magenta"@,
                    "[id$=\"EstimatedPagesRemaining\"]"@,
                ),
                printed: first_nested_text(
                    page,
                    ".consumable-block-magenta"@,
                    "[id$=\"PagesPrintedWithSupply\"]"@,
                ),
                ink: first_nested_text(
                    page,
                    ".consumable-block-magenta"@,
                    ".consumable-block-header > .data.percentage"@,
                ),
            }).readable()
            &&& first_text(page, ".consumable-block-yellow"@) is Some ==> (
            CartridgeRowsView {
                estimated: first_nested_text(
                    page,
                    ".consumable-block-yellow"@,
                    "[id$=\"EstimatedPagesRemaining\"]"@,
                ),
                printed: first_nested_text(
                    page,
                    ".consumable-block-yellow"@,
                    "[id$=\"PagesPrintedWithSupply\"]"@,
                ),
                ink: first_nested_text(
                    page,
                    ".consumable-block-yellow"@,
                    ".consumable-block-header > .data.percentage"@,
                ),
            }).readable()
            &&& first_text(page, ".consumable-block-black"@) is Some ==> (
            CartridgeRowsView {
                estimated: first_nested_text(
                    page,
                    ".consumable-block-black"@,
                    "[id$=\"EstimatedPagesRemaining\"]"@,
                ),
                printed: first_nested_text(
                    page,
                    ".consumable-block-black"@,
                    "[id$=\"PagesPrintedWithSupply\"]"@,
                ),
                ink: first_nested_text(
                    page,
                    ".consumable-block-black"@,
                    ".consumable-block-header > .data.percentage"@,
                ),
            }).readable()
        },
{
    lemma_supplies_selectors();
}

/// Each datum of the device information is the text of the element with its own
/// id.
pub proof fn law_device_info_is_read_by_id(page: Seq<char>)
    ensures
        device_info_of_page(page).location == first_text(page, "#DeviceLocation"@),
        device_info_of_page(page).model == first_text(page, "#DeviceModel"@),
        device_info_of_page(page).name == first_text(page, "#ProductName"@),
        device_info_of_page(page).nick == first_text(page, "#DeviceName"@),
        device_info_of_page(page).serial == first_text(page, "#DeviceSerialNumber"@),
{
    reveal_strlit("#");
    reveal_strlit("DeviceLocation");
    reveal_strlit("#DeviceLocation");
    reveal_strlit("DeviceModel");
    reveal_strlit("#DeviceModel");
    reveal_strlit("ProductName");
    reveal_strlit("#ProductName");
    reveal_strlit("DeviceName");
    reveal_strlit("#DeviceName");
    reveal_strlit("DeviceSerialNumber");
    reveal_strlit("#DeviceSerialNumber");
    assert(id_selector("DeviceLocation"@) == "#DeviceLocation"@);
    assert(id_selector("DeviceModel"@) == "#DeviceModel"@);
    assert(id_selector("ProductName"@) == "#ProductName"@);
    assert(id_selector("DeviceName"@) == "#DeviceName"@);
    assert(id_selector("DeviceSerialNumber"@) == "#DeviceSerialNumber"@);
}

} // verus!
