//! What is known about a printer.

use vstd::prelude::*;

use crate::text::optional_text;

verus! {

/// The information collected from the HP device information page.
#[derive(Debug, PartialEq, Eq)]
pub struct DeviceInfo {
    pub location: Option<String>,
    pub model: Option<String>,
    pub serial: Option<String>,
    pub name: Option<String>,
    pub nick: Option<String>,
}

/// The texts that a [`DeviceInfo`] holds.
pub struct DeviceInfoView {
    pub location: Option<Seq<char>>,
    pub model: Option<Seq<char>>,
    pub serial: Option<Seq<char>>,
    pub name: Option<Seq<char>>,
    pub nick: Option<Seq<char>>,
}

impl View for DeviceInfo {
    type V = DeviceInfoView;

    open spec fn view(&self) -> DeviceInfoView {
        DeviceInfoView {
            location: optional_text(self.location),
            model: optional_text(self.model),
            serial: optional_text(self.serial),
            name: optional_text(self.name),
            nick: optional_text(self.nick),
        }
    }
}

impl DeviceInfoView {
    /// Whether none of the texts was found.
    pub open spec fn all_null(self) -> bool {
        self == (DeviceInfoView {
            location: None,
            model: None,
            serial: None,
            name: None,
            nick: None,
        })
    }
}

impl DeviceInfo {
    /// Whether no datum of the device information page was found.
    pub fn all_null(&self) -> (null: bool)
        ensures
            null == self@.all_null(),
            null == (self.location is None && self.model is None && self.serial is None
                && self.name is None && self.nick is None),
    {
        self.location.is_none() && self.model.is_none() && self.serial.is_none()
            && self.name.is_none() && self.nick.is_none()
    }
}

/// A single color cartridge.
///
/// Can be cyan, magenta, yellow or key (black).
///
/// This struct does not tell which color the cartridge is: that is known from
/// its place in a [`Supplies`].
#[derive(Debug, PartialEq, Eq)]
pub struct SuppliesCartridge {
    pub estim_pages_remaining: Option<u32>,
    pub printed: Option<u32>,
    pub ink_level: Option<u16>,
}

impl SuppliesCartridge {
    /// Whether none of the cartridge's numbers was found.
    pub open spec fn is_null(self) -> bool {
        self == (SuppliesCartridge { estim_pages_remaining: None, printed: None, ink_level: None })
    }

    /// Whether no number of the cartridge was found.
    pub fn all_null(&self) -> (null: bool)
        ensures
            null == self.is_null(),
            null == (self.estim_pages_remaining is None && self.printed is None
                && self.ink_level is None),
    {
        self.estim_pages_remaining.is_none() && self.printed.is_none() && self.ink_level.is_none()
    }
}

/// The information collected from the HP supplies status page.
#[derive(Debug, PartialEq, Eq)]
pub struct Supplies {
    pub c: Option<SuppliesCartridge>,
    pub m: Option<SuppliesCartridge>,
    pub y: Option<SuppliesCartridge>,
    pub k: Option<SuppliesCartridge>,
}

/// Whether a cartridge is missing, or was found without a single number.
pub open spec fn cartridge_is_null(cartridge: Option<SuppliesCartridge>) -> bool {
    match cartridge {
        Some(cartridge) => cartridge.is_null(),
        None => true,
    }
}

/// Whether a cartridge is missing, or was found without a single number.
fn null_option(cartridge: &Option<SuppliesCartridge>) -> (null: bool)
    ensures
        null == cartridge_is_null(*cartridge),
{
    match cartridge {
        Some(cartridge) => cartridge.all_null(),
        None => true,
    }
}

impl Supplies {
    /// The cartridges in the order cyan, magenta, yellow, key.
    pub open spec fn cartridges(self) -> Seq<Option<SuppliesCartridge>> {
        seq![self.c, self.m, self.y, self.k]
    }

    /// Whether no cartridge has a number.
    pub open spec fn is_null(self) -> bool {
        forall|i: int| 0 <= i < 4 ==> cartridge_is_null(#[trigger] self.cartridges()[i])
    }

    /// Whether no number was found of any cartridge.
    pub fn all_null(&self) -> (null: bool)
        ensures
            null == self.is_null(),
    {
        assert(self.cartridges()[0] == self.c && self.cartridges()[1] == self.m
            && self.cartridges()[2] == self.y && self.cartridges()[3] == self.k);
        null_option(&self.c) && null_option(&self.m) && null_option(&self.y)
            && null_option(&self.k)
    }

    /// The cartridges in the order cyan, magenta, yellow, key.
    pub fn as_vec(&self) -> (cartridges: Vec<Option<&SuppliesCartridge>>)
        ensures
            cartridges@.len() == 4,
            forall|i: int|
                0 <= i < 4 ==> match #[trigger] cartridges@[i] {
                    Some(cartridge) => self.cartridges()[i] == Some(*cartridge),
                    None => self.cartridges()[i] is None,
                },
            match cartridges@[0] {
                Some(cartridge) => self.c == Some(*cartridge),
                None => self.c is None,
            },
            match cartridges@[1] {
                Some(cartridge) => self.m == Some(*cartridge),
                None => self.m is None,
            },
            match cartridges@[2] {
                Some(cartridge) => self.y == Some(*cartridge),
                None => self.y is None,
            },
            match cartridges@[3] {
                Some(cartridge) => self.k == Some(*cartridge),
                None => self.k is None,
            },
    {
        let mut cartridges: Vec<Option<&SuppliesCartridge>> = Vec::new();
        cartridges.push(self.c.as_ref());
        cartridges.push(self.m.as_ref());
        cartridges.push(self.y.as_ref());
        cartridges.push(self.k.as_ref());
        cartridges
    }
}

/// The information collected about a printer.
#[derive(Debug, PartialEq, Eq)]
pub struct PrinterInfo {
    pub addr: String,
    pub info: DeviceInfo,
    pub supplies: Supplies,
}

/// The texts and numbers that a [`PrinterInfo`] holds.
pub struct PrinterInfoView {
    pub addr: Seq<char>,
    pub info: DeviceInfoView,
    pub supplies: Supplies,
}

impl View for PrinterInfo {
    type V = PrinterInfoView;

    open spec fn view(&self) -> PrinterInfoView {
        PrinterInfoView { addr: self.addr@, info: self.info@, supplies: self.supplies }
    }
}

impl PrinterInfoView {
    /// Whether nothing but the address is known.
    pub open spec fn all_null(self) -> bool {
        self.info.all_null() && self.supplies.is_null()
    }
}

impl PrinterInfo {
    /// Whether no information was gathered about this printer at all.
    ///
    /// Such instances usually mean that an issue was had while trying
    /// to read from a printer. They should not happen if the filters are
    /// sufficient. Currently, only login pages are filtered out.
    pub fn all_null(&self) -> (null: bool)
        ensures
            null == self@.all_null(),
    {
        self.info.all_null() && self.supplies.all_null()
    }
}

/// A printer is without information exactly where each of the five texts and
/// each of the twelve numbers is missing.
pub proof fn law_all_null_means_no_datum(info: PrinterInfo)
    ensures
        info@.all_null() <==> {
            &&& info.info.location is None
            &&& info.info.model is None
            &&& info.info.serial is None
            &&& info.info.name is None
            &&& info.info.nick is None
            &&& forall|i: int|
                0 <= i < 4 ==> (#[trigger] info.supplies.cartridges()[i] matches Some(cartridge)
                    ==> cartridge.estim_pages_remaining is None && cartridge.printed is None
                    && cartridge.ink_level is None)
        },
        info@.all_null() <==> info@.info.all_null() && info@.supplies.is_null(),
{
}

/// Supplies are without information exactly where each of the three numbers of
/// each of the four colors is missing.
pub proof fn law_supplies_without_any_number(supplies: Supplies)
    ensures
        supplies.is_null() <==> {
            &&& supplies.c matches Some(c) ==> c.estim_pages_remaining is None && c.printed is None
                && c.ink_level is None
            &&& supplies.m matches Some(m) ==> m.estim_pages_remaining is None && m.printed is None
                && m.ink_level is None
            &&& supplies.y matches Some(y) ==> y.estim_pages_remaining is None && y.printed is None
                && y.ink_level is None
            &&& supplies.k matches Some(k) ==> k.estim_pages_remaining is None && k.printed is None
                && k.ink_level is None
        },
{
    let all = supplies.cartridges();
    assert(all[0] == supplies.c && all[1] == supplies.m && all[2] == supplies.y && all[3]
        == supplies.k);
}

/// The device information is without information exactly where each of its texts
/// is missing.
pub proof fn law_device_info_without_any_text(info: DeviceInfoView)
    ensures
        info.all_null() <==> info.location is None && info.model is None && info.serial is None
            && info.name is None && info.nick is None,
{
}

/// The views of what is known about a printer hold each datum in its place.
pub proof fn law_views_hold_each_datum(info: PrinterInfo)
    ensures
        info@.addr == info.addr@,
        info@.supplies == info.supplies,
        info@.info == info.info@,
        match info.info.location {
            Some(text) => info.info@.location == Some(text@),
            None => info.info@.location is None,
        },
        match info.info.model {
            Some(text) => info.info@.model == Some(text@),
            None => info.info@.model is None,
        },
        match info.info.serial {
            Some(text) => info.info@.serial == Some(text@),
            None => info.info@.serial is None,
        },
        match info.info.name {
            Some(text) => info.info@.name == Some(text@),
            None => info.info@.name is None,
        },
        match info.info.nick {
            Some(text) => info.info@.nick == Some(text@),
            None => info.info@.nick is None,
        },
{
}

} // verus!
