//! Contacting printers: which pages to ask for, and what to make of the answers.

use vstd::prelude::*;

use crate::address::{contains_address, IpAddress};
use crate::html::{class_selector, device_status_selector, first_text, Document};
use crate::printerinfo::{
    law_supplies_without_any_number, DeviceInfo, DeviceInfoView, PrinterInfo, PrinterInfoView,
    Supplies,
};
use crate::scrape::{
    accept_document, device_info_of_page, host, href, href_hp, href_hp_device_info,
    href_hp_supplies_page, is_device_status_page, law_device_info_is_read_by_id,
    scrape_device_info, supplies_of_page, supplies_readable, try_scrape_supplies_info, url_host,
};

verus! {

/// The seconds to wait for an answer to a ping.
pub const PING_TIMEOUT_SECS: u64 = 1;

/// The seconds to wait for a page.
pub const PAGE_TIMEOUT_SECS: u64 = 3;

/// The addresses that are contacted, in the order in which they were found.
#[derive(Debug)]
pub struct Contacts {
    seen: Vec<IpAddress>,
}

impl View for Contacts {
    type V = Seq<IpAddress>;

    closed spec fn view(&self) -> Seq<IpAddress> {
        self.seen@
    }
}

/// The addresses that are contacted once another one was found.
pub open spec fn with_contact(contacts: Seq<IpAddress>, ip: IpAddress) -> Seq<IpAddress> {
    if contacts.contains(ip) {
        contacts
    } else {
        contacts.push(ip)
    }
}

impl Contacts {
    #[verifier::type_invariant]
    spec fn distinct(self) -> bool {
        self.seen@.no_duplicates()
    }

    /// No address yet.
    pub fn new() -> (contacts: Contacts)
        ensures
            contacts@ == Seq::<IpAddress>::empty(),
    {
        Contacts { seen: Vec::new() }
    }

    /// Takes note of an address that was found, and tells whether it is to be
    /// contacted: whether it was not found before.
    pub fn note(&mut self, ip: IpAddress) -> (fresh: bool)
        ensures
            fresh == !old(self)@.contains(ip),
            final(self)@ == with_contact(old(self)@, ip),
            fresh ==> final(self)@ == old(self)@.push(ip),
            !fresh ==> final(self)@ == old(self)@,
            final(self)@.no_duplicates(),
    {
        proof {
            use_type_invariant(&*self);
        }
        if contains_address(&self.seen, ip) {
            false
        } else {
            let mut seen: Vec<IpAddress> = Vec::new();
            std::mem::swap(&mut seen, &mut self.seen);
            seen.push(ip);
            self.seen = seen;
            true
        }
    }
}

/// The addresses that are contacted once some were found, in their order.
pub open spec fn contacts_after(found: Seq<IpAddress>) -> Seq<IpAddress>
    decreases found.len(),
{
    if found.len() == 0 {
        Seq::empty()
    } else {
        with_contact(contacts_after(found.drop_last()), found.last())
    }
}

/// No address is contacted twice, and every address that was found is contacted.
pub proof fn law_each_address_is_contacted_once(found: Seq<IpAddress>)
    ensures
        contacts_after(found).no_duplicates(),
        forall|ip: IpAddress| #[trigger] contacts_after(found).contains(ip) <==> found.contains(ip),
    decreases found.len(),
{
    if found.len() > 0 {
        let before = found.drop_last();
        law_each_address_is_contacted_once(before);
        let contacts = contacts_after(before);
        let all = contacts_after(found);
        assert forall|ip: IpAddress| #[trigger] all.contains(ip) <==> found.contains(ip) by {
            assert(contacts.contains(ip) <==> before.contains(ip));
            if before.contains(ip) {
                let j = choose|j: int| 0 <= j < contacts.len() && contacts[j] == ip;
                assert(all[j] == ip);
            }
            if found.contains(ip) && ip != found.last() {
                let i = choose|i: int| 0 <= i < found.len() && found[i] == ip;
                assert(before[i] == ip);
            }
            if ip == found.last() && !contacts.contains(ip) {
                assert(all[contacts.len() as int] == ip);
            }
        }
    }
}

/// The next thing to do to find out whether there is a printer at an address.
#[derive(Debug)]
pub enum ProdStep {
    /// Ping the address.
    Ping,
    /// Ask for a page.
    Fetch(String),
    /// Pass the address on.
    Report(String),
    /// Nothing is left to do; tells whether a printer was found and passed on.
    Done(bool),
}

/// What came of a [`ProdStep`].
#[derive(Debug)]
pub enum ProdAnswer {
    /// Whether the ping was answered.
    Pinged(bool),
    /// The page, if there was one.
    Fetched(Option<Document>),
    /// Whether the address could be passed on.
    Reported(bool),
}

/// The texts of a [`ProdStep`].
pub enum ProdStepView {
    Ping,
    Fetch(Seq<char>),
    Report(Seq<char>),
    Done(bool),
}

impl View for ProdStep {
    type V = ProdStepView;

    open spec fn view(&self) -> ProdStepView {
        match *self {
            ProdStep::Ping => ProdStepView::Ping,
            ProdStep::Fetch(url) => ProdStepView::Fetch(url@),
            ProdStep::Report(addr) => ProdStepView::Report(addr@),
            ProdStep::Done(found) => ProdStepView::Done(found),
        }
    }
}

/// Whether a page is the device status page of a printer.
pub open spec fn shows_printer(page: Seq<char>) -> bool {
    first_text(page, device_status_selector()) is Some
}

/// What to do once a page was judged: pass on the address of a printer.
pub open spec fn step_after_page(addr: Seq<char>, printer: bool) -> ProdStepView {
    if printer {
        ProdStepView::Report(addr)
    } else {
        ProdStepView::Done(false)
    }
}

/// Whether an answer is one to a step.
pub open spec fn answers(step: ProdStepView, answer: ProdAnswer) -> bool {
    match step {
        ProdStepView::Ping => answer is Pinged,
        ProdStepView::Fetch(_) => answer is Fetched,
        ProdStepView::Report(_) => answer is Reported,
        ProdStepView::Done(_) => false,
    }
}

/// What to do after an answer.
pub open spec fn step_after(addr: Seq<char>, answer: ProdAnswer) -> ProdStepView {
    match answer {
        ProdAnswer::Pinged(true) => ProdStepView::Fetch(
            href(host(addr), "DeviceStatus/Index"@),
        ),
        ProdAnswer::Pinged(false) => ProdStepView::Done(false),
        ProdAnswer::Fetched(Some(page)) => step_after_page(addr, shows_printer(page@)),
        ProdAnswer::Fetched(None) => ProdStepView::Done(false),
        ProdAnswer::Reported(passed_on) => ProdStepView::Done(passed_on),
    }
}

/// Decides what to do once a page was judged.
pub fn prod_after_page(addr: &str, printer: bool) -> (step: ProdStep)
    ensures
        step@ == step_after_page(addr@, printer),
        printer ==> (step matches ProdStep::Report(reported) && reported@ == addr@),
        !printer ==> step == ProdStep::Done(false),
{
    if printer {
        ProdStep::Report(addr.to_owned())
    } else {
        ProdStep::Done(false)
    }
}

impl ProdStep {
    /// The first thing to do to find out whether there is a printer.
    pub fn start() -> (step: ProdStep)
        ensures
            step@ == ProdStepView::Ping,
    {
        ProdStep::Ping
    }

    /// Decides what to do after an answer to this step.
    pub fn next(self, addr: &str, answer: ProdAnswer) -> (step: ProdStep)
        requires
            answers(self@, answer),
        ensures
            step@ == step_after(addr@, answer),
            match answer {
                ProdAnswer::Pinged(true) => step matches ProdStep::Fetch(url) && url@ == "http://"@
                    + host(addr@) + "/hp/device/"@ + "DeviceStatus/Index"@,
                ProdAnswer::Pinged(false) => step == ProdStep::Done(false),
                ProdAnswer::Fetched(None) => step == ProdStep::Done(false),
                ProdAnswer::Fetched(Some(page)) => if first_text(
                    page@,
                    "body#PageDeviceStatus"@,
                ) is Some {
                    step matches ProdStep::Report(reported) && reported@ == addr@
                } else {
                    step == ProdStep::Done(false)
                },
                ProdAnswer::Reported(passed_on) => step == ProdStep::Done(passed_on),
            },
    {
        match answer {
            ProdAnswer::Pinged(answered) => {
                if answered {
                    ProdStep::Fetch(href_hp(url_host(addr).as_str(), "DeviceStatus/Index"))
                } else {
                    ProdStep::Done(false)
                }
            },
            ProdAnswer::Fetched(page) => {
                match page {
                    Some(page) => prod_after_page(addr, is_device_status_page(&page)),
                    None => ProdStep::Done(false),
                }
            },
            ProdAnswer::Reported(passed_on) => ProdStep::Done(passed_on),
        }
    }
}

/// Whether one step can follow another at an address.
pub open spec fn can_follow(addr: Seq<char>, step: ProdStepView, next: ProdStepView) -> bool {
    exists|answer: ProdAnswer| answers(step, answer) && next == #[trigger] step_after(addr, answer)
}

/// An address is passed on only as itself, and only after a page of it was seen;
/// a page is asked for only after a ping; and a printer counts as found only
/// after its address was passed on.
pub proof fn law_prod_keeps_its_order(addr: Seq<char>, step: ProdStepView, next: ProdStepView)
    requires
        can_follow(addr, step, next),
    ensures
        next matches ProdStepView::Report(reported) ==> reported == addr && step is Fetch,
        next matches ProdStepView::Fetch(url) ==> url == href(host(addr), "DeviceStatus/Index"@)
            && step is Ping,
        next == ProdStepView::Done(true) ==> step is Report,
        !(next is Ping),
{
}

/// The answers to the three steps that may be taken to find out whether there is
/// a printer at an address.
pub struct ProdReplies {
    /// Whether the ping was answered.
    pub answered: bool,
    /// The page, if there was one.
    pub page: Option<Document>,
    /// Whether the address could be passed on.
    pub passed_on: bool,
}

/// What comes of prodding an address.
pub open spec fn prod_outcome(addr: Seq<char>, replies: ProdReplies) -> ProdStepView {
    let second = step_after(addr, ProdAnswer::Pinged(replies.answered));
    if second is Done {
        second
    } else {
        let third = step_after(addr, ProdAnswer::Fetched(replies.page));
        if third is Done {
            third
        } else {
            step_after(addr, ProdAnswer::Reported(replies.passed_on))
        }
    }
}

/// What prodding an address passes on.
pub open spec fn prod_messages(addr: Seq<char>, replies: ProdReplies) -> Seq<Seq<char>> {
    let second = step_after(addr, ProdAnswer::Pinged(replies.answered));
    if second is Done {
        Seq::empty()
    } else {
        match step_after(addr, ProdAnswer::Fetched(replies.page)) {
            ProdStepView::Report(reported) => if replies.passed_on {
                seq![reported]
            } else {
                Seq::empty()
            },
            _ => Seq::empty(),
        }
    }
}

/// Whether the replies are those of a printer whose address can be passed on.
pub open spec fn is_reachable_printer(replies: ProdReplies) -> bool {
    &&& replies.answered
    &&& replies.page matches Some(page) && shows_printer(page@)
    &&& replies.passed_on
}

/// A printer is found at an address exactly where the address answers a ping,
/// shows a device status page, and can be passed on; and then the address is
/// passed on once, and nothing otherwise.
pub proof fn law_prod_finds_printers(addr: Seq<char>, replies: ProdReplies)
    ensures
        prod_outcome(addr, replies) == ProdStepView::Done(is_reachable_printer(replies)),
        prod_messages(addr, replies) == (if is_reachable_printer(replies) {
            seq![addr]
        } else {
            Seq::empty()
        }),
{
}

/// The message about an address of which nothing could be read.
pub open spec fn no_info_message(addr: Seq<char>) -> Seq<char> {
    "Could not get any info about supposed printer at address "@ + addr
}

/// What is reported about a printer, or a message where nothing is known.
pub open spec fn known_printer(info: PrinterInfoView) -> Result<PrinterInfoView, Seq<char>> {
    if info.all_null() {
        Err(no_info_message(info.addr))
    } else {
        Ok(info)
    }
}

/// The texts of a result.
pub open spec fn result_view(result: Result<PrinterInfo, String>) -> Result<
    PrinterInfoView,
    Seq<char>,
> {
    match result {
        Ok(info) => Ok(info@),
        Err(message) => Err(message@),
    }
}

/// Puts together what was read about a printer, unless it is nothing.
pub fn assemble_printer_info(addr: &str, info: DeviceInfo, supplies: Supplies) -> (result: Result<
    PrinterInfo,
    String,
>)
    ensures
        result_view(result) == known_printer(
            PrinterInfoView { addr: addr@, info: info@, supplies },
        ),
        result matches Ok(printer) ==> printer.addr@ == addr@ && printer.info == info
            && printer.supplies == supplies,
        result matches Err(message) ==> message@
            == "Could not get any info about supposed printer at address "@ + addr@,
        result is Err <==> {
            &&& info.location is None && info.model is None && info.serial is None
            &&& info.name is None && info.nick is None
            &&& supplies.c matches Some(c) ==> c.estim_pages_remaining is None && c.printed is None
                && c.ink_level is None
            &&& supplies.m matches Some(m) ==> m.estim_pages_remaining is None && m.printed is None
                && m.ink_level is None
            &&& supplies.y matches Some(y) ==> y.estim_pages_remaining is None && y.printed is None
                && y.ink_level is None
            &&& supplies.k matches Some(k) ==> k.estim_pages_remaining is None && k.printed is None
                && k.ink_level is None
        },
{
    proof {
        law_supplies_without_any_number(supplies);
    }
    let info: PrinterInfo = PrinterInfo { addr: addr.to_owned(), info, supplies };
    if info.all_null() {
        let mut message: String =
            "Could not get any info about supposed printer at address ".to_owned();
        message.append(addr);
        Err(message)
    } else {
        Ok(info)
    }
}

/// The next thing to do to read everything about a printer.
#[derive(Debug)]
pub enum ContactStep {
    /// Ask for the device information page.
    FetchDeviceInfo(String),
    /// Ask for the supplies status page; what was read before is kept.
    FetchSupplies(String, DeviceInfo),
    /// Nothing is left to do.
    Done(Result<PrinterInfo, String>),
    /// The supplies status page shows something else where numbers are due.
    Unreadable,
}

/// The texts and numbers of a [`ContactStep`].
pub enum ContactStepView {
    FetchDeviceInfo(Seq<char>),
    FetchSupplies(Seq<char>, DeviceInfoView),
    Done(Result<PrinterInfoView, Seq<char>>),
    Unreadable,
}

impl View for ContactStep {
    type V = ContactStepView;

    open spec fn view(&self) -> ContactStepView {
        match *self {
            ContactStep::FetchDeviceInfo(url) => ContactStepView::FetchDeviceInfo(url@),
            ContactStep::FetchSupplies(url, info) => ContactStepView::FetchSupplies(url@, info@),
            ContactStep::Done(result) => ContactStepView::Done(result_view(result)),
            ContactStep::Unreadable => ContactStepView::Unreadable,
        }
    }
}

/// The text of a page, or the message about why there is none.
pub open spec fn reply_view(reply: Result<Document, String>) -> Result<Seq<char>, Seq<char>> {
    match reply {
        Ok(page) => Ok(page@),
        Err(message) => Err(message@),
    }
}

/// A page that was asked for, or the message about why it is no use.
pub open spec fn accepted(reply: Result<Seq<char>, Seq<char>>) -> Result<Seq<char>, Seq<char>> {
    match reply {
        Ok(page) => if first_text(page, class_selector("loginscreen"@)) is Some {
            Err("Hit a login screen"@)
        } else {
            Ok(page)
        },
        Err(message) => Err(message),
    }
}

/// The first step of contacting an address.
pub open spec fn first_contact_step(addr: Seq<char>) -> ContactStepView {
    ContactStepView::FetchDeviceInfo(href(host(addr), "DeviceInformation/View"@))
}

/// What to do after the reply to a request for a page.
pub open spec fn contact_step_after(
    addr: Seq<char>,
    step: ContactStepView,
    reply: Result<Seq<char>, Seq<char>>,
) -> ContactStepView {
    match accepted(reply) {
        Err(message) => ContactStepView::Done(Err(message)),
        Ok(page) => match step {
            ContactStepView::FetchDeviceInfo(_) => ContactStepView::FetchSupplies(
                href(host(addr), "InternalPages/Index?id=SuppliesStatus"@),
                device_info_of_page(page),
            ),
            ContactStepView::FetchSupplies(_, info) => if supplies_readable(page) {
                ContactStepView::Done(
                    known_printer(
                        PrinterInfoView { addr, info, supplies: supplies_of_page(page) },
                    ),
                )
            } else {
                ContactStepView::Unreadable
            },
            _ => step,
        },
    }
}

impl ContactStep {
    /// The first thing to do to read everything about a printer.
    pub fn start(addr: &str) -> (step: ContactStep)
        ensures
            step@ == first_contact_step(addr@),
            step matches ContactStep::FetchDeviceInfo(url) && url@ == "http://"@ + host(addr@)
                + "/hp/device/"@ + "DeviceInformation/View"@,
    {
        ContactStep::FetchDeviceInfo(href_hp_device_info(url_host(addr).as_str()))
    }

    /// Decides what to do after the reply to a request for a page.
    pub fn next(self, addr: &str, reply: Result<Document, String>) -> (step: ContactStep)
        requires
            self is FetchDeviceInfo || self is FetchSupplies,
        ensures
            step@ == contact_step_after(addr@, self@, reply_view(reply)),
            reply matches Err(message) ==> (step matches ContactStep::Done(Err(told)) && told@
                == message@),
            reply matches Ok(page) ==> first_text(page@, ".loginscreen"@) is Some ==> (
            step matches ContactStep::Done(Err(told)) && told@ == "Hit a login screen"@),
            reply matches Ok(page) ==> first_text(page@, ".loginscreen"@) is None && self
                is FetchDeviceInfo ==> (step matches ContactStep::FetchSupplies(url, info) && url@
                == "http://"@ + host(addr@) + "/hp/device/"@
                + "InternalPages/Index?id=SuppliesStatus"@ && info@ == device_info_of_page(page@)),
    {
        proof {
            law_login_screens_have_their_class();
        }
        let accepted: Result<Document, String> = match reply {
            Ok(page) => accept_document(page),
            Err(message) => Err(message),
        };
        match accepted {
            Err(message) => ContactStep::Done(Err(message)),
            Ok(page) => match self {
                ContactStep::FetchDeviceInfo(_) => ContactStep::FetchSupplies(
                    href_hp_supplies_page(url_host(addr).as_str()),
                    scrape_device_info(page),
                ),
                ContactStep::FetchSupplies(_, info) => {
                    match try_scrape_supplies_info(page) {
                        Some(supplies) => ContactStep::Done(
                            assemble_printer_info(addr, info, supplies),
                        ),
                        None => ContactStep::Unreadable,
                    }
                },
                other => other,
            },
        }
    }
}

/// What comes of contacting an address, given the replies to the two requests.
pub open spec fn contact_outcome(
    addr: Seq<char>,
    device_info: Result<Seq<char>, Seq<char>>,
    supplies: Result<Seq<char>, Seq<char>>,
) -> ContactStepView {
    let second = contact_step_after(addr, first_contact_step(addr), device_info);
    if second is FetchSupplies {
        contact_step_after(addr, second, supplies)
    } else {
        second
    }
}

/// Contacting an address ends after two requests at most. It gives what the two
/// pages show, which is not nothing, exactly where neither request fails, neither
/// page is a login screen, and the supplies status page can be read.
pub proof fn law_contact_outcome(
    addr: Seq<char>,
    device_info: Result<Seq<char>, Seq<char>>,
    supplies: Result<Seq<char>, Seq<char>>,
)
    ensures
        ({
            let outcome = contact_outcome(addr, device_info, supplies);
            &&& outcome is Done || outcome is Unreadable
            &&& match (accepted(device_info), accepted(supplies)) {
                (Err(message), _) => outcome == ContactStepView::Done(Err(message)),
                (Ok(_), Err(message)) => outcome == ContactStepView::Done(Err(message)),
                (Ok(first), Ok(second)) => {
                    let info = PrinterInfoView {
                        addr,
                        info: device_info_of_page(first),
                        supplies: supplies_of_page(second),
                    };
                    outcome == (if supplies_readable(second) {
                        ContactStepView::Done(known_printer(info))
                    } else {
                        ContactStepView::Unreadable
                    })
                },
            }
            &&& outcome matches ContactStepView::Done(Ok(info)) ==> info.addr == addr
                && !info.all_null()
        }),
{
}

/// A page is a login screen exactly where it has an element of that class.
pub proof fn law_login_screens_have_their_class()
    ensures
        forall|page: Seq<char>| #[trigger]
            accepted(Ok(page)) == (if first_text(page, ".loginscreen"@) is Some {
                Err("Hit a login screen"@)
            } else {
                Ok(page)
            }),
        forall|message: Seq<char>| #[trigger] accepted(Err(message)) == Err::<Seq<char>, _>(message),
{
    reveal_strlit(".");
    reveal_strlit("loginscreen");
    reveal_strlit(".loginscreen");
    assert(class_selector("loginscreen"@) == ".loginscreen"@);
}

/// What is done after each answer while an address is prodded: a ping that is
/// answered leads to a request for the device status page of that address, a
/// device status page leads to passing on the address, and everything else ends
/// the matter, with a printer only where the address was passed on.
pub proof fn law_prod_step_by_step(addr: Seq<char>, page: Document, passed_on: bool)
    ensures
        step_after(addr, ProdAnswer::Pinged(true)) == ProdStepView::Fetch(
            "http://"@ + host(addr) + "/hp/device/"@ + "DeviceStatus/Index"@,
        ),
        step_after(addr, ProdAnswer::Pinged(false)) == ProdStepView::Done(false),
        step_after(addr, ProdAnswer::Fetched(None)) == ProdStepView::Done(false),
        first_text(page@, "body#PageDeviceStatus"@) is Some ==> step_after(
            addr,
            ProdAnswer::Fetched(Some(page)),
        ) == ProdStepView::Report(addr),
        first_text(page@, "body#PageDeviceStatus"@) is None ==> step_after(
            addr,
            ProdAnswer::Fetched(Some(page)),
        ) == ProdStepView::Done(false),
        step_after(addr, ProdAnswer::Reported(passed_on)) == ProdStepView::Done(passed_on),
        is_reachable_printer(ProdReplies { answered: true, page: Some(page), passed_on }) <==> {
            &&& first_text(page@, "body#PageDeviceStatus"@) is Some
            &&& passed_on
        },
        !is_reachable_printer(ProdReplies { answered: false, page: Some(page), passed_on }),
        !is_reachable_printer(ProdReplies { answered: true, page: None, passed_on }),
{
}

/// What is done after each reply while a printer is contacted. A request that
/// fails ends the matter with its message, and so does a login screen. After the
/// device information page comes the supplies status page of the same address.
/// After that the printer is what the two pages show, with nothing changed or left
/// out, unless they show nothing at all.
pub proof fn law_contact_step_by_step(
    addr: Seq<char>,
    url: Seq<char>,
    info: DeviceInfoView,
    page: Seq<char>,
    message: Seq<char>,
)
    ensures
        first_contact_step(addr) == ContactStepView::FetchDeviceInfo(
            "http://"@ + host(addr) + "/hp/device/"@ + "DeviceInformation/View"@,
        ),
        contact_step_after(addr, ContactStepView::FetchDeviceInfo(url), Err(message))
            == ContactStepView::Done(Err(message)),
        contact_step_after(addr, ContactStepView::FetchSupplies(url, info), Err(message))
            == ContactStepView::Done(Err(message)),
        first_text(page, ".loginscreen"@) is Some ==> {
            &&& contact_step_after(addr, ContactStepView::FetchDeviceInfo(url), Ok(page))
                == ContactStepView::Done(Err("Hit a login screen"@))
            &&& contact_step_after(addr, ContactStepView::FetchSupplies(url, info), Ok(page))
                == ContactStepView::Done(Err("Hit a login screen"@))
        },
        first_text(page, ".loginscreen"@) is None ==> {
            &&& contact_step_after(
                addr,
                ContactStepView::FetchDeviceInfo(url),
                Ok(page),
            ) matches ContactStepView::FetchSupplies(next, read)
            &&& next == "http://"@ + host(addr) + "/hp/device/"@
                + "InternalPages/Index?id=SuppliesStatus"@
            &&& read.location == first_text(page, "#DeviceLocation"@)
            &&& read.model == first_text(page, "#DeviceModel"@)
            &&& read.name == first_text(page, "#ProductName"@)
            &&& read.nick == first_text(page, "#DeviceName"@)
            &&& read.serial == first_text(page, "#DeviceSerialNumber"@)
        },
        first_text(page, ".loginscreen"@) is None && !supplies_readable(page)
            ==> contact_step_after(addr, ContactStepView::FetchSupplies(url, info), Ok(page))
            == ContactStepView::Unreadable,
        first_text(page, ".loginscreen"@) is None && supplies_readable(page) ==> {
            let supplies = supplies_of_page(page);
            let known = {
                ||| info.location is Some
                ||| info.model is Some
                ||| info.serial is Some
                ||| info.name is Some
                ||| info.nick is Some
                ||| supplies.c matches Some(c) && (c.estim_pages_remaining is Some || c.printed
                    is Some || c.ink_level is Some)
                ||| supplies.m matches Some(m) && (m.estim_pages_remaining is Some || m.printed
                    is Some || m.ink_level is Some)
                ||| supplies.y matches Some(y) && (y.estim_pages_remaining is Some || y.printed
                    is Some || y.ink_level is Some)
                ||| supplies.k matches Some(k) && (k.estim_pages_remaining is Some || k.printed
                    is Some || k.ink_level is Some)
            };
            let next = contact_step_after(
                addr,
                ContactStepView::FetchSupplies(url, info),
                Ok(page),
            );
            &&& known ==> next == ContactStepView::Done(
                Ok(PrinterInfoView { addr, info, supplies }),
            )
            &&& !known ==> next == ContactStepView::Done(
                Err("Could not get any info about supposed printer at address "@ + addr),
            )
        },
{
    law_login_screens_have_their_class();
    law_device_info_is_read_by_id(page);
    law_supplies_without_any_number(supplies_of_page(page));
    assert(accepted(Ok(page)) == accepted(Ok(page)));
    assert(accepted(Err(message)) == accepted(Err(message)));
}

/// Where contacting gives a printer, its address is the one contacted, its device
/// information is exactly what the first page shows, and its supplies are exactly
/// what the second page shows. It gives one exactly where both pages come and are
/// no login screens, the second can be read, and a datum is there.
pub proof fn law_contact_gives_what_the_pages_show(
    addr: Seq<char>,
    first: Seq<char>,
    second: Seq<char>,
    info: PrinterInfoView,
)
    ensures
        contact_outcome(addr, Ok(first), Ok(second)) == ContactStepView::Done(Ok(info)) <==> {
            let supplies = supplies_of_page(second);
            &&& first_text(first, ".loginscreen"@) is None
            &&& first_text(second, ".loginscreen"@) is None
            &&& supplies_readable(second)
            &&& info.addr == addr
            &&& info.info.location == first_text(first, "#DeviceLocation"@)
            &&& info.info.model == first_text(first, "#DeviceModel"@)
            &&& info.info.name == first_text(first, "#ProductName"@)
            &&& info.info.nick == first_text(first, "#DeviceName"@)
            &&& info.info.serial == first_text(first, "#DeviceSerialNumber"@)
            &&& info.supplies == supplies
            &&& {
                ||| info.info.location is Some
                ||| info.info.model is Some
                ||| info.info.serial is Some
                ||| info.info.name is Some
                ||| info.info.nick is Some
                ||| supplies.c matches Some(c) && (c.estim_pages_remaining is Some || c.printed
                    is Some || c.ink_level is Some)
                ||| supplies.m matches Some(m) && (m.estim_pages_remaining is Some || m.printed
                    is Some || m.ink_level is Some)
                ||| supplies.y matches Some(y) && (y.estim_pages_remaining is Some || y.printed
                    is Some || y.ink_level is Some)
                ||| supplies.k matches Some(k) && (k.estim_pages_remaining is Some || k.printed
                    is Some || k.ink_level is Some)
            }
        },
{
    let url = "http://"@ + host(addr) + "/hp/device/"@ + "DeviceInformation/View"@;
    let next = "http://"@ + host(addr) + "/hp/device/"@
        + "InternalPages/Index?id=SuppliesStatus"@;
    let read = device_info_of_page(first);
    law_contact_step_by_step(addr, url, read, first, Seq::empty());
    law_contact_step_by_step(addr, next, read, second, Seq::empty());
    law_device_info_is_read_by_id(first);
}

/// The views of steps and answers hold their texts and results.
pub proof fn law_views_of_steps(text: String, info: DeviceInfo, printer: PrinterInfo, found: bool)
    ensures
        ProdStep::Ping@ == ProdStepView::Ping,
        ProdStep::Fetch(text)@ == ProdStepView::Fetch(text@),
        ProdStep::Report(text)@ == ProdStepView::Report(text@),
        ProdStep::Done(found)@ == ProdStepView::Done(found),
        ContactStep::FetchDeviceInfo(text)@ == ContactStepView::FetchDeviceInfo(text@),
        ContactStep::FetchSupplies(text, info)@ == ContactStepView::FetchSupplies(text@, info@),
        ContactStep::Done(Ok(printer))@ == ContactStepView::Done(Ok(printer@)),
        ContactStep::Done(Err(text))@ == ContactStepView::Done(Err(text@)),
        ContactStep::Unreadable@ == ContactStepView::Unreadable,
        reply_view(Err(text)) == Err::<Seq<char>, _>(text@),
{
}

/// The view of a reply that is a page is the text of the page.
pub proof fn law_view_of_a_page(page: Document)
    ensures
        reply_view(Ok(page)) == Ok::<_, Seq<char>>(page@),
{
}

/// An address that is found is contacted last of all where it is new, and changes
/// nothing where it is not.
pub proof fn law_contacts_grow_by_new_addresses(contacts: Seq<IpAddress>, ip: IpAddress)
    ensures
        contacts.contains(ip) ==> with_contact(contacts, ip) == contacts,
        !contacts.contains(ip) ==> with_contact(contacts, ip) == contacts + seq![ip],
        contacts_after(Seq::<IpAddress>::empty()) == Seq::<IpAddress>::empty(),
        contacts_after(contacts.push(ip)) == with_contact(contacts_after(contacts), ip),
{
    assert(contacts.push(ip).drop_last() == contacts);
}

/// A ping is waited for one second, and a page three.
pub proof fn law_timeouts()
    ensures
        PING_TIMEOUT_SECS == 1,
        PAGE_TIMEOUT_SECS == 3,
{
}

} // verus!
