//! Reports about the printers that were read.

use vstd::prelude::*;

use crate::options::OutputMode;
use crate::printerinfo::{PrinterInfo, PrinterInfoView, SuppliesCartridge};
use crate::text::{
    decimal, decimal_text, law_decimal_is_canonical, lemma_decimal_text, number_of_text,
};

verus! {

/// Some texts, one after the other, with a separator between them.
pub open spec fn joined(parts: Seq<Seq<char>>, separator: Seq<char>) -> Seq<char>
    decreases parts.len(),
{
    if parts.len() == 0 {
        Seq::empty()
    } else if parts.len() == 1 {
        parts[0]
    } else {
        joined(parts.drop_last(), separator) + separator + parts.last()
    }
}

/// The number of pages that were printed with a cartridge, in decimal, or
/// nothing where it is not known.
pub open spec fn printed_text(cartridge: Option<SuppliesCartridge>) -> Seq<char> {
    match cartridge {
        Some(cartridge) => match cartridge.printed {
            Some(pages) => decimal_text(pages as nat),
            None => Seq::empty(),
        },
        None => Seq::empty(),
    }
}

/// The column of a cartridge: the pages printed with it, between quotes.
pub open spec fn column(cartridge: Option<SuppliesCartridge>) -> Seq<char> {
    "\""@ + printed_text(cartridge) + "\""@
}

/// The columns of some cartridges.
pub open spec fn columns(cartridges: Seq<Option<SuppliesCartridge>>) -> Seq<Seq<char>> {
    cartridges.map_values(|cartridge: Option<SuppliesCartridge>| column(cartridge))
}

/// The row of a printer with a serial number: the serial number between quotes,
/// then the columns of its cartridges.
pub open spec fn row(serial: Seq<char>, info: PrinterInfoView) -> Seq<char> {
    "\""@ + serial + "\","@ + joined(columns(info.supplies.cartridges()), ","@)
}

/// The rows of some printers: one for each that has a serial number, in their
/// order.
pub open spec fn rows(infos: Seq<PrinterInfoView>) -> Seq<Seq<char>>
    decreases infos.len(),
{
    if infos.len() == 0 {
        Seq::empty()
    } else {
        let before = rows(infos.drop_last());
        match infos.last().info.serial {
            Some(serial) => before.push(row(serial, infos.last())),
            None => before,
        }
    }
}

/// The texts and numbers of some printers.
pub open spec fn infos_view(infos: Seq<PrinterInfo>) -> Seq<PrinterInfoView> {
    infos.map_values(|info: PrinterInfo| info@)
}

/// The table of the pages printed with each cartridge of some printers.
pub open spec fn table(infos: Seq<PrinterInfoView>) -> Seq<char> {
    "\"serial\",\"c\",\"m\",\"y\",\"k\"\n"@ + joined(rows(infos), "\n"@)
}

/// Writes the column of a cartridge.
fn write_column(cartridge: Option<&SuppliesCartridge>) -> (text: String)
    ensures
        text@ == column(
            match cartridge {
                Some(cartridge) => Some(*cartridge),
                None => None,
            },
        ),
{
    let mut text: String = "\"".to_owned();
    if let Some(cartridge) = cartridge {
        if let Some(pages) = cartridge.printed {
            text.append(decimal(pages).as_str());
        }
    }
    text.append("\"");
    text
}

/// Writes the columns of the cartridges of a printer.
fn write_columns(info: &PrinterInfo) -> (text: String)
    ensures
        text@ == joined(columns(info.supplies.cartridges()), ","@),
{
    let cartridges: Vec<Option<&SuppliesCartridge>> = info.supplies.as_vec();
    let ghost all = columns(info.supplies.cartridges());
    let mut text: String = String::new();
    let mut i: usize = 0;
    while i < cartridges.len()
        invariant
            cartridges@.len() == 4,
            forall|k: int|
                0 <= k < 4 ==> match #[trigger] cartridges@[k] {
                    Some(cartridge) => info.supplies.cartridges()[k] == Some(*cartridge),
                    None => info.supplies.cartridges()[k] is None,
                },
            i <= 4,
            all == columns(info.supplies.cartridges()),
            text@ == joined(all.take(i as int), ","@),
        decreases 4 - i,
    {
        assert(all.take(i + 1).drop_last() == all.take(i as int));
        if i > 0 {
            text.append(",");
        }
        text.append(write_column(cartridges[i]).as_str());
        i = i + 1;
    }
    assert(all.take(4) == all);
    text
}

/// Writes the row of a printer with a serial number.
fn write_row(serial: &str, info: &PrinterInfo) -> (text: String)
    ensures
        text@ == row(serial@, info@),
{
    let mut text: String = "\"".to_owned();
    text.append(serial);
    text.append("\",");
    text.append(write_columns(info).as_str());
    text
}

/// Writes the table of the pages printed with each cartridge of some printers.
///
/// Mono printers have empty columns for all colors, except key (black).
pub fn printed_pages_table(infos: &Vec<PrinterInfo>) -> (text: String)
    ensures
        text@ == table(infos_view(infos@)),
{
    let ghost all = infos_view(infos@);
    let ghost header = "\"serial\",\"c\",\"m\",\"y\",\"k\"\n"@;
    let mut text: String = "\"serial\",\"c\",\"m\",\"y\",\"k\"\n".to_owned();
    let mut empty: bool = true;
    let mut i: usize = 0;
    while i < infos.len()
        invariant
            i <= infos@.len(),
            all == infos_view(infos@),
            empty == (rows(all.take(i as int)).len() == 0),
            text@ == header + joined(rows(all.take(i as int)), "\n"@),
        decreases infos@.len() - i,
    {
        assert(all.take(i + 1).drop_last() == all.take(i as int));
        let ghost before = rows(all.take(i as int));
        if let Some(serial) = &infos[i].info.serial {
            if !empty {
                text.append("\n");
            }
            text.append(write_row(serial.as_str(), &infos[i]).as_str());
            empty = false;
            assert(before.push(row(serial@, infos@[i as int]@)).drop_last() == before);
        }
        i = i + 1;
    }
    assert(all.take(all.len() as int) == all);
    text
}

/// What to write about some printers.
#[derive(Debug, PartialEq, Eq)]
pub enum Report {
    /// Nothing was read.
    NoPrinters,
    /// No output was asked for.
    Silent,
    /// The printers as JSON.
    Json,
    /// A table.
    Table(String),
}

/// The texts of a [`Report`].
pub enum ReportView {
    NoPrinters,
    Silent,
    Json,
    Table(Seq<char>),
}

impl View for Report {
    type V = ReportView;

    open spec fn view(&self) -> ReportView {
        match *self {
            Report::NoPrinters => ReportView::NoPrinters,
            Report::Silent => ReportView::Silent,
            Report::Json => ReportView::Json,
            Report::Table(text) => ReportView::Table(text@),
        }
    }
}

/// Decides what to write about some printers.
pub fn report(infos: &Vec<PrinterInfo>, mode: OutputMode) -> (report: Report)
    ensures
        report@ == (if infos@.len() == 0 {
            ReportView::NoPrinters
        } else {
            match mode {
                OutputMode::NoOutput => ReportView::Silent,
                OutputMode::Json => ReportView::Json,
                OutputMode::PrintedPages => ReportView::Table(table(infos_view(infos@))),
            }
        }),
        report is NoPrinters <==> infos@.len() == 0,
        report is Silent <==> infos@.len() > 0 && mode == OutputMode::NoOutput,
        report is Json <==> infos@.len() > 0 && mode == OutputMode::Json,
        report matches Report::Table(text) ==> text@ == table(infos_view(infos@)),
{
    if infos.len() == 0 {
        return Report::NoPrinters;
    }
    match mode {
        OutputMode::NoOutput => Report::Silent,
        OutputMode::Json => Report::Json,
        OutputMode::PrintedPages => Report::Table(printed_pages_table(infos)),
    }
}

/// There is one row for each printer with a serial number.
pub proof fn law_one_row_for_each_serial_number(infos: Seq<PrinterInfoView>)
    ensures
        rows(infos).len() == infos.filter(|info: PrinterInfoView| info.info.serial is Some).len(),
    decreases infos.len(),
{
    reveal_with_fuel(Seq::filter, 2);
    if infos.len() > 0 {
        law_one_row_for_each_serial_number(infos.drop_last());
    }
}

/// The column of a cartridge that is missing, or whose printed pages are not
/// known, is empty but for its quotes.
pub proof fn law_unknown_cartridge_has_an_empty_column(cartridge: Option<SuppliesCartridge>)
    requires
        cartridge matches Some(cartridge) ==> cartridge.printed is None,
    ensures
        column(cartridge) == "\"\""@,
{
    reveal_strlit("\"");
    reveal_strlit("\"\"");
}

/// The number of times that a character occurs in a text.
pub open spec fn occurrences(text: Seq<char>, c: char) -> nat
    decreases text.len(),
{
    if text.len() == 0 {
        0
    } else if text.last() == c {
        occurrences(text.drop_last(), c) + 1
    } else {
        occurrences(text.drop_last(), c)
    }
}

/// A character occurs in two texts together as often as in both of them.
proof fn lemma_occurrences_add(a: Seq<char>, b: Seq<char>, c: char)
    ensures
        occurrences(a + b, c) == occurrences(a, c) + occurrences(b, c),
    decreases b.len(),
{
    if b.len() > 0 {
        lemma_occurrences_add(a, b.drop_last(), c);
        assert((a + b).drop_last() == a + b.drop_last());
    }
}

/// A character that a text does not hold does not occur in it.
proof fn lemma_no_occurrences(text: Seq<char>, c: char)
    requires
        forall|i: int| 0 <= i < text.len() ==> text[i] != c,
    ensures
        occurrences(text, c) == 0,
    decreases text.len(),
{
    if text.len() > 0 {
        lemma_no_occurrences(text.drop_last(), c);
    }
}

/// A column holds digits between quotes, and so neither a comma nor a line break.
proof fn lemma_column_has_no_separator(cartridge: Option<SuppliesCartridge>, c: char)
    requires
        c == ',' || c == '\n',
    ensures
        occurrences(column(cartridge), c) == 0,
{
    let text = column(cartridge);
    let printed = printed_text(cartridge);
    reveal_strlit("\"");
    if let Some(cartridge) = cartridge {
        if let Some(pages) = cartridge.printed {
            lemma_decimal_text(pages as nat);
        }
    }
    lemma_no_occurrences(text, c);
}

/// A row has five columns on one line: beyond those of the serial number it
/// holds four commas and no line break.
pub proof fn law_row_has_five_columns(serial: Seq<char>, info: PrinterInfoView)
    ensures
        occurrences(row(serial, info), ',') == occurrences(serial, ',') + 4,
        occurrences(row(serial, info), '\n') == occurrences(serial, '\n'),
{
    lemma_separators_of_row(serial, info, ',');
    lemma_separators_of_row(serial, info, '\n');
}

/// The separators of a row.
proof fn lemma_separators_of_row(serial: Seq<char>, info: PrinterInfoView, c: char)
    requires
        c == ',' || c == '\n',
    ensures
        occurrences(row(serial, info), c) == occurrences(serial, c) + (if c == ',' {
            4nat
        } else {
            0nat
        }),
{
    let all = columns(info.supplies.cartridges());
    let comma = ","@;
    reveal_strlit("\"");
    reveal_strlit("\",");
    reveal_strlit(",");
    reveal_with_fuel(occurrences, 3);
    lemma_column_has_no_separator(info.supplies.c, c);
    lemma_column_has_no_separator(info.supplies.m, c);
    lemma_column_has_no_separator(info.supplies.y, c);
    lemma_column_has_no_separator(info.supplies.k, c);
    let two = all[0] + comma + all[1];
    let three = two + comma + all[2];
    assert(joined(all, comma) == three + comma + all[3]) by {
        let parts = all.drop_last();
        let fewer = parts.drop_last();
        assert(joined(fewer.drop_last(), comma) == all[0]);
        assert(joined(fewer, comma) == two);
        assert(joined(parts, comma) == three);
    }
    lemma_occurrences_add(all[0], comma, c);
    lemma_occurrences_add(all[0] + comma, all[1], c);
    lemma_occurrences_add(two, comma, c);
    lemma_occurrences_add(two + comma, all[2], c);
    lemma_occurrences_add(three, comma, c);
    lemma_occurrences_add(three + comma, all[3], c);
    lemma_occurrences_add("\""@, serial, c);
    lemma_occurrences_add("\""@ + serial, "\","@, c);
    lemma_occurrences_add("\""@ + serial + "\","@, joined(all, comma), c);
}

/// The row of a printer is its serial number and the printed pages of its cyan,
/// magenta, yellow and key cartridge, in this order, each between quotes and with
/// commas between them. The printed pages are digits without a zero in front, and
/// reading them back gives the number of the very cartridge; they are empty where
/// it is not known.
pub proof fn law_row_shows_each_cartridge(serial: Seq<char>, info: PrinterInfoView) -> (shown: (
    Seq<char>,
    Seq<char>,
    Seq<char>,
    Seq<char>,
))
    ensures
        row(serial, info) == seq!['"'] + serial + seq!['"', ',', '"'] + shown.0 + seq![
            '"',
            ',',
            '"',
        ] + shown.1 + seq!['"', ',', '"'] + shown.2 + seq!['"', ',', '"'] + shown.3 + seq!['"'],
        number_of_text(shown.0) == (match info.supplies.c {
            Some(cartridge) => cartridge.printed,
            None => None,
        }),
        is_plain_number(shown.0),
        number_of_text(shown.1) == (match info.supplies.m {
            Some(cartridge) => cartridge.printed,
            None => None,
        }),
        is_plain_number(shown.1),
        number_of_text(shown.2) == (match info.supplies.y {
            Some(cartridge) => cartridge.printed,
            None => None,
        }),
        is_plain_number(shown.2),
        number_of_text(shown.3) == (match info.supplies.k {
            Some(cartridge) => cartridge.printed,
            None => None,
        }),
        is_plain_number(shown.3),
{
    let shown = (
        printed_text(info.supplies.c),
        printed_text(info.supplies.m),
        printed_text(info.supplies.y),
        printed_text(info.supplies.k),
    );
    lemma_printed_text(info.supplies.c);
    lemma_printed_text(info.supplies.m);
    lemma_printed_text(info.supplies.y);
    lemma_printed_text(info.supplies.k);
    lemma_four_columns(info);
    let all = columns(info.supplies.cartridges());
    let comma = seq![','];
    let q = seq!['"'];
    let sep = seq!['"', ',', '"'];
    let head = "\""@ + serial + "\","@;
    lemma_sum_of_three(head, all[0] + comma + all[1] + comma + all[2], comma, all[3]);
    lemma_sum_of_three(head, all[0] + comma + all[1], comma, all[2]);
    lemma_sum_of_three(head, all[0], comma, all[1]);
    let s0 = q + serial + sep + shown.0;
    assert(head + all[0] == s0 + q) by {
        reveal_strlit("\"");
        reveal_strlit("\",");
    }
    lemma_one_more_column(s0, shown.1);
    let s1 = s0 + sep + shown.1;
    lemma_one_more_column(s1, shown.2);
    let s2 = s1 + sep + shown.2;
    lemma_one_more_column(s2, shown.3);
    shown
}

/// The columns of a printer are those of its four cartridges.
proof fn lemma_four_columns(info: PrinterInfoView)
    ensures
        ({
            let all = columns(info.supplies.cartridges());
            let comma = seq![','];
            let q = seq!['"'];
            &&& joined(all, ","@) == all[0] + comma + all[1] + comma + all[2] + comma + all[3]
            &&& all[0] == q + printed_text(info.supplies.c) + q
            &&& all[1] == q + printed_text(info.supplies.m) + q
            &&& all[2] == q + printed_text(info.supplies.y) + q
            &&& all[3] == q + printed_text(info.supplies.k) + q
        }),
{
    let all = columns(info.supplies.cartridges());
    let comma = ","@;
    reveal_strlit(",");
    reveal_strlit("\"");
    assert(comma == seq![',']);
    assert("\""@ == seq!['"']);
    let parts = all.drop_last();
    let fewer = parts.drop_last();
    assert(joined(fewer.drop_last(), comma) == all[0]);
    assert(joined(fewer, comma) == all[0] + comma + all[1]);
    assert(joined(parts, comma) == all[0] + comma + all[1] + comma + all[2]);
}

/// Adding a sum of three is adding the three.
proof fn lemma_sum_of_three(a: Seq<char>, b: Seq<char>, c: Seq<char>, d: Seq<char>)
    ensures
        a + (b + c + d) == (a + b) + c + d,
{
}

/// A column after a column is what stands between quotes after what does.
proof fn lemma_one_more_column(s: Seq<char>, t: Seq<char>)
    ensures
        s + seq!['"'] + seq![','] + (seq!['"'] + t + seq!['"']) == s + seq!['"', ',', '"'] + t
            + seq!['"'],
{
}

/// Whether a text is empty, or digits without a zero in front.
pub open spec fn is_plain_number(text: Seq<char>) -> bool {
    &&& forall|i: int| 0 <= i < text.len() ==> '0' <= #[trigger] text[i] && text[i] <= '9'
    &&& text.len() > 1 ==> text[0] != '0'
}

/// The printed pages of a cartridge are digits that are read back as they were.
proof fn lemma_printed_text(cartridge: Option<SuppliesCartridge>)
    ensures
        number_of_text(printed_text(cartridge)) == (match cartridge {
            Some(cartridge) => cartridge.printed,
            None => None,
        }),
        is_plain_number(printed_text(cartridge)),
{
    if let Some(cartridge) = cartridge {
        if let Some(pages) = cartridge.printed {
            law_decimal_is_canonical(pages);
        }
    }
}

/// Texts without quotes after the quotes of a new column are the same where the
/// whole is.
proof fn lemma_last_column(a: Seq<char>, t: Seq<char>, b: Seq<char>, u: Seq<char>)
    requires
        is_plain_number(t),
        is_plain_number(u),
        a + seq!['"', ',', '"'] + t == b + seq!['"', ',', '"'] + u,
    ensures
        a == b,
        t == u,
{
    let sep = seq!['"', ',', '"'];
    let whole = a + sep + t;
    let other = b + sep + u;
    let n = whole.len() as int;
    if t.len() < u.len() {
        assert(whole[n - t.len() - 1] == '"');
        assert(other[n - t.len() - 1] == u[u.len() - t.len() - 1]);
    }
    if u.len() < t.len() {
        assert(other[n - u.len() - 1] == '"');
        assert(whole[n - u.len() - 1] == t[t.len() - u.len() - 1]);
    }
    assert(whole.skip(n - t.len()) == t);
    assert(other.skip(n - u.len()) == u);
    assert(whole.take(n - t.len() - 3) == a);
    assert(other.take(n - u.len() - 3) == b);
}

/// Rows of printers with one serial number are the same only where the printed
/// pages of all four cartridges are.
pub proof fn law_rows_tell_printed_pages_apart(
    serial: Seq<char>,
    a: PrinterInfoView,
    b: PrinterInfoView,
)
    requires
        row(serial, a) == row(serial, b),
    ensures
        (match a.supplies.c {
            Some(cartridge) => cartridge.printed,
            None => None,
        }) == (match b.supplies.c {
            Some(cartridge) => cartridge.printed,
            None => None,
        }),
        (match a.supplies.m {
            Some(cartridge) => cartridge.printed,
            None => None,
        }) == (match b.supplies.m {
            Some(cartridge) => cartridge.printed,
            None => None,
        }),
        (match a.supplies.y {
            Some(cartridge) => cartridge.printed,
            None => None,
        }) == (match b.supplies.y {
            Some(cartridge) => cartridge.printed,
            None => None,
        }),
        (match a.supplies.k {
            Some(cartridge) => cartridge.printed,
            None => None,
        }) == (match b.supplies.k {
            Some(cartridge) => cartridge.printed,
            None => None,
        }),
{
    let x = law_row_shows_each_cartridge(serial, a);
    let y = law_row_shows_each_cartridge(serial, b);
    let sep = seq!['"', ',', '"'];
    let head = seq!['"'] + serial + sep;
    let (x0, y0) = (head + x.0, head + y.0);
    let (x1, y1) = (x0 + sep + x.1, y0 + sep + y.1);
    let (x2, y2) = (x1 + sep + x.2, y1 + sep + y.2);
    let (x3, y3) = (x2 + sep + x.3, y2 + sep + y.3);
    assert(row(serial, a).drop_last() == x3);
    assert(row(serial, b).drop_last() == y3);
    lemma_last_column(x2, x.3, y2, y.3);
    lemma_last_column(x1, x.2, y1, y.2);
    lemma_last_column(x0, x.1, y0, y.1);
    assert(x0.skip(head.len() as int) == x.0);
    assert(y0.skip(head.len() as int) == y.0);
}

/// A table without printers is its header. A printer without a serial number adds
/// nothing to it, and one with a serial number adds its row at the end, on a line
/// of its own.
pub proof fn law_table_grows_by_rows(infos: Seq<PrinterInfoView>, info: PrinterInfoView)
    ensures
        table(Seq::<PrinterInfoView>::empty()) == "\"serial\",\"c\",\"m\",\"y\",\"k\"\n"@,
        match info.info.serial {
            None => table(infos.push(info)) == table(infos),
            Some(serial) => table(infos.push(info)) == table(infos) + (if exists|i: int|
                0 <= i < infos.len() && (#[trigger] infos[i]).info.serial is Some {
                seq!['\n']
            } else {
                Seq::empty()
            }) + row(serial, info),
        },
{
    reveal_strlit("\n");
    let longer = infos.push(info);
    assert(longer.drop_last() == infos);
    lemma_rows_where_serial_numbers_are(infos);
    if let Some(serial) = info.info.serial {
        assert(rows(longer).drop_last() == rows(infos));
    }
}

/// There are rows exactly where a printer has a serial number.
proof fn lemma_rows_where_serial_numbers_are(infos: Seq<PrinterInfoView>)
    ensures
        rows(infos).len() > 0 <==> exists|i: int|
            0 <= i < infos.len() && (#[trigger] infos[i]).info.serial is Some,
    decreases infos.len(),
{
    if infos.len() > 0 {
        let before = infos.drop_last();
        lemma_rows_where_serial_numbers_are(before);
        if rows(before).len() > 0 {
            let i = choose|i: int|
                0 <= i < before.len() && (#[trigger] before[i]).info.serial is Some;
            assert(infos[i].info.serial is Some);
        }
        if infos.last().info.serial is Some {
            assert(infos[infos.len() - 1].info.serial is Some);
        }
        if exists|i: int| 0 <= i < infos.len() && (#[trigger] infos[i]).info.serial is Some {
            let i = choose|i: int|
                0 <= i < infos.len() && (#[trigger] infos[i]).info.serial is Some;
            if i < before.len() {
                assert(before[i].info.serial is Some);
            }
        }
    }
}

/// The header names the columns.
pub proof fn law_header_names_the_columns()
    ensures
        table(Seq::<PrinterInfoView>::empty()) == seq!['"', 's', 'e', 'r', 'i', 'a', 'l', '"']
            + seq![',', '"', 'c', '"', ',', '"', 'm', '"', ',', '"', 'y', '"', ',', '"', 'k', '"']
            + seq!['\n'],
{
    reveal_strlit("\"serial\",\"c\",\"m\",\"y\",\"k\"\n");
    law_table_grows_by_rows(Seq::empty(), arbitrary());
}

/// The views of printers and reports hold each of them in its place.
pub proof fn law_views_of_reports(infos: Seq<PrinterInfo>, text: String)
    ensures
        infos_view(infos).len() == infos.len(),
        forall|i: int| 0 <= i < infos.len() ==> #[trigger] infos_view(infos)[i] == infos[i]@,
        Report::NoPrinters@ == ReportView::NoPrinters,
        Report::Silent@ == ReportView::Silent,
        Report::Json@ == ReportView::Json,
        Report::Table(text)@ == ReportView::Table(text@),
{
}

} // verus!
