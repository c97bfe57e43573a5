//! Files that list addresses to contact, one on each line.

use vstd::prelude::*;
use vstd::utf8::{
    decode_utf8, decode_utf8_encode_utf8, decode_utf8_split, encode_utf8,
    encode_utf8_decode_utf8, encode_utf8_valid_utf8, is_char_boundary_iff_is_leading_byte,
    is_leading_byte_width_1, valid_utf8, valid_utf8_split,
};

use crate::address::IpAddress;
use crate::text::{chars_of, optional_text};

verus! {

/// Whether a character has the Unicode property `White_Space`.
pub open spec fn is_white_space(c: char) -> bool {
    let n = c as u32;
    ||| 0x9 <= n <= 0xd
    ||| n == 0x20
    ||| n == 0x85
    ||| n == 0xa0
    ||| n == 0x1680
    ||| 0x2000 <= n <= 0x200a
    ||| n == 0x2028
    ||| n == 0x2029
    ||| n == 0x202f
    ||| n == 0x205f
    ||| n == 0x3000
}

/// Specifies `char::is_whitespace`: it tells whether a character has the Unicode
/// property `White_Space`.
pub assume_specification[ char::is_whitespace ](c: char) -> (white: bool)
    ensures
        white == is_white_space(c),
;

/// Whether a line lists nothing: it starts with `#`, or holds white space only.
pub open spec fn is_comment(line: Seq<char>) -> bool {
    ||| line.len() > 0 && line[0] == '#'
    ||| forall|i: int| 0 <= i < line.len() ==> is_white_space(#[trigger] line[i])
}

/// Whether a line lists nothing.
pub fn is_comment_line(line: &str) -> (comment: bool)
    ensures
        comment == is_comment(line@),
        !comment <==> {
            &&& line@.len() > 0
            &&& line@[0] != '#'
            &&& exists|i: int| 0 <= i < line@.len() && !is_white_space(#[trigger] line@[i])
        },
{
    let chars: Vec<char> = chars_of(line);
    if chars.len() > 0 && chars[0] == '#' {
        return true;
    }
    let mut i: usize = 0;
    while i < chars.len()
        invariant
            chars@ == line@,
            i <= chars@.len(),
            forall|k: int| 0 <= k < i ==> is_white_space(#[trigger] line@[k]),
            !(chars@.len() > 0 && chars@[0] == '#'),
        decreases chars@.len() - i,
    {
        if !chars[i].is_whitespace() {
            return false;
        }
        i = i + 1;
    }
    true
}

/// The next thing to do about a file of addresses.
#[derive(Debug)]
pub enum ListStep {
    /// Read the next line.
    Read,
    /// Tell that the line holds no address, and read the next one.
    Warn,
    /// Pass on an address, as the line writes it.
    Send(String, IpAddress),
    /// Leave the rest of the file unread.
    Stop,
}

/// What came of a [`ListStep`].
#[derive(Debug)]
pub enum ListEvent {
    /// A line, and the address that it is, if it is one.
    Line(String, Option<IpAddress>),
    /// A line that could not be read.
    Unreadable,
    /// Whether an address could be passed on.
    Sent(bool),
    /// The end of the file.
    End,
}

/// The texts of a [`ListStep`].
pub enum ListStepView {
    Read,
    Warn,
    Send(Seq<char>, IpAddress),
    Stop,
}

impl View for ListStep {
    type V = ListStepView;

    open spec fn view(&self) -> ListStepView {
        match *self {
            ListStep::Read => ListStepView::Read,
            ListStep::Warn => ListStepView::Warn,
            ListStep::Send(line, ip) => ListStepView::Send(line@, ip),
            ListStep::Stop => ListStepView::Stop,
        }
    }
}

/// What to do about a line.
pub open spec fn step_after_line(line: Seq<char>, ip: Option<IpAddress>) -> ListStepView {
    if is_comment(line) {
        ListStepView::Read
    } else {
        match ip {
            Some(ip) => ListStepView::Send(line, ip),
            None => ListStepView::Warn,
        }
    }
}

/// What to do after an event.
pub open spec fn step_after_event(event: ListEvent) -> ListStepView {
    match event {
        ListEvent::Line(line, ip) => step_after_line(line@, ip),
        ListEvent::Unreadable => ListStepView::Read,
        ListEvent::Sent(true) => ListStepView::Read,
        ListEvent::Sent(false) => ListStepView::Stop,
        ListEvent::End => ListStepView::Stop,
    }
}

impl ListStep {
    /// Decides what to do after an event.
    pub fn after(event: ListEvent) -> (step: ListStep)
        ensures
            step@ == step_after_event(event),
            match event {
                ListEvent::Line(line, ip) => if line@.len() > 0 && line@[0] != '#' && exists|i: int|
                    0 <= i < line@.len() && !is_white_space(#[trigger] line@[i]) {
                    match ip {
                        Some(ip) => step matches ListStep::Send(text, sent) && text@ == line@
                            && sent == ip,
                        None => step == ListStep::Warn,
                    }
                } else {
                    step == ListStep::Read
                },
                ListEvent::Unreadable => step == ListStep::Read,
                ListEvent::Sent(passed_on) => step == (if passed_on {
                    ListStep::Read
                } else {
                    ListStep::Stop
                }),
                ListEvent::End => step == ListStep::Stop,
            },
    {
        match event {
            ListEvent::Line(line, ip) => {
                if is_comment_line(line.as_str()) {
                    ListStep::Read
                } else {
                    match ip {
                        Some(ip) => ListStep::Send(line, ip),
                        None => ListStep::Warn,
                    }
                }
            },
            ListEvent::Unreadable => ListStep::Read,
            ListEvent::Sent(passed_on) => {
                if passed_on {
                    ListStep::Read
                } else {
                    ListStep::Stop
                }
            },
            ListEvent::End => ListStep::Stop,
        }
    }
}

/// What a line turned out to be: its text, unless it cannot be read, and the
/// address that the text is, if it is one.
pub type LineRead = Option<(Seq<char>, Option<IpAddress>)>;

/// The addresses that are passed on where some lines are read and every address
/// can be passed on, in the order of the lines.
pub open spec fn listed(lines: Seq<LineRead>) -> Seq<(Seq<char>, IpAddress)>
    decreases lines.len(),
{
    if lines.len() == 0 {
        Seq::empty()
    } else {
        listed(lines.drop_last()) + listed_on(lines.last())
    }
}

/// The address that is passed on on behalf of a line, if there is one.
pub open spec fn listed_on(line: LineRead) -> Seq<(Seq<char>, IpAddress)> {
    match line {
        Some((text, ip)) => match step_after_line(text, ip) {
            ListStepView::Send(text, ip) => seq![(text, ip)],
            _ => Seq::empty(),
        },
        None => Seq::empty(),
    }
}

/// Every address of a file is passed on, as it is written there, unless its line
/// is a comment; and nothing else is.
pub proof fn law_listed_addresses_are_passed_on(
    lines: Seq<LineRead>,
    text: Seq<char>,
    ip: IpAddress,
)
    ensures
        listed(lines).contains((text, ip)) <==> lines.contains(Some((text, Some(ip))))
            && !is_comment(text),
    decreases lines.len(),
{
    if lines.len() > 0 {
        let before = lines.drop_last();
        law_listed_addresses_are_passed_on(before, text, ip);
        let all = listed(lines);
        let shorter = listed(before);
        if lines.contains(Some((text, Some(ip)))) {
            let i = choose|i: int| 0 <= i < lines.len() && lines[i] == Some((text, Some(ip)));
            if i < before.len() {
                assert(before[i] == Some((text, Some(ip))));
            } else if !is_comment(text) {
                assert(all[shorter.len() as int] == (text, ip));
            }
        }
        if shorter.contains((text, ip)) {
            let i = choose|i: int| 0 <= i < shorter.len() && shorter[i] == (text, ip);
            assert(all[i] == (text, ip));
        }
    }
}

/// Lines after lines pass on what each of the two pass on.
pub proof fn law_listed_in_parts(a: Seq<LineRead>, b: Seq<LineRead>)
    ensures
        listed(a + b) == listed(a) + listed(b),
    decreases b.len(),
{
    if b.len() > 0 {
        law_listed_in_parts(a, b.drop_last());
        assert((a + b).drop_last() == a + b.drop_last());
    }
}

/// The lines that list some addresses.
pub open spec fn lines_listing(sent: Seq<(Seq<char>, IpAddress)>) -> Seq<LineRead> {
    sent.map_values(|entry: (Seq<char>, IpAddress)| Some((entry.0, Some(entry.1))))
}

/// Lines that list what some lines list pass on the same again.
pub proof fn law_listed_again(lines: Seq<LineRead>)
    ensures
        listed(lines_listing(listed(lines))) == listed(lines),
    decreases lines.len(),
{
    if lines.len() > 0 {
        let before = lines.drop_last();
        let last = listed_on(lines.last());
        law_listed_again(before);
        law_listed_in_parts(lines_listing(listed(before)), lines_listing(last));
        assert(lines_listing(listed(lines)) == lines_listing(listed(before)) + lines_listing(last));
        let again = lines_listing(last);
        if last.len() > 0 {
            assert(listed(again.drop_last()).len() == 0);
        }
    }
}

/// The number of bytes before the first line feed.
pub open spec fn line_length(bytes: Seq<u8>) -> nat
    decreases bytes.len(),
{
    if bytes.len() == 0 || bytes[0] == 0x0a {
        0
    } else {
        1 + line_length(bytes.drop_first())
    }
}

/// A line without the carriage return that it may end in.
pub open spec fn without_return(line: Seq<u8>) -> Seq<u8> {
    if line.len() > 0 && line.last() == 0x0d {
        line.drop_last()
    } else {
        line
    }
}

/// The lines of a file. A line ends in a line feed, or in a carriage return and a
/// line feed. What follows the last line feed is a line too, unless it is empty
/// or the rest of the file is missing.
pub open spec fn lines_of(bytes: Seq<u8>, whole: bool) -> Seq<Seq<u8>>
    decreases bytes.len(),
{
    let length = line_length(bytes);
    if length < bytes.len() {
        let line = without_return(bytes.take(length as int));
        seq![line] + lines_of(bytes.skip(length as int + 1), whole)
    } else if bytes.len() > 0 && whole {
        seq![bytes]
    } else {
        Seq::empty()
    }
}

/// The views of some lines.
pub open spec fn lines_view(lines: Seq<Vec<u8>>) -> Seq<Seq<u8>> {
    lines.map_values(|line: Vec<u8>| line@)
}

/// The first line feed ends the first line.
proof fn lemma_line_length(bytes: Seq<u8>, n: int)
    requires
        0 <= n <= bytes.len(),
        forall|i: int| 0 <= i < n ==> bytes[i] != 0x0a,
        n < bytes.len() ==> bytes[n] == 0x0a,
    ensures
        line_length(bytes) == n,
    decreases n,
{
    if n > 0 {
        lemma_line_length(bytes.drop_first(), n - 1);
    }
}

/// The bytes of a file from one place to another.
fn copy_bytes(bytes: &Vec<u8>, from: usize, to: usize) -> (part: Vec<u8>)
    requires
        from <= to <= bytes@.len(),
    ensures
        part@ == bytes@.subrange(from as int, to as int),
{
    let mut part: Vec<u8> = Vec::new();
    let mut i: usize = from;
    while i < to
        invariant
            from <= i <= to <= bytes@.len(),
            part@ == bytes@.subrange(from as int, i as int),
        decreases to - i,
    {
        part.push(bytes[i]);
        i = i + 1;
    }
    part
}

/// Splits a file into lines.
pub fn split_lines(bytes: &Vec<u8>, whole: bool) -> (lines: Vec<Vec<u8>>)
    ensures
        lines_view(lines@) == lines_of(bytes@, whole),
{
    let mut lines: Vec<Vec<u8>> = Vec::new();
    let mut start: usize = 0;
    let mut i: usize = 0;
    assert(bytes@.skip(0) == bytes@);
    while i < bytes.len()
        invariant
            start <= i <= bytes@.len(),
            forall|k: int| start <= k < i ==> bytes@[k] != 0x0a,
            lines_view(lines@) + lines_of(bytes@.skip(start as int), whole) == lines_of(
                bytes@,
                whole,
            ),
        decreases bytes@.len() - i,
    {
        if bytes[i] == 0x0a {
            let ghost rest = bytes@.skip(start as int);
            let end: usize = if start < i && bytes[i - 1] == 0x0d {
                i - 1
            } else {
                i
            };
            let line: Vec<u8> = copy_bytes(bytes, start, end);
            proof {
                lemma_line_length(rest, i - start);
                assert(line@ == without_return(rest.take(i - start)));
                assert(rest.skip(i - start + 1) == bytes@.skip(i + 1));
            }
            lines.push(line);
            start = i + 1;
        }
        i = i + 1;
    }
    let ghost rest = bytes@.skip(start as int);
    proof {
        lemma_line_length(rest, rest.len() as int);
    }
    if whole && start < bytes.len() {
        lines.push(copy_bytes(bytes, start, bytes.len()));
    }
    lines
}

/// The text that a line encodes in UTF-8, if it does.
pub open spec fn decoded(line: Seq<u8>) -> Option<Seq<char>> {
    if valid_utf8(line) {
        Some(decode_utf8(line))
    } else {
        None
    }
}

/// Calls `String::from_utf8`.
///
/// Claims that it accepts the bytes exactly where they are valid UTF-8, and that
/// the text is then the one that they encode.
#[verifier::external_body]
fn decode(line: Vec<u8>) -> (text: Option<String>)
    ensures
        optional_text(text) == decoded(line@),
{
    String::from_utf8(line).ok()
}

/// The views of the texts of some lines.
pub open spec fn texts_view(texts: Seq<Option<String>>) -> Seq<Option<Seq<char>>> {
    texts.map_values(|text: Option<String>| optional_text(text))
}

/// Reads the texts of the lines of a file, as far as they can be read.
pub fn read_lines(bytes: &Vec<u8>, whole: bool) -> (texts: Vec<Option<String>>)
    ensures
        texts_view(texts@) == lines_of(bytes@, whole).map_values(|line: Seq<u8>| decoded(line)),
{
    let lines: Vec<Vec<u8>> = split_lines(bytes, whole);
    let mut texts: Vec<Option<String>> = Vec::new();
    let mut i: usize = 0;
    while i < lines.len()
        invariant
            i <= lines@.len(),
            texts@.len() == i,
            forall|k: int|
                0 <= k < i ==> optional_text(#[trigger] texts@[k]) == decoded(lines@[k]@),
        decreases lines@.len() - i,
    {
        texts.push(decode(lines[i].clone()));
        i = i + 1;
    }
    texts
}

/// Files in a row have the lines of each, where the first ends in a line feed.
proof fn lemma_lines_in_a_row(a: Seq<u8>, b: Seq<u8>)
    requires
        a.len() == 0 || a.last() == 0x0a,
    ensures
        lines_of(a + b, true) == lines_of(a, true) + lines_of(b, true),
    decreases a.len(),
{
    if a.len() > 0 {
        let n = lemma_first_line_feed(a);
        let rest = a.skip(n + 1);
        lemma_line_length(a, n);
        lemma_line_length(a + b, n);
        lemma_lines_in_a_row(rest, b);
        assert((a + b).take(n) == a.take(n));
        assert((a + b).skip(n + 1) == rest + b);
    }
}

/// Finds the first line feed of a text that ends in one.
proof fn lemma_first_line_feed(bytes: Seq<u8>) -> (n: int)
    requires
        bytes.len() > 0,
        bytes.last() == 0x0a,
    ensures
        0 <= n < bytes.len(),
        bytes[n] == 0x0a,
        forall|i: int| 0 <= i < n ==> bytes[i] != 0x0a,
    decreases bytes.len(),
{
    if bytes[0] == 0x0a {
        0
    } else {
        let rest = bytes.drop_first();
        let n = lemma_first_line_feed(rest);
        assert forall|i: int| 0 <= i < n + 1 implies bytes[i] != 0x0a by {
            if i > 0 {
                assert(rest[i - 1] == bytes[i]);
            }
        }
        n + 1
    }
}

/// What a line turns out to be, given which texts are addresses.
pub open spec fn line_read(
    line: Seq<u8>,
    parse: spec_fn(Seq<char>) -> Option<IpAddress>,
) -> LineRead {
    match decoded(line) {
        Some(text) => Some((text, parse(text))),
        None => None,
    }
}

/// The addresses that are passed on where a file is read and every address can be
/// passed on.
pub open spec fn sent_from(
    bytes: Seq<u8>,
    parse: spec_fn(Seq<char>) -> Option<IpAddress>,
) -> Seq<(Seq<char>, IpAddress)> {
    listed(lines_of(bytes, true).map_values(|line: Seq<u8>| line_read(line, parse)))
}

/// A file made of two passes on what each of the two passes on, where the first is
/// empty or ends in a line feed.
pub proof fn law_files_in_a_row(
    a: Seq<u8>,
    b: Seq<u8>,
    parse: spec_fn(Seq<char>) -> Option<IpAddress>,
)
    requires
        a.len() == 0 || a.last() == 0x0a,
    ensures
        sent_from(a + b, parse) == sent_from(a, parse) + sent_from(b, parse),
{
    let read = |line: Seq<u8>| line_read(line, parse);
    let first = lines_of(a, true).map_values(read);
    let second = lines_of(b, true).map_values(read);
    lemma_lines_in_a_row(a, b);
    assert(lines_of(a + b, true).map_values(read) == first + second);
    law_listed_in_parts(first, second);
}

/// Some lines with line feeds between them.
pub open spec fn joined(lines: Seq<Seq<u8>>) -> Seq<u8>
    decreases lines.len(),
{
    if lines.len() == 0 {
        Seq::empty()
    } else if lines.len() == 1 {
        lines[0]
    } else {
        lines[0] + seq![0x0au8] + joined(lines.drop_first())
    }
}

/// No byte before the end of the first line is a line feed.
proof fn lemma_line_holds_no_feed(bytes: Seq<u8>)
    ensures
        line_length(bytes) <= bytes.len(),
        forall|i: int| 0 <= i < line_length(bytes) ==> bytes[i] != 0x0a,
    decreases bytes.len(),
{
    if bytes.len() > 0 && bytes[0] != 0x0a {
        let rest = bytes.drop_first();
        lemma_line_holds_no_feed(rest);
        assert forall|i: int| 0 <= i < line_length(bytes) implies bytes[i] != 0x0a by {
            if i > 0 {
                assert(rest[i - 1] == bytes[i]);
            }
        }
    }
}

/// No line of a file holds a line feed.
proof fn lemma_lines_hold_no_feed(bytes: Seq<u8>, i: int)
    requires
        0 <= i < lines_of(bytes, true).len(),
    ensures
        !lines_of(bytes, true)[i].contains(0x0a),
    decreases bytes.len(),
{
    let length = line_length(bytes) as int;
    lemma_line_holds_no_feed(bytes);
    if length < bytes.len() && i > 0 {
        let rest = bytes.skip(length + 1);
        lemma_lines_hold_no_feed(rest, i - 1);
    }
}

/// A line that ends in a carriage return encodes a text that does.
proof fn lemma_return_is_decoded(line: Seq<u8>)
    requires
        valid_utf8(line),
        line.len() > 0,
        line.last() == 0x0d,
    ensures
        decode_utf8(line).len() > 0,
        decode_utf8(line).last() == '\r',
{
    let place = line.len() - 1;
    let end = line.subrange(place, line.len() as int);
    assert(is_leading_byte_width_1(line[place]));
    is_char_boundary_iff_is_leading_byte(line, place);
    valid_utf8_split(line, place);
    decode_utf8_split(line, place);
    assert(end == seq![0x0du8]);
    assert(0x0du8 & 0x7f == 0x0d) by (bit_vector);
    reveal_with_fuel(decode_utf8, 2);
    assert(decode_utf8(end) == seq!['\r']);
}

/// Lines that are joined are the lines of the result.
proof fn lemma_lines_of_joined(lines: Seq<Seq<u8>>)
    requires
        forall|i: int|
            0 <= i < lines.len() ==> {
                &&& (#[trigger] lines[i]).len() > 0
                &&& lines[i].last() != 0x0d
                &&& !lines[i].contains(0x0a)
            },
    ensures
        lines_of(joined(lines), true) == lines,
    decreases lines.len(),
{
    let file = joined(lines);
    if lines.len() == 0 {
        lemma_line_length(file, 0);
    } else {
        let first = lines[0];
        let n = first.len() as int;
        assert(file.take(n) == first);
        lemma_line_length(file, n);
        if lines.len() > 1 {
            lemma_lines_of_joined(lines.drop_first());
            assert(file.skip(n + 1) == joined(lines.drop_first()));
        }
    }
}

/// The lines of what was passed on.
pub open spec fn lines_sent(sent: Seq<(Seq<char>, IpAddress)>) -> Seq<Seq<u8>> {
    sent.map_values(|entry: (Seq<char>, IpAddress)| encode_utf8(entry.0))
}

/// A file made of what a file passed on, with line feeds between, passes on the
/// same again, in the same order. All that this takes of the texts that are
/// addresses is that none ends in a carriage return, which is left off the end of a
/// line.
pub proof fn law_file_of_what_was_sent(
    bytes: Seq<u8>,
    parse: spec_fn(Seq<char>) -> Option<IpAddress>,
)
    requires
        forall|text: Seq<char>|
            text.len() > 0 && text.last() == '\r' ==> (#[trigger] parse(text)) is None,
    ensures
        sent_from(joined(lines_sent(sent_from(bytes, parse))), parse) == sent_from(bytes, parse),
{
    let read = |line: Seq<u8>| line_read(line, parse);
    let lines = lines_of(bytes, true);
    let results = lines.map_values(read);
    let sent = sent_from(bytes, parse);
    let again = lines_sent(sent);
    assert forall|i: int| 0 <= i < sent.len() implies {
        &&& read(#[trigger] again[i]) == Some((sent[i].0, Some(sent[i].1)))
        &&& again[i].len() > 0
        &&& again[i].last() != 0x0d
        &&& !again[i].contains(0x0a)
    } by {
        let (text, ip) = sent[i];
        law_listed_addresses_are_passed_on(results, text, ip);
        let j = choose|j: int| 0 <= j < results.len() && results[j] == Some((text, Some(ip)));
        let line = lines[j];
        decode_utf8_encode_utf8(line);
        assert(again[i] == line);
        lemma_lines_hold_no_feed(bytes, j);
        if line.len() > 0 && line.last() == 0x0d {
            lemma_return_is_decoded(line);
        }
    }
    lemma_lines_of_joined(again);
    assert(again.map_values(read) == lines_listing(sent));
    law_listed_again(results);
}

/// White space is the characters with the Unicode property `White_Space`; no
/// printable character of ASCII is among them.
pub proof fn law_white_space(c: char)
    ensures
        '!' <= c <= '~' ==> !is_white_space(c),
        c == ' ' || c == '\t' || c == '\n' || c == '\r' || c == '\u{b}' || c == '\u{c}'
            ==> is_white_space(c),
        is_white_space(c) ==> c as u32 <= 0x3000,
{
}

/// An address of a file is passed on, as it is written there, exactly where its
/// line does not start with `#` and holds a character that is not white space.
pub proof fn law_addresses_are_passed_on_unless_marked(
    lines: Seq<LineRead>,
    text: Seq<char>,
    ip: IpAddress,
)
    ensures
        listed(lines).contains((text, ip)) <==> {
            &&& lines.contains(Some((text, Some(ip))))
            &&& text.len() > 0
            &&& text[0] != '#'
            &&& exists|i: int| 0 <= i < text.len() && !is_white_space(#[trigger] text[i])
        },
{
    law_listed_addresses_are_passed_on(lines, text, ip);
}

/// A line alone passes on its address, if it is one, unless the line starts with
/// `#` or holds white space only; a line that cannot be read passes on nothing, and
/// nor does a file without lines.
pub proof fn law_listed_on_one_line(text: Seq<char>, ip: Option<IpAddress>)
    ensures
        listed(Seq::<LineRead>::empty()) == Seq::<(Seq<char>, IpAddress)>::empty(),
        listed(seq![None::<(Seq<char>, Option<IpAddress>)>]) == Seq::<
            (Seq<char>, IpAddress),
        >::empty(),
        listed(seq![Some((text, ip))]) == (match ip {
            Some(ip) => if text.len() > 0 && text[0] != '#' && exists|i: int|
                0 <= i < text.len() && !is_white_space(#[trigger] text[i]) {
                seq![(text, ip)]
            } else {
                Seq::empty()
            },
            None => Seq::empty(),
        }),
{
    reveal_with_fuel(listed, 2);
}

/// What is done about a line: a comment is passed over, an address is passed on as
/// it is written, and anything else is warned about. After an address was passed
/// on the next line is read, and none after one that could not be.
pub proof fn law_list_step_by_step(line: String, ip: IpAddress)
    ensures
        ({
            let marked = line@.len() == 0 || line@[0] == '#' || forall|i: int|
                0 <= i < line@.len() ==> is_white_space(#[trigger] line@[i]);
            &&& step_after_event(ListEvent::Line(line, Some(ip))) == (if marked {
                ListStepView::Read
            } else {
                ListStepView::Send(line@, ip)
            })
            &&& step_after_event(ListEvent::Line(line, None)) == (if marked {
                ListStepView::Read
            } else {
                ListStepView::Warn
            })
        }),
        step_after_event(ListEvent::Unreadable) == ListStepView::Read,
        step_after_event(ListEvent::Sent(true)) == ListStepView::Read,
        step_after_event(ListEvent::Sent(false)) == ListStepView::Stop,
        step_after_event(ListEvent::End) == ListStepView::Stop,
        ListStep::Read@ == ListStepView::Read,
        ListStep::Warn@ == ListStepView::Warn,
        ListStep::Send(line, ip)@ == ListStepView::Send(line@, ip),
        ListStep::Stop@ == ListStepView::Stop,
{
}

/// A file goes on after its first line feed with a new line; what stands before it
/// is a line, without a carriage return at its end. What follows the last line
/// feed is a line as it is, where the file is there as a whole.
pub proof fn law_lines_end_in_line_feeds(line: Seq<u8>, rest: Seq<u8>, whole: bool)
    requires
        !line.contains(0x0a),
    ensures
        lines_of(Seq::<u8>::empty(), whole) == Seq::<Seq<u8>>::empty(),
        line.len() > 0 ==> lines_of(line, true) == seq![line],
        lines_of(line, false) == Seq::<Seq<u8>>::empty(),
        lines_of(line + seq![0x0au8] + rest, whole) == seq![
            (if line.len() > 0 && line[line.len() - 1] == 0x0d {
                line.take(line.len() - 1)
            } else {
                line
            }),
        ] + lines_of(rest, whole),
{
    let file = line + seq![0x0au8] + rest;
    let n = line.len() as int;
    assert forall|i: int| 0 <= i < n implies line[i] != 0x0a by {
        assert(line.contains(line[i]));
    }
    lemma_line_length(Seq::<u8>::empty(), 0);
    lemma_line_length(line, n);
    lemma_line_length(file, n);
    assert(file.take(n) == line);
    assert(file.skip(n + 1) == rest);
    if n > 0 {
        assert(line.drop_last() == line.take(n - 1));
    }
}

/// The views of lines and texts hold each of them in its place.
pub proof fn law_views_of_lines(lines: Seq<Vec<u8>>, texts: Seq<Option<String>>)
    ensures
        lines_view(lines).len() == lines.len(),
        forall|i: int| 0 <= i < lines.len() ==> #[trigger] lines_view(lines)[i] == lines[i]@,
        texts_view(texts).len() == texts.len(),
        forall|i: int|
            0 <= i < texts.len() ==> #[trigger] texts_view(texts)[i] == (match texts[i] {
                Some(text) => Some(text@),
                None => None,
            }),
{
}

/// A line that encodes a text is read as that text, and one that encodes none as
/// none.
pub proof fn law_lines_are_decoded(text: Seq<char>, line: Seq<u8>)
    ensures
        decoded(encode_utf8(text)) == Some(text),
        !valid_utf8(line) ==> decoded(line) is None,
        decoded(line) matches Some(read) ==> encode_utf8(read) == line,
{
    encode_utf8_valid_utf8(text);
    encode_utf8_decode_utf8(text);
    if valid_utf8(line) {
        decode_utf8_encode_utf8(line);
    }
}

} // verus!
