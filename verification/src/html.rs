//! Web pages, and the elements that CSS selectors find in them.
//!
//! Pages are parsed and searched by the `scraper` crate. What it finds is known
//! here by name only: [`selector_parses`], [`first_text`] and
//! [`first_nested_text`].

use vstd::prelude::*;
use vstd::utf8::encode_utf8;

use crate::text::{
    chars_of, count_char, hex_digit, hex_digit_value, hex_value_of, is_digit, is_hex_digit,
    lemma_no_occurrence, occurrences, optional_text,
};

verus! {

/// The size in bytes up to which the texts of a page are held.
///
/// The parser grows the buffers of its texts to at most 2^31 bytes and panics
/// beyond.
pub const MAX_TEXT_BYTES: u64 = 0x8000_0000;

/// Whether the character reference `&nLt;` or `&nGt;` stands at the start of some
/// bytes.
pub open spec fn starts_with_long_reference(bytes: Seq<u8>) -> bool {
    &&& bytes.len() >= 5
    &&& bytes[0] == 0x26
    &&& bytes[1] == 0x6e
    &&& bytes[2] == 0x4c || bytes[2] == 0x47
    &&& bytes[3] == 0x74
    &&& bytes[4] == 0x3b
}

/// The size that the bytes of a page can take up in its texts. A NUL becomes a
/// replacement character of three bytes, and two character references of five
/// bytes become six bytes. Nothing else grows.
pub open spec fn grown_size(bytes: Seq<u8>) -> nat
    decreases bytes.len(),
{
    if bytes.len() == 0 {
        0
    } else {
        grown_byte(bytes) + grown_size(bytes.drop_first())
    }
}

/// The size that the first of some bytes can take up.
pub open spec fn grown_byte(bytes: Seq<u8>) -> nat {
    if bytes[0] == 0 {
        3
    } else if starts_with_long_reference(bytes) {
        2
    } else {
        1
    }
}

/// A web page, as the text that a server sent.
#[derive(Debug)]
pub struct Document {
    source: String,
}

impl View for Document {
    type V = Seq<char>;

    closed spec fn view(&self) -> Seq<char> {
        self.source@
    }
}

/// Whether a page is short enough to be parsed.
pub open spec fn page_fits(source: Seq<char>) -> bool {
    grown_size(encode_utf8(source)) <= MAX_TEXT_BYTES
}

/// Whether the bytes of a page are few enough for it to be parsed.
fn bytes_fit(bytes: &[u8]) -> (fit: bool)
    ensures
        fit == (grown_size(bytes@) <= MAX_TEXT_BYTES),
{
    let mut size: u64 = 0;
    let mut i: usize = 0;
    assert(bytes@.skip(0) == bytes@);
    while i < bytes.len()
        invariant
            i <= bytes@.len(),
            size <= MAX_TEXT_BYTES,
            size + grown_size(bytes@.skip(i as int)) == grown_size(bytes@),
        decreases bytes@.len() - i,
    {
        assert(bytes@.skip(i as int).drop_first() == bytes@.skip(i + 1));
        let grown: u64 = if bytes[i] == 0 {
            3
        } else if bytes[i] == 0x26 && bytes.len() - i >= 5 && bytes[i + 1] == 0x6e && (bytes[i + 2]
            == 0x4c || bytes[i + 2] == 0x47) && bytes[i + 3] == 0x74 && bytes[i + 4] == 0x3b {
            2
        } else {
            1
        };
        size = size + grown;
        if size > MAX_TEXT_BYTES {
            return false;
        }
        i = i + 1;
    }
    true
}

impl Document {
    #[verifier::type_invariant]
    spec fn fits(self) -> bool {
        page_fits(self.source@)
    }

    /// Makes a page of the text that a server sent, if it is not too long.
    pub fn from_source(source: String) -> (document: Option<Document>)
        ensures
            document is Some <==> page_fits(source@),
            document matches Some(document) ==> document@ == source@,
    {
        if bytes_fit(source.as_str().as_bytes()) {
            Some(Document { source })
        } else {
            None
        }
    }
}

impl Document {
    /// Whether a selector matches an element of the page.
    pub fn has_match(&self, selector: &str) -> (matches: bool)
        requires
            is_selector(selector@),
        ensures
            matches == (first_text(self@, selector@) is Some),
    {
        self.first_text(selector).is_some()
    }

    /// The text of the first element of the page that a selector matches.
    pub fn first_text(&self, selector: &str) -> (text: Option<String>)
        requires
            is_selector(selector@),
        ensures
            optional_text(text) == first_text(self@, selector@),
    {
        proof {
            use_type_invariant(self);
        }
        select_first(self.source.as_str(), selector)
    }

    /// The text of the first element that the inner selector matches inside the
    /// first element that the outer selector matches.
    pub fn first_nested_text(&self, outer: &str, inner: &str) -> (text: Option<String>)
        requires
            is_selector(outer@),
            is_selector(inner@),
        ensures
            optional_text(text) == first_nested_text(self@, outer@, inner@),
    {
        proof {
            use_type_invariant(self);
        }
        select_first_nested(self.source.as_str(), outer, inner)
    }
}

/// Whether a text is a Latin letter followed by Latin letters, digits, hyphens
/// and underscores.
pub open spec fn is_plain_name(name: Seq<char>) -> bool {
    &&& name.len() > 0
    &&& is_letter(name[0])
    &&& forall|i: int|
        0 <= i < name.len() ==> {
            let c = #[trigger] name[i];
            is_letter(c) || is_digit(c) || c == '-' || c == '_'
        }
}

/// Whether a character is a Latin letter.
pub open spec fn is_letter(c: char) -> bool {
    'a' <= c <= 'z' || 'A' <= c <= 'Z'
}

/// The selector of the elements with an id.
pub open spec fn id_selector(id: Seq<char>) -> Seq<char> {
    "#"@ + id
}

/// The selector of the elements with a class.
pub open spec fn class_selector(class: Seq<char>) -> Seq<char> {
    "."@ + class
}

/// The selector of the elements whose id ends in a text.
pub open spec fn id_suffix_selector(suffix: Seq<char>) -> Seq<char> {
    "[id$=\""@ + suffix + "\"]"@
}

/// The selector of the body of a device status page.
pub open spec fn device_status_selector() -> Seq<char> {
    "body#PageDeviceStatus"@
}

/// The selector of the ink level in a cartridge block.
pub open spec fn ink_level_selector() -> Seq<char> {
    ".consumable-block-header > .data.percentage"@
}

/// Whether a selector has one of the simple forms that always parse.
pub open spec fn is_plain_selector(selector: Seq<char>) -> bool {
    ||| selector == device_status_selector()
    ||| selector == ink_level_selector()
    ||| exists|name: Seq<char>|
        #[trigger] is_plain_name(name) && (selector == id_selector(name) || selector
            == class_selector(name) || selector == id_suffix_selector(name))
}

/// The number of `(` up to which a selector is used.
///
/// Nested selectors are parsed and matched by recursion. A few times as many use
/// up the stack of a thread, which is two mebibytes by default.
pub const MAX_SELECTOR_NESTING: usize = 64;

/// The number of characters that can combine selectors up to which a selector is
/// used.
///
/// Combined selectors are matched by recursion. A few times as many use up the
/// stack of a thread, which is two mebibytes by default.
pub const MAX_SELECTOR_COMBINATORS: usize = 1024;

/// Whether a character is white space in a selector.
pub open spec fn is_selector_space(c: char) -> bool {
    c == ' ' || c == '\t' || c == '\n' || c == '\r' || c == '\u{c}'
}

/// Whether a character can combine two selectors.
pub open spec fn is_combinator(c: char) -> bool {
    is_selector_space(c) || c == '>' || c == '+' || c == '~'
}

/// The number of hexadecimal digits at the start of a text, up to a bound.
pub open spec fn hex_run(s: Seq<char>, bound: nat) -> nat
    decreases bound,
{
    if bound > 0 && s.len() > 0 && is_hex_digit(s[0]) {
        1 + hex_run(s.drop_first(), (bound - 1) as nat)
    } else {
        0
    }
}

/// The number that a text of hexadecimal digits denotes.
pub open spec fn hex_value(digits: Seq<char>) -> nat
    decreases digits.len(),
{
    if digits.len() == 0 {
        0
    } else {
        16 * hex_value(digits.drop_last()) + hex_digit_value(digits.last())
    }
}

/// The length of the white space that ends an escape at the start of a text: one
/// character, or a carriage return and a line feed.
pub open spec fn escape_space(s: Seq<char>) -> int {
    if s.len() >= 2 && s[0] == '\r' && s[1] == '\n' {
        2
    } else if s.len() >= 1 && is_selector_space(s[0]) {
        1
    } else {
        0
    }
}

/// What is left of a text after a letter at its start, in lower or upper case. A
/// letter can be written as an escape: a backslash and the letter, or a backslash,
/// up to six hexadecimal digits of its number, and white space.
pub open spec fn after_letter(s: Seq<char>, lower: char, upper: char) -> Option<Seq<char>> {
    if s.len() == 0 {
        None
    } else if s[0] == lower || s[0] == upper {
        Some(s.skip(1))
    } else if s[0] != '\\' {
        None
    } else {
        let rest = s.skip(1);
        let digits = hex_run(rest, 6) as int;
        let value = hex_value(rest.take(digits));
        if digits > 0 {
            if value == lower as nat || value == upper as nat {
                Some(rest.skip(digits).skip(escape_space(rest.skip(digits))))
            } else {
                None
            }
        } else if rest.len() > 0 && (rest[0] == lower || rest[0] == upper) {
            Some(rest.skip(1))
        } else {
            None
        }
    }
}

/// Whether a text starts with the word `has` and a `(`.
pub open spec fn starts_with_has(s: Seq<char>) -> bool {
    match after_letter(s, 'h', 'H') {
        Some(s) => match after_letter(s, 'a', 'A') {
            Some(s) => match after_letter(s, 's', 'S') {
                Some(s) => s.len() > 0 && s[0] == '(',
                None => false,
            },
            None => false,
        },
        None => false,
    }
}

/// Whether a `:has(` stands at a place of a selector: the word after a colon, or
/// after the end of a comment, which can stand between the two.
pub open spec fn opens_has(s: Seq<char>, place: int) -> bool {
    &&& 0 <= place < s.len()
    &&& s[place] == ':' || s[place] == '/'
    &&& starts_with_has(s.skip(place + 1))
}

/// Whether a selector can be parsed and matched within the stack: it is not nested
/// too deeply, combines not too many selectors, and has no `:has(..)`, whose
/// matching goes down a page by recursion.
pub open spec fn is_shallow(selector: Seq<char>) -> bool {
    &&& occurrences(selector, '(') <= MAX_SELECTOR_NESTING
    &&& selector.filter(|c: char| is_combinator(c)).len() <= MAX_SELECTOR_COMBINATORS
    &&& forall|place: int| !#[trigger] opens_has(selector, place)
}

/// Whether a text can be used as a selector.
pub open spec fn is_selector(selector: Seq<char>) -> bool {
    is_plain_selector(selector) || is_shallow(selector) && selector_parses(selector)
}

/// Whether a character is white space in a selector.
fn selector_space(c: char) -> (space: bool)
    ensures
        space == is_selector_space(c),
{
    c == ' ' || c == '\t' || c == '\n' || c == '\r' || c == '\u{c}'
}

/// Counts the characters that can combine selectors.
fn count_combinators(chars: &Vec<char>) -> (count: usize)
    ensures
        count == chars@.filter(|c: char| is_combinator(c)).len(),
{
    let mut count: usize = 0;
    let mut i: usize = 0;
    while i < chars.len()
        invariant
            i <= chars@.len(),
            count <= i,
            count == chars@.take(i as int).filter(|c: char| is_combinator(c)).len(),
        decreases chars@.len() - i,
    {
        proof {
            reveal_with_fuel(Seq::filter, 2);
            assert(chars@.take(i + 1).drop_last() == chars@.take(i as int));
        }
        let c: char = chars[i];
        if selector_space(c) || c == '>' || c == '+' || c == '~' {
            count = count + 1;
        }
        i = i + 1;
    }
    assert(chars@.take(chars@.len() as int) == chars@);
    count
}

/// The hexadecimal digits from one place to another are a run, where it ends at
/// the bound, at the end of the text or before another character.
proof fn lemma_hex_run(s: Seq<char>, n: int, bound: nat)
    requires
        0 <= n <= s.len(),
        n <= bound,
        forall|i: int| 0 <= i < n ==> is_hex_digit(#[trigger] s[i]),
        n < bound && n < s.len() ==> !is_hex_digit(s[n]),
    ensures
        hex_run(s, bound) == n,
    decreases bound,
{
    if n > 0 {
        lemma_hex_run(s.drop_first(), n - 1, (bound - 1) as nat);
    }
}

/// Reads up to six hexadecimal digits: how many there are, and their number.
fn read_hex(chars: &Vec<char>, from: usize) -> (read: (usize, u32))
    requires
        from <= chars@.len(),
    ensures
        read.0 == hex_run(chars@.skip(from as int), 6),
        read.0 <= chars@.len() - from,
        read.1 == hex_value(chars@.skip(from as int).take(read.0 as int)),
{
    let ghost text = chars@.skip(from as int);
    let mut digits: usize = 0;
    let mut value: u32 = 0;
    while digits < 6 && digits < chars.len() - from && hex_digit(chars[from + digits])
        invariant
            from <= chars@.len(),
            text == chars@.skip(from as int),
            digits <= 6,
            digits <= text.len(),
            forall|k: int| 0 <= k < digits ==> is_hex_digit(#[trigger] text[k]),
            value == hex_value(text.take(digits as int)),
            digits == 0 ==> value == 0,
            digits == 1 ==> value < 0x10,
            digits == 2 ==> value < 0x100,
            digits == 3 ==> value < 0x1000,
            digits == 4 ==> value < 0x1_0000,
            digits == 5 ==> value < 0x10_0000,
            digits == 6 ==> value < 0x100_0000,
        decreases 6 - digits,
    {
        assert(text.take(digits + 1).drop_last() == text.take(digits as int));
        assert(text[digits as int] == chars@[from + digits]);
        value = 16 * value + hex_value_of(chars[from + digits]);
        digits = digits + 1;
    }
    proof {
        lemma_hex_run(text, digits as int, 6);
    }
    (digits, value)
}

/// The length of the white space that ends an escape at a place.
fn space_length(chars: &Vec<char>, from: usize) -> (length: usize)
    requires
        from <= chars@.len(),
    ensures
        length == escape_space(chars@.skip(from as int)),
        length <= chars@.len() - from,
{
    if chars.len() - from >= 2 && chars[from] == '\r' && chars[from + 1] == '\n' {
        2
    } else if chars.len() - from >= 1 && selector_space(chars[from]) {
        1
    } else {
        0
    }
}

/// The place after a letter at a place, in lower or upper case, if it stands there.
fn letter_end(chars: &Vec<char>, from: usize, lower: char, upper: char) -> (end: Option<usize>)
    requires
        from <= chars@.len(),
    ensures
        match end {
            Some(end) => from <= end <= chars@.len() && after_letter(
                chars@.skip(from as int),
                lower,
                upper,
            ) == Some(chars@.skip(end as int)),
            None => after_letter(chars@.skip(from as int), lower, upper) is None,
        },
{
    if from == chars.len() {
        return None;
    }
    let next: usize = from + 1;
    let ghost rest = chars@.skip(next as int);
    assert(chars@.skip(from as int).skip(1) == rest);
    if chars[from] == lower || chars[from] == upper {
        return Some(next);
    }
    if chars[from] != '\\' {
        return None;
    }
    let (digits, value): (usize, u32) = read_hex(chars, next);
    if digits == 0 {
        if next < chars.len() && (chars[next] == lower || chars[next] == upper) {
            assert(rest.skip(1) == chars@.skip(next + 1));
            Some(next + 1)
        } else {
            None
        }
    } else if value == lower as u32 || value == upper as u32 {
        let after: usize = next + digits;
        let end: usize = after + space_length(chars, after);
        assert(rest.skip(digits as int) == chars@.skip(after as int));
        assert(chars@.skip(after as int).skip(end - after) == chars@.skip(end as int));
        Some(end)
    } else {
        None
    }
}

/// Whether the word `has` and a `(` stand at a place.
fn has_stands_at(chars: &Vec<char>, from: usize) -> (stands: bool)
    requires
        from <= chars@.len(),
    ensures
        stands == starts_with_has(chars@.skip(from as int)),
{
    match letter_end(chars, from, 'h', 'H') {
        Some(end) => match letter_end(chars, end, 'a', 'A') {
            Some(end) => match letter_end(chars, end, 's', 'S') {
                Some(end) => end < chars.len() && chars[end] == '(',
                None => false,
            },
            None => false,
        },
        None => false,
    }
}

/// Whether a `:has(` stands somewhere in a selector.
fn finds_has(chars: &Vec<char>) -> (found: bool)
    ensures
        found == exists|place: int| #[trigger] opens_has(chars@, place),
{
    let mut i: usize = 0;
    while i < chars.len()
        invariant
            i <= chars@.len(),
            forall|place: int| place < i ==> !#[trigger] opens_has(chars@, place),
        decreases chars@.len() - i,
    {
        if (chars[i] == ':' || chars[i] == '/') && has_stands_at(chars, i + 1) {
            assert(opens_has(chars@, i as int));
            return true;
        }
        i = i + 1;
    }
    false
}

/// Whether a selector can be parsed and matched within the stack.
pub fn is_shallow_selector(selector: &str) -> (shallow: bool)
    ensures
        shallow == is_shallow(selector@),
{
    let chars: Vec<char> = chars_of(selector);
    count_char(&chars, '(') <= MAX_SELECTOR_NESTING && count_combinators(&chars)
        <= MAX_SELECTOR_COMBINATORS && !finds_has(&chars)
}

/// A plain name nests and combines nothing, so that the selector of its id is
/// shallow.
pub proof fn lemma_plain_id_is_shallow(name: Seq<char>)
    requires
        is_plain_name(name),
    ensures
        is_shallow(id_selector(name)),
{
    reveal_strlit("#");
    let selector = id_selector(name);
    lemma_no_occurrence(selector, '(');
    let combined = selector.filter(|c: char| is_combinator(c));
    if combined.len() > 0 {
        selector.lemma_filter_pred(|c: char| is_combinator(c), 0);
        selector.lemma_filter_contains_rev(|c: char| is_combinator(c), combined[0]);
    }
}

/// Whether `scraper::Selector::parse` accepts a text as a group of selectors.
pub uninterp spec fn selector_parses(selector: Seq<char>) -> bool;

/// The text of the first element of a page that `scraper::Html::select` finds
/// for a selector, if it finds one.
pub uninterp spec fn first_text(page: Seq<char>, selector: Seq<char>) -> Option<Seq<char>>;

/// The text of the first element that `scraper::ElementRef::select` finds for
/// the inner selector inside the first element of a page that
/// `scraper::Html::select` finds for the outer selector, if there are both.
pub uninterp spec fn first_nested_text(
    page: Seq<char>,
    outer: Seq<char>,
    inner: Seq<char>,
) -> Option<Seq<char>>;

/// Calls `scraper::Selector::parse`.
///
/// Claims that a text parses or does not by itself alone, and that a name after
/// `#` or `.`, a quoted name that ids end in, and the two fixed selectors parse.
#[verifier::external_body]
pub(crate) fn parses_as_selector(selector: &str) -> (parses: bool)
    requires
        is_shallow(selector@),
    ensures
        parses == selector_parses(selector@),
        is_plain_selector(selector@) ==> parses,
{
    scraper::Selector::parse(selector).is_ok()
}

/// Calls `scraper::Html::select` on a page that `scraper::Html::parse_document`
/// parses, with a selector that `scraper::Selector::parse` parses, and
/// `scraper::ElementRef::text` on the first element.
///
/// Claims that the text depends on the page and the selector alone.
#[verifier::external_body]
fn select_first(page: &str, selector: &str) -> (text: Option<String>)
    requires
        page_fits(page@),
        is_selector(selector@),
    ensures
        optional_text(text) == first_text(page@, selector@),
{
    let selector = scraper::Selector::parse(selector).unwrap();
    let html = scraper::Html::parse_document(page);
    let text = html.select(&selector).next().map(|element| element.text().collect());
    text
}

/// Calls `scraper::ElementRef::select` on the first element that
/// `scraper::Html::select` finds, and `scraper::ElementRef::text` on the first
/// element that it finds there.
///
/// Claims that the text depends on the page and the two selectors alone.
#[verifier::external_body]
fn select_first_nested(page: &str, outer: &str, inner: &str) -> (text: Option<String>)
    requires
        page_fits(page@),
        is_selector(outer@),
        is_selector(inner@),
    ensures
        optional_text(text) == first_nested_text(page@, outer@, inner@),
{
    let outer = scraper::Selector::parse(outer).unwrap();
    let inner = scraper::Selector::parse(inner).unwrap();
    let html = scraper::Html::parse_document(page);
    let block = html.select(&outer).next()?;
    let text = block.select(&inner).next().map(|element| element.text().collect());
    text
}

/// A page fits where its bytes take up at most 2^31 bytes: each byte one, a NUL
/// three, and the ampersand of `&nLt;` and `&nGt;` two.
pub proof fn law_size_of_a_page(source: Seq<char>, byte: u8, rest: Seq<u8>)
    ensures
        page_fits(source) <==> grown_size(encode_utf8(source)) <= 0x8000_0000,
        grown_size(Seq::<u8>::empty()) == 0,
        grown_size(seq![byte] + rest) == grown_size(rest) + (if byte == 0 {
            3nat
        } else if byte == '&' as u8 && rest.len() >= 4 && rest[0] == 'n' as u8 && (rest[1]
            == 'L' as u8 || rest[1] == 'G' as u8) && rest[2] == 't' as u8 && rest[3] == ';' as u8 {
            2nat
        } else {
            1nat
        }),
{
    assert((seq![byte] + rest).drop_first() == rest);
}

/// Without escapes, a selector is shallow exactly where it has at most 64 opening
/// brackets and at most 1024 characters that combine selectors, and nowhere, after
/// a colon or the end of a comment, the word `has` and an opening bracket.
pub proof fn law_shallow_without_escapes(selector: Seq<char>)
    requires
        !selector.contains('\\'),
    ensures
        is_shallow(selector) <==> {
            &&& occurrences(selector, '(') <= 64
            &&& selector.filter(
                |c: char|
                    c == ' ' || c == '\t' || c == '\n' || c == '\r' || c == '\u{c}' || c == '>' || c
                        == '+' || c == '~',
            ).len() <= 1024
            &&& forall|i: int|
                0 <= i && i + 4 < selector.len() && (#[trigger] selector[i] == ':' || selector[i]
                    == '/') ==> !({
                    &&& selector[i + 1] == 'h' || selector[i + 1] == 'H'
                    &&& selector[i + 2] == 'a' || selector[i + 2] == 'A'
                    &&& selector[i + 3] == 's' || selector[i + 3] == 'S'
                    &&& selector[i + 4] == '('
                })
        },
{
    let combines = |c: char|
        c == ' ' || c == '\t' || c == '\n' || c == '\r' || c == '\u{c}' || c == '>' || c == '+' || c
            == '~';
    assert((|c: char| is_combinator(c)) =~= combines);
    assert forall|place: int|
        0 <= place < selector.len() && (#[trigger] selector[place] == ':' || selector[place]
            == '/') implies opens_has(selector, place) == ({
        &&& place + 4 < selector.len()
        &&& selector[place + 1] == 'h' || selector[place + 1] == 'H'
        &&& selector[place + 2] == 'a' || selector[place + 2] == 'A'
        &&& selector[place + 3] == 's' || selector[place + 3] == 'S'
        &&& selector[place + 4] == '('
    }) by {
        assert forall|i: int| 0 <= i < selector.len() implies selector[i] != '\\' by {
            assert(selector.contains(selector[i]));
        }
        let n = selector.len() as int;
        if place + 1 < n {
            assert(selector.skip(place + 1).skip(1) == selector.skip(place + 2));
        }
        if place + 2 < n {
            assert(selector.skip(place + 2).skip(1) == selector.skip(place + 3));
        }
        if place + 3 < n {
            assert(selector.skip(place + 3).skip(1) == selector.skip(place + 4));
        }
    }
    if forall|place: int| !#[trigger] opens_has(selector, place) {
        assert forall|i: int|
            0 <= i && i + 4 < selector.len() && (#[trigger] selector[i] == ':' || selector[i]
                == '/') implies !({
            &&& selector[i + 1] == 'h' || selector[i + 1] == 'H'
            &&& selector[i + 2] == 'a' || selector[i + 2] == 'A'
            &&& selector[i + 3] == 's' || selector[i + 3] == 'S'
            &&& selector[i + 4] == '('
        }) by {
            assert(!opens_has(selector, i));
        }
    }
}

/// A selector without an opening bracket, or without colons and comments, holds no
/// `:has(`, whatever else it holds.
pub proof fn law_selectors_that_cannot_go_down_a_page(selector: Seq<char>, place: int)
    requires
        !selector.contains('(') || (!selector.contains(':') && !selector.contains('/')),
    ensures
        !opens_has(selector, place),
{
    if opens_has(selector, place) {
        assert(selector.contains(selector[place]));
        let first = selector.skip(place + 1);
        lemma_letter_keeps_the_end(first, 'h', 'H');
        let second = after_letter(first, 'h', 'H')->0;
        lemma_letter_keeps_the_end(second, 'a', 'A');
        let third = after_letter(second, 'a', 'A')->0;
        lemma_letter_keeps_the_end(third, 's', 'S');
        let last = after_letter(third, 's', 'S')->0;
        let n = selector.len() - last.len();
        assert(last[0] == third[third.len() - last.len()]);
        assert(third[third.len() - last.len()] == second[second.len() - last.len()]);
        assert(second[second.len() - last.len()] == first[first.len() - last.len()]);
        assert(selector[n] == '(');
        assert(selector.contains(selector[n]));
    }
}

/// What is left after a letter is the end of the text.
proof fn lemma_letter_keeps_the_end(s: Seq<char>, lower: char, upper: char)
    ensures
        after_letter(s, lower, upper) matches Some(rest) ==> {
            &&& rest.len() < s.len()
            &&& forall|i: int|
                0 <= i < rest.len() ==> #[trigger] rest[i] == s[s.len() - rest.len() + i]
        },
{
    if s.len() > 0 && s[0] == '\\' {
        lemma_hex_run_fits(s.skip(1), 6);
    }
}

/// A run of digits is no longer than the text.
proof fn lemma_hex_run_fits(s: Seq<char>, bound: nat)
    ensures
        hex_run(s, bound) <= s.len(),
    decreases bound,
{
    if bound > 0 && s.len() > 0 {
        lemma_hex_run_fits(s.drop_first(), (bound - 1) as nat);
    }
}

/// One more digit makes a number sixteen times as large and adds its value.
proof fn lemma_hex_value_of_push(digits: Seq<char>, c: char)
    ensures
        hex_value(digits.push(c)) == 16 * hex_value(digits) + hex_digit_value(c),
        hex_value(Seq::<char>::empty()) == 0,
{
    assert(digits.push(c).drop_last() == digits);
}

/// A selector is shallow exactly where it has at most 64 opening brackets and at
/// most 1024 characters that combine selectors, and nowhere the word `has` and an
/// opening bracket after a colon or the end of a comment, in whatever way the
/// letters are written.
pub proof fn law_shallow_selectors(selector: Seq<char>)
    ensures
        is_shallow(selector) <==> {
            &&& occurrences(selector, '(') <= 64
            &&& selector.filter(
                |c: char|
                    c == ' ' || c == '\t' || c == '\n' || c == '\r' || c == '\u{c}' || c == '>' || c
                        == '+' || c == '~',
            ).len() <= 1024
            &&& forall|i: int|
                0 <= i < selector.len() && (#[trigger] selector[i] == ':' || selector[i] == '/')
                    ==> !({
                    let h = after_letter(selector.skip(i + 1), 'h', 'H');
                    &&& h is Some
                    &&& after_letter(h->0, 'a', 'A') is Some
                    &&& after_letter(after_letter(h->0, 'a', 'A')->0, 's', 'S') matches Some(rest)
                    &&& rest.len() > 0
                    &&& rest[0] == '('
                })
        },
{
    let combines = |c: char|
        c == ' ' || c == '\t' || c == '\n' || c == '\r' || c == '\u{c}' || c == '>' || c == '+' || c
            == '~';
    assert((|c: char| is_combinator(c)) =~= combines);
    assert forall|place: int|
        0 <= place < selector.len() && (#[trigger] selector[place] == ':' || selector[place]
            == '/') implies opens_has(selector, place) == ({
        let h = after_letter(selector.skip(place + 1), 'h', 'H');
        &&& h is Some
        &&& after_letter(h->0, 'a', 'A') is Some
        &&& after_letter(after_letter(h->0, 'a', 'A')->0, 's', 'S') matches Some(rest)
        &&& rest.len() > 0
        &&& rest[0] == '('
    }) by {
    }
    if forall|place: int| !#[trigger] opens_has(selector, place) {
        assert forall|i: int|
            0 <= i < selector.len() && (#[trigger] selector[i] == ':' || selector[i]
                == '/') implies !({
            let h = after_letter(selector.skip(i + 1), 'h', 'H');
            &&& h is Some
            &&& after_letter(h->0, 'a', 'A') is Some
            &&& after_letter(after_letter(h->0, 'a', 'A')->0, 's', 'S') matches Some(rest)
            &&& rest.len() > 0
            &&& rest[0] == '('
        }) by {
            assert(!opens_has(selector, i));
        }
    }
}

/// How a letter is read at the start of a text. A character other than a backslash
/// stands for itself, and so does one after a backslash that is no hexadecimal
/// digit. Up to six hexadecimal digits after a backslash stand for the character
/// with that number, and take one white space after them with them, where a
/// carriage return and a line feed are one.
pub proof fn law_reading_of_letters(
    c: char,
    digits: Seq<char>,
    rest: Seq<char>,
    lower: char,
    upper: char,
)
    requires
        lower != '\\',
        upper != '\\',
        1 <= digits.len() <= 6,
        forall|i: int| 0 <= i < digits.len() ==> is_hex_digit(#[trigger] digits[i]),
        digits.len() == 6 || rest.len() == 0 || !is_hex_digit(rest[0]),
    ensures
        after_letter(Seq::<char>::empty(), lower, upper) is None,
        after_letter(seq!['\\'], lower, upper) is None,
        c != '\\' ==> after_letter(seq![c] + rest, lower, upper) == (if c == lower || c == upper {
            Some(rest)
        } else {
            None
        }),
        !is_hex_digit(c) ==> after_letter(seq!['\\', c] + rest, lower, upper) == (if c == lower || c
            == upper {
            Some(rest)
        } else {
            None
        }),
        hex_value(digits) != lower as nat && hex_value(digits) != upper as nat ==> after_letter(
            seq!['\\'] + digits + rest,
            lower,
            upper,
        ) is None,
        hex_value(digits) == lower as nat || hex_value(digits) == upper as nat ==> after_letter(
            seq!['\\'] + digits + rest,
            lower,
            upper,
        ) == Some(
            if rest.len() >= 2 && rest[0] == '\r' && rest[1] == '\n' {
                rest.skip(2)
            } else if rest.len() >= 1 && (rest[0] == ' ' || rest[0] == '\t' || rest[0] == '\n'
                || rest[0] == '\r' || rest[0] == '\u{c}') {
                rest.skip(1)
            } else {
                rest
            },
        ),
{
    assert((seq![c] + rest).skip(1) == rest);
    let escaped = seq!['\\', c] + rest;
    assert(escaped.skip(1) == seq![c] + rest);
    if !is_hex_digit(c) {
        lemma_hex_run(seq![c] + rest, 0, 6);
    }
    assert(seq!['\\'].skip(1) == Seq::<char>::empty());
    lemma_hex_run(Seq::<char>::empty(), 0, 6);
    let whole = seq!['\\'] + digits + rest;
    let text = digits + rest;
    let n = digits.len() as int;
    assert(whole.skip(1) == text);
    assert forall|i: int| 0 <= i < n implies is_hex_digit(#[trigger] text[i]) by {
        assert(text[i] == digits[i]);
    }
    if n < 6 && rest.len() > 0 {
        assert(text[n] == rest[0]);
    }
    lemma_hex_run(text, n, 6);
    assert(text.take(n) == digits);
    assert(text.skip(n) == rest);
    assert(rest.skip(0) == rest);
}

/// The number of hexadecimal digits goes from digit to digit.
pub proof fn law_hex_numbers(digits: Seq<char>, c: char)
    ensures
        hex_value(Seq::<char>::empty()) == 0,
        hex_value(digits.push(c)) == 16 * hex_value(digits) + hex_digit_value(c),
{
    lemma_hex_value_of_push(digits, c);
}

} // verus!
