//! Text as sequences of characters, and numbers in decimal.

use vstd::prelude::*;

verus! {

/// Whether a character is one of the ten decimal digits of ASCII.
pub open spec fn is_digit(c: char) -> bool {
    '0' <= c <= '9'
}

/// The number that a decimal digit stands for.
pub open spec fn digit_value(c: char) -> nat {
    (c as int - '0' as int) as nat
}

/// The digit that stands for a number below ten.
pub open spec fn digit_char(n: nat) -> char {
    (n + '0' as int) as char
}

/// Whether every character of a text is a decimal digit.
pub open spec fn all_digits(s: Seq<char>) -> bool {
    forall|i: int| 0 <= i < s.len() ==> is_digit(#[trigger] s[i])
}

/// The longest prefix of a text that holds decimal digits only.
pub open spec fn leading_digits(s: Seq<char>) -> Seq<char>
    decreases s.len(),
{
    if s.len() > 0 && is_digit(s[0]) {
        seq![s[0]] + leading_digits(s.skip(1))
    } else {
        Seq::empty()
    }
}

/// The number that a text of decimal digits denotes.
pub open spec fn decimal_value(digits: Seq<char>) -> nat
    decreases digits.len(),
{
    if digits.len() == 0 {
        0
    } else {
        10 * decimal_value(digits.drop_last()) + digit_value(digits.last())
    }
}

/// The text that denotes a number in decimal, without leading zeros.
pub open spec fn decimal_text(n: nat) -> Seq<char>
    decreases n,
{
    if n < 10 {
        seq![digit_char(n)]
    } else {
        decimal_text(n / 10).push(digit_char(n % 10))
    }
}

/// The number that a text of digits denotes, if it has at least one digit,
/// nothing but digits, and a value that fits.
pub open spec fn number_of_digits(s: Seq<char>) -> Option<u32> {
    if s.len() > 0 && all_digits(s) && decimal_value(s) <= u32::MAX {
        Some(decimal_value(s) as u32)
    } else {
        None
    }
}

/// The number that a text denotes, as `u32::from_str` reads it: an optional
/// `+`, then the digits.
pub open spec fn number_of_text(s: Seq<char>) -> Option<u32> {
    if s.len() > 0 && s[0] == '+' {
        number_of_digits(s.skip(1))
    } else {
        number_of_digits(s)
    }
}

/// The characters of a text that may be missing.
pub open spec fn optional_text(s: Option<String>) -> Option<Seq<char>> {
    match s {
        Some(text) => Some(text@),
        None => None,
    }
}

/// The characters of a text.
pub fn chars_of(s: &str) -> (chars: Vec<char>)
    ensures
        chars@ == s@,
{
    let mut chars: Vec<char> = Vec::new();
    for c in it: s.chars()
        invariant
            it.seq() == s@,
            chars@ == it.seq().take(it.index() as int),
    {
        chars.push(c);
    }
    chars
}

/// How often a character occurs in a text.
pub open spec fn occurrences(s: Seq<char>, c: char) -> nat {
    s.filter(|other: char| other == c).len()
}

/// A character that is not in a text does not occur there.
pub proof fn lemma_no_occurrence(s: Seq<char>, c: char)
    requires
        !s.contains(c),
    ensures
        occurrences(s, c) == 0,
    decreases s.len(),
{
    reveal_with_fuel(Seq::filter, 2);
    if s.len() > 0 {
        lemma_no_occurrence(s.drop_last(), c);
    }
}

/// Counts how often a character occurs among some characters.
pub fn count_char(chars: &Vec<char>, c: char) -> (count: usize)
    ensures
        count == occurrences(chars@, c),
{
    let mut count: usize = 0;
    let mut i: usize = 0;
    while i < chars.len()
        invariant
            i <= chars@.len(),
            count <= i,
            count == occurrences(chars@.take(i as int), c),
        decreases chars@.len() - i,
    {
        proof {
            reveal_with_fuel(Seq::filter, 2);
            assert(chars@.take(i + 1).drop_last() == chars@.take(i as int));
        }
        if chars[i] == c {
            count = count + 1;
        }
        i = i + 1;
    }
    assert(chars@.take(chars@.len() as int) == chars@);
    count
}

/// Whether a character is a hexadecimal digit.
pub open spec fn is_hex_digit(c: char) -> bool {
    is_digit(c) || 'a' <= c <= 'f' || 'A' <= c <= 'F'
}

/// Whether a character is a hexadecimal digit.
pub fn hex_digit(c: char) -> (hex: bool)
    ensures
        hex == is_hex_digit(c),
{
    '0' <= c && c <= '9' || 'a' <= c && c <= 'f' || 'A' <= c && c <= 'F'
}

/// The number that a hexadecimal digit stands for.
pub open spec fn hex_digit_value(c: char) -> nat {
    if is_digit(c) {
        digit_value(c)
    } else if 'a' <= c {
        (c as int - 'a' as int + 10) as nat
    } else {
        (c as int - 'A' as int + 10) as nat
    }
}

/// The number that a hexadecimal digit stands for.
pub fn hex_value_of(c: char) -> (value: u32)
    requires
        is_hex_digit(c),
    ensures
        value == hex_digit_value(c),
        value < 16,
{
    if c <= '9' {
        c as u32 - '0' as u32
    } else if 'a' <= c {
        c as u32 - 'a' as u32 + 10
    } else {
        c as u32 - 'A' as u32 + 10
    }
}

/// Leaving digits off the end does not raise the value.
proof fn lemma_decimal_value_of_prefix(digits: Seq<char>, n: int)
    requires
        0 <= n <= digits.len(),
    ensures
        decimal_value(digits.take(n)) <= decimal_value(digits),
    decreases digits.len() - n,
{
    if n == digits.len() {
        assert(digits.take(n) == digits);
    } else {
        lemma_decimal_value_of_prefix(digits, n + 1);
        assert(digits.take(n + 1).drop_last() == digits.take(n));
    }
}

/// The leading digits of a text are its prefix up to the first character that
/// is no digit.
proof fn lemma_leading_digits(s: Seq<char>, n: int)
    requires
        0 <= n <= s.len(),
        all_digits(s.take(n)),
        n < s.len() ==> !is_digit(s[n]),
    ensures
        leading_digits(s) == s.take(n),
    decreases n,
{
    if n > 0 {
        let rest = s.skip(1);
        assert(s.take(n)[0] == s[0]);
        assert forall|i: int| 0 <= i < n - 1 implies is_digit(#[trigger] rest.take(n - 1)[i]) by {
            assert(s.take(n)[i + 1] == rest.take(n - 1)[i]);
        }
        lemma_leading_digits(rest, n - 1);
    }
}

/// The leading digits of a text are digits.
pub proof fn lemma_leading_digits_are_digits(s: Seq<char>)
    ensures
        all_digits(leading_digits(s)),
    decreases s.len(),
{
    if s.len() > 0 && is_digit(s[0]) {
        lemma_leading_digits_are_digits(s.skip(1));
    }
}

/// The longest prefix of a text that holds decimal digits only.
pub fn leading_digits_of(s: &str) -> (digits: Vec<char>)
    ensures
        digits@ == leading_digits(s@),
{
    let chars: Vec<char> = chars_of(s);
    let mut digits: Vec<char> = Vec::new();
    let mut i: usize = 0;
    while i < chars.len() && '0' <= chars[i] && chars[i] <= '9'
        invariant
            chars@ == s@,
            i <= chars@.len(),
            digits@ == chars@.take(i as int),
            all_digits(digits@),
        decreases chars@.len() - i,
    {
        digits.push(chars[i]);
        i = i + 1;
    }
    proof {
        lemma_leading_digits(s@, i as int);
    }
    digits
}

/// Reads the number that the characters from an index on denote.
pub fn number_of_digits_from(chars: &Vec<char>, from: usize) -> (number: Option<u32>)
    requires
        from <= chars@.len(),
    ensures
        number == number_of_digits(chars@.skip(from as int)),
{
    let ghost digits = chars@.skip(from as int);
    if from == chars.len() {
        return None;
    }
    let mut value: u32 = 0;
    let mut i: usize = from;
    while i < chars.len()
        invariant
            from <= i <= chars@.len(),
            from < chars@.len(),
            digits == chars@.skip(from as int),
            all_digits(digits.take(i - from)),
            value == decimal_value(digits.take(i - from)),
        decreases chars@.len() - i,
    {
        let c: char = chars[i];
        assert(c == digits[i - from]);
        if c < '0' || '9' < c {
            return None;
        }
        proof {
            assert(digits.take(i - from + 1).drop_last() == digits.take(i - from));
            lemma_decimal_value_of_prefix(digits, i - from + 1);
        }
        let digit: u32 = c as u32 - '0' as u32;
        if value > (u32::MAX - digit) / 10 {
            return None;
        }
        value = 10 * value + digit;
        i = i + 1;
    }
    assert(digits.take(digits.len() as int) == digits);
    Some(value)
}

/// Reads a number as `u32::from_str` does.
pub fn parse_number(s: &str) -> (number: Option<u32>)
    ensures
        number == number_of_text(s@),
{
    let chars: Vec<char> = chars_of(s);
    if chars.len() > 0 && chars[0] == '+' {
        number_of_digits_from(&chars, 1)
    } else {
        assert(chars@.skip(0) == chars@);
        number_of_digits_from(&chars, 0)
    }
}

/// The digit that stands for a number below ten.
fn digit_text(n: u32) -> (digit: &'static str)
    requires
        n < 10,
    ensures
        digit@ == seq![digit_char(n as nat)],
{
    proof {
        reveal_strlit("0");
        reveal_strlit("1");
        reveal_strlit("2");
        reveal_strlit("3");
        reveal_strlit("4");
        reveal_strlit("5");
        reveal_strlit("6");
        reveal_strlit("7");
        reveal_strlit("8");
        reveal_strlit("9");
    }
    match n {
        0 => "0",
        1 => "1",
        2 => "2",
        3 => "3",
        4 => "4",
        5 => "5",
        6 => "6",
        7 => "7",
        8 => "8",
        _ => "9",
    }
}

/// Writes a number in decimal.
pub fn decimal(n: u32) -> (text: String)
    ensures
        text@ == decimal_text(n as nat),
    decreases n,
{
    if n < 10 {
        digit_text(n).to_owned()
    } else {
        let mut text: String = decimal(n / 10);
        text.append(digit_text(n % 10));
        text
    }
}

/// What is written in decimal holds digits only, at least one, and denotes
/// the number that was written.
pub proof fn lemma_decimal_text(n: nat)
    ensures
        decimal_text(n).len() > 0,
        all_digits(decimal_text(n)),
        decimal_value(decimal_text(n)) == n,
    decreases n,
{
    let text = decimal_text(n);
    if n < 10 {
        assert(decimal_value(text.drop_last()) == 0);
    } else {
        lemma_decimal_text(n / 10);
        assert(text.drop_last() == decimal_text(n / 10));
    }
}

/// Reading back a number that was written in decimal gives that number.
pub proof fn law_decimal_round_trip(n: u32)
    ensures
        number_of_text(decimal_text(n as nat)) == Some(n),
        number_of_digits(leading_digits(decimal_text(n as nat))) == Some(n),
{
    let text = decimal_text(n as nat);
    lemma_decimal_text(n as nat);
    assert(text.take(text.len() as int) == text);
    lemma_leading_digits(text, text.len() as int);
}

/// The characters of a text that may be missing are those of the text.
pub proof fn law_optional_text(text: String)
    ensures
        optional_text(Some(text)) == Some(text@),
        optional_text(None) is None,
{
}

/// Reading a number goes from digit to digit: a digit after a number makes it ten
/// times as large and adds what the digit stands for, unless the result does not
/// fit; a digit alone, or after a plus sign, is a number; a text that ends in
/// anything else is none, and nor is one that goes on from a text that is none.
pub proof fn law_number_is_read_digit_by_digit(s: Seq<char>, c: char)
    ensures
        number_of_text(Seq::<char>::empty()) is None,
        !('0' <= c <= '9') ==> number_of_text(s.push(c)) is None,
        '0' <= c <= '9' && (s.len() == 0 || s == seq!['+']) ==> number_of_text(s.push(c)) == Some(
            (c as int - '0' as int) as u32,
        ),
        '0' <= c <= '9' && s.len() > 0 && s != seq!['+'] ==> number_of_text(s.push(c)) == (
        match number_of_text(s) {
            Some(n) => if 10 * n + (c as int - '0' as int) <= u32::MAX {
                Some((10 * n + (c as int - '0' as int)) as u32)
            } else {
                None
            },
            None => None,
        }),
{
    lemma_one_more_digit(s, c);
    if s.len() > 0 {
        assert(s.push(c).skip(1) == s.skip(1).push(c));
        lemma_one_more_digit(s.skip(1), c);
        if s[0] == '+' && s.len() == 1 {
            assert(s == seq!['+']);
        }
        if s == seq!['+'] {
            assert(s.skip(1).len() == 0);
            assert(!all_digits(s.push(c))) by {
                assert(s.push(c)[0] == '+');
            }
        }
    }
}

/// What one more character does to a text of digits.
proof fn lemma_one_more_digit(s: Seq<char>, c: char)
    ensures
        all_digits(s.push(c)) <==> all_digits(s) && is_digit(c),
        decimal_value(s.push(c)) == 10 * decimal_value(s) + digit_value(c),
        s.len() == 0 ==> decimal_value(s) == 0,
{
    let longer = s.push(c);
    assert(longer.drop_last() == s);
    if all_digits(longer) {
        assert forall|i: int| 0 <= i < s.len() implies is_digit(#[trigger] s[i]) by {
            assert(longer[i] == s[i]);
        }
        assert(longer[s.len() as int] == c);
    }
}

/// A text of digits alone is read as any text is, but for a plus sign, which it
/// must not start with.
pub proof fn law_digits_are_a_number(s: Seq<char>)
    ensures
        number_of_digits(s) == (if s.len() > 0 && s[0] == '+' {
            None
        } else {
            number_of_text(s)
        }),
{
    if s.len() > 0 && s[0] == '+' {
        assert(!is_digit(s[0]));
    }
}

/// The leading digits of a text are those characters at its start that are
/// digits, up to the first that is none.
pub proof fn law_leading_digits_stop_at_the_first_other(s: Seq<char>)
    ensures
        leading_digits(s).len() <= s.len(),
        leading_digits(s) == s.take(leading_digits(s).len() as int),
        forall|i: int| 0 <= i < leading_digits(s).len() ==> '0' <= #[trigger] s[i] && s[i] <= '9',
        leading_digits(s).len() < s.len() ==> !('0' <= s[leading_digits(s).len() as int] <= '9'),
    decreases s.len(),
{
    if s.len() > 0 && is_digit(s[0]) {
        let rest = s.skip(1);
        law_leading_digits_stop_at_the_first_other(rest);
        let n = leading_digits(rest).len() as int;
        assert(s.take(n + 1) == seq![s[0]] + rest.take(n));
        assert forall|i: int| 0 <= i < n + 1 implies '0' <= #[trigger] s[i] && s[i] <= '9' by {
            if i > 0 {
                assert(rest[i - 1] == s[i]);
            }
        }
    }
}

/// Digits before a text that does not start with a digit are its leading digits.
pub proof fn lemma_leading_digits_of_sum(digits: Seq<char>, rest: Seq<char>)
    requires
        forall|i: int| 0 <= i < digits.len() ==> '0' <= #[trigger] digits[i] && digits[i] <= '9',
        rest.len() == 0 || !('0' <= rest[0] <= '9'),
    ensures
        leading_digits(digits + rest) == digits,
{
    let s = digits + rest;
    let n = digits.len() as int;
    assert(s.take(n) == digits);
    lemma_leading_digits(s, n);
}

/// What is written in decimal is digits, without a zero in front, and is read back
/// as the number that was written.
pub proof fn law_decimal_is_canonical(n: u32)
    ensures
        decimal_text(n as nat).len() > 0,
        forall|i: int|
            0 <= i < decimal_text(n as nat).len() ==> '0' <= #[trigger] decimal_text(n as nat)[i]
                && decimal_text(n as nat)[i] <= '9',
        decimal_text(n as nat).len() > 1 ==> decimal_text(n as nat)[0] != '0',
        number_of_text(decimal_text(n as nat)) == Some(n),
{
    let text = decimal_text(n as nat);
    law_decimal_round_trip(n);
    lemma_decimal_text(n as nat);
    lemma_no_zero_in_front(n as nat);
    assert forall|i: int|
        0 <= i < text.len() implies '0' <= #[trigger] text[i] && text[i] <= '9' by {
        assert(is_digit(text[i]));
    }
}

/// A number that is not zero is written without a zero in front.
proof fn lemma_no_zero_in_front(n: nat)
    ensures
        n > 0 ==> decimal_text(n)[0] != '0',
        n < 10 ==> decimal_text(n).len() == 1,
    decreases n,
{
    if n >= 10 {
        lemma_no_zero_in_front(n / 10);
        lemma_decimal_text(n / 10);
        assert(decimal_text(n)[0] == decimal_text(n / 10)[0]);
    }
}

/// One more character occurs once more, and no other does.
pub proof fn law_occurrences_are_counted(s: Seq<char>, last: char, c: char)
    ensures
        occurrences(Seq::<char>::empty(), c) == 0,
        occurrences(s.push(last), c) == occurrences(s, c) + (if last == c {
            1nat
        } else {
            0nat
        }),
{
    reveal_with_fuel(Seq::filter, 2);
    assert(s.push(last).drop_last() == s);
}

/// The hexadecimal digits are the decimal ones, which stand for 0 to 9, and the
/// letters from a to f in either case, which stand for 10 to 15.
pub proof fn law_hex_digits(c: char)
    ensures
        is_hex_digit(c) <==> '0' <= c <= '9' || 'a' <= c <= 'f' || 'A' <= c <= 'F',
        '0' <= c <= '9' ==> hex_digit_value(c) == c as int - 0x30,
        'A' <= c <= 'F' ==> hex_digit_value(c) == c as int - 0x37,
        'a' <= c <= 'f' ==> hex_digit_value(c) == c as int - 0x57,
{
}

} // verus!
