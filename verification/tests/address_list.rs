use impsupri::address::IpAddress;
use impsupri::address_list::{is_comment_line, read_lines, split_lines, ListEvent, ListStep};

#[test]
fn comments_and_blank_lines_list_nothing() {
    assert!(is_comment_line("# printers"));
    assert!(is_comment_line("#"));
    assert!(is_comment_line(""));
    assert!(is_comment_line(" \t\r"));
    assert!(is_comment_line("\u{3000}\u{a0}"));
    assert!(!is_comment_line(" # printers"));
    assert!(!is_comment_line("10.0.0.1 # lab"));
    assert!(!is_comment_line("\u{200b}"));
}

#[test]
fn a_character_is_blank_where_nothing_is_left_between_white_space() {
    for c in '\0'..=char::MAX {
        let line = format!("{}", c);
        let blank = line.split_whitespace().collect::<Vec<_>>().join("").is_empty();
        assert_eq!(is_comment_line(&line), blank || c == '#', "{:?}", c);
    }
}

#[test]
fn white_space_is_that_of_unicode() {
    for c in '\0'..=char::MAX {
        let n = c as u32;
        let white = matches!(
            n,
            0x9..=0xd
                | 0x20
                | 0x85
                | 0xa0
                | 0x1680
                | 0x2000..=0x200a
                | 0x2028
                | 0x2029
                | 0x202f
                | 0x205f
                | 0x3000
        );
        assert_eq!(is_comment_line(&format!("{}", c)), white || c == '#');
    }
}

#[test]
fn addresses_are_passed_on_as_they_are_written() {
    let ip = IpAddress::V6(1);
    match ListStep::after(ListEvent::Line("0:0::1".to_owned(), Some(ip))) {
        ListStep::Send(line, sent) => {
            assert_eq!(line, "0:0::1");
            assert_eq!(sent, ip);
        }
        other => panic!("{:?}", other),
    }
}

#[test]
fn other_lines_are_warned_about_or_skipped() {
    let warn = ListStep::after(ListEvent::Line("printer.local".to_owned(), None));
    assert!(matches!(warn, ListStep::Warn));
    let skip = ListStep::after(ListEvent::Line("# 10.0.0.1".to_owned(), None));
    assert!(matches!(skip, ListStep::Read));
    let blank = ListStep::after(ListEvent::Line("  ".to_owned(), None));
    assert!(matches!(blank, ListStep::Read));
}

#[test]
fn reading_goes_on_until_nobody_listens() {
    assert!(matches!(ListStep::after(ListEvent::Unreadable), ListStep::Read));
    assert!(matches!(ListStep::after(ListEvent::Sent(true)), ListStep::Read));
    assert!(matches!(ListStep::after(ListEvent::Sent(false)), ListStep::Stop));
    assert!(matches!(ListStep::after(ListEvent::End), ListStep::Stop));
}

fn lines(text: &str) -> Vec<Vec<u8>> {
    split_lines(&text.as_bytes().to_vec(), true)
}

/// The addresses of one number that a file of numbers sends.
fn sent(text: &str) -> Vec<String> {
    let mut sent = Vec::new();
    for line in read_lines(&text.as_bytes().to_vec(), true) {
        let line = line.unwrap();
        let ip = line.parse::<u32>().ok().map(IpAddress::V4);
        if let ListStep::Send(addr, _) = ListStep::after(ListEvent::Line(line, ip)) {
            sent.push(addr);
        }
    }
    sent
}

#[test]
fn lines_end_in_line_feeds() {
    assert_eq!(lines(""), Vec::<Vec<u8>>::new());
    assert_eq!(lines("\n"), vec![b"".to_vec()]);
    assert_eq!(lines("a\nb"), vec![b"a".to_vec(), b"b".to_vec()]);
    assert_eq!(lines("a\r\n\r\nb\n"), vec![b"a".to_vec(), b"".to_vec(), b"b".to_vec()]);
    assert_eq!(lines("a\r\r\nb\rc\r"), vec![b"a\r".to_vec(), b"b\rc\r".to_vec()]);
    assert_eq!(split_lines(&b"a\nb".to_vec(), false), vec![b"a".to_vec()]);
    assert_eq!(split_lines(&b"a\n".to_vec(), false), vec![b"a".to_vec()]);
}

#[test]
fn lines_are_those_of_a_reader() {
    for text in ["", "\n\n", "a\r\nb\r", "x\ny\n", "\r\n", "\r", "10.0.0.1\r\r\n\n#"] {
        let expected: Vec<Vec<u8>> = std::io::BufRead::lines(text.as_bytes())
            .map(|line| line.unwrap().into_bytes())
            .collect();
        assert_eq!(lines(text), expected, "{:?}", text);
    }
}

#[test]
fn files_in_a_row_send_what_each_sends() {
    let (a, b) = ("# list\n1\nx\n2\r\n", "3\n\n 4\n5");
    assert_eq!(sent(a), ["1", "2"]);
    assert_eq!(sent(b), ["3", "5"]);
    assert_eq!(sent(&format!("{}{}", a, b)), ["1", "2", "3", "5"]);
}

#[test]
fn a_file_of_what_was_sent_sends_it_again() {
    let first = sent("7\n#8\n9\r\n7\n");
    assert_eq!(first, ["7", "9", "7"]);
    assert_eq!(sent(&first.join("\n")), first);
    assert_eq!(sent(&sent("none").join("\n")), Vec::<String>::new());
}

#[test]
fn lines_that_are_no_text_are_told_apart() {
    let bytes = b"caf\xc3\xa9\r\n\xff\n\xed\xa0\x80\n\n10.0.0.1".to_vec();
    let texts = vec![
        Some("caf\u{e9}".to_owned()),
        None,
        None,
        Some(String::new()),
        Some("10.0.0.1".to_owned()),
    ];
    assert_eq!(read_lines(&bytes, true), texts);
    assert_eq!(read_lines(&bytes, false), texts[..4]);
    assert!(read_lines(&Vec::new(), true).is_empty());
}
