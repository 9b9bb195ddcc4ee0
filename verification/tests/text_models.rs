use acp_core::poller::clean_option_text;
use acp_core::subtitle_parser::{parse_translated_text, VttParser};
use acp_core::text::{concat2, concat3, join, owned, strip_leading};

const WHITE_SPACE: [u32; 25] = [
    0x09, 0x0A, 0x0B, 0x0C, 0x0D, 0x20, 0x85, 0xA0, 0x1680, 0x2000, 0x2001, 0x2002, 0x2003,
    0x2004, 0x2005, 0x2006, 0x2007, 0x2008, 0x2009, 0x200A, 0x2028, 0x2029, 0x202F, 0x205F,
    0x3000,
];

#[test]
fn trimming_removes_exactly_the_white_space_characters() {
    for code in 0..=0x10FFFFu32 {
        if let Some(c) = char::from_u32(code) {
            let listed = WHITE_SPACE.contains(&code);
            assert_eq!(c.is_whitespace(), listed, "U+{:04X}", code);
            if listed || code < 0x3100 {
                let padded = format!("x{}x{}", c, c);
                let trimmed = clean_option_text(&padded);
                if listed {
                    assert_eq!(trimmed, format!("x{}x", c), "U+{:04X}", code);
                } else {
                    assert_eq!(trimmed, padded, "U+{:04X}", code);
                }
            }
        }
    }
}

#[test]
fn lines_end_at_line_feeds_and_drop_the_carriage_return_before_them() {
    assert_eq!("a\r\nb\r".lines().collect::<Vec<_>>(), ["a", "b\r"]);
    assert_eq!("a\n\nb\n".lines().collect::<Vec<_>>(), ["a", "", "b"]);
    assert_eq!("\n".lines().collect::<Vec<_>>(), [""]);
    assert_eq!("".lines().count(), 0);
    assert_eq!(parse_translated_text("[0] a\r\nb\r\n\r\n[1] c\r"), vec!["a b", "c"]);
    let vtt = "WEBVTT\r\n\r\n00:00:01.000 --> 00:00:02.000\r\nHi\r\n\r\n";
    let segments = VttParser::parse(vtt).unwrap();
    assert_eq!(segments.len(), 1);
    assert_eq!(segments[0].text, "Hi");
}

#[test]
fn text_helpers() {
    assert_eq!(owned("x"), "x");
    assert_eq!(concat2("a", "b"), "ab");
    assert_eq!(concat3("a", "", "c"), "ac");
    assert_eq!(join(&vec!["a".to_string(), "b".to_string(), "".to_string()], ", "), "a, b, ");
    assert_eq!(join(&vec![], ","), "");
    assert_eq!(join(&vec!["only".to_string()], ","), "only");
    assert_eq!(strip_leading("aabXa", "ab"), "Xa");
    assert_eq!(strip_leading("", "ab"), "");
    assert_eq!(strip_leading("aaa", "a"), "");
    assert_eq!(strip_leading("x", ""), "x");
    assert_eq!(clean_option_text("\u{3000}●\u{3000}1. a"), "●\u{3000}1. a");
}
