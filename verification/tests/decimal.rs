use prop_runner::decimal::{char_of_digit, digit_of, parse_u32, push_decimal};
use prop_runner::scan::{find, is_whitespace, split_at, trim};
use prop_runner::text::{begins_with, chars_of, push_chars, push_word, spells, string_of};

fn parse(text: &str) -> Option<u32> {
    let chars: Vec<char> = text.chars().collect();
    parse_u32(&chars, 0, chars.len())
}

fn render(n: u32) -> String {
    let mut out = Vec::new();
    push_decimal(&mut out, n);
    out.into_iter().collect()
}

#[test]
fn parse_agrees_with_the_standard_library() {
    let texts = [
        "0", "1", "9", "10", "007", "+0", "+12", "4294967295", "4294967296", "42949672950",
        "99999999999999999999", "", "+", "-", "-1", "++1", "1+", " 1", "1 ", "1.0", "1e3", "0x1f",
        "12a", "a12", "\u{661}", "4294967289", "4294967290", "429496729", "4294967300", "+4294967295",
    ];
    for text in texts {
        assert_eq!(text.parse::<u32>().ok(), parse(text), "{:?}", text);
    }
}

#[test]
fn parse_reads_a_part_of_the_text() {
    let chars: Vec<char> = "xs 12 345".chars().collect();
    assert_eq!(Some(12), parse_u32(&chars, 3, 5));
    assert_eq!(Some(345), parse_u32(&chars, 6, 9));
    assert_eq!(Some(2), parse_u32(&chars, 4, 5));
    assert_eq!(None, parse_u32(&chars, 2, 5));
    assert_eq!(None, parse_u32(&chars, 4, 4));
}

#[test]
fn render_writes_decimal_without_leading_zeros() {
    for n in [0u32, 1, 9, 10, 11, 99, 100, 101, 1234567890, 4294967294, 4294967295] {
        assert_eq!(n.to_string(), render(n));
        assert_eq!(Some(n), parse(&render(n)));
    }
    let mut out = vec!['a'];
    push_decimal(&mut out, 305);
    assert_eq!(vec!['a', '3', '0', '5'], out);
}

#[test]
fn digits_are_the_ten_ascii_ones() {
    for d in 0..10u32 {
        assert_eq!(std::char::from_digit(d, 10), Some(char_of_digit(d)));
        assert_eq!(Some(d), digit_of(char_of_digit(d)));
    }
    for c in ['/', ':', 'a', ' ', '+', '\u{660}', '\u{ff11}'] {
        assert_eq!(None, digit_of(c));
    }
}

#[test]
fn white_space_is_what_unicode_says() {
    for n in 0..0x3100u32 {
        if let Some(c) = std::char::from_u32(n) {
            assert_eq!(c.is_whitespace(), is_whitespace(c), "{:x}", n);
        }
    }
}

#[test]
fn trim_agrees_with_the_standard_library() {
    for text in ["", " ", "a", " a", "a ", "  a b  ", "\t\r\n x \u{a0}\u{3000}", "\u{2003}", "a\u{200b}"] {
        let chars: Vec<char> = text.chars().collect();
        let (start, end) = trim(&chars, 0, chars.len());
        let trimmed: String = chars[start..end].iter().collect();
        assert_eq!(text.trim(), trimmed, "{:?}", text);
    }
    let chars: Vec<char> = "ab  cd  ef".chars().collect();
    assert_eq!((4, 6), trim(&chars, 2, 8));
    assert_eq!((3, 3), trim(&chars, 2, 3));
}

#[test]
fn split_agrees_with_the_standard_library() {
    for text in ["", " ", "a", "a b", " a", "a ", "a  b", "  ", "xs 1 2 3 4", "a\nb"] {
        let chars: Vec<char> = text.chars().collect();
        let pieces: Vec<String> = split_at(&chars, 0, chars.len(), ' ')
            .into_iter()
            .map(|(from, to)| chars[from..to].iter().collect())
            .collect();
        let expected: Vec<String> = text.split(' ').map(|s| s.to_owned()).collect();
        assert_eq!(expected, pieces, "{:?}", text);
    }
    let chars: Vec<char> = "a,b,,c".chars().collect();
    assert_eq!(vec![(2, 3), (4, 4), (5, 5)], split_at(&chars, 2, 5, ','));
}

#[test]
fn find_gives_the_first_place() {
    let chars: Vec<char> = "ab#cd#".chars().collect();
    assert_eq!(2, find(&chars, 0, 6, '#'));
    assert_eq!(5, find(&chars, 3, 6, '#'));
    assert_eq!(2, find(&chars, 0, 2, '#'));
    assert_eq!(6, find(&chars, 6, 6, '#'));
    assert_eq!(6, find(&chars, 0, 6, 'x'));
}

#[test]
fn texts_are_compared_and_copied_by_characters() {
    let chars = chars_of("h\u{e9}llo w\u{f6}rld");
    assert_eq!(11, chars.len());
    assert!(spells(&chars, 0, 5, "h\u{e9}llo"));
    assert!(!spells(&chars, 0, 5, "hello"));
    assert!(!spells(&chars, 0, 4, "h\u{e9}llo"));
    assert!(spells(&chars, 3, 3, ""));
    assert!(begins_with(&chars, "h\u{e9}"));
    assert!(begins_with(&chars, ""));
    assert!(!begins_with(&chars, "h\u{e9}llo w\u{f6}rld!"));
    assert!(!begins_with(&chars, "\u{e9}"));
    assert_eq!("h\u{e9}llo w\u{f6}rld", string_of(&chars));
    let mut s = "<".to_owned();
    push_chars(&mut s, &chars, 6, 11);
    assert_eq!("<w\u{f6}rld", s);
    let mut out = vec!['x'];
    push_word(&mut out, "yz");
    assert_eq!(vec!['x', 'y', 'z'], out);
}
