use neewer_bridge::parse::{parse_signed_byte, parse_unsigned, split};
use neewer_bridge::text::white;

#[test]
fn white_space_is_what_the_language_says() {
    for c in '\0'..=char::MAX {
        assert_eq!(white(c), c.is_whitespace(), "{:x}", c as u32);
    }
}

fn chars(s: &str) -> Vec<char> {
    s.chars().collect()
}

#[test]
fn numbers_are_read_as_the_language_reads_them() {
    for s in [
        "", "+", "-", "0", "+0", "-0", "007", "255", "256", "+255", "++1", "1 ", " 1", "1a", "-1",
        "-128", "-129", "127", "128", "+127", "99999999999999999999", "٣", "1_000",
    ] {
        let t = chars(s);
        assert_eq!(parse_unsigned(&t, 255), s.parse::<u8>().ok().map(u64::from), "{s:?}");
        assert_eq!(parse_unsigned(&t, u64::MAX), s.parse::<u64>().ok(), "{s:?}");
        assert_eq!(parse_signed_byte(&t), s.parse::<i8>().ok(), "{s:?}");
    }
    let most = u64::MAX.to_string();
    assert_eq!(parse_unsigned(&chars(&most), u64::MAX), Some(u64::MAX));
    assert_eq!(parse_unsigned(&chars("18446744073709551616"), u64::MAX), None);
}

#[test]
fn fields_are_what_stands_between_separators() {
    for s in ["", ":", "a", "a:b", ":a:", "a::b", "é:ü:"] {
        let mine: Vec<String> =
            split(&chars(s), ':').iter().map(|f| f.iter().collect()).collect();
        let std: Vec<String> = s.split(':').map(|f| f.to_string()).collect();
        assert_eq!(mine, std, "{s:?}");
    }
}
