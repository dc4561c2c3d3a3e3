use rcon_client::text::{parse_unsigned_chars, trim_chars, words_chars};

fn chars(s: &str) -> Vec<char> {
    s.chars().collect()
}

#[test]
fn unsigned_numbers() {
    assert_eq!(parse_unsigned_chars(&chars("0"), 10), Some(0));
    assert_eq!(parse_unsigned_chars(&chars("+42"), 100), Some(42));
    assert_eq!(parse_unsigned_chars(&chars("101"), 100), None);
    assert_eq!(parse_unsigned_chars(&chars("+"), 100), None);
    assert_eq!(parse_unsigned_chars(&chars(""), 100), None);
    assert_eq!(parse_unsigned_chars(&chars("4a"), 100), None);
    assert_eq!(parse_unsigned_chars(&chars("0004294967295"), u32::MAX), Some(u32::MAX));
}

#[test]
fn trimming_and_words() {
    assert_eq!(trim_chars(&chars("\u{3000} a b \t")), chars("a b"));
    assert_eq!(words_chars(&chars(" ab  c\u{a0}d ")), vec![chars("ab"), chars("c"), chars("d")]);
}
