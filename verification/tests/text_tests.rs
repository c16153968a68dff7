use festive_puzzles::text::{chars_of, decimal_string, parse_u32, parse_u32_chars, split_chars};

#[test]
fn decimal_of_zero_and_digits() {
    assert_eq!(decimal_string(0), "0");
    for d in 0..10u128 {
        assert_eq!(decimal_string(d), d.to_string());
    }
}

#[test]
fn decimal_of_large_numbers() {
    assert_eq!(decimal_string(10), "10");
    assert_eq!(decimal_string(1_234_567_890), "1234567890");
    assert_eq!(decimal_string(u128::MAX), "340282366920938463463374607431768211455");
}

#[test]
fn parse_plain_numbers() {
    assert_eq!(parse_u32("0"), Some(0));
    assert_eq!(parse_u32("42"), Some(42));
    assert_eq!(parse_u32("007"), Some(7));
    assert_eq!(parse_u32("+13"), Some(13));
    assert_eq!(parse_u32("4294967295"), Some(u32::MAX));
    assert_eq!(parse_u32("00000000000000000000004294967295"), Some(u32::MAX));
}

#[test]
fn parse_rejects_everything_else() {
    for bad in ["", "+", "-", "-0", "4294967296", "99999999999999999999999", "1e3", "٣", "1_000"] {
        assert_eq!(parse_u32(bad), None, "{:?}", bad);
    }
}

#[test]
fn parse_agrees_with_std() {
    for s in ["0", "+0", "12", "+12", "-12", "", "x", "4294967295", "4294967296", "0x10", "1+"] {
        assert_eq!(parse_u32(s), s.parse::<u32>().ok(), "{:?}", s);
    }
}

#[test]
fn chars_of_keeps_every_character() {
    assert_eq!(chars_of("a€b"), vec!['a', '€', 'b']);
    assert_eq!(chars_of(""), Vec::<char>::new());
}

#[test]
fn parse_from_characters() {
    assert_eq!(parse_u32_chars(&vec!['+', '4', '2']), Some(42));
    assert_eq!(parse_u32_chars(&vec!['4', ' ', '2']), None);
    assert_eq!(parse_u32_chars(&Vec::new()), None);
}

#[test]
fn split_cuts_at_every_separator() {
    let cut = |s: &str| -> Vec<String> {
        split_chars(&chars_of(s), '/').iter().map(|p| p.iter().collect()).collect()
    };
    assert_eq!(cut("a/bc/d"), vec!["a", "bc", "d"]);
    assert_eq!(cut(""), vec![""]);
    assert_eq!(cut("/"), vec!["", ""]);
    assert_eq!(cut("a//b/"), vec!["a", "", "b", ""]);
    assert_eq!(cut("no separator"), vec!["no separator"]);
}

#[test]
fn split_agrees_with_std() {
    for s in ["", "/", "//", "1/2/3", "/1/2/", "a€/b", "x"] {
        let ours: Vec<String> =
            split_chars(&chars_of(s), '/').iter().map(|p| p.iter().collect()).collect();
        let theirs: Vec<String> = s.split('/').map(|p| p.to_string()).collect();
        assert_eq!(ours, theirs, "{:?}", s);
    }
}
