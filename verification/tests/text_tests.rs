use telegram_client_rs::commands::{classify, Command, CommandKind};
use telegram_client_rs::text::{
    chars_of, contains, decimal, is_whitespace, join, parse_i32, parse_message_number,
    signed_decimal, split_words, starts_with, string_of, trim,
};
use telegram_client_rs::wrap::wrap;

fn chars(s: &str) -> Vec<char> {
    s.chars().collect()
}

#[test]
fn strings_and_characters_convert_both_ways() {
    assert_eq!(chars_of("héllo ↳"), chars("héllo ↳"));
    assert_eq!(string_of(&chars("héllo ↳")), "héllo ↳");
    assert_eq!(string_of(&Vec::new()), "");
}

#[test]
fn decimal_text_of_numbers() {
    assert_eq!(string_of(&decimal(0)), "0");
    assert_eq!(string_of(&decimal(907)), "907");
    assert_eq!(string_of(&decimal(u64::MAX)), "18446744073709551615");
    assert_eq!(string_of(&signed_decimal(-45)), "-45");
    assert_eq!(string_of(&signed_decimal(i64::MIN)), "-9223372036854775808");
    assert_eq!(string_of(&signed_decimal(i64::MAX)), "9223372036854775807");
}

#[test]
fn numerals_of_thirty_two_bits() {
    assert_eq!(parse_i32(&chars("12")), Some(12));
    assert_eq!(parse_i32(&chars("+12")), Some(12));
    assert_eq!(parse_i32(&chars("-12")), Some(-12));
    assert_eq!(parse_i32(&chars("-0")), Some(0));
    assert_eq!(parse_i32(&chars("0000000000000000000012")), Some(12));
    assert_eq!(parse_i32(&chars("2147483647")), Some(i32::MAX));
    assert_eq!(parse_i32(&chars("2147483648")), None);
    assert_eq!(parse_i32(&chars("-2147483648")), Some(i32::MIN));
    assert_eq!(parse_i32(&chars("-2147483649")), None);
    assert_eq!(parse_i32(&chars("99999999999999999999999999")), None);
    assert_eq!(parse_i32(&chars("")), None);
    assert_eq!(parse_i32(&chars("-")), None);
    assert_eq!(parse_i32(&chars("+")), None);
    assert_eq!(parse_i32(&chars("1a")), None);
    assert_eq!(parse_i32(&chars("99999999999x")), None);
    assert_eq!(parse_i32(&chars(" 1")), None);
    assert_eq!(parse_i32(&chars("١")), None);
}

#[test]
fn message_numbers_may_carry_number_signs() {
    assert_eq!(parse_message_number("#5"), Some(5));
    assert_eq!(parse_message_number("##5"), Some(5));
    assert_eq!(parse_message_number("5"), Some(5));
    assert_eq!(parse_message_number("#"), None);
    assert_eq!(parse_message_number("5#"), None);
    assert_eq!(parse_message_number("#-3"), Some(-3));
}

#[test]
fn white_space_is_what_unicode_says() {
    for c in [' ', '\t', '\n', '\r', '\u{0B}', '\u{0C}', '\u{85}', '\u{A0}', '\u{1680}',
        '\u{2000}', '\u{200A}', '\u{2028}', '\u{2029}', '\u{202F}', '\u{205F}', '\u{3000}'] {
        assert!(is_whitespace(c));
    }
    for c in ['a', '0', '\u{200B}', '\u{180E}', '\u{FEFF}', '_'] {
        assert!(!is_whitespace(c));
    }
    for n in 0..0x3100u32 {
        if let Some(c) = char::from_u32(n) {
            assert_eq!(is_whitespace(c), c.is_whitespace());
        }
    }
}

#[test]
fn trimming_and_splitting_follow_white_space() {
    assert_eq!(string_of(&trim(&chars("  a b \n"))), "a b");
    assert_eq!(string_of(&trim(&chars(" \t "))), "");
    assert_eq!(string_of(&trim(&chars(""))), "");
    let words: Vec<String> = split_words(&chars("  one\ttwo \u{3000} three  "))
        .iter()
        .map(|w| string_of(w))
        .collect();
    assert_eq!(words, vec!["one", "two", "three"]);
    assert!(split_words(&chars("   ")).is_empty());
}

#[test]
fn searching_in_text() {
    assert!(starts_with(&chars("/reply"), &chars("/re")));
    assert!(!starts_with(&chars("/r"), &chars("/re")));
    assert!(starts_with(&chars("abc"), &chars("")));
    assert!(contains(&chars("see http://x"), &chars("http://")));
    assert!(contains(&chars("abc"), &chars("")));
    assert!(contains(&chars(""), &chars("")));
    assert!(!contains(&chars("ab"), &chars("abc")));
    assert!(contains(&chars("xxabc"), &chars("abc")));
}

#[test]
fn joining_puts_the_separator_between() {
    let parts = vec![chars("a"), chars("b"), chars("c")];
    assert_eq!(string_of(&join(&parts, 0, &chars(", "))), "a, b, c");
    assert_eq!(string_of(&join(&parts, 1, &chars(" "))), "b c");
    assert_eq!(string_of(&join(&parts, 3, &chars(" "))), "");
}

#[test]
fn wrapping_fills_lines_greedily() {
    let words = vec![chars("aaa"), chars("bb"), chars("c"), chars("dddddddd"), chars("e")];
    let lines: Vec<String> = wrap(&words, 6).iter().map(|l| string_of(l)).collect();
    assert_eq!(lines, vec!["aaa bb", "c", "dddddd", "dd e"]);
    for line in &lines {
        assert!(line.chars().count() <= 6 && !line.is_empty());
    }
    assert!(wrap(&Vec::new(), 3).is_empty());
    let exact: Vec<String> = wrap(&vec![chars("abcdef")], 3).iter().map(|l| string_of(l)).collect();
    assert_eq!(exact, vec!["abc", "def"]);
}

#[test]
fn commands_are_split_into_name_and_arguments() {
    let cmd = Command::parse("/reply  5 hello   there").unwrap();
    assert_eq!(cmd.name, "reply");
    assert_eq!(cmd.args, vec!["5", "hello", "there"]);
    assert_eq!(cmd.full_text, "/reply  5 hello   there");
    let bare = Command::parse("/").unwrap();
    assert_eq!(bare.name, "");
    assert!(bare.args.is_empty());
    assert!(Command::parse("reply 5").is_none());
    assert!(Command::parse(" /reply 5").is_none());
    assert!(Command::parse("").is_none());
}

#[test]
fn command_names_and_their_short_forms() {
    assert_eq!(classify("reply"), Some(CommandKind::Reply));
    assert_eq!(classify("r"), Some(CommandKind::Reply));
    assert_eq!(classify("m"), Some(CommandKind::Media));
    assert_eq!(classify("e"), Some(CommandKind::Edit));
    assert_eq!(classify("del"), Some(CommandKind::Delete));
    assert_eq!(classify("d"), Some(CommandKind::Delete));
    assert_eq!(classify("alias"), Some(CommandKind::Alias));
    assert_eq!(classify("unalias"), Some(CommandKind::Unalias));
    assert_eq!(classify("filter"), Some(CommandKind::Filter));
    assert_eq!(classify("s"), Some(CommandKind::Search));
    assert_eq!(classify("new"), Some(CommandKind::NewChat));
    assert_eq!(classify("newgroup"), Some(CommandKind::NewGroup));
    assert_eq!(classify("add"), Some(CommandKind::AddMember));
    assert_eq!(classify("kick"), Some(CommandKind::RemoveMember));
    assert_eq!(classify("remove"), Some(CommandKind::RemoveMember));
    assert_eq!(classify("members"), Some(CommandKind::Members));
    assert_eq!(classify("fwd"), Some(CommandKind::Forward));
    assert_eq!(classify("f"), Some(CommandKind::Forward));
    assert_eq!(classify("Reply"), None);
    assert_eq!(classify(""), None);
}
