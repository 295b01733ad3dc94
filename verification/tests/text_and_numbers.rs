use round_studio_launcher::number::{decimal, parse_u8, signed_decimal};
use round_studio_launcher::order::{before, sorted_unique};
use round_studio_launcher::pairs::{get, position_of, put, take};
use round_studio_launcher::text::{
    ascii_lower, contains, find, is_blank, join, lines, replace, same_ignoring_ascii_case, split,
    starts_with, trim, words, Separator,
};

fn owned(items: &[&str]) -> Vec<String> {
    items.iter().map(|item| item.to_string()).collect()
}

#[test]
fn trims_white_space() {
    assert_eq!(trim("  a b\n"), "a b");
    assert_eq!(trim("\u{3000}\t\r"), "");
    assert_eq!(trim("\u{200b}x"), "\u{200b}x");
    assert!(is_blank(" \u{85}\u{a0} "));
    assert!(!is_blank(" . "));
}

#[test]
fn trims_like_str() {
    for c in (0u32..0x3100).filter_map(char::from_u32) {
        let text = format!("{c}x{c}");
        assert_eq!(trim(&text), text.trim(), "{c:?}");
    }
}

#[test]
fn finds_the_first_occurrence() {
    assert_eq!(find("a-b-c", "-"), Some(1));
    assert_eq!(find("abc", ""), Some(0));
    assert_eq!(find("", "x"), None);
    assert!(contains("sun.arch.data.model = 64", "64"));
    assert!(!contains("6 4", "64"));
    assert!(starts_with("-Xmx2G", "-Xmx"));
    assert!(!starts_with("-X", "-Xmx"));
}

#[test]
fn splits_and_joins() {
    assert_eq!(split("a:b::c", Separator::Char(':')), owned(&["a", "b", "", "c"]));
    assert_eq!(split("", Separator::Char('.')), owned(&[""]));
    assert_eq!(words("  --a\t${b}  c "), owned(&["--a", "${b}", "c"]));
    assert_eq!(words("   "), Vec::<String>::new());
    assert_eq!(join(&owned(&["a", "b", "c"]), ";"), "a;b;c");
    assert_eq!(join(&Vec::new(), ";"), "");
}

#[test]
fn splits_lines_like_str() {
    for text in ["", "a", "a\n", "a\r\nb", "a\n\nb\n", "\n", "a\r", "\r\n\r\n", "x\ry\n"] {
        let expected: Vec<String> = text.lines().map(str::to_string).collect();
        assert_eq!(lines(text), expected, "{text:?}");
    }
}

#[test]
fn replaces_from_left_to_right() {
    assert_eq!(replace("aaa", "aa", "b"), "ba");
    assert_eq!(replace("org.lwjgl", ".", "/"), "org/lwjgl");
    assert_eq!(replace("x", "y", "z"), "x");
}

#[test]
fn ignores_ascii_case_only() {
    assert_eq!(ascii_lower("JavaW.EXE \u{c4}"), "javaw.exe \u{c4}");
    assert!(same_ignoring_ascii_case("ALLOW", "allow"));
    assert!(!same_ignoring_ascii_case("\u{c4}", "\u{e4}"));
}

#[test]
fn writes_and_reads_numbers() {
    assert_eq!(decimal(0), "0");
    assert_eq!(decimal(u64::MAX), "18446744073709551615");
    assert_eq!(signed_decimal(-1), "-1");
    assert_eq!(signed_decimal(i32::MIN), "-2147483648");
    for text in ["0", "255", "256", "", "+", "+7", "-1", "007", "0000255", "1a", " 1", "99999999999"] {
        assert_eq!(parse_u8(text), text.parse::<u8>().ok(), "{text:?}");
    }
}

#[test]
fn orders_texts_like_str() {
    let texts = ["", "a", "ab", "b", "A", "\u{e9}", "\u{1f600}", "\u{ffff}"];
    for left in texts {
        for right in texts {
            assert_eq!(before(left, right), left < right, "{left:?} {right:?}");
        }
    }
}

#[test]
fn sorts_each_once() {
    assert_eq!(
        sorted_unique(owned(&["47.2.0", "14.23.5", "47.2.0", "47.1.0"])),
        owned(&["14.23.5", "47.1.0", "47.2.0"])
    );
    assert_eq!(sorted_unique(Vec::new()), Vec::<String>::new());
}

#[test]
fn keeps_entries_by_key() {
    let mut entries = vec![("a".to_string(), 1u64), ("b".to_string(), 2u64)];
    assert_eq!(get(&entries, "b"), Some(&2u64));
    assert_eq!(position_of(&entries, "c"), None);
    put(&mut entries, "a".to_string(), 7);
    put(&mut entries, "c".to_string(), 3);
    assert_eq!(
        entries,
        vec![("a".to_string(), 7u64), ("b".to_string(), 2), ("c".to_string(), 3)]
    );
    let (value, rest) = take(entries, "b");
    assert_eq!(value, Some(2u64));
    assert_eq!(rest, vec![("a".to_string(), 7u64), ("c".to_string(), 3)]);
}
