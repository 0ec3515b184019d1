use openloom::number::{decimal_of, parse_u16, signed_decimal_of};
use openloom::scan::{cut_at, find, split, split_lines, split_words};
use openloom::shell::push_quoted;
use openloom::text::{
    begins_with, chars_of, comes_before, folds_to, glue, join_from, same_text, strip_chars,
    strip_end_chars, text_of, CharClass,
};

fn cs(s: &str) -> Vec<char> {
    s.chars().collect()
}

fn st(v: &Vec<char>) -> String {
    v.iter().collect()
}

fn sts(v: &Vec<Vec<char>>) -> Vec<String> {
    v.iter().map(st).collect()
}

#[test]
fn chars_and_text_round_trip() {
    let v = chars_of("héllo ✓");
    assert_eq!(v, cs("héllo ✓"));
    assert_eq!(text_of(&v), "héllo ✓");
    assert_eq!(text_of(&Vec::new()), "");
}

#[test]
fn strip_matches_std_trim() {
    for s in ["  a b \t\r\n", "", "   ", "x", "\u{3000}x\u{a0}", " \u{2003}mid dle\u{85}"] {
        assert_eq!(st(&strip_chars(&cs(s), CharClass::Space)), s.trim());
    }
}

#[test]
fn strip_one_character() {
    assert_eq!(st(&strip_chars(&cs("\"\"a\"b\"\""), CharClass::Only('"'))), "a\"b");
    assert_eq!(st(&strip_end_chars(&cs("/home/u///"), CharClass::Only('/'))), "/home/u");
    assert_eq!(st(&strip_end_chars(&cs("/"), CharClass::Only('/'))), "");
    assert_eq!(st(&strip_end_chars(&cs("//a"), CharClass::Only('/'))), "//a");
}

#[test]
fn find_gives_first_index_or_length() {
    assert_eq!(find(&cs("a=b=c"), '='), 1);
    assert_eq!(find(&cs("abc"), '='), 3);
    assert_eq!(find(&cs(""), '='), 0);
}

#[test]
fn cut_at_first_occurrence() {
    let (a, b) = cut_at(&cs("Port = 22=3"), '=').unwrap();
    assert_eq!(st(&a), "Port ");
    assert_eq!(st(&b), " 22=3");
    assert!(cut_at(&cs("Port 22"), '=').is_none());
    let (a, b) = cut_at(&cs("="), '=').unwrap();
    assert_eq!((st(&a), st(&b)), (String::new(), String::new()));
}

#[test]
fn split_keeps_empty_fields() {
    for s in ["a/b//c", "", "/", "a", "/a/", "node_modules/x"] {
        let want: Vec<String> = s.split('/').map(|p| p.to_string()).collect();
        assert_eq!(sts(&split(&cs(s), CharClass::Only('/'))), want);
    }
}

#[test]
fn lines_match_std_lines() {
    for s in ["a\nb", "a\r\nb\r\n", "", "\n", "a\n\nb\n", "a\r", "a\r\r\nb", "x\ny\r", "\r\n"] {
        let want: Vec<String> = s.lines().map(|p| p.to_string()).collect();
        assert_eq!(sts(&split_lines(&cs(s))), want, "input {:?}", s);
    }
}

#[test]
fn words_match_std_split_whitespace() {
    for s in ["a b", "  a \t b\n", "", "   ", "one", "a\u{3000}b", "drwxr-xr-x  2 u g 4096 Jan  1 00:00 my dir"] {
        let want: Vec<String> = s.split_whitespace().map(|p| p.to_string()).collect();
        assert_eq!(sts(&split_words(&cs(s))), want, "input {:?}", s);
    }
}

#[test]
fn parse_u16_matches_std_parse() {
    for s in ["22", "0", "65535", "65536", "+80", "+", "", "-1", "00022", "2a", " 22", "99999999999999999999", "٣"] {
        assert_eq!(parse_u16(&cs(s)), s.parse::<u16>().ok(), "input {:?}", s);
    }
}

#[test]
fn decimal_matches_std_to_string() {
    for n in [0u64, 7, 10, 22, 65535, 1_000_000_007, u64::MAX] {
        assert_eq!(st(&decimal_of(n)), n.to_string());
    }
    for n in [0i64, -1, 1, i64::MIN, i64::MAX, -1_700_000_000_000, 1_700_000_000_123] {
        assert_eq!(st(&signed_decimal_of(n)), n.to_string());
    }
}

#[test]
fn quoting_replaces_single_quotes() {
    for s in ["plain", "it's", "''", "", "a b;c", "$HOME"] {
        let mut out = cs("x ");
        push_quoted(&mut out, s);
        assert_eq!(st(&out), format!("x '{}'", s.replace("'", "'\\''")));
    }
    let mut out = Vec::new();
    push_quoted(&mut out, "it's");
    assert_eq!(st(&out), "'it'\\''s'");
}

#[test]
fn folds_to_ignores_ascii_case_only() {
    assert!(folds_to(&cs("HostName"), "hostname"));
    assert!(folds_to(&cs("host"), "host"));
    assert!(!folds_to(&cs("hosts"), "host"));
    assert!(!folds_to(&cs("hos"), "host"));
    assert!(!folds_to(&cs("host"), "Host"));
    assert!(!folds_to(&cs("ÉCOLE"), "école"));
}

#[test]
fn dictionary_order_matches_std_order() {
    let all = ["", "a", "aa", "ab", "b", "B", "é", "z", "zzz", "aaa", "alpha", "beta"];
    for a in all {
        for b in all {
            assert_eq!(comes_before(&cs(a), &cs(b)), a < b, "{:?} < {:?}", a, b);
        }
    }
}

#[test]
fn join_from_skips_leading_rows() {
    let rows = vec![cs("a"), cs("b"), cs("c d"), cs("e")];
    assert_eq!(st(&join_from(&rows, 1, &cs(" "))), "b c d e");
    assert_eq!(st(&join_from(&rows, 3, &cs(" "))), "e");
    assert_eq!(st(&join_from(&rows, 4, &cs(" "))), "");
    assert_eq!(st(&join_from(&rows, 0, &cs(", "))), "a, b, c d, e");
}

#[test]
fn prefixes_and_equality() {
    assert!(begins_with(&cs("manual-12"), &cs("manual-")));
    assert!(!begins_with(&cs("manual"), &cs("manual-")));
    assert!(begins_with(&cs("x"), &cs("")));
    assert!(same_text("a", "a"));
    assert!(!same_text("a", "ab"));
    assert_eq!(glue("user@", "host"), "user@host");
}

#[test]
fn white_space_is_what_std_calls_white_space() {
    for code in 0..=0x10FFFFu32 {
        if let Some(c) = char::from_u32(code) {
            assert_eq!(CharClass::Space.holds(c), c.is_whitespace(), "{:?}", c);
        }
    }
    assert!(CharClass::Only('/').holds('/'));
    assert!(!CharClass::Only('/').holds('\\'));
}
