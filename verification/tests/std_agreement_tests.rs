use openloom::bytes::{split_bytes, utf8_len};
use openloom::number::{decimal_of, parse_i64, parse_u16, signed_decimal_of};
use openloom::scan::{contains_text, cut_at, ends_with, find_text, split, split_first, split_lines, split_words};
use openloom::shell::push_quoted;
use openloom::text::{begins_with, comes_before, strip_chars, strip_end_chars, CharClass};
use openloom::watcher::slashes;

struct Rng(u64);

impl Rng {
    fn next(&mut self) -> u64 {
        self.0 = self.0.wrapping_mul(6364136223846793005).wrapping_add(1442695040888963407);
        self.0 >> 33
    }

    fn pick(&mut self, n: usize) -> usize {
        (self.next() % n as u64) as usize
    }

    fn text(&mut self, alphabet: &[char], max: usize) -> String {
        let n = self.pick(max + 1);
        (0..n).map(|_| alphabet[self.pick(alphabet.len())]).collect()
    }
}

const MIXED: &[char] = &[
    'a', 'b', 'A', ' ', ' ', '\t', '\n', '\r', '=', '#', '\'', '"', '/', '\\', '*', '|', '.', '-',
    '+', '0', '1', '9', 'é', '€', '😀', '\u{a0}', '\u{3000}', '\u{85}', '\u{200b}', '\u{2028}',
];

fn cs(s: &str) -> Vec<char> {
    s.chars().collect()
}

fn st(v: &[char]) -> String {
    v.iter().collect()
}

fn sts(v: &[Vec<char>]) -> Vec<String> {
    v.iter().map(|r| st(r)).collect()
}

#[test]
fn trimming_agrees_with_std() {
    let mut rng = Rng(1);
    for _ in 0..2000 {
        let s = rng.text(MIXED, 12);
        assert_eq!(st(&strip_chars(&cs(&s), CharClass::Space)), s.trim(), "{:?}", s);
        assert_eq!(st(&strip_chars(&cs(&s), CharClass::Only('"'))), s.trim_matches('"'), "{:?}", s);
        assert_eq!(
            st(&strip_end_chars(&cs(&s), CharClass::Only('/'))),
            s.trim_end_matches('/'),
            "{:?}",
            s
        );
    }
}

#[test]
fn splitting_agrees_with_std() {
    let mut rng = Rng(2);
    for _ in 0..2000 {
        let s = rng.text(MIXED, 14);
        let want: Vec<String> = s.lines().map(String::from).collect();
        assert_eq!(sts(&split_lines(&cs(&s))), want, "lines of {:?}", s);
        let want: Vec<String> = s.split_whitespace().map(String::from).collect();
        assert_eq!(sts(&split_words(&cs(&s))), want, "words of {:?}", s);
        let want: Vec<String> = s.split('/').map(String::from).collect();
        assert_eq!(sts(&split(&cs(&s), CharClass::Only('/'))), want, "fields of {:?}", s);
        let n = rng.pick(5);
        let want: Vec<String> = s.splitn(n, '|').map(String::from).collect();
        assert_eq!(sts(&split_first(&cs(&s), '|', n)), want, "splitn {} of {:?}", n, s);
        let want = s.split_once('=').map(|(a, b)| (a.to_string(), b.to_string()));
        let got = cut_at(&cs(&s), '=').map(|(a, b)| (st(&a), st(&b)));
        assert_eq!(got, want, "cut of {:?}", s);
    }
}

#[test]
fn searching_agrees_with_std() {
    let mut rng = Rng(3);
    let small: &[char] = &['a', 'b', ' ', '|', 'é'];
    for _ in 0..3000 {
        let s = rng.text(small, 10);
        let sub = rng.text(small, 3);
        let want = match s.find(&sub) {
            Some(b) => s[..b].chars().count(),
            None => s.chars().count(),
        };
        assert_eq!(find_text(&cs(&s), &cs(&sub)), want, "{:?} in {:?}", sub, s);
        assert_eq!(contains_text(&cs(&s), &cs(&sub)), s.contains(&sub), "{:?} in {:?}", sub, s);
        assert_eq!(ends_with(&cs(&s), &cs(&sub)), s.ends_with(&sub), "{:?} ends {:?}", s, sub);
        assert_eq!(begins_with(&cs(&s), &cs(&sub)), s.starts_with(&sub), "{:?} begins {:?}", s, sub);
        assert_eq!(comes_before(&cs(&s), &cs(&sub)), s < sub, "{:?} < {:?}", s, sub);
    }
}

#[test]
fn numbers_agree_with_std() {
    let mut rng = Rng(4);
    let digits: &[char] = &['0', '1', '2', '5', '6', '9', '+', '-', ' ', 'x'];
    for _ in 0..3000 {
        let s = rng.text(digits, 7);
        assert_eq!(parse_u16(&cs(&s)), s.parse::<u16>().ok(), "{:?}", s);
        assert_eq!(parse_i64(&cs(&s)), s.parse::<i64>().ok(), "{:?}", s);
    }
    for _ in 0..500 {
        let long = rng.text(&['0', '1', '9', '2', '3'], 22);
        for signed in [long.clone(), format!("-{}", long), format!("+{}", long)] {
            assert_eq!(parse_i64(&cs(&signed)), signed.parse::<i64>().ok(), "{:?}", signed);
        }
        let n = rng.next().wrapping_mul(rng.next());
        assert_eq!(st(&decimal_of(n)), n.to_string());
        assert_eq!(st(&signed_decimal_of(n as i64)), (n as i64).to_string());
    }
    for p in [0u16, 1, 9, 10, 22, 99, 100, 443, 8080, 65535] {
        assert_eq!(parse_u16(&decimal_of(p as u64)), Some(p));
    }
}

#[test]
fn quoting_and_bytes_agree_with_std() {
    let mut rng = Rng(5);
    for _ in 0..2000 {
        let s = rng.text(MIXED, 10);
        let mut out = Vec::new();
        push_quoted(&mut out, &s);
        assert_eq!(st(&out), format!("'{}'", s.replace("'", "'\\''")), "{:?}", s);
        assert_eq!(slashes(&s), s.replace('\\', "/"));
        assert_eq!(utf8_len(&s), s.len());
        let n = rng.pick(s.len() + 2);
        let want = if s.is_char_boundary(n) { Some(s.split_at(n)) } else { None };
        assert_eq!(split_bytes(&s, n), want, "{:?} at {}", s, n);
    }
}
