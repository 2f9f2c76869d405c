use adjust_pivot::number::{parse_usize, push_decimal};
use adjust_pivot::text::{chars_of, is_whitespace_char, line_spans, trim_bounds};

fn lines_by_spans(s: &str) -> Vec<String> {
    let cs = chars_of(s);
    line_spans(&cs)
        .iter()
        .map(|sp| cs[sp.start..sp.end].iter().collect())
        .collect()
}

#[test]
fn whitespace_matches_std_for_every_char() {
    for u in 0u32..=0x10FFFF {
        if let Some(c) = char::from_u32(u) {
            assert_eq!(is_whitespace_char(c), c.is_whitespace(), "char U+{:04X}", u);
        }
    }
}

#[test]
fn trim_matches_std() {
    let samples = [
        "", " ", "  a  ", "\u{3000}全角\u{3000}", "\r\n x \t", "abc", " \u{85}y\u{a0}", "a b",
    ];
    for s in samples {
        let cs = chars_of(s);
        let (a, b) = trim_bounds(&cs, 0, cs.len());
        let got: String = cs[a..b].iter().collect();
        assert_eq!(got, s.trim(), "sample {:?}", s);
    }
}

#[test]
fn lines_match_std() {
    let samples = [
        "", "\n", "a", "a\n", "a\nb", "a\r\nb\r\n", "foo\nbar\n\r\nbaz\r", "\n\n", "x\r", "\r\n",
        "[Object.0]\neffect.name=テキスト\n",
    ];
    for s in samples {
        let expected: Vec<String> = s.lines().map(|l| l.to_string()).collect();
        assert_eq!(lines_by_spans(s), expected, "sample {:?}", s);
    }
}

#[test]
fn chars_of_keeps_every_char() {
    let s = "中心ずらし_A\r\n";
    assert_eq!(chars_of(s), s.chars().collect::<Vec<char>>());
}

#[test]
fn parse_matches_std() {
    let samples = [
        "", "0", "7", "42", "+5", "+", "-0", "-1", "007", "12a", " 1", "18446744073709551615",
        "18446744073709551616", "99999999999999999999999", "١٢", "4294967295", "4294967296",
    ];
    for s in samples {
        let cs = chars_of(s);
        assert_eq!(parse_usize(&cs), s.parse::<usize>().ok(), "sample {:?}", s);
    }
}

#[test]
fn decimal_matches_display() {
    for n in [0usize, 1, 9, 10, 11, 99, 100, 12345, usize::MAX] {
        let mut s = String::from("x");
        push_decimal(&mut s, n);
        assert_eq!(s, format!("x{}", n));
    }
}

#[test]
fn decimal_round_trips_through_parse() {
    for n in [0usize, 3, 10, 1000, 987654321, usize::MAX] {
        let mut s = String::new();
        push_decimal(&mut s, n);
        assert_eq!(parse_usize(&chars_of(&s)), Some(n));
    }
}
