use guarderd::decimal::{parse_i32_range, push_decimal, push_digits};
use guarderd::text::{find, is_space_char, range_is, to_chars, trim_range};

fn chars(s: &str) -> Vec<char> {
    s.chars().collect()
}

#[test]
fn to_chars_gives_every_character() {
    assert_eq!(to_chars(""), Vec::<char>::new());
    assert_eq!(to_chars("a:b\n"), vec!['a', ':', 'b', '\n']);
    assert_eq!(to_chars("é€😀"), vec!['é', '€', '😀']);
}

#[test]
fn white_space_is_what_std_trims() {
    let mut code: u32 = 0;
    while code <= 0x3100 {
        if let Some(c) = char::from_u32(code) {
            assert_eq!(is_space_char(c), c.is_whitespace(), "U+{:04X}", code);
        }
        code += 1;
    }
    assert!(!is_space_char('\u{feff}'));
    assert!(!is_space_char('\u{200b}'));
    assert!(!is_space_char('\u{10ffff}'));
}

#[test]
fn find_gives_the_first_match_or_the_end() {
    let v = chars("ab:cd:ef");
    assert_eq!(find(&v, 0, 8, ':'), 2);
    assert_eq!(find(&v, 3, 8, ':'), 5);
    assert_eq!(find(&v, 6, 8, ':'), 8);
    assert_eq!(find(&v, 0, 2, ':'), 2);
    assert_eq!(find(&v, 2, 2, ':'), 2);
    assert_eq!(find(&v, 2, 3, ':'), 2);
}

#[test]
fn trim_range_agrees_with_std_trim() {
    let samples = ["", " ", "  \t\n", "a", " a", "a ", "  a b  ", "\u{3000}x\u{a0}", "\r\nab\r\n", "a  "];
    for s in samples.iter() {
        let v = chars(s);
        let (from, to) = trim_range(&v, 0, v.len());
        let kept: String = v[from..to].iter().collect();
        assert_eq!(kept, s.trim(), "sample {:?}", s);
    }
    let v = chars("  ab  cd  ");
    assert_eq!(trim_range(&v, 3, 8), (3, 8));
    assert_eq!(trim_range(&v, 4, 6), (6, 6));
    assert_eq!(trim_range(&v, 0, 5), (2, 4));
}

#[test]
fn range_is_compares_a_part_with_a_word() {
    let v = chars("xx daemon_pid yy");
    let word = chars("daemon_pid");
    assert!(range_is(&v, 3, 13, &word));
    assert!(!range_is(&v, 3, 12, &word));
    assert!(!range_is(&v, 2, 12, &word));
    assert!(range_is(&v, 5, 5, &Vec::new()));
    assert!(!range_is(&v, 0, 2, &chars("xy")));
}

#[test]
fn parse_i32_range_reads_a_part_of_the_text() {
    let v = chars("a-12b+3c");
    assert_eq!(parse_i32_range(&v, 1, 4), Some(-12));
    assert_eq!(parse_i32_range(&v, 2, 4), Some(12));
    assert_eq!(parse_i32_range(&v, 5, 7), Some(3));
    assert_eq!(parse_i32_range(&v, 0, 4), None);
    assert_eq!(parse_i32_range(&v, 1, 5), None);
    assert_eq!(parse_i32_range(&v, 3, 3), None);
    assert_eq!(parse_i32_range(&v, 1, 2), None);
}

#[test]
fn push_decimal_appends_the_number() {
    let mut out = String::from("pid=");
    push_decimal(&mut out, -305);
    assert_eq!(out, "pid=-305");
    push_decimal(&mut out, 0);
    assert_eq!(out, "pid=-3050");
    let mut all = String::new();
    push_decimal(&mut all, i32::MIN);
    assert_eq!(all, i32::MIN.to_string());
}

#[test]
fn push_digits_appends_an_unsigned_number() {
    let mut out = String::new();
    push_digits(&mut out, 0);
    push_digits(&mut out, 18446744073709551615);
    assert_eq!(out, "018446744073709551615");
}
