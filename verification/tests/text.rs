use foggychat::number::{decimal_text, parse_i32, signed_text};
use foggychat::text::{split_lines, split_words, strip_prefix, trim, white_space};

fn all_strings(alphabet: &[char], max: usize) -> Vec<String> {
    let mut out = vec![String::new()];
    let mut last = out.clone();
    for _ in 0..max {
        let mut next = Vec::new();
        for s in &last {
            for c in alphabet {
                let mut t = s.clone();
                t.push(*c);
                next.push(t);
            }
        }
        out.extend(next.iter().cloned());
        last = next;
    }
    out
}

#[test]
fn white_space_is_that_of_unicode() {
    for n in 0..=0x10ffffu32 {
        if let Some(c) = char::from_u32(n) {
            assert_eq!(white_space(c), c.is_whitespace());
        }
    }
}

#[test]
fn trimming() {
    assert_eq!(trim("  a b \r\n"), "a b");
    assert_eq!(trim(" \t\u{3000}"), "");
    for s in all_strings(&['a', ' ', '\u{2003}', 'ą'], 6) {
        assert_eq!(trim(&s), s.trim());
        assert_eq!(trim(&trim(&s)), trim(&s));
    }
}

#[test]
fn lines_of_a_text() {
    assert_eq!(split_lines("a\r\nb\n\nc\r"), vec!["a", "b", "", "c\r"]);
    for s in all_strings(&['a', '\r', '\n'], 8) {
        let expected: Vec<&str> = s.lines().collect();
        assert_eq!(split_lines(&s), expected);
    }
}

#[test]
fn words_of_a_text() {
    assert_eq!(split_words("  setnick   bob "), vec!["setnick", "bob"]);
    for s in all_strings(&['a', 'b', ' ', '\n'], 6) {
        let expected: Vec<&str> = s.split_whitespace().collect();
        assert_eq!(split_words(&s), expected);
    }
}

#[test]
fn prefixes() {
    assert_eq!(strip_prefix("From: x", "From: "), Some("x".to_string()));
    assert_eq!(strip_prefix("From: ", "From: "), Some(String::new()));
    assert_eq!(strip_prefix("From:x", "From: "), None);
    assert_eq!(strip_prefix("Fr", "From: "), None);
}

#[test]
fn numbers() {
    assert_eq!(decimal_text(0), "0");
    assert_eq!(decimal_text(u128::MAX), format!("{}", u128::MAX));
    assert_eq!(signed_text(-7), "-7");
    for i in [i32::MIN, -2147483647, -1, 0, 9, 10, 902, i32::MAX] {
        assert_eq!(signed_text(i), format!("{}", i));
        assert_eq!(parse_i32(&signed_text(i)), Some(i));
    }
    for s in all_strings(&['+', '-', '0', '7', 'x'], 5) {
        assert_eq!(parse_i32(&s), s.parse::<i32>().ok());
    }
    for s in ["2147483648", "-2147483648", "-2147483649", "00000000000000000200", "٣",
        "99999999999999999999999999999999999999999999"] {
        assert_eq!(parse_i32(s), s.parse::<i32>().ok());
    }
}
