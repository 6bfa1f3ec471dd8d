use metasort::number::{decimal_text, parse_i64};
use metasort::text::{
    begins_with, chars_of, contains_text, find_text, finishes_with, is_one_of, joined,
    same_ignoring_ascii_case, same_text, split_lines, string_of, trim_text, value_of_line,
};

#[test]
fn strings_survive_their_characters() {
    for s in ["", "a", "héllo", "日本語.jpg", "👨‍👩‍👧"] {
        let v = chars_of(s);
        assert_eq!(v, s.chars().collect::<Vec<char>>());
        assert_eq!(string_of(&v, 0, v.len()), s);
    }
    let v = chars_of("photo");
    assert_eq!(string_of(&v, 1, 3), "ho");
}

#[test]
fn equal_texts_are_told_from_different_ones() {
    assert!(same_text("", ""));
    assert!(same_text("mkv", "mkv"));
    assert!(!same_text("mkv", "mkw"));
    assert!(!same_text("mkv", "mk"));
    assert_eq!(joined("a", "b"), "ab");
    assert!(is_one_of(&vec!["x", "y"], "y"));
    assert!(!is_one_of(&vec!["x", "y"], "z"));
    assert!(!is_one_of(&vec![], "z"));
}

#[test]
fn searching_agrees_with_the_standard_library() {
    let texts = ["", "a", "aa", "aab", "abab", "whatsapp", "IMG-WA0001", "ünïcode wa", "baab"];
    for s in texts {
        for p in ["", "a", "b", "ab", "wa", "aab", "aa", "whatsapp", "ï", "baabx"] {
            assert_eq!(contains_text(s, p), s.contains(p), "{} {}", s, p);
            assert_eq!(begins_with(s, p), s.starts_with(p), "{} {}", s, p);
            assert_eq!(finishes_with(s, p), s.ends_with(p), "{} {}", s, p);
            let found = find_text(&chars_of(s), &chars_of(p));
            let expected = s.find(p).map(|i| s[..i].chars().count());
            assert_eq!(found, expected, "{} {}", s, p);
        }
    }
}

#[test]
fn every_character_is_trimmed_as_the_standard_library_does() {
    for n in 0..=0x10ffffu32 {
        if let Some(c) = char::from_u32(n) {
            let mut s = String::new();
            s.push(c);
            s.push('x');
            s.push(c);
            assert_eq!(trim_text(&s), s.trim());
        }
    }
    assert_eq!(trim_text("   "), "");
    assert_eq!(trim_text(""), "");
    assert_eq!(trim_text("\t a b \r\n"), "a b");
}

#[test]
fn lines_agree_with_the_standard_library() {
    for s in [
        "", "a", "a\n", "a\nb", "a\r\nb\r\n", "\n", "\n\n", "\r\n", "a\r", "a\r\r\nb", "\na\n\nb",
        "é\r\nü\n",
    ] {
        let expected: Vec<String> = s.lines().map(|l| l.to_string()).collect();
        assert_eq!(split_lines(s), expected, "{:?}", s);
    }
}

#[test]
fn the_value_of_a_line_stands_behind_its_first_colon() {
    assert_eq!(value_of_line("Date/Time Original : 2020:01:02 03:04:05"), "2020:01:02 03:04:05");
    assert_eq!(value_of_line("no colon"), "");
    assert_eq!(value_of_line("empty:"), "");
    assert_eq!(value_of_line(": x"), "x");
    for line in ["a:b:c", "a", ":", " : : ", "k :  v : w "] {
        let parts: Vec<&str> = line.split(':').skip(1).collect();
        assert_eq!(value_of_line(line), parts.join(":").trim());
    }
}

#[test]
fn ascii_case_is_ignored_and_no_other() {
    for a in ["Whatsapp", "WHATSAPP", "whatsapp", "Screenshots", "", "É", "é", "WhatsApp Images"] {
        for b in ["Whatsapp", "Screenshots", "É"] {
            assert_eq!(same_ignoring_ascii_case(a, b), a.eq_ignore_ascii_case(b));
        }
    }
    assert!(same_ignoring_ascii_case("wHaTsApP", "Whatsapp"));
    assert!(!same_ignoring_ascii_case("é", "É"));
    assert!(!same_ignoring_ascii_case("@[`{", "`{@["));
}

#[test]
fn integers_are_read_as_the_standard_library_reads_them() {
    for s in [
        "", "+", "-", "0", "-0", "+0", "00012", "1577934245", "-1", "+7", "1 ", " 1", "1_0", "0x1",
        "9223372036854775807", "9223372036854775808", "-9223372036854775808",
        "-9223372036854775809", "99999999999999999999999999999999999999999999", "--1", "1-", "１",
        "00000000000000000000000000000000000000000000000000000000000000000000005",
        "9999999999999999999999x",
    ] {
        assert_eq!(parse_i64(s), s.parse::<i64>().ok(), "{:?}", s);
    }
}

#[test]
fn decimal_notation_reads_back() {
    for n in [0u64, 1, 9, 10, 99, 100, 101, 4096, 1_000_000, i64::MAX as u64, u64::MAX] {
        assert_eq!(decimal_text(n), n.to_string());
    }
    assert_eq!(parse_i64(&decimal_text(123456789)), Some(123456789));
}
