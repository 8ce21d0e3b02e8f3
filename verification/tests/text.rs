use audio_reactive::text::{
    chars_of, contains_chars, find_char, is_white_space, parse_unsigned, same_chars, spells, split_chars,
    split_lines, string_of, trim_chars, Trim,
};

fn words(alphabet: &[char], max_len: usize) -> Vec<String> {
    let mut all = vec![String::new()];
    let mut last = vec![String::new()];
    for _ in 0..max_len {
        let mut next = Vec::new();
        for w in &last {
            for c in alphabet {
                let mut longer = w.clone();
                longer.push(*c);
                next.push(longer);
            }
        }
        all.extend(next.iter().cloned());
        last = next;
    }
    all
}

fn strings(parts: &[&[char]]) -> Vec<String> {
    parts.iter().map(|p| string_of(p)).collect()
}

#[test]
fn characters_and_strings_convert() {
    let c = chars_of("a\u{1F3B5}é");
    assert_eq!(c, vec!['a', '\u{1F3B5}', 'é']);
    assert_eq!(string_of(&c), "a\u{1F3B5}é");
    assert_eq!(string_of(&[]), "");
    assert!(spells(&c, "a\u{1F3B5}é"));
    assert!(!spells(&c, "a\u{1F3B5}"));
    assert!(same_chars(&c, &c));
    assert!(!same_chars(&c, &c[1..]));
}

#[test]
fn white_space_is_that_of_unicode() {
    for n in 0..=0x10FFFFu32 {
        if let Some(c) = char::from_u32(n) {
            assert_eq!(is_white_space(c), c.is_whitespace(), "{n:x}");
        }
    }
}

#[test]
fn trimming_agrees_with_str() {
    for w in words(&['a', ' ', '[', ']', '\t'], 5) {
        let c = chars_of(&w);
        assert_eq!(string_of(trim_chars(&c, Trim::White)), w.trim());
        assert_eq!(
            string_of(trim_chars(&c, Trim::Either('[', ']'))),
            w.trim_matches(|x| x == '[' || x == ']')
        );
    }
    assert_eq!(string_of(trim_chars(&chars_of("\"a\"b\""), Trim::Either('"', '"'))), "a\"b");
}

#[test]
fn splitting_agrees_with_str() {
    for w in words(&['a', ',', '\n', '\r'], 6) {
        let c = chars_of(&w);
        let expected: Vec<String> = w.split(',').map(|s| s.to_string()).collect();
        assert_eq!(strings(&split_chars(&c, ',')), expected);
        let expected: Vec<String> = w.lines().map(|s| s.to_string()).collect();
        assert_eq!(strings(&split_lines(&c)), expected, "{w:?}");
        assert_eq!(find_char(&c, ','), c.iter().position(|x| *x == ',').unwrap_or(c.len()));
    }
}

#[test]
fn searching_agrees_with_str() {
    for w in words(&['a', 'b'], 6) {
        for n in words(&['a', 'b'], 3) {
            assert_eq!(contains_chars(&chars_of(&w), &chars_of(&n)), w.contains(n.as_str()));
        }
    }
}

#[test]
fn unsigned_numbers_agree_with_str() {
    for w in words(&['0', '2', '5', '6', '+', '-', ' '], 5) {
        let c = chars_of(&w);
        assert_eq!(parse_unsigned(&c, 255), w.parse::<u8>().ok().map(|n| n as u64), "{w:?}");
        assert_eq!(parse_unsigned(&c, u32::MAX as u64), w.parse::<u32>().ok().map(|n| n as u64));
        assert_eq!(parse_unsigned(&c, usize::MAX as u64), w.parse::<usize>().ok().map(|n| n as u64));
    }
    for w in ["4294967295", "4294967296", "18446744073709551615", "18446744073709551616", "00000000000000000000000007", "99999999999999999999999x", "٣"] {
        let c = chars_of(w);
        assert_eq!(parse_unsigned(&c, u32::MAX as u64), w.parse::<u32>().ok().map(|n| n as u64));
        assert_eq!(parse_unsigned(&c, u64::MAX), w.parse::<u64>().ok());
    }
}
