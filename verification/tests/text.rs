use tapir::text::{
    byte_len_of, char_width, chars_of, decimal_string, find_chars, find_from, is_whitespace,
    parse_u64, same_text, split_lines, string_of, trim_text,
};

/// Texts over a small alphabet, in a fixed order: all of length up to
/// three, and a thousand longer ones.
fn samples() -> Vec<String> {
    let alphabet = [
        'a', 'b', ' ', '\n', '\r', '\t', '-', '\u{e9}', '\u{2014}', '\u{201C}', '"', '\u{a0}',
        '\u{1F600}',
    ];
    let mut out = vec![String::new()];
    let mut last = vec![String::new()];
    for _ in 0..3 {
        let mut next = Vec::new();
        for s in &last {
            for c in alphabet {
                let mut t = s.clone();
                t.push(c);
                next.push(t);
            }
        }
        out.extend(next.iter().cloned());
        last = next;
    }
    let mut state: u64 = 0x2545_f491_4f6c_dd1d;
    for _ in 0..1000 {
        let mut s = String::new();
        state = state.wrapping_mul(6364136223846793005).wrapping_add(1442695040888963407);
        let len = 4 + (state >> 33) % 20;
        for _ in 0..len {
            state = state.wrapping_mul(6364136223846793005).wrapping_add(1442695040888963407);
            s.push(alphabet[((state >> 33) % alphabet.len() as u64) as usize]);
        }
        out.push(s);
    }
    out
}

#[test]
fn characters_go_to_a_vector_and_back() {
    for s in samples() {
        let chars = chars_of(&s);
        assert_eq!(chars, s.chars().collect::<Vec<char>>());
        assert_eq!(string_of(&chars), s);
        assert_eq!(byte_len_of(&s), s.len());
    }
}

#[test]
fn widths_are_those_of_utf8() {
    for u in 0..=0x10FFFFu32 {
        if let Some(c) = char::from_u32(u) {
            assert_eq!(char_width(c), c.len_utf8(), "U+{u:04X}");
        }
    }
}

#[test]
fn white_space_is_that_of_unicode() {
    for u in 0..=0x10FFFFu32 {
        if let Some(c) = char::from_u32(u) {
            assert_eq!(is_whitespace(c), c.is_whitespace(), "U+{u:04X}");
        }
    }
}

#[test]
fn lines_are_those_of_std() {
    for s in samples() {
        let want: Vec<String> = s.lines().map(str::to_string).collect();
        assert_eq!(split_lines(&chars_of(&s)), want, "{s:?}");
    }
}

#[test]
fn trimming_is_that_of_std() {
    for s in samples() {
        assert_eq!(trim_text(&s), s.trim(), "{s:?}");
    }
}

#[test]
fn searching_is_that_of_std() {
    let all = samples();
    for (i, hay) in all.iter().enumerate().skip(2000) {
        for needle in all.iter().take(183) {
            let want = hay.find(needle.as_str()).map(|b| hay[..b].chars().count());
            let h = chars_of(hay);
            let n = chars_of(needle);
            assert_eq!(find_chars(&h, &n), want, "{hay:?} {needle:?}");
            if let Some(at) = want {
                let next = hay
                    .char_indices()
                    .map(|(b, _)| b)
                    .chain([hay.len()])
                    .enumerate()
                    .skip(at + 1)
                    .find(|(_, b)| hay[*b..].starts_with(needle.as_str()))
                    .map(|(k, _)| k);
                assert_eq!(find_from(&h, &n, at + 1), next, "{hay:?} {needle:?}");
            }
        }
        assert!(same_text(hay, &all[i]));
    }
    assert!(!same_text("a", "b"));
    assert!(!same_text("a", "ab"));
    assert!(same_text("", ""));
}

#[test]
fn numbers_are_written_and_read() {
    for n in [0u64, 1, 9, 10, 11, 99, 100, 12345, u32::MAX as u64, u64::MAX - 1, u64::MAX] {
        assert_eq!(decimal_string(n), n.to_string());
        assert_eq!(parse_u64(&n.to_string()), Some(n));
    }
    for s in [
        "", "+", "-", "+0", "-0", "00", "0x10", "1_000", " 1", "1 ", "१", "18446744073709551616",
        "99999999999999999999999999", "+18446744073709551615", "++1", "1+",
    ] {
        assert_eq!(parse_u64(s), s.parse::<u64>().ok(), "{s:?}");
    }
}
