use tapir::skill::{parse_frontmatter, skill_body, validate_name};
use tapir::tool::{fuzzy_replace, map_norm_offset_to_original};
use tapir::util::{
    ceil_char_boundary, edit_diff, floor_char_boundary, normalize_for_match, truncate,
    truncate_head, truncate_line, truncate_tail,
};

/// Texts over a small alphabet, in a fixed order.
fn samples(count: usize, alphabet: &[char], max_len: u64) -> Vec<String> {
    let mut out = vec![String::new()];
    let mut state: u64 = 0x9e37_79b9_7f4a_7c15;
    let mut step = || {
        state = state.wrapping_mul(6364136223846793005).wrapping_add(1442695040888963407);
        state >> 33
    };
    for _ in 0..count {
        let len = step() % (max_len + 1);
        let mut s = String::new();
        for _ in 0..len {
            s.push(alphabet[(step() % alphabet.len() as u64) as usize]);
        }
        out.push(s);
    }
    out
}

const PROSE: [char; 12] = [
    'a', 'b', ' ', '\n', '\r', '\t', '-', '\u{e9}', '\u{2014}', '\u{201C}', '"', '\u{1F600}',
];

fn std_floor(s: &str, i: usize) -> usize {
    if i >= s.len() {
        return s.len();
    }
    let mut pos = i;
    while pos > 0 && !s.is_char_boundary(pos) {
        pos -= 1;
    }
    pos
}

fn std_ceil(s: &str, i: usize) -> usize {
    if i >= s.len() {
        return s.len();
    }
    let mut pos = i;
    while pos < s.len() && !s.is_char_boundary(pos) {
        pos += 1;
    }
    pos
}

fn std_truncate(s: &str, max: usize) -> String {
    if s.len() <= max {
        s.to_string()
    } else {
        let end = std_floor(s, max);
        format!("{}...\n(truncated, {} bytes total)", &s[..end], s.len())
    }
}

fn std_truncate_head(s: &str, max_lines: usize, max_bytes: usize) -> (String, bool) {
    if s.len() <= max_bytes && s.lines().count() <= max_lines {
        return (s.to_string(), false);
    }
    let mut end = 0;
    for (lines, line) in s.split_inclusive('\n').enumerate() {
        if lines >= max_lines || end + line.len() > max_bytes {
            break;
        }
        end += line.len();
    }
    let end = std_floor(s, end);
    let mut out = s[..end].to_string();
    if !out.ends_with('\n') && !out.is_empty() {
        out.push('\n');
    }
    out.push_str(&format!(
        "... ({} lines, {} bytes total)",
        s.lines().count(),
        s.len()
    ));
    (out, true)
}

fn std_truncate_tail(s: &str, max_lines: usize, max_bytes: usize) -> (String, bool) {
    if s.len() <= max_bytes && s.lines().count() <= max_lines {
        return (s.to_string(), false);
    }
    let lines: Vec<&str> = s.lines().collect();
    let total_lines = lines.len();
    let keep = total_lines.min(max_lines);
    let start_line = total_lines - keep;
    let mut byte_offset = 0;
    for line in &lines[..start_line] {
        byte_offset += line.len() + 1;
    }
    let byte_start = if s.len() > max_bytes {
        s.len() - max_bytes
    } else {
        0
    };
    let start = std_ceil(s, byte_offset.max(byte_start));
    let mut out = format!("... ({total_lines} lines, {} bytes total)\n", s.len());
    out.push_str(&s[start..]);
    (out, true)
}

fn std_normalize(s: &str) -> String {
    let mut out = String::with_capacity(s.len());
    let mut prev_ws = false;
    for ch in s.chars() {
        let mapped = match ch {
            '\u{2018}' | '\u{2019}' => '\'',
            '\u{201C}' | '\u{201D}' => '"',
            '\u{2013}' | '\u{2014}' => '-',
            other => other,
        };
        if mapped.is_whitespace() {
            if !prev_ws && !out.is_empty() {
                out.push(' ');
            }
            prev_ws = true;
        } else {
            out.push(mapped);
            prev_ws = false;
        }
    }
    if out.ends_with(' ') {
        out.pop();
    }
    out
}

fn std_map_offset(original: &str, norm_offset: usize) -> usize {
    let mut norm_pos = 0;
    let mut prev_ws = false;
    let mut orig_pos = 0;
    let mut started = false;
    for ch in original.chars() {
        if norm_pos >= norm_offset {
            break;
        }
        let mapped = match ch {
            '\u{2018}' | '\u{2019}' => '\'',
            '\u{201C}' | '\u{201D}' => '"',
            '\u{2013}' | '\u{2014}' => '-',
            other => other,
        };
        if mapped.is_whitespace() {
            if !prev_ws && started {
                norm_pos += 1;
            }
            prev_ws = true;
        } else {
            norm_pos += mapped.len_utf8();
            prev_ws = false;
            started = true;
        }
        orig_pos += ch.len_utf8();
    }
    orig_pos
}

fn std_fuzzy_replace(content: &str, old: &str, new: &str) -> Option<String> {
    let norm_content = std_normalize(content);
    let norm_old = std_normalize(old);
    if norm_old.is_empty() {
        return None;
    }
    let matches: Vec<usize> = norm_content
        .match_indices(&norm_old)
        .map(|(i, _)| i)
        .collect();
    if matches.len() != 1 {
        return None;
    }
    let norm_pos = matches[0];
    let orig_start = std_map_offset(content, norm_pos);
    let orig_end = std_map_offset(content, norm_pos + norm_old.len());
    let mut result = String::with_capacity(content.len());
    result.push_str(&content[..orig_start]);
    result.push_str(new);
    result.push_str(&content[orig_end..]);
    Some(result)
}

fn std_edit_diff(path: &str, full_old: &str, old_text: &str, new_text: &str) -> String {
    let ctx = 3;
    let old_lines: Vec<&str> = full_old.lines().collect();
    let byte_start = match full_old.find(old_text) {
        Some(pos) => pos,
        None => return String::new(),
    };
    let prefix = &full_old[..byte_start];
    let start_line = if byte_start == 0 {
        0
    } else if prefix.ends_with('\n') {
        prefix.lines().count()
    } else {
        prefix.lines().count().saturating_sub(1)
    };
    let old_line_count = old_text.lines().count().max(1);
    let end_line = (start_line + old_line_count).min(old_lines.len());
    let new_lines: Vec<&str> = new_text.lines().collect();
    let ctx_start = start_line.saturating_sub(ctx);
    let ctx_end = (end_line + ctx).min(old_lines.len());
    let mut out = String::new();
    out.push_str(&format!("--- {path}\n+++ {path}\n"));
    out.push_str(&format!(
        "@@ -{},{} +{},{} @@\n",
        ctx_start + 1,
        ctx_end - ctx_start,
        ctx_start + 1,
        (start_line - ctx_start) + new_lines.len() + (ctx_end - end_line),
    ));
    for line in &old_lines[ctx_start..start_line] {
        out.push_str(&format!(" {line}\n"));
    }
    for line in &old_lines[start_line..end_line] {
        out.push_str(&format!("-{line}\n"));
    }
    for line in &new_lines {
        out.push_str(&format!("+{line}\n"));
    }
    for line in &old_lines[end_line..ctx_end] {
        out.push_str(&format!(" {line}\n"));
    }
    out
}

#[test]
fn boundaries_and_truncation_follow_std() {
    for s in samples(1500, &PROSE, 16) {
        for i in 0..=s.len() + 1 {
            assert_eq!(floor_char_boundary(&s, i), std_floor(&s, i), "{s:?} {i}");
            assert_eq!(ceil_char_boundary(&s, i), std_ceil(&s, i), "{s:?} {i}");
            assert_eq!(truncate(&s, i), std_truncate(&s, i), "{s:?} {i}");
        }
        for n in 0..5 {
            let want = if s.chars().count() <= n {
                s.clone()
            } else {
                format!("{}...", s.chars().take(n).collect::<String>())
            };
            assert_eq!(truncate_line(&s, n), want, "{s:?} {n}");
        }
    }
}

#[test]
fn heads_and_tails_follow_std() {
    for s in samples(1500, &['a', '\n', '\r', '\u{e9}', ' '], 14) {
        for max_lines in 0..5 {
            for max_bytes in [0, 1, 2, 3, 5, 8, 13, 100] {
                assert_eq!(
                    truncate_head(&s, max_lines, max_bytes),
                    std_truncate_head(&s, max_lines, max_bytes),
                    "{s:?} {max_lines} {max_bytes}"
                );
                assert_eq!(
                    truncate_tail(&s, max_lines, max_bytes),
                    std_truncate_tail(&s, max_lines, max_bytes),
                    "{s:?} {max_lines} {max_bytes}"
                );
            }
        }
    }
}

#[test]
fn loose_comparison_follows_std() {
    let alphabet = ['a', 'b', ' ', '\n', '\u{2014}', '-', '\u{201C}', '"', '\u{a0}', '\u{e9}'];
    let contents = samples(400, &alphabet, 12);
    let olds = samples(40, &alphabet, 3);
    for content in &contents {
        assert_eq!(normalize_for_match(content), std_normalize(content), "{content:?}");
        for offset in 0..content.len() + 2 {
            assert_eq!(
                map_norm_offset_to_original(content, offset),
                std_map_offset(content, offset),
                "{content:?} {offset}"
            );
        }
        for old in &olds {
            assert_eq!(
                fuzzy_replace(content, old, "NEW"),
                std_fuzzy_replace(content, old, "NEW"),
                "{content:?} {old:?}"
            );
        }
    }
}

#[test]
fn diffs_follow_std() {
    let alphabet = ['a', 'b', '\n', '\n', '\r', '\u{e9}'];
    let files = samples(300, &alphabet, 24);
    let olds = samples(30, &alphabet, 4);
    for file in &files {
        for old in &olds {
            for new in ["", "x", "x\ny\n"] {
                assert_eq!(
                    edit_diff("p", file, old, new),
                    std_edit_diff("p", file, old, new),
                    "{file:?} {old:?} {new:?}"
                );
            }
        }
    }
}

fn std_validate_name(name: &str) -> Result<(), String> {
    if name.is_empty() || name.len() > 64 {
        return Err(format!("name must be 1-64 chars, got {}", name.len()));
    }
    if name.starts_with('-') || name.ends_with('-') {
        return Err("name must not start or end with hyphen".into());
    }
    if name.contains("--") {
        return Err("name must not contain consecutive hyphens".into());
    }
    for ch in name.chars() {
        if !ch.is_ascii_lowercase() && !ch.is_ascii_digit() && ch != '-' {
            return Err(format!(
                "invalid character '{ch}' (lowercase a-z, 0-9, hyphens only)"
            ));
        }
    }
    Ok(())
}

fn std_skill_body(content: &str) -> &str {
    let trimmed = content.trim_start();
    if !trimmed.starts_with("---") {
        return content;
    }
    let after_open = match trimmed[3..]
        .strip_prefix('\n')
        .or_else(|| trimmed[3..].strip_prefix("\r\n"))
    {
        Some(s) => s,
        None => return content,
    };
    match after_open.find("\n---") {
        Some(close) => {
            let rest = &after_open[close + 4..];
            rest.strip_prefix('\n')
                .or_else(|| rest.strip_prefix("\r\n"))
                .unwrap_or(rest)
        }
        None => content,
    }
}

fn std_frontmatter(content: &str) -> Option<(Option<String>, Option<String>, usize)> {
    let content = content.trim_start();
    if !content.starts_with("---") {
        return None;
    }
    let after_open = &content[3..];
    let after_open = after_open
        .strip_prefix('\n')
        .or_else(|| after_open.strip_prefix("\r\n"))?;
    let (close, yaml_block) = if after_open.starts_with("---") {
        (0, "")
    } else {
        let pos = after_open.find("\n---")?;
        (pos + 1, &after_open[..pos])
    };
    let dash_start = content.len() - after_open.len() + close;
    let body_start = dash_start + 3;
    let body_start = if content.as_bytes().get(body_start) == Some(&b'\n') {
        body_start + 1
    } else if content.as_bytes().get(body_start) == Some(&b'\r')
        && content.as_bytes().get(body_start + 1) == Some(&b'\n')
    {
        body_start + 2
    } else {
        body_start
    };
    let mut name = None;
    let mut description = None;
    for line in yaml_block.lines() {
        let line = line.trim();
        if line.is_empty() || line.starts_with('#') {
            continue;
        }
        if let Some((key, value)) = line.split_once(':') {
            let key = key.trim();
            let value = value.trim();
            match key {
                "name" => name = Some(value.to_string()),
                "description" => description = Some(value.to_string()),
                _ => {}
            }
        }
    }
    Some((name, description, body_start))
}

#[test]
fn names_of_skills_follow_std() {
    for name in samples(3000, &['a', 'z', '0', '9', '-', '-', 'A', '_', ' ', '\u{e9}'], 6) {
        assert_eq!(validate_name(&name), std_validate_name(&name), "{name:?}");
    }
    for n in [63, 64, 65, 66] {
        let name = "ab".repeat(n).chars().take(n).collect::<String>();
        assert_eq!(validate_name(&name), std_validate_name(&name));
    }
    let wide = "\u{e9}".repeat(33);
    assert_eq!(validate_name(&wide), std_validate_name(&wide));
}

#[test]
fn front_matter_follows_std() {
    let mut inputs = samples(3000, &['-', '-', '-', '\n', '\n', '\r', ' ', 'n', ':', '#'], 14);
    for head in ["---\n", "---\r\n", " \n---\n", "---"] {
        for middle in [
            "",
            "name: a\n",
            "name:a\ndescription: b c \n",
            "# c\n\n name : x:y\r\ndescription:\n",
            "description: one\ndescription: two\nname\n: z\n",
        ] {
            for tail in ["---", "---\n", "---\r\nbody", "--- \nbody", "--\n", "----\nb"] {
                inputs.push(format!("{head}{middle}{tail}"));
            }
        }
    }
    for content in inputs {
        let got = parse_frontmatter(&content).map(|f| (f.name, f.description, f.body_start));
        assert_eq!(got, std_frontmatter(&content), "{content:?}");
        assert_eq!(skill_body(&content), std_skill_body(&content), "{content:?}");
    }
}
