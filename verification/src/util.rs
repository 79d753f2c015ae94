use crate::text::{
    byte_len, byte_len_of, char_width, chars_of, decimal, find_char, find_chars, find_index,
    is_boundary, is_space, is_whitespace, lemma_byte_len_concat, lemma_byte_len_monotonic,
    lemma_byte_len_take_next, lemma_find_index, lemma_lines_of_prefix, line_break, lines,
    prefixed_lines, push_decimal, push_decimal_wide, push_prefixed_lines, push_range, split_lines,
    string_of, texts,
};
use vstd::prelude::*;
use vstd::string::StringExecFns;

verus! {

/// How many leading characters of `s` fit into `max` bytes.
pub open spec fn fit_chars(s: Seq<char>, max: nat) -> nat
    decreases s.len(),
{
    if s.len() == 0 {
        0
    } else if byte_len(s) <= max {
        s.len()
    } else {
        fit_chars(s.drop_last(), max)
    }
}

/// The largest boundary of `s` that is not behind the byte offset `i`.
pub open spec fn floor_boundary(s: Seq<char>, i: nat) -> nat {
    byte_len(s.take(fit_chars(s, i) as int))
}

/// How many leading characters of `s` it takes to reach the byte offset
/// `i`, or all of them where `s` is shorter.
pub open spec fn reach_chars(s: Seq<char>, i: nat) -> nat
    decreases s.len(),
{
    if s.len() == 0 {
        0
    } else if byte_len(s.drop_last()) >= i {
        reach_chars(s.drop_last(), i)
    } else {
        s.len()
    }
}

/// The smallest boundary of `s` that is not before the byte offset `i`,
/// or the length of `s` where there is none.
pub open spec fn ceil_boundary(s: Seq<char>, i: nat) -> nat {
    byte_len(s.take(reach_chars(s, i) as int))
}

/// `fit_chars` is the one prefix length that fits while one character
/// more does not.
pub proof fn lemma_fit_chars(s: Seq<char>, max: nat, k: int)
    requires
        0 <= k <= s.len(),
        byte_len(s.take(k)) <= max,
        k == s.len() || byte_len(s.take(k + 1)) > max,
    ensures
        fit_chars(s, max) == k,
    decreases s.len(),
{
    if s.len() > 0 {
        assert(s.take(s.len() as int) =~= s);
        if byte_len(s) <= max {
            if k < s.len() {
                lemma_byte_len_monotonic(s, k + 1, s.len() as int);
            }
        } else {
            let t = s.drop_last();
            assert(t.take(k) =~= s.take(k));
            if k < t.len() {
                assert(t.take(k + 1) =~= s.take(k + 1));
            }
            lemma_fit_chars(t, max, k);
        }
    }
}

/// `reach_chars` is the one prefix length that reaches the offset while
/// one character fewer does not.
pub proof fn lemma_reach_chars(s: Seq<char>, i: nat, k: int)
    requires
        0 <= k <= s.len(),
        k == s.len() || byte_len(s.take(k)) >= i,
        k == 0 || byte_len(s.take(k - 1)) < i,
    ensures
        reach_chars(s, i) == k,
    decreases s.len(),
{
    if s.len() > 0 {
        let t = s.drop_last();
        assert(t =~= s.take(s.len() - 1));
        if byte_len(t) >= i {
            if k == s.len() {
                assert(false);
            }
            assert(t.take(k) =~= s.take(k));
            if k > 0 {
                assert(t.take(k - 1) =~= s.take(k - 1));
            }
            lemma_reach_chars(t, i, k);
        } else {
            if k < s.len() {
                lemma_byte_len_monotonic(s, k, s.len() - 1);
            }
        }
    }
}

/// The floor is a boundary at or before the offset (or the end of the
/// text), and no boundary lies between it and the offset.
pub proof fn lemma_floor_boundary(s: Seq<char>, i: nat)
    ensures
        is_boundary(s, floor_boundary(s, i)),
        floor_boundary(s, i) <= byte_len(s),
        i >= byte_len(s) ==> floor_boundary(s, i) == byte_len(s),
        i < byte_len(s) ==> floor_boundary(s, i) <= i,
        forall|j: nat| floor_boundary(s, i) < j <= i ==> !is_boundary(s, j),
{
    let k = fit_chars(s, i) as int;
    lemma_fit_chars_range(s, i);
    assert(s.take(s.len() as int) =~= s);
    lemma_byte_len_monotonic(s, k, s.len() as int);
    assert forall|j: nat| floor_boundary(s, i) < j <= i implies !is_boundary(s, j) by {
        if is_boundary(s, j) {
            let m = choose|m: int| 0 <= m <= s.len() && #[trigger] byte_len(s.take(m)) == j;
            if m <= k {
                lemma_byte_len_monotonic(s, m, k);
            } else {
                lemma_byte_len_monotonic(s, k + 1, m);
            }
        }
    }
}

/// The ceiling is a boundary at or behind the offset (or the end of the
/// text), and no boundary lies between the offset and it.
pub proof fn lemma_ceil_boundary(s: Seq<char>, i: nat)
    ensures
        is_boundary(s, ceil_boundary(s, i)),
        ceil_boundary(s, i) <= byte_len(s),
        i >= byte_len(s) ==> ceil_boundary(s, i) == byte_len(s),
        i <= byte_len(s) ==> ceil_boundary(s, i) >= i,
        forall|j: nat| i <= j < ceil_boundary(s, i) ==> !is_boundary(s, j),
{
    let k = reach_chars(s, i) as int;
    lemma_reach_chars_range(s, i);
    assert(s.take(s.len() as int) =~= s);
    lemma_byte_len_monotonic(s, k, s.len() as int);
    assert forall|j: nat| i <= j < ceil_boundary(s, i) implies !is_boundary(s, j) by {
        if is_boundary(s, j) {
            let m = choose|m: int| 0 <= m <= s.len() && #[trigger] byte_len(s.take(m)) == j;
            if m >= k {
                lemma_byte_len_monotonic(s, k, m);
            } else {
                lemma_byte_len_monotonic(s, m, k - 1);
            }
        }
    }
}

proof fn lemma_fit_chars_range(s: Seq<char>, max: nat)
    ensures
        fit_chars(s, max) <= s.len(),
        byte_len(s.take(fit_chars(s, max) as int)) <= max,
        fit_chars(s, max) == s.len() || byte_len(s.take(fit_chars(s, max) as int + 1)) > max,
    decreases s.len(),
{
    if s.len() > 0 {
        assert(s.take(s.len() as int) =~= s);
        if byte_len(s) > max {
            let t = s.drop_last();
            lemma_fit_chars_range(t, max);
            let k = fit_chars(t, max) as int;
            assert(t.take(k) =~= s.take(k));
            if k < t.len() {
                assert(t.take(k + 1) =~= s.take(k + 1));
            } else {
                assert(s.take(k + 1) =~= s);
            }
        }
    } else {
        assert(s.take(0) =~= s);
    }
}

proof fn lemma_reach_chars_range(s: Seq<char>, i: nat)
    ensures
        reach_chars(s, i) <= s.len(),
        reach_chars(s, i) == s.len() || byte_len(s.take(reach_chars(s, i) as int)) >= i,
        reach_chars(s, i) == 0 || byte_len(s.take(reach_chars(s, i) as int - 1)) < i,
    decreases s.len(),
{
    if s.len() > 0 {
        let t = s.drop_last();
        assert(t =~= s.take(s.len() - 1));
        if byte_len(t) >= i {
            lemma_reach_chars_range(t, i);
            let k = reach_chars(t, i) as int;
            assert(t.take(k) =~= s.take(k));
            if k > 0 {
                assert(t.take(k - 1) =~= s.take(k - 1));
            }
        }
    }
}

/// Counts the leading characters of `chars` that fit into `max` bytes, and
/// the bytes that they take.
pub fn fit_prefix(chars: &Vec<char>, max: usize) -> (fit: (usize, usize))
    ensures
        fit.0 == fit_chars(chars@, max as nat),
        fit.1 == floor_boundary(chars@, max as nat),
        fit.0 <= chars.len(),
        fit.1 <= max,
{
    let mut k: usize = 0;
    let mut bytes: usize = 0;
    while k < chars.len()
        invariant
            k <= chars.len(),
            bytes == byte_len(chars@.take(k as int)),
            bytes <= max,
        decreases chars.len() - k,
    {
        let w = char_width(chars[k]);
        proof {
            lemma_byte_len_take_next(chars@, k as int);
        }
        if w > max - bytes {
            proof {
                lemma_fit_chars(chars@, max as nat, k as int);
            }
            return (k, bytes);
        }
        bytes += w;
        k += 1;
    }
    proof {
        lemma_fit_chars(chars@, max as nat, k as int);
    }
    (k, bytes)
}

/// Finds the largest byte index at or before `i` that is a character
/// boundary of `s`; the length of `s` where `i` is behind its end.
pub fn floor_char_boundary(s: &str, i: usize) -> (pos: usize)
    ensures
        pos == floor_boundary(s@, i as nat),
        is_boundary(s@, pos as nat),
        i >= byte_len(s@) ==> pos == byte_len(s@),
        i < byte_len(s@) ==> pos <= i,
        forall|j: nat| pos < j <= i ==> !is_boundary(s@, j),
{
    proof {
        lemma_floor_boundary(s@, i as nat);
    }
    let chars = chars_of(s);
    fit_prefix(&chars, i).1
}

/// Finds the smallest byte index at or behind `i` that is a character
/// boundary of `s`; the length of `s` where `i` is behind its end.
pub fn ceil_char_boundary(s: &str, i: usize) -> (pos: usize)
    ensures
        pos == ceil_boundary(s@, i as nat),
        is_boundary(s@, pos as nat),
        i >= byte_len(s@) ==> pos == byte_len(s@),
        i <= byte_len(s@) ==> pos >= i,
        forall|j: nat| i <= j < pos ==> !is_boundary(s@, j),
{
    proof {
        lemma_ceil_boundary(s@, i as nat);
    }
    let chars = chars_of(s);
    let total = byte_len_of(s);
    let mut k: usize = 0;
    let mut bytes: usize = 0;
    while k < chars.len() && bytes < i
        invariant
            k <= chars.len(),
            chars@ == s@,
            total == byte_len(s@),
            bytes == byte_len(chars@.take(k as int)),
            k == 0 || byte_len(chars@.take(k - 1)) < i,
        decreases chars.len() - k,
    {
        let w = char_width(chars[k]);
        proof {
            lemma_byte_len_take_next(chars@, k as int);
            lemma_byte_len_monotonic(chars@, k + 1, chars@.len() as int);
            assert(chars@.take(chars@.len() as int) =~= chars@);
        }
        bytes += w;
        k += 1;
    }
    proof {
        lemma_reach_chars(chars@, i as nat, k as int);
    }
    bytes
}

/// The note that ends a text cut down from `total` bytes.
pub open spec fn truncation_note(total: nat) -> Seq<char> {
    "...\n(truncated, "@ + decimal(total) + " bytes total)"@
}

/// `s` as it is shown within `max` bytes: whole where it fits, else its
/// longest prefix of whole characters that fits, and the note.
pub open spec fn truncated(s: Seq<char>, max: nat) -> Seq<char> {
    if byte_len(s) <= max {
        s
    } else {
        s.take(fit_chars(s, max) as int) + truncation_note(byte_len(s))
    }
}

/// Cuts `s` down to `max` bytes, and says so where it did.
pub fn truncate(s: &str, max: usize) -> (out: String)
    ensures
        out@ == truncated(s@, max as nat),
{
    let total = byte_len_of(s);
    if total <= max {
        String::from_str(s)
    } else {
        let chars = chars_of(s);
        let fit = fit_prefix(&chars, max);
        let mut head: Vec<char> = Vec::new();
        push_range(&mut head, &chars, 0, fit.0);
        let mut out = string_of(&head);
        out.append("...\n(truncated, ");
        push_decimal(&mut out, total as u64);
        out.append(" bytes total)");
        proof {
            assert(chars@.subrange(0, fit.0 as int) =~= s@.take(fit.0 as int));
            assert(out@ =~= truncated(s@, max as nat));
        }
        out
    }
}

/// `s` as it is shown within `max_chars` characters.
pub open spec fn line_truncated(s: Seq<char>, max_chars: nat) -> Seq<char> {
    if s.len() <= max_chars {
        s
    } else {
        s.take(max_chars as int) + "..."@
    }
}

/// Cuts one line down to `max_chars` characters.
pub fn truncate_line(s: &str, max_chars: usize) -> (out: String)
    ensures
        out@ == line_truncated(s@, max_chars as nat),
{
    let chars = chars_of(s);
    if chars.len() <= max_chars {
        String::from_str(s)
    } else {
        let mut head: Vec<char> = Vec::new();
        push_range(&mut head, &chars, 0, max_chars);
        let mut out = string_of(&head);
        out.append("...");
        proof {
            assert(chars@.subrange(0, max_chars as int) =~= s@.take(max_chars as int));
            assert(out@ =~= line_truncated(s@, max_chars as nat));
        }
        out
    }
}

/// The bytes of a part of a text are what its end has more than its start.
pub proof fn lemma_byte_len_subrange(s: Seq<char>, a: int, b: int)
    requires
        0 <= a <= b <= s.len(),
    ensures
        byte_len(s.subrange(a, b)) == byte_len(s.take(b)) - byte_len(s.take(a)),
        byte_len(s.subrange(a, b)) <= byte_len(s),
{
    lemma_byte_len_concat(s.take(a), s.subrange(a, b));
    assert(s.take(a) + s.subrange(a, b) =~= s.take(b));
    lemma_byte_len_monotonic(s, b, s.len() as int);
    assert(s.take(s.len() as int) =~= s);
}

/// Counts the bytes of `chars[from..to]`.
pub fn range_bytes(chars: &Vec<char>, from: usize, to: usize) -> (n: usize)
    requires
        from <= to <= chars.len(),
        byte_len(chars@) <= usize::MAX,
    ensures
        n == byte_len(chars@.subrange(from as int, to as int)),
{
    let mut n: usize = 0;
    let mut i: usize = from;
    while i < to
        invariant
            from <= i <= to <= chars.len(),
            byte_len(chars@) <= usize::MAX,
            n == byte_len(chars@.subrange(from as int, i as int)),
        decreases to - i,
    {
        let w = char_width(chars[i]);
        proof {
            let next = chars@.subrange(from as int, i + 1);
            assert(next.drop_last() =~= chars@.subrange(from as int, i as int));
            lemma_byte_len_subrange(chars@, from as int, i + 1);
        }
        n += w;
        i += 1;
    }
    n
}

/// How many characters the head of `s` has: its first pieces, each ending
/// behind a line feed but perhaps the last, as long as they are no more
/// than `max_lines` and take no more than `max_bytes` bytes.
pub open spec fn head_len(s: Seq<char>, max_lines: nat, max_bytes: nat) -> nat
    decreases s.len(),
{
    if s.len() == 0 || max_lines == 0 {
        0
    } else {
        let piece = if 0 <= line_break(s) < s.len() {
            line_break(s) + 1
        } else {
            s.len() as int
        };
        if byte_len(s.take(piece)) > max_bytes {
            0
        } else {
            (piece + head_len(
                s.skip(piece),
                (max_lines - 1) as nat,
                (max_bytes - byte_len(s.take(piece))) as nat,
            )) as nat
        }
    }
}

/// The note that ends a head, or begins a tail, of a text of `line_count`
/// lines and `total` bytes.
pub open spec fn size_note(line_count: nat, total: nat) -> Seq<char> {
    "... ("@ + decimal(line_count) + " lines, "@ + decimal(total) + " bytes total)"@
}

/// `s` with a line feed behind it, unless it is empty or ends with one.
pub open spec fn line_ended(s: Seq<char>) -> Seq<char> {
    if s.len() > 0 && s.last() != '\n' {
        s.push('\n')
    } else {
        s
    }
}

/// Whether `s` has no more than `max_lines` lines and `max_bytes` bytes.
pub open spec fn fits(s: Seq<char>, max_lines: nat, max_bytes: nat) -> bool {
    byte_len(s) <= max_bytes && lines(s).len() <= max_lines
}

/// The head of `s` and whether anything was cut: `s` itself where it
/// fits, else its head and the note.
pub open spec fn head_truncated(s: Seq<char>, max_lines: nat, max_bytes: nat) -> (Seq<char>, bool) {
    if fits(s, max_lines, max_bytes) {
        (s, false)
    } else {
        (
            line_ended(s.take(head_len(s, max_lines, max_bytes) as int)) + size_note(
                lines(s).len(),
                byte_len(s),
            ),
            true,
        )
    }
}

fn head_end(chars: &Vec<char>, max_lines: usize, max_bytes: usize) -> (end: usize)
    requires
        byte_len(chars@) <= usize::MAX,
    ensures
        end == head_len(chars@, max_lines as nat, max_bytes as nat),
        end <= chars.len(),
{
    let mut pos: usize = 0;
    let mut bytes: usize = 0;
    let mut idx: usize = 0;
    assert(chars@.skip(0) =~= chars@);
    while pos < chars.len() && idx < max_lines
        invariant
            pos <= chars.len(),
            idx <= max_lines,
            bytes <= max_bytes,
            byte_len(chars@) <= usize::MAX,
            head_len(chars@, max_lines as nat, max_bytes as nat) == pos + head_len(
                chars@.skip(pos as int),
                (max_lines - idx) as nat,
                (max_bytes - bytes) as nat,
            ),
        decreases chars.len() - pos,
    {
        let b = find_char(chars, pos, chars.len(), '\n');
        let piece_end: usize = if b < chars.len() {
            b + 1
        } else {
            chars.len()
        };
        let piece_bytes = range_bytes(chars, pos, piece_end);
        proof {
            let rest = chars@.skip(pos as int);
            assert(chars@.subrange(pos as int, chars.len() as int) =~= rest);
            assert(rest.take(piece_end - pos) =~= chars@.subrange(pos as int, piece_end as int));
            assert(rest.skip(piece_end - pos) =~= chars@.skip(piece_end as int));
        }
        if piece_bytes > max_bytes - bytes {
            return pos;
        }
        bytes += piece_bytes;
        pos = piece_end;
        idx += 1;
    }
    pos
}

fn push_size_note(out: &mut String, line_count: usize, total: usize)
    ensures
        final(out)@ == old(out)@ + size_note(line_count as nat, total as nat),
{
    out.append("... (");
    push_decimal_wide(out, line_count as u128);
    out.append(" lines, ");
    push_decimal_wide(out, total as u128);
    out.append(" bytes total)");
    assert(out@ =~= old(out)@ + size_note(line_count as nat, total as nat));
}

/// Keeps the first lines of `s`, no more than `max_lines` of them and no
/// more than `max_bytes` bytes. Returns the text, and whether it was cut.
pub fn truncate_head(s: &str, max_lines: usize, max_bytes: usize) -> (out: (String, bool))
    ensures
        (out.0@, out.1) == head_truncated(s@, max_lines as nat, max_bytes as nat),
{
    let chars = chars_of(s);
    let total = byte_len_of(s);
    let all_lines = split_lines(&chars);
    let line_count = all_lines.len();
    assert(texts(all_lines@).len() == all_lines.len());
    if total <= max_bytes && line_count <= max_lines {
        return (String::from_str(s), false);
    }
    let end = head_end(&chars, max_lines, max_bytes);
    let mut head: Vec<char> = Vec::new();
    push_range(&mut head, &chars, 0, end);
    assert(head@ =~= s@.take(end as int));
    if end > 0 && chars[end - 1] != '\n' {
        head.push('\n');
    }
    assert(head@ =~= line_ended(s@.take(end as int)));
    let mut out = string_of(&head);
    push_size_note(&mut out, line_count, total);
    (out, true)
}

/// The bytes that the lines `ls` take, with one byte for the end of each.
pub open spec fn lines_bytes(ls: Seq<Seq<char>>) -> nat
    decreases ls.len(),
{
    if ls.len() == 0 {
        0
    } else {
        lines_bytes(ls.drop_last()) + byte_len(ls.last()) + 1
    }
}

/// The byte offset at which the tail of `s` is meant to start: behind
/// the lines that are too many, and no more than `max_bytes` bytes before
/// the end.
pub open spec fn tail_offset(s: Seq<char>, max_lines: nat, max_bytes: nat) -> nat {
    let ls = lines(s);
    let skipped = if ls.len() > max_lines {
        lines_bytes(ls.take(ls.len() - max_lines))
    } else {
        0
    };
    let floor = if byte_len(s) > max_bytes {
        (byte_len(s) - max_bytes) as nat
    } else {
        0
    };
    if skipped >= floor {
        skipped
    } else {
        floor
    }
}

/// The tail of `s` and whether anything was cut: `s` itself where it
/// fits, else the note and what stands from the first character boundary
/// at or behind the offset on.
pub open spec fn tail_truncated(s: Seq<char>, max_lines: nat, max_bytes: nat) -> (Seq<char>, bool) {
    if fits(s, max_lines, max_bytes) {
        (s, false)
    } else {
        (
            size_note(lines(s).len(), byte_len(s)) + seq!['\n'] + s.skip(
                reach_chars(s, tail_offset(s, max_lines, max_bytes)) as int,
            ),
            true,
        )
    }
}

/// Behind the end of the text, every offset is reached by all of it.
pub proof fn lemma_reach_beyond(s: Seq<char>, i: nat)
    requires
        i >= byte_len(s),
    ensures
        reach_chars(s, i) == s.len(),
{
    if s.len() > 0 {
        lemma_byte_len_take_next(s, s.len() - 1);
        assert(s.take(s.len() as int) =~= s);
    }
    lemma_reach_chars(s, i, s.len() as int);
}

/// Counts the characters that it takes to reach the byte offset `i`.
pub fn reach_prefix(chars: &Vec<char>, i: usize) -> (k: usize)
    requires
        byte_len(chars@) <= usize::MAX,
    ensures
        k == reach_chars(chars@, i as nat),
        k <= chars.len(),
{
    let mut k: usize = 0;
    let mut bytes: usize = 0;
    while k < chars.len() && bytes < i
        invariant
            k <= chars.len(),
            byte_len(chars@) <= usize::MAX,
            bytes == byte_len(chars@.take(k as int)),
            k == 0 || byte_len(chars@.take(k - 1)) < i,
        decreases chars.len() - k,
    {
        let w = char_width(chars[k]);
        proof {
            lemma_byte_len_take_next(chars@, k as int);
            lemma_byte_len_monotonic(chars@, k + 1, chars@.len() as int);
            assert(chars@.take(chars@.len() as int) =~= chars@);
        }
        bytes += w;
        k += 1;
    }
    proof {
        lemma_reach_chars(chars@, i as nat, k as int);
    }
    k
}

/// Keeps the last lines of `s`, no more than `max_lines` of them and no
/// more than `max_bytes` bytes. Returns the text, and whether it was cut.
pub fn truncate_tail(s: &str, max_lines: usize, max_bytes: usize) -> (out: (String, bool))
    ensures
        (out.0@, out.1) == tail_truncated(s@, max_lines as nat, max_bytes as nat),
{
    let chars = chars_of(s);
    let total = byte_len_of(s);
    let all_lines = split_lines(&chars);
    let line_count = all_lines.len();
    assert(texts(all_lines@).len() == all_lines.len());
    if total <= max_bytes && line_count <= max_lines {
        return (String::from_str(s), false);
    }
    let skip_lines: usize = if line_count > max_lines {
        line_count - max_lines
    } else {
        0
    };
    let ghost ls = lines(s@);
    // The offset is capped at the length of the text: behind it, every
    // offset means the end.
    let mut offset: usize = 0;
    let mut capped = false;
    let mut i: usize = 0;
    assert(ls.take(0) =~= Seq::<Seq<char>>::empty());
    while i < skip_lines
        invariant
            i <= skip_lines <= all_lines.len(),
            ls == texts(all_lines@),
            total == byte_len(s@),
            !capped ==> offset == lines_bytes(ls.take(i as int)),
            !capped ==> offset <= total,
            capped ==> lines_bytes(ls.take(i as int)) > total,
        decreases skip_lines - i,
    {
        let n = byte_len_of(all_lines[i].as_str());
        proof {
            assert(ls.take(i + 1).drop_last() =~= ls.take(i as int));
            assert(ls.take(i + 1).last() == all_lines@[i as int]@);
        }
        if !capped {
            if n >= total - offset {
                capped = true;
            } else {
                offset = offset + n + 1;
            }
        }
        i += 1;
    }
    let floor: usize = if total > max_bytes {
        total - max_bytes
    } else {
        0
    };
    let start: usize = if capped {
        total
    } else if offset >= floor {
        offset
    } else {
        floor
    };
    let k = reach_prefix(&chars, start);
    proof {
        let want = tail_offset(s@, max_lines as nat, max_bytes as nat);
        if skip_lines == 0 {
            assert(ls.take(0) =~= Seq::<Seq<char>>::empty());
        }
        if capped {
            lemma_reach_beyond(s@, want);
            lemma_reach_beyond(s@, start as nat);
        }
    }
    let mut out = String::new();
    push_size_note(&mut out, line_count, total);
    out.push('\n');
    let mut tail: Vec<char> = Vec::new();
    push_range(&mut tail, &chars, k, chars.len());
    assert(tail@ =~= s@.skip(k as int));
    let tail_text = string_of(&tail);
    out.append(tail_text.as_str());
    assert(out@ =~= tail_truncated(s@, max_lines as nat, max_bytes as nat).0);
    (out, true)
}

/// The plain character that stands for `c` when texts are compared
/// loosely: a straight quote for a curly one, a hyphen for a dash.
pub open spec fn plain_char(c: char) -> char {
    if c == '\u{2018}' || c == '\u{2019}' {
        '\''
    } else if c == '\u{201C}' || c == '\u{201D}' {
        '"'
    } else if c == '\u{2013}' || c == '\u{2014}' {
        '-'
    } else {
        c
    }
}

/// The plain character that stands for `c` when texts are compared
/// loosely.
pub fn to_plain_char(c: char) -> (plain: char)
    ensures
        plain == plain_char(c),
{
    if c == '\u{2018}' || c == '\u{2019}' {
        '\''
    } else if c == '\u{201C}' || c == '\u{201D}' {
        '"'
    } else if c == '\u{2013}' || c == '\u{2014}' {
        '-'
    } else {
        c
    }
}

/// `s` with plain characters and with one space for each run of white
/// space but the one that it starts with; and whether it ends in white
/// space.
pub open spec fn collapsed(s: Seq<char>) -> (Seq<char>, bool)
    decreases s.len(),
{
    if s.len() == 0 {
        (Seq::empty(), false)
    } else {
        let before = collapsed(s.drop_last());
        let c = plain_char(s.last());
        if is_space(c) {
            (
                if !before.1 && before.0.len() > 0 {
                    before.0.push(' ')
                } else {
                    before.0
                },
                true,
            )
        } else {
            (before.0.push(c), false)
        }
    }
}

/// `s` as it is compared loosely: plain characters, one space for each
/// run of white space inside, none at the ends.
pub open spec fn normalized(s: Seq<char>) -> Seq<char> {
    let out = collapsed(s).0;
    if out.len() > 0 && out.last() == ' ' {
        out.drop_last()
    } else {
        out
    }
}

/// Makes the characters of `chars` ready for loose comparison.
pub fn normalize_chars(chars: &Vec<char>) -> (out: Vec<char>)
    ensures
        out@ == normalized(chars@),
{
    let mut out: Vec<char> = Vec::new();
    let mut prev_ws = false;
    let mut i: usize = 0;
    assert(chars@.take(0) =~= Seq::<char>::empty());
    while i < chars.len()
        invariant
            i <= chars.len(),
            (out@, prev_ws) == collapsed(chars@.take(i as int)),
        decreases chars.len() - i,
    {
        assert(chars@.take(i + 1).drop_last() =~= chars@.take(i as int));
        let mapped = to_plain_char(chars[i]);
        if is_whitespace(mapped) {
            if !prev_ws && out.len() > 0 {
                out.push(' ');
            }
            prev_ws = true;
        } else {
            out.push(mapped);
            prev_ws = false;
        }
        i += 1;
    }
    assert(chars@.take(chars.len() as int) =~= chars@);
    let n = out.len();
    if n > 0 && out[n - 1] == ' ' {
        out.pop();
        assert(out@ =~= collapsed(chars@).0.drop_last());
    }
    out
}

/// Makes a text ready for loose comparison: curly quotes and dashes
/// become plain, each run of white space becomes one space, and the white
/// space at the ends goes.
pub fn normalize_for_match(s: &str) -> (out: String)
    ensures
        out@ == normalized(s@),
{
    let chars = chars_of(s);
    let out = normalize_chars(&chars);
    string_of(&out)
}

/// Lines of context that a diff shows on each side of an edit.
pub const DIFF_CONTEXT: usize = 3;

/// The line in which the character at index `at` of `full` stands,
/// counted from 0.
pub open spec fn line_of(full: Seq<char>, at: int) -> nat {
    if at == 0 {
        0
    } else if full[at - 1] == '\n' {
        lines(full.take(at)).len()
    } else if lines(full.take(at)).len() > 0 {
        (lines(full.take(at)).len() - 1) as nat
    } else {
        0
    }
}

/// The header of the one hunk of a diff: where it starts, and how many
/// lines it holds before and behind the edit.
pub open spec fn hunk_header(ctx_start: nat, old_count: nat, new_count: nat) -> Seq<char> {
    "@@ -"@ + decimal(ctx_start + 1) + ","@ + decimal(old_count) + " +"@ + decimal(ctx_start + 1)
        + ","@ + decimal(new_count) + " @@\n"@
}

/// The two lines that name the file, and the header of the hunk.
pub open spec fn diff_head(path: Seq<char>, ctx_start: nat, old_count: nat, new_count: nat) -> Seq<
    char,
> {
    "--- "@ + path + "\n+++ "@ + path + "\n"@ + hunk_header(ctx_start, old_count, new_count)
}

/// The lines from which a diff is made: those of the file, those that
/// come, and where in the file the edit and its context start and end.
pub struct DiffParts {
    pub old_lines: Seq<Seq<char>>,
    pub new_lines: Seq<Seq<char>>,
    pub ctx_start: int,
    pub start: int,
    pub end: int,
    pub ctx_end: int,
}

/// The diff that is made from the given lines.
pub open spec fn diff_of(path: Seq<char>, parts: DiffParts) -> Seq<char> {
    diff_head(
        path,
        parts.ctx_start as nat,
        (parts.ctx_end - parts.ctx_start) as nat,
        ((parts.start - parts.ctx_start) + parts.new_lines.len() + (parts.ctx_end - parts.end)) as nat,
    ) + prefixed_lines(" "@, parts.old_lines.subrange(parts.ctx_start, parts.start))
        + prefixed_lines("-"@, parts.old_lines.subrange(parts.start, parts.end)) + prefixed_lines(
        "+"@,
        parts.new_lines,
    ) + prefixed_lines(" "@, parts.old_lines.subrange(parts.end, parts.ctx_end))
}

/// Where the edit at character `at` of `full` and its context start and
/// end: the edit in the line of `at`, over as many lines as `old_text` has
/// and at least one, the context up to three lines before and behind it,
/// all within the lines of `full`.
pub open spec fn diff_parts(full: Seq<char>, at: int, old_text: Seq<char>, new_text: Seq<char>) -> DiffParts {
    let n = lines(full).len() as int;
    let start = line_of(full, at) as int;
    let count = if lines(old_text).len() > 1 {
        lines(old_text).len() as int
    } else {
        1
    };
    let end = if start + count < n {
        start + count
    } else {
        n
    };
    DiffParts {
        old_lines: lines(full),
        new_lines: lines(new_text),
        ctx_start: if start >= DIFF_CONTEXT {
            start - DIFF_CONTEXT
        } else {
            0
        },
        start,
        end,
        ctx_end: if end + DIFF_CONTEXT < n {
            end + DIFF_CONTEXT
        } else {
            n
        },
    }
}

/// The diff of the edit that puts `new_text` in the place of the first
/// `old_text` in `full`, with up to three lines of context on each side;
/// nothing where `old_text` does not stand in `full`.
pub open spec fn edit_diff_text(
    path: Seq<char>,
    full: Seq<char>,
    old_text: Seq<char>,
    new_text: Seq<char>,
) -> Seq<char> {
    let at = find_index(full, old_text, 0);
    if at > full.len() {
        Seq::empty()
    } else {
        diff_of(path, diff_parts(full, at, old_text, new_text))
    }
}

fn push_diff_head(out: &mut String, path: &str, ctx_start: usize, old_count: usize, new_count: u128)
    ensures
        final(out)@ == old(out)@ + diff_head(
            path@,
            ctx_start as nat,
            old_count as nat,
            new_count as nat,
        ),
{
    out.append("--- ");
    out.append(path);
    out.append("\n+++ ");
    out.append(path);
    out.append("\n");
    let ghost names = out@;
    assert(names =~= old(out)@ + ("--- "@ + path@ + "\n+++ "@ + path@ + "\n"@));
    out.append("@@ -");
    push_decimal_wide(out, ctx_start as u128 + 1);
    out.append(",");
    push_decimal_wide(out, old_count as u128);
    out.append(" +");
    push_decimal_wide(out, ctx_start as u128 + 1);
    out.append(",");
    push_decimal_wide(out, new_count);
    out.append(" @@\n");
    assert(out@ =~= names + hunk_header(ctx_start as nat, old_count as nat, new_count as nat));
    assert(out@ =~= old(out)@ + diff_head(
        path@,
        ctx_start as nat,
        old_count as nat,
        new_count as nat,
    ));
}

fn line_index(full: &Vec<char>, at: usize) -> (line: usize)
    requires
        at <= full.len(),
    ensures
        line == line_of(full@, at as int),
        line <= lines(full@).len(),
{
    let mut prefix: Vec<char> = Vec::new();
    push_range(&mut prefix, full, 0, at);
    assert(prefix@ =~= full@.take(at as int));
    let prefix_lines = split_lines(&prefix);
    assert(texts(prefix_lines@).len() == prefix_lines.len());
    proof {
        lemma_lines_of_prefix(full@, at as int);
    }
    if at == 0 {
        0
    } else if full[at - 1] == '\n' {
        prefix_lines.len()
    } else if prefix_lines.len() > 0 {
        prefix_lines.len() - 1
    } else {
        0
    }
}

fn push_diff(
    out: &mut String,
    path: &str,
    old_lines: &Vec<String>,
    new_lines: &Vec<String>,
    ctx_start: usize,
    start: usize,
    end: usize,
    ctx_end: usize,
)
    requires
        ctx_start <= start <= end <= ctx_end <= old_lines.len(),
        old(out)@.len() == 0,
    ensures
        final(out)@ == diff_of(
            path@,
            DiffParts {
                old_lines: texts(old_lines@),
                new_lines: texts(new_lines@),
                ctx_start: ctx_start as int,
                start: start as int,
                end: end as int,
                ctx_end: ctx_end as int,
            },
        ),
{
    let new_count: u128 = (start - ctx_start) as u128 + new_lines.len() as u128 + (ctx_end
        - end) as u128;
    push_diff_head(out, path, ctx_start, ctx_end - ctx_start, new_count);
    let ghost head = out@;
    assert(head =~= diff_head(
        path@,
        ctx_start as nat,
        (ctx_end - ctx_start) as nat,
        new_count as nat,
    ));
    push_prefixed_lines(out, " ", old_lines, ctx_start, start);
    push_prefixed_lines(out, "-", old_lines, start, end);
    push_prefixed_lines(out, "+", new_lines, 0, new_lines.len());
    assert(texts(new_lines@).subrange(0, new_lines.len() as int) =~= texts(new_lines@));
    push_prefixed_lines(out, " ", old_lines, end, ctx_end);
}

/// Writes the diff of an edit that replaces one region of a file: the
/// first place where `old_text` stands in `full_old`.
pub fn edit_diff(path: &str, full_old: &str, old_text: &str, new_text: &str) -> (out: String)
    ensures
        out@ == edit_diff_text(path@, full_old@, old_text@, new_text@),
{
    let full = chars_of(full_old);
    let old = chars_of(old_text);
    let found = find_chars(&full, &old);
    proof {
        lemma_find_index(
            full@,
            old@,
            0,
            match found {
                Some(i) => Some(i as int),
                None => None,
            },
        );
    }
    let at = match found {
        Some(i) => i,
        None => {
            return String::new();
        },
    };
    let old_lines = split_lines(&full);
    assert(texts(old_lines@).len() == old_lines.len());
    let start = line_index(&full, at);
    let old_split = split_lines(&old);
    assert(texts(old_split@).len() == old_split.len());
    let count: usize = if old_split.len() > 1 {
        old_split.len()
    } else {
        1
    };
    let new_chars = chars_of(new_text);
    let new_lines = split_lines(&new_chars);
    let n = old_lines.len();
    let end: usize = if count < n - start {
        start + count
    } else {
        n
    };
    let ctx_start: usize = if start >= DIFF_CONTEXT {
        start - DIFF_CONTEXT
    } else {
        0
    };
    let ctx_end: usize = if DIFF_CONTEXT < n - end {
        end + DIFF_CONTEXT
    } else {
        n
    };
    let mut out = String::new();
    push_diff(&mut out, path, &old_lines, &new_lines, ctx_start, start, end, ctx_end);
    out
}

} // verus!
