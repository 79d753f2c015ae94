use crate::session::{bytes_before, join_path, joined, text_before};
use crate::text::{
    byte_len, byte_len_of, chars_of, count_leading_space, decimal, find_char, find_from,
    find_index, index_of, is_match_at, lemma_find_index, lines, matches_at, push_decimal_wide,
    push_range, same_text, split_lines, string_of, texts, trim_range, trimmed, trimmed_start,
};
use crate::tool::{candidate_path, is_within, path_within};
use crate::util::range_bytes;
use vstd::prelude::*;
use vstd::utf8::encode_utf8;
use vstd::string::{StringExecFns, StrSliceExecFns};

verus! {

/// A skill that can be loaded into a session.
#[derive(Debug, PartialEq)]
pub struct Skill {
    pub name: String,
    pub description: String,
    pub path: String,
}

/// The fields of the front matter of a skill file.
#[derive(Debug, PartialEq)]
pub struct Frontmatter {
    pub name: Option<String>,
    pub description: Option<String>,
    /// Byte offset of the body in the content, counted behind the white
    /// space that the content starts with.
    pub body_start: usize,
}

/// What a `Frontmatter` stands for.
pub struct FrontmatterView {
    pub name: Option<Seq<char>>,
    pub description: Option<Seq<char>>,
    pub body_start: nat,
}

/// What an optional string stands for.
pub open spec fn optional_text(s: Option<String>) -> Option<Seq<char>> {
    match s {
        Some(t) => Some(t@),
        None => None,
    }
}

impl View for Frontmatter {
    type V = FrontmatterView;

    open spec fn view(&self) -> FrontmatterView {
        FrontmatterView {
            name: optional_text(self.name),
            description: optional_text(self.description),
            body_start: self.body_start as nat,
        }
    }
}

/// How many characters the opening fence takes with the end of its line;
/// nothing where the text does not start with a fence on a line of its
/// own.
pub open spec fn opening_len(t: Seq<char>) -> Option<int> {
    if !matches_at(t, "---"@, 0) {
        None
    } else if matches_at(t, "\n"@, 3) {
        Some(4)
    } else if matches_at(t, "\r\n"@, 3) {
        Some(5)
    } else {
        None
    }
}

/// Where the closing fence starts in what follows the opening fence:
/// at once, or behind the first line feed that a fence follows.
pub open spec fn closing_at(after: Seq<char>) -> Option<int> {
    if matches_at(after, "---"@, 0) {
        Some(0)
    } else if find_index(after, "\n---"@, 0) > after.len() {
        None
    } else {
        Some(find_index(after, "\n---"@, 0) + 1)
    }
}

/// The name and the description that the lines `ls` set. A line sets a
/// field where it holds a colon, behind the key and before the value;
/// white space around either does not count, nor do empty lines and lines
/// that start with `#`. The last line that sets a field decides.
pub open spec fn yaml_fields(ls: Seq<Seq<char>>) -> (Option<Seq<char>>, Option<Seq<char>>)
    decreases ls.len(),
{
    if ls.len() == 0 {
        (None, None)
    } else {
        let before = yaml_fields(ls.drop_last());
        let l = trimmed(ls.last());
        if l.len() == 0 || l[0] == '#' || index_of(l, ':') >= l.len() {
            before
        } else {
            let key = trimmed(l.take(index_of(l, ':')));
            let value = trimmed(l.skip(index_of(l, ':') + 1));
            if key == "name"@ {
                (Some(value), before.1)
            } else if key == "description"@ {
                (before.0, Some(value))
            } else {
                before
            }
        }
    }
}

/// Where the body starts: behind the closing fence, and behind the end of
/// its line where one follows at once.
pub open spec fn body_index(t: Seq<char>, fence_end: int) -> int {
    if fence_end < t.len() && t[fence_end] == '\n' {
        fence_end + 1
    } else if fence_end + 1 < t.len() && t[fence_end] == '\r' && t[fence_end + 1] == '\n' {
        fence_end + 2
    } else {
        fence_end
    }
}

/// The front matter of a skill file, where it has one.
pub open spec fn frontmatter_of(content: Seq<char>) -> Option<FrontmatterView> {
    let t = trimmed_start(content);
    match opening_len(t) {
        None => None,
        Some(open) => match closing_at(t.skip(open)) {
            None => None,
            Some(close) => {
                let yaml = if close == 0 {
                    Seq::empty()
                } else {
                    t.skip(open).take(close - 1)
                };
                let fields = yaml_fields(lines(yaml));
                Some(
                    FrontmatterView {
                        name: fields.0,
                        description: fields.1,
                        body_start: byte_len(t.take(body_index(t, open + close + 3))),
                    },
                )
            },
        },
    }
}

fn stands_at(chars: &Vec<char>, lit: &str, i: usize) -> (found: bool)
    ensures
        found == matches_at(chars@, lit@, i as int),
{
    let needle = chars_of(lit);
    is_match_at(chars, &needle, i)
}

fn range_text(chars: &Vec<char>, from: usize, to: usize) -> (out: String)
    requires
        from <= to <= chars.len(),
    ensures
        out@ == chars@.subrange(from as int, to as int),
{
    let mut part: Vec<char> = Vec::new();
    push_range(&mut part, chars, from, to);
    string_of(&part)
}

fn read_yaml_fields(yaml: &Vec<char>) -> (fields: (Option<String>, Option<String>))
    ensures
        (optional_text(fields.0), optional_text(fields.1)) == yaml_fields(lines(yaml@)),
{
    let ls = split_lines(yaml);
    let mut name: Option<String> = None;
    let mut description: Option<String> = None;
    let mut i: usize = 0;
    let ghost all = texts(ls@);
    assert(all.take(0) =~= Seq::<Seq<char>>::empty());
    while i < ls.len()
        invariant
            i <= ls.len(),
            all == texts(ls@),
            (optional_text(name), optional_text(description)) == yaml_fields(all.take(i as int)),
        decreases ls.len() - i,
    {
        assert(all.take(i + 1).drop_last() =~= all.take(i as int));
        assert(all.take(i + 1).last() == ls@[i as int]@);
        let line = chars_of(ls[i].as_str());
        let bounds = trim_range(&line, 0, line.len());
        assert(line@.subrange(0, line.len() as int) =~= line@);
        let ghost l = trimmed(line@);
        assert(l.len() == bounds.1 - bounds.0);
        if bounds.0 < bounds.1 && line[bounds.0] != '#' {
            assert(l[0] == line@[bounds.0 as int]);
            let colon = find_char(&line, bounds.0, bounds.1, ':');
            if colon < bounds.1 {
                let key_bounds = trim_range(&line, bounds.0, colon);
                let value_bounds = trim_range(&line, colon + 1, bounds.1);
                proof {
                    let c = index_of(l, ':');
                    assert(c == colon - bounds.0);
                    assert(l.take(c) =~= line@.subrange(bounds.0 as int, colon as int));
                    assert(l.skip(c + 1) =~= line@.subrange(colon + 1, bounds.1 as int));
                }
                let key = range_text(&line, key_bounds.0, key_bounds.1);
                if same_text(key.as_str(), "name") {
                    name = Some(range_text(&line, value_bounds.0, value_bounds.1));
                } else if same_text(key.as_str(), "description") {
                    description = Some(range_text(&line, value_bounds.0, value_bounds.1));
                }
            }
        }
        i += 1;
    }
    assert(all.take(ls.len() as int) =~= all);
    (name, description)
}

/// Reads the front matter of a skill file: the lines between a fence of
/// three hyphens at the start and the next such fence.
pub fn parse_frontmatter(content: &str) -> (front: Option<Frontmatter>)
    ensures
        match front {
            Some(f) => frontmatter_of(content@) == Some(f@),
            None => frontmatter_of(content@) is None,
        },
{
    let all = chars_of(content);
    let lead = count_leading_space(&all, 0, all.len());
    assert(all@.subrange(0, all.len() as int) =~= all@);
    let mut t: Vec<char> = Vec::new();
    push_range(&mut t, &all, lead, all.len());
    assert(t@ =~= trimmed_start(content@));
    proof {
        reveal_strlit("---");
        reveal_strlit("\n");
        reveal_strlit("\r\n");
        reveal_strlit("\n---");
    }
    if !stands_at(&t, "---", 0) {
        return None;
    }
    let open: usize = if stands_at(&t, "\n", 3) {
        4
    } else if stands_at(&t, "\r\n", 3) {
        5
    } else {
        return None;
    };
    let mut after: Vec<char> = Vec::new();
    push_range(&mut after, &t, open, t.len());
    assert(after@ =~= t@.skip(open as int));
    let close: usize = if stands_at(&after, "---", 0) {
        0
    } else {
        let fence = chars_of("\n---");
        let found = find_from(&after, &fence, 0);
        proof {
            lemma_find_index(
                after@,
                fence@,
                0,
                match found {
                    Some(i) => Some(i as int),
                    None => None,
                },
            );
        }
        match found {
            Some(p) => p + 1,
            None => {
                return None;
            },
        }
    };
    let mut yaml: Vec<char> = Vec::new();
    if close > 0 {
        push_range(&mut yaml, &after, 0, close - 1);
        assert(yaml@ =~= after@.take(close - 1));
    }
    let fields = read_yaml_fields(&yaml);
    let fence_end: usize = open + close + 3;
    let body: usize = if fence_end < t.len() && t[fence_end] == '\n' {
        fence_end + 1
    } else if fence_end < t.len() - 1 && t[fence_end] == '\r' && t[fence_end + 1] == '\n' {
        fence_end + 2
    } else {
        fence_end
    };
    let total = byte_len_of(content);
    proof {
        crate::util::lemma_byte_len_subrange(all@, lead as int, all.len() as int);
        assert(all@.subrange(lead as int, all.len() as int) =~= t@);
    }
    let body_start = range_bytes(&t, 0, body);
    assert(t@.subrange(0, body as int) =~= t@.take(body as int));
    Some(Frontmatter { name: fields.0, description: fields.1, body_start })
}

/// Longest name of a skill, in bytes.
pub const MAX_NAME_BYTES: usize = 64;

/// Whether `c` may stand in the name of a skill: a lowercase letter of
/// ASCII, a digit, or a hyphen.
pub open spec fn is_name_char(c: char) -> bool {
    ('a' <= c <= 'z') || ('0' <= c <= '9') || c == '-'
}

/// Index of the first character of `name` that may not stand in a name,
/// or the length of `name` where there is none.
pub open spec fn first_bad_char(name: Seq<char>) -> int
    decreases name.len(),
{
    if name.len() == 0 || !is_name_char(name[0]) {
        0
    } else {
        1 + first_bad_char(name.drop_first())
    }
}

proof fn lemma_first_bad_char(name: Seq<char>, k: int)
    requires
        0 <= k <= name.len(),
        forall|j: int| 0 <= j < k ==> is_name_char(#[trigger] name[j]),
        k == name.len() || !is_name_char(name[k]),
    ensures
        first_bad_char(name) == k,
    decreases name.len(),
{
    if k > 0 {
        let t = name.drop_first();
        assert forall|j: int| 0 <= j < k - 1 implies is_name_char(#[trigger] t[j]) by {
            assert(t[j] == name[j + 1]);
        }
        lemma_first_bad_char(t, k - 1);
    }
}

/// What is wrong with the name of a skill, in the words that the user is
/// told; nothing where the name is good. A name is good where it takes 1
/// to 64 bytes, neither starts nor ends with a hyphen, holds no two
/// hyphens in a row, and holds lowercase letters, digits and hyphens only.
/// The first of these that fails is named.
pub open spec fn name_fault(name: Seq<char>) -> Option<Seq<char>> {
    if name.len() == 0 || byte_len(name) > MAX_NAME_BYTES {
        Some("name must be 1-64 chars, got "@ + decimal(byte_len(name)))
    } else if name[0] == '-' || name.last() == '-' {
        Some("name must not start or end with hyphen"@)
    } else if find_index(name, "--"@, 0) <= name.len() {
        Some("name must not contain consecutive hyphens"@)
    } else if first_bad_char(name) < name.len() {
        Some(
            "invalid character '"@ + seq![name[first_bad_char(name)]]
                + "' (lowercase a-z, 0-9, hyphens only)"@,
        )
    } else {
        None
    }
}

/// Checks the name of a skill.
pub fn validate_name(name: &str) -> (checked: Result<(), String>)
    ensures
        match checked {
            Ok(_) => name_fault(name@) is None,
            Err(message) => name_fault(name@) == Some(message@),
        },
{
    let chars = chars_of(name);
    let total = byte_len_of(name);
    if chars.len() == 0 || total > MAX_NAME_BYTES {
        let mut message = String::from_str("name must be 1-64 chars, got ");
        push_decimal_wide(&mut message, total as u128);
        return Err(message);
    }
    if chars[0] == '-' || chars[chars.len() - 1] == '-' {
        return Err(String::from_str("name must not start or end with hyphen"));
    }
    let twice = chars_of("--");
    let found = find_from(&chars, &twice, 0);
    proof {
        lemma_find_index(
            chars@,
            twice@,
            0,
            match found {
                Some(i) => Some(i as int),
                None => None,
            },
        );
    }
    if found.is_some() {
        return Err(String::from_str("name must not contain consecutive hyphens"));
    }
    let mut i: usize = 0;
    while i < chars.len()
        invariant
            i <= chars.len(),
            chars@ == name@,
            name@.len() > 0,
            byte_len(name@) <= MAX_NAME_BYTES,
            name@[0] != '-',
            name@.last() != '-',
            find_index(name@, "--"@, 0) > name@.len(),
            forall|j: int| 0 <= j < i ==> is_name_char(#[trigger] chars@[j]),
        decreases chars.len() - i,
    {
        let c = chars[i];
        if !(('a' <= c && c <= 'z') || ('0' <= c && c <= '9') || c == '-') {
            proof {
                lemma_first_bad_char(chars@, i as int);
            }
            let mut message = String::from_str("invalid character '");
            message.push(c);
            message.append("' (lowercase a-z, 0-9, hyphens only)");
            assert(message@ =~= "invalid character '"@ + seq![c]
                + "' (lowercase a-z, 0-9, hyphens only)"@);
            return Err(message);
        }
        i += 1;
    }
    proof {
        lemma_first_bad_char(chars@, i as int);
    }
    Ok(())
}

/// The entry of one skill in the list that the model is shown.
pub open spec fn skill_entry(skill: Skill) -> Seq<char> {
    "<skill name=\""@ + skill.name@ + "\" path=\""@ + skill.path@ + "\">\n"@ + skill.description@
        + "\n</skill>\n"@
}

/// The entries of the skills `skills`, one behind the other.
pub open spec fn skill_entries(skills: Seq<Skill>) -> Seq<char>
    decreases skills.len(),
{
    if skills.len() == 0 {
        Seq::empty()
    } else {
        skill_entries(skills.drop_last()) + skill_entry(skills.last())
    }
}

/// The list of skills that the model is shown: nothing where there are
/// none.
pub open spec fn skills_text(skills: Seq<Skill>) -> Seq<char> {
    if skills.len() == 0 {
        Seq::empty()
    } else {
        "<available-skills>\n"@ + skill_entries(skills) + "</available-skills>"@
    }
}

/// Writes the list of skills that the model is shown.
pub fn format_skills(skills: &[Skill]) -> (out: String)
    ensures
        out@ == skills_text(skills@),
{
    if skills.len() == 0 {
        return String::new();
    }
    let mut out = String::from_str("<available-skills>\n");
    let mut i: usize = 0;
    assert(skills@.take(0) =~= Seq::<Skill>::empty());
    assert(out@ =~= "<available-skills>\n"@ + skill_entries(skills@.take(0)));
    while i < skills.len()
        invariant
            i <= skills.len(),
            out@ == "<available-skills>\n"@ + skill_entries(skills@.take(i as int)),
        decreases skills.len() - i,
    {
        assert(skills@.take(i + 1).drop_last() =~= skills@.take(i as int));
        let skill = &skills[i];
        out.append("<skill name=\"");
        out.append(skill.name.as_str());
        out.append("\" path=\"");
        out.append(skill.path.as_str());
        out.append("\">\n");
        out.append(skill.description.as_str());
        out.append("\n</skill>\n");
        assert(out@ =~= "<available-skills>\n"@ + skill_entries(skills@.take(i + 1)));
        i += 1;
    }
    assert(skills@.take(skills.len() as int) =~= skills@);
    out.append("</available-skills>");
    out
}

/// Index of the body of a skill file: behind the front matter, where the
/// file has one that is closed; 0 where it has none.
pub open spec fn body_offset(content: Seq<char>) -> int {
    let lead = content.len() - trimmed_start(content).len();
    let t = trimmed_start(content);
    match opening_len(t) {
        None => 0,
        Some(open) => {
            let after = t.skip(open);
            let p = find_index(after, "\n---"@, 0);
            if p > after.len() {
                0
            } else {
                let rest = open + p + 4;
                lead + if matches_at(t, "\n"@, rest) {
                    rest + 1
                } else if matches_at(t, "\r\n"@, rest) {
                    rest + 2
                } else {
                    rest
                }
            }
        },
    }
}

/// The body of a skill file: what follows its front matter, or all of it
/// where it has none.
pub open spec fn body_of(content: Seq<char>) -> Seq<char> {
    content.skip(body_offset(content))
}

/// Extracts the body of a skill file.
pub fn skill_body(content: &str) -> (body: &str)
    ensures
        body@ == body_of(content@),
{
    let all = chars_of(content);
    let lead = count_leading_space(&all, 0, all.len());
    assert(all@.subrange(0, all.len() as int) =~= all@);
    let mut t: Vec<char> = Vec::new();
    push_range(&mut t, &all, lead, all.len());
    assert(t@ =~= trimmed_start(content@));
    assert(content@.skip(0) =~= content@);
    proof {
        reveal_strlit("---");
        reveal_strlit("\n");
        reveal_strlit("\r\n");
        reveal_strlit("\n---");
    }
    if !stands_at(&t, "---", 0) {
        return content;
    }
    let open: usize = if stands_at(&t, "\n", 3) {
        4
    } else if stands_at(&t, "\r\n", 3) {
        5
    } else {
        return content;
    };
    let mut after: Vec<char> = Vec::new();
    push_range(&mut after, &t, open, t.len());
    assert(after@ =~= t@.skip(open as int));
    let fence = chars_of("\n---");
    let found = find_from(&after, &fence, 0);
    proof {
        lemma_find_index(
            after@,
            fence@,
            0,
            match found {
                Some(i) => Some(i as int),
                None => None,
            },
        );
    }
    let p = match found {
        Some(p) => p,
        None => {
            return content;
        },
    };
    let rest: usize = open + p + 4;
    let start: usize = if stands_at(&t, "\n", rest) {
        rest + 1
    } else if stands_at(&t, "\r\n", rest) {
        rest + 2
    } else {
        rest
    };
    let body = content.substring_char(lead + start, all.len());
    assert(body@ =~= content@.skip(lead + start));
    body
}

impl Clone for Skill {
    fn clone(&self) -> (copy: Skill)
        ensures
            copy == *self,
    {
        Skill {
            name: self.name.clone(),
            description: self.description.clone(),
            path: self.path.clone(),
        }
    }
}

/// The skill that a file with the content `content` holds: one with the
/// name and the description of its front matter, where it has both and
/// the description is not empty.
pub open spec fn skill_fields(content: Seq<char>) -> Option<(Seq<char>, Seq<char>)> {
    match frontmatter_of(content) {
        Some(front) => match (front.name, front.description) {
            (Some(name), Some(description)) => if description.len() > 0 {
                Some((name, description))
            } else {
                None
            },
            _ => None,
        },
        None => None,
    }
}

/// Makes the skill of the file at `path` from its content.
pub fn skill_from_content(content: &str, path: String) -> (skill: Option<Skill>)
    ensures
        match skill {
            Some(s) => skill_fields(content@) == Some((s.name@, s.description@)) && s.path == path,
            None => skill_fields(content@) is None,
        },
{
    match parse_frontmatter(content) {
        Some(front) => match (front.name, front.description) {
            (Some(name), Some(description)) => {
                if description.as_str().is_empty() {
                    None
                } else {
                    Some(Skill { name, description, path })
                }
            },
            _ => None,
        },
        None => None,
    }
}

/// Whether one of `skills[..upto]` has the name `name`.
pub open spec fn named_before(skills: Seq<Skill>, upto: int, name: Seq<char>) -> bool {
    exists|j: int| 0 <= j < upto && j < skills.len() && (#[trigger] skills[j]).name@ == name
}

/// The skills of `skills` without those whose name an earlier one has.
pub open spec fn first_of_each_name(skills: Seq<Skill>) -> Seq<Skill>
    decreases skills.len(),
{
    if skills.len() == 0 {
        Seq::empty()
    } else if named_before(skills, skills.len() - 1, skills.last().name@) {
        first_of_each_name(skills.drop_last())
    } else {
        first_of_each_name(skills.drop_last()).push(skills.last())
    }
}

/// Keeps of the skills found, in the order in which they were found, the
/// first of each name. Returns them, and for each skill that was dropped
/// its index in `found`.
pub fn dedupe_skills(found: &Vec<Skill>) -> (kept: (Vec<Skill>, Vec<usize>))
    ensures
        kept.0@ == first_of_each_name(found@),
        forall|i: int|
            0 <= i < found.len() ==> (kept.1@.contains(i as usize) <==> named_before(
                found@,
                i,
                (#[trigger] found@[i]).name@,
            )),
{
    let mut kept: Vec<Skill> = Vec::new();
    let mut dropped: Vec<usize> = Vec::new();
    let mut i: usize = 0;
    assert(found@.take(0) =~= Seq::<Skill>::empty());
    while i < found.len()
        invariant
            i <= found.len(),
            kept@ == first_of_each_name(found@.take(i as int)),
            forall|k: int|
                0 <= k < kept.len() ==> named_before(found@, i as int, (#[trigger] kept@[k]).name@),
            forall|j: int|
                0 <= j < i ==> exists|k: int|
                    0 <= k < kept.len() && (#[trigger] kept@[k]).name@ == (#[trigger] found@[j]).name@,
            forall|j: int|
                0 <= j < i ==> (dropped@.contains(j as usize) <==> named_before(
                    found@,
                    j,
                    (#[trigger] found@[j]).name@,
                )),
            forall|d: int| 0 <= d < dropped.len() ==> (#[trigger] dropped@[d]) < i,
        decreases found.len() - i,
    {
        let ghost upto = found@.take(i + 1);
        assert(upto.drop_last() =~= found@.take(i as int));
        assert(upto.last() == found@[i as int]);
        let mut seen = false;
        let mut k: usize = 0;
        while k < kept.len() && !seen
            invariant
                k <= kept.len(),
                i < found.len(),
                forall|m: int| 0 <= m < k ==> (#[trigger] kept@[m]).name@ != found@[i as int].name@
                    || seen,
                seen ==> exists|m: int|
                    0 <= m < kept.len() && (#[trigger] kept@[m]).name@ == found@[i as int].name@,
            decreases kept.len() - k + if seen { 0int } else { 1int },
        {
            if same_text(kept[k].name.as_str(), found[i].name.as_str()) {
                seen = true;
            } else {
                k += 1;
            }
        }
        proof {
            let name = found@[i as int].name@;
            if seen {
                let m = choose|m: int| 0 <= m < kept.len() && (#[trigger] kept@[m]).name@ == name;
                assert(named_before(found@, i as int, kept@[m].name@));
                let j = choose|j: int|
                    0 <= j < i && j < found@.len() && (#[trigger] found@[j]).name@ == name;
                assert(upto[j] == found@[j]);
                assert(named_before(upto, upto.len() - 1, name));
            } else {
                if named_before(found@, i as int, name) {
                    let j = choose|j: int|
                        0 <= j < i && j < found@.len() && (#[trigger] found@[j]).name@ == name;
                    let m = choose|m: int|
                        0 <= m < kept.len() && (#[trigger] kept@[m]).name@ == (
                        #[trigger] found@[j]).name@;
                    assert(false);
                }
                if named_before(upto, upto.len() - 1, name) {
                    let j = choose|j: int|
                        0 <= j < upto.len() - 1 && j < upto.len() && (#[trigger] upto[j]).name@
                            == name;
                    assert(upto[j] == found@[j]);
                    assert(named_before(found@, i as int, name));
                }
            }
        }
        let ghost old_dropped = dropped@;
        let ghost old_kept = kept@;
        if seen {
            dropped.push(i);
            assert(dropped@.last() == i);
        } else {
            kept.push(found[i].clone());
        }
        proof {
            assert forall|j: int| 0 <= j < i + 1 implies (dropped@.contains(j as usize)
                <==> named_before(found@, j, (#[trigger] found@[j]).name@)) by {
                if j < i {
                    if old_dropped.contains(j as usize) {
                        let d = choose|d: int| 0 <= d < old_dropped.len() && old_dropped[d] == j as usize;
                        assert(dropped@[d] == j as usize);
                    }
                    if dropped@.contains(j as usize) {
                        let d = choose|d: int| 0 <= d < dropped@.len() && dropped@[d] == j as usize;
                        if d < old_dropped.len() {
                            assert(old_dropped[d] == j as usize);
                        }
                    }
                } else {
                    if seen {
                        assert(dropped@[dropped@.len() - 1] == i);
                    } else {
                        if dropped@.contains(j as usize) {
                            let d = choose|d: int| 0 <= d < dropped@.len() && dropped@[d] == j as usize;
                        }
                    }
                }
            }
            assert forall|k: int| 0 <= k < kept.len() implies named_before(
                found@,
                i + 1,
                (#[trigger] kept@[k]).name@,
            ) by {
                if k < old_kept.len() {
                    assert(kept@[k] == old_kept[k]);
                    let j = choose|j: int|
                        0 <= j < i && j < found@.len() && (#[trigger] found@[j]).name@
                            == old_kept[k].name@;
                    assert(0 <= j < i + 1 && found@[j].name@ == kept@[k].name@);
                } else {
                    assert(found@[i as int].name@ == kept@[k].name@);
                }
            }
            assert forall|j: int| 0 <= j < i + 1 implies exists|k: int|
                0 <= k < kept.len() && (#[trigger] kept@[k]).name@ == (#[trigger] found@[j]).name@ by {
                if j < i {
                    let k = choose|k: int|
                        0 <= k < old_kept.len() && (#[trigger] old_kept[k]).name@ == (
                        #[trigger] found@[j]).name@;
                    assert(kept@[k] == old_kept[k]);
                } else if seen {
                    let m = choose|m: int|
                        0 <= m < kept.len() && (#[trigger] kept@[m]).name@ == found@[i as int].name@;
                    assert(kept@[m].name@ == found@[j].name@);
                } else {
                    assert(kept@[kept.len() - 1].name@ == found@[j].name@);
                }
            }
        }
        i += 1;
    }
    assert(found@.take(found.len() as int) =~= found@);
    (kept, dropped)
}

/// The directory of skills below the directory `dir` that tools share.
pub open spec fn shared_skills(dir: Seq<char>) -> Seq<char> {
    joined(joined(dir, ".agents"@), "skills"@)
}

/// The directories of skills of the ancestors `ancestors` of the working
/// directory: one for each ancestor, but only for those in the
/// repository where there is one.
pub open spec fn ancestor_skills(ancestors: Seq<Seq<char>>, boundary: Option<Seq<char>>) -> Seq<
    Seq<char>,
>
    decreases ancestors.len(),
{
    if ancestors.len() == 0 {
        Seq::empty()
    } else if boundary is Some && !is_within(boundary->Some_0, ancestors.last()) {
        ancestor_skills(ancestors.drop_last(), boundary)
    } else {
        ancestor_skills(ancestors.drop_last(), boundary).push(shared_skills(ancestors.last()))
    }
}

/// `s` without the `~/` that it starts with, however often.
pub open spec fn without_tildes(s: Seq<char>) -> Seq<char>
    decreases s.len(),
{
    if matches_at(s, "~/"@, 0) && "~/"@.len() > 0 {
        without_tildes(s.skip("~/"@.len() as int))
    } else {
        s
    }
}

/// The directory that a configured path means: a path that starts with a
/// tilde lies below the home directory.
pub open spec fn configured_dir(home: Seq<char>, path: Seq<char>) -> Seq<char> {
    if path.len() > 0 && path[0] == '~' {
        if without_tildes(path).len() > 0 && without_tildes(path)[0] == '/' {
            without_tildes(path)
        } else {
            joined(home, without_tildes(path))
        }
    } else {
        path
    }
}

/// The directories that the configured paths mean, one by one.
pub open spec fn configured_dirs(home: Seq<char>, paths: Seq<Seq<char>>) -> Seq<Seq<char>> {
    Seq::new(paths.len(), |i: int| configured_dir(home, paths[i]))
}

/// The directories in which skills are looked for, in the order in which
/// they count: those of the user, those of the ancestors of the working
/// directory from the root down, those of the working directory, and
/// those that the configuration names.
pub open spec fn skill_dirs_of(
    home: Seq<char>,
    ancestors: Seq<Seq<char>>,
    boundary: Option<Seq<char>>,
    working_dir: Seq<char>,
    config_paths: Seq<Seq<char>>,
) -> Seq<Seq<char>> {
    seq![joined(joined(joined(home, ".tapir"@), "agent"@), "skills"@), shared_skills(home)]
        + ancestor_skills(ancestors, boundary) + seq![
        joined(joined(working_dir, ".tapir"@), "skills"@),
        shared_skills(working_dir),
    ] + configured_dirs(home, config_paths)
}

fn shared_skills_dir(dir: &str) -> (path: String)
    ensures
        path@ == shared_skills(dir@),
{
    let agents = join_path(dir, ".agents");
    join_path(agents.as_str(), "skills")
}

fn configured(home: &str, path: &str) -> (dir: String)
    ensures
        dir@ == configured_dir(home@, path@),
{
    let chars = chars_of(path);
    if chars.len() == 0 || chars[0] != '~' {
        return String::from_str(path);
    }
    let tilde = chars_of("~/");
    proof {
        reveal_strlit("~/");
    }
    let mut from: usize = 0;
    assert(path@.skip(0) =~= path@);
    while is_match_at(&chars, &tilde, from)
        invariant
            from <= chars.len(),
            chars@ == path@,
            tilde@ == "~/"@,
            tilde@.len() == 2,
            without_tildes(path@) == without_tildes(path@.skip(from as int)),
        decreases chars.len() - from,
    {
        proof {
            let rest = path@.skip(from as int);
            assert(rest.subrange(0, 2) =~= path@.subrange(from as int, from + 2));
            assert(matches_at(rest, "~/"@, 0));
            assert(rest.skip(2) =~= path@.skip(from + 2));
        }
        from += 2;
    }
    proof {
        let rest = path@.skip(from as int);
        if matches_at(rest, "~/"@, 0) {
            assert(rest.subrange(0, 2) =~= path@.subrange(from as int, from + 2));
            assert(matches_at(path@, "~/"@, from as int));
        }
    }
    let mut rest: Vec<char> = Vec::new();
    push_range(&mut rest, &chars, from, chars.len());
    assert(rest@ =~= path@.skip(from as int));
    let rest_text = string_of(&rest);
    candidate_path(home, rest_text.as_str())
}

/// Lists the directories in which skills are looked for. `ancestors` are
/// the ancestors of the working directory from the root down, `boundary`
/// is the root of the repository, where the working directory lies in one.
pub fn skill_dirs(
    home: &str,
    ancestors: &Vec<String>,
    boundary: Option<&str>,
    working_dir: &str,
    config_paths: &Vec<String>,
) -> (dirs: Vec<String>)
    ensures
        texts(dirs@) == skill_dirs_of(
            home@,
            texts(ancestors@),
            match boundary {
                Some(b) => Some(b@),
                None => None,
            },
            working_dir@,
            texts(config_paths@),
        ),
{
    let ghost limit = match boundary {
        Some(b) => Some(b@),
        None => None,
    };
    let mut dirs: Vec<String> = Vec::new();
    let tapir = join_path(home, ".tapir");
    let agent = join_path(tapir.as_str(), "agent");
    dirs.push(join_path(agent.as_str(), "skills"));
    dirs.push(shared_skills_dir(home));
    let ghost head = texts(dirs@);
    assert(head =~= seq![
        joined(joined(joined(home@, ".tapir"@), "agent"@), "skills"@),
        shared_skills(home@),
    ]);
    let ghost all = texts(ancestors@);
    let mut i: usize = 0;
    assert(all.take(0) =~= Seq::<Seq<char>>::empty());
    assert(head + ancestor_skills(all.take(0), limit) =~= head);
    while i < ancestors.len()
        invariant
            i <= ancestors.len(),
            all == texts(ancestors@),
            limit == match boundary {
                Some(b) => Some(b@),
                None => None,
            },
            texts(dirs@) == head + ancestor_skills(all.take(i as int), limit),
        decreases ancestors.len() - i,
    {
        let ghost before = texts(dirs@);
        assert(all.take(i + 1).drop_last() =~= all.take(i as int));
        assert(all.take(i + 1).last() == ancestors@[i as int]@);
        let inside = match boundary {
            Some(b) => path_within(b, ancestors[i].as_str()),
            None => true,
        };
        if inside {
            dirs.push(shared_skills_dir(ancestors[i].as_str()));
            assert(texts(dirs@) =~= before.push(shared_skills(ancestors@[i as int]@)));
            assert(texts(dirs@) =~= head + ancestor_skills(all.take(i + 1), limit));
        }
        i += 1;
    }
    assert(all.take(ancestors.len() as int) =~= all);
    let ghost upto_ancestors = texts(dirs@);
    let project = join_path(working_dir, ".tapir");
    dirs.push(join_path(project.as_str(), "skills"));
    dirs.push(shared_skills_dir(working_dir));
    let ghost upto_project = texts(dirs@);
    assert(upto_project =~= upto_ancestors + seq![
        joined(joined(working_dir@, ".tapir"@), "skills"@),
        shared_skills(working_dir@),
    ]);
    let ghost paths = texts(config_paths@);
    let mut k: usize = 0;
    assert(upto_project + configured_dirs(home@, paths).take(0) =~= upto_project);
    while k < config_paths.len()
        invariant
            k <= config_paths.len(),
            paths == texts(config_paths@),
            texts(dirs@) == upto_project + configured_dirs(home@, paths).take(k as int),
        decreases config_paths.len() - k,
    {
        let ghost before = texts(dirs@);
        assert(paths[k as int] == config_paths@[k as int]@);
        dirs.push(configured(home, config_paths[k].as_str()));
        assert(texts(dirs@) =~= before.push(configured_dir(home@, paths[k as int])));
        assert(configured_dirs(home@, paths).take(k + 1) =~= configured_dirs(home@, paths).take(
            k as int,
        ).push(configured_dir(home@, paths[k as int])));
        assert(texts(dirs@) =~= upto_project + configured_dirs(home@, paths).take(k + 1));
        k += 1;
    }
    assert(configured_dirs(home@, paths).take(config_paths.len() as int) =~= configured_dirs(
        home@,
        paths,
    ));
    dirs
}

/// Whether the name `a` comes before the name `b`, by their bytes.
pub open spec fn name_before(a: Seq<char>, b: Seq<char>) -> bool {
    bytes_before(encode_utf8(a), encode_utf8(b))
}

/// Of two texts, at most one comes before the other.
pub proof fn lemma_bytes_asymmetric(a: Seq<u8>, b: Seq<u8>)
    requires
        bytes_before(a, b),
    ensures
        !bytes_before(b, a),
    decreases a.len(),
{
    if a.len() > 0 && b.len() > 0 && a[0] == b[0] {
        lemma_bytes_asymmetric(a.drop_first(), b.drop_first());
    }
}

/// What does not come behind a text that does not come behind a third
/// does not come behind the third.
pub proof fn lemma_bytes_transitive(a: Seq<u8>, b: Seq<u8>, c: Seq<u8>)
    requires
        !bytes_before(b, a),
        !bytes_before(c, b),
    ensures
        !bytes_before(c, a),
    decreases a.len(),
{
    if a.len() > 0 && b.len() > 0 && c.len() > 0 && a[0] == b[0] && b[0] == c[0] {
        lemma_bytes_transitive(a.drop_first(), b.drop_first(), c.drop_first());
    }
}

/// Whether `sorted` holds the skills of `skills` in the order of their
/// names, those of one name in the order in which they stand in `skills`;
/// `from` tells for each place of `sorted` the place in `skills` that its
/// skill comes from.
pub open spec fn sorts(skills: Seq<Skill>, sorted: Seq<Skill>, from: Seq<int>) -> bool {
    &&& sorted.len() == skills.len()
    &&& from.len() == skills.len()
    &&& forall|k: int| 0 <= k < from.len() ==> 0 <= #[trigger] from[k] < skills.len()
    &&& forall|j: int, k: int| 0 <= j < k < from.len() ==> #[trigger] from[j] != #[trigger] from[k]
    &&& forall|k: int| 0 <= k < sorted.len() ==> #[trigger] sorted[k] == skills[from[k]]
    &&& forall|j: int, k: int|
        0 <= j < k < sorted.len() ==> !name_before(
            (#[trigger] sorted[k]).name@,
            (#[trigger] sorted[j]).name@,
        )
    &&& forall|j: int, k: int|
        0 <= j < k < sorted.len() && !name_before(
            (#[trigger] sorted[j]).name@,
            (#[trigger] sorted[k]).name@,
        ) ==> from[j] < from[k]
}

/// Whether `sorted` holds the skills of `skills` in the order of their
/// names, those of one name in the order in which they stand in `skills`.
pub open spec fn is_sorted_by_name(skills: Seq<Skill>, sorted: Seq<Skill>) -> bool {
    exists|from: Seq<int>| sorts(skills, sorted, from)
}

/// Puts skills into the order of their names; skills of one name keep
/// their order.
pub fn sort_skills(skills: &Vec<Skill>) -> (sorted: Vec<Skill>)
    ensures
        is_sorted_by_name(skills@, sorted@),
{
    let mut sorted: Vec<Skill> = Vec::new();
    let ghost mut from: Seq<int> = Seq::empty();
    let mut i: usize = 0;
    while i < skills.len()
        invariant
            i <= skills.len(),
            sorts(skills@.take(i as int), sorted@, from),
        decreases skills.len() - i,
    {
        let ghost upto = skills@.take(i as int);
        let ghost next = skills@.take(i + 1);
        let name = skills[i].name.as_str();
        let mut pos: usize = sorted.len();
        while pos > 0 && text_before(name, sorted[pos - 1].name.as_str())
            invariant
                pos <= sorted.len(),
                sorted.len() == i,
                i < skills.len(),
                name@ == skills@[i as int].name@,
                forall|k: int|
                    pos <= k < sorted.len() ==> name_before(name@, (#[trigger] sorted@[k]).name@),
            decreases pos,
        {
            pos -= 1;
        }
        let ghost before = sorted@;
        let ghost old_from = from;
        sorted.insert(pos, skills[i].clone());
        proof {
            from = old_from.insert(pos as int, i as int);
            let x = skills@[i as int];
            assert(sorted@ == before.insert(pos as int, x));
            assert forall|k: int| 0 <= k < from.len() implies 0 <= #[trigger] from[k]
                < next.len() by {
                if k < pos {
                    assert(from[k] == old_from[k]);
                } else if k > pos {
                    assert(from[k] == old_from[k - 1]);
                }
            }
            assert forall|j: int, k: int| 0 <= j < k < from.len() implies #[trigger] from[j]
                != #[trigger] from[k] by {
                let a = if j < pos { j } else { j - 1 };
                let b = if k < pos { k } else { k - 1 };
                if j != pos && k != pos {
                    assert(from[j] == old_from[a]);
                    assert(from[k] == old_from[b]);
                } else if j == pos {
                    assert(from[k] == old_from[b]);
                } else {
                    assert(from[j] == old_from[a]);
                }
            }
            assert forall|k: int| 0 <= k < sorted.len() implies #[trigger] sorted@[k]
                == next[from[k]] by {
                if k < pos {
                    assert(sorted@[k] == before[k]);
                    assert(from[k] == old_from[k]);
                    assert(upto[old_from[k]] == next[old_from[k]]);
                } else if k > pos {
                    assert(sorted@[k] == before[k - 1]);
                    assert(from[k] == old_from[k - 1]);
                    assert(upto[old_from[k - 1]] == next[old_from[k - 1]]);
                }
            }
            assert forall|j: int, k: int| 0 <= j < k < sorted.len() implies !name_before(
                (#[trigger] sorted@[k]).name@,
                (#[trigger] sorted@[j]).name@,
            ) by {
                let a = if j < pos { j } else { j - 1 };
                let b = if k < pos { k } else { k - 1 };
                if j != pos && k != pos {
                    assert(sorted@[j] == before[a]);
                    assert(sorted@[k] == before[b]);
                } else if j == pos {
                    assert(sorted@[k] == before[b]);
                    lemma_bytes_asymmetric(encode_utf8(x.name@), encode_utf8(before[b].name@));
                } else {
                    assert(sorted@[j] == before[a]);
                    if pos > 0 {
                        assert(!name_before(x.name@, before[pos - 1].name@));
                        if a < pos - 1 {
                            lemma_bytes_transitive(
                                encode_utf8(before[a].name@),
                                encode_utf8(before[pos - 1].name@),
                                encode_utf8(x.name@),
                            );
                        }
                    }
                }
            }
            assert forall|j: int, k: int|
                0 <= j < k < sorted.len() && !name_before(
                    (#[trigger] sorted@[j]).name@,
                    (#[trigger] sorted@[k]).name@,
                ) implies from[j] < from[k] by {
                let a = if j < pos { j } else { j - 1 };
                let b = if k < pos { k } else { k - 1 };
                if j != pos && k != pos {
                    assert(sorted@[j] == before[a]);
                    assert(sorted@[k] == before[b]);
                    assert(from[j] == old_from[a]);
                    assert(from[k] == old_from[b]);
                } else if j == pos {
                    assert(sorted@[k] == before[b]);
                    assert(name_before(x.name@, before[b].name@));
                } else {
                    assert(from[j] == old_from[a]);
                }
            }
        }
        i += 1;
    }
    assert(skills@.take(skills.len() as int) =~= skills@);
    sorted
}

} // verus!
