use crate::text::{decimal, decimal_string, digit};
use vstd::prelude::*;
use vstd::string::{StringExecFns, StringSliceAdditionalSpecFns, StrSliceExecFns};
use vstd::utf8::encode_utf8;

verus! {

/// What the index of a working directory knows of one session.
#[derive(Debug, PartialEq)]
pub struct SessionEntry {
    pub session_id: String,
    pub full_path: String,
    pub first_prompt: String,
    pub summary: String,
    pub message_count: u32,
    pub created: String,
    pub modified: String,
    pub git_branch: String,
    pub project_path: String,
}

/// The sessions of one working directory.
#[derive(Debug, PartialEq)]
pub struct SessionIndex {
    pub version: u32,
    pub entries: Vec<SessionEntry>,
    pub original_path: String,
}

impl Clone for SessionEntry {
    fn clone(&self) -> (copy: SessionEntry)
        ensures
            copy == *self,
    {
        SessionEntry {
            session_id: self.session_id.clone(),
            full_path: self.full_path.clone(),
            first_prompt: self.first_prompt.clone(),
            summary: self.summary.clone(),
            message_count: self.message_count,
            created: self.created.clone(),
            modified: self.modified.clone(),
            git_branch: self.git_branch.clone(),
            project_path: self.project_path.clone(),
        }
    }
}

/// `dir` and the relative name `name` as one path.
pub open spec fn joined(dir: Seq<char>, name: Seq<char>) -> Seq<char> {
    if dir.len() == 0 || dir.last() == '/' {
        dir + name
    } else {
        dir + seq!['/'] + name
    }
}

/// Joins a directory and a relative name to one path.
pub fn join_path(dir: &str, name: &str) -> (path: String)
    ensures
        path@ == joined(dir@, name@),
{
    let mut path = String::from_str(dir);
    let n = dir.unicode_len();
    if n > 0 && dir.get_char(n - 1) != '/' {
        path.push('/');
    }
    path.append(name);
    path
}

/// The path of the index of the sessions kept in `session_dir`.
pub fn index_path(session_dir: &str) -> (path: String)
    ensures
        path@ == joined(session_dir@, "sessions-index.json"@),
{
    join_path(session_dir, "sessions-index.json")
}

/// An index without sessions.
pub fn empty_index(project_path: &str) -> (index: SessionIndex)
    ensures
        index.version == 1,
        index.entries@.len() == 0,
        index.original_path@ == project_path@,
{
    SessionIndex { version: 1, entries: Vec::new(), original_path: String::from_str(project_path) }
}

/// The name of the transcript file of the session `id`.
pub open spec fn transcript_name(id: Seq<char>) -> Seq<char> {
    id + ".jsonl"@
}

/// The entry of a session that begins now: no prompt yet, no messages,
/// its transcript in `session_dir` under its identifier.
pub fn create_entry(session_dir: &str, working_dir: &str, id: String, now: String, branch: String) -> (entry:
    SessionEntry)
    ensures
        entry.session_id == id,
        entry.full_path@ == joined(session_dir@, transcript_name(id@)),
        entry.first_prompt@ == "No prompt"@,
        entry.summary@.len() == 0,
        entry.message_count == 0,
        entry.created == now,
        entry.modified == now,
        entry.git_branch == branch,
        entry.project_path@ == working_dir@,
{
    let mut name = id.clone();
    name.append(".jsonl");
    let full_path = join_path(session_dir, name.as_str());
    SessionEntry {
        session_id: id,
        full_path,
        first_prompt: String::from_str("No prompt"),
        summary: String::new(),
        message_count: 0,
        created: now.clone(),
        modified: now,
        git_branch: branch,
        project_path: String::from_str(working_dir),
    }
}

/// The place of the first entry of the session `id`, or the number of
/// entries where there is none.
pub open spec fn place_of(entries: Seq<SessionEntry>, id: Seq<char>) -> int
    decreases entries.len(),
{
    if entries.len() == 0 {
        0
    } else if entries[0].session_id@ == id {
        0
    } else {
        1 + place_of(entries.drop_first(), id)
    }
}

proof fn lemma_place_of(entries: Seq<SessionEntry>, id: Seq<char>, at: int)
    requires
        0 <= at <= entries.len(),
        forall|j: int| 0 <= j < at ==> (#[trigger] entries[j]).session_id@ != id,
        at == entries.len() || entries[at].session_id@ == id,
    ensures
        place_of(entries, id) == at,
    decreases entries.len(),
{
    if entries.len() > 0 && entries[0].session_id@ != id {
        let rest = entries.drop_first();
        assert forall|j: int| 0 <= j < at - 1 implies (#[trigger] rest[j]).session_id@ != id by {
            assert(rest[j] == entries[j + 1]);
        }
        lemma_place_of(rest, id, at - 1);
    }
}

/// Records `entry` in the index: in place of the first entry of the same
/// session, or behind all entries where the session is new. An index that
/// names no project takes that of the entry.
pub fn update_entry(index: &mut SessionIndex, entry: &SessionEntry)
    ensures
        final(index).version == old(index).version,
        place_of(old(index).entries@, entry.session_id@) < old(index).entries@.len() ==> final(index).entries@
            == old(index).entries@.update(place_of(old(index).entries@, entry.session_id@), *entry),
        place_of(old(index).entries@, entry.session_id@) >= old(index).entries@.len() ==> final(index).entries@
            == old(index).entries@.push(*entry),
        final(index).original_path@ == if old(index).original_path@.len() == 0 {
            entry.project_path@
        } else {
            old(index).original_path@
        },
{
    let mut i: usize = 0;
    let mut found = false;
    while i < index.entries.len() && !found
        invariant
            i <= index.entries.len(),
            index.entries == old(index).entries,
            index.version == old(index).version,
            index.original_path == old(index).original_path,
            forall|j: int| 0 <= j < i ==> (#[trigger] index.entries@[j]).session_id@
                != entry.session_id@,
            found ==> i < index.entries.len() && index.entries@[i as int].session_id@
                == entry.session_id@,
        decreases index.entries.len() - i + if found { 0int } else { 1int },
    {
        if index.entries[i].session_id == entry.session_id {
            found = true;
        } else {
            i += 1;
        }
    }
    proof {
        lemma_place_of(index.entries@, entry.session_id@, i as int);
    }
    if found {
        index.entries.set(i, entry.clone());
    } else {
        index.entries.push(entry.clone());
    }
    if index.original_path.as_str().is_empty() {
        index.original_path = entry.project_path.clone();
    }
}

/// Whether the bytes `a` come before the bytes `b` in the order of the
/// dictionary.
pub open spec fn bytes_before(a: Seq<u8>, b: Seq<u8>) -> bool
    decreases a.len(),
{
    if b.len() == 0 {
        false
    } else if a.len() == 0 {
        true
    } else if a[0] != b[0] {
        a[0] < b[0]
    } else {
        bytes_before(a.drop_first(), b.drop_first())
    }
}

/// Whether the text `a` comes before the text `b` in the order of their
/// bytes.
pub fn text_before(a: &str, b: &str) -> (before: bool)
    ensures
        before == bytes_before(encode_utf8(a@), encode_utf8(b@)),
{
    let x = a.as_bytes();
    let y = b.as_bytes();
    let mut i: usize = 0;
    assert(x@.skip(0) =~= x@);
    assert(y@.skip(0) =~= y@);
    while i < x.len() && i < y.len()
        invariant
            i <= x.len(),
            i <= y.len(),
            x@ == a.spec_bytes(),
            y@ == b.spec_bytes(),
            bytes_before(x@, y@) == bytes_before(x@.skip(i as int), y@.skip(i as int)),
        decreases x.len() - i,
    {
        assert(x@.skip(i as int).drop_first() =~= x@.skip(i + 1));
        assert(y@.skip(i as int).drop_first() =~= y@.skip(i + 1));
        if x[i] != y[i] {
            return x[i] < y[i];
        }
        i += 1;
    }
    i < y.len()
}

/// The place of the entry that was modified last: the last of those
/// whose time of modification none exceeds.
pub open spec fn latest_place(entries: Seq<SessionEntry>) -> int
    decreases entries.len(),
{
    if entries.len() <= 1 {
        0
    } else {
        let best = latest_place(entries.drop_last());
        if bytes_before(
            encode_utf8(entries.last().modified@),
            encode_utf8(entries[best].modified@),
        ) {
            best
        } else {
            entries.len() - 1
        }
    }
}

/// The entry that was modified last, if there is any.
pub fn latest_entry(index: &SessionIndex) -> (latest: Option<SessionEntry>)
    ensures
        index.entries@.len() == 0 ==> latest is None,
        index.entries@.len() > 0 ==> latest == Some(
            index.entries@[latest_place(index.entries@)],
        ),
{
    if index.entries.len() == 0 {
        return None;
    }
    let mut best: usize = 0;
    let mut i: usize = 1;
    assert(index.entries@.take(1).len() == 1);
    while i < index.entries.len()
        invariant
            1 <= i <= index.entries.len(),
            best < i,
            best == latest_place(index.entries@.take(i as int)),
        decreases index.entries.len() - i,
    {
        let ghost upto = index.entries@.take(i + 1);
        assert(upto.drop_last() =~= index.entries@.take(i as int));
        assert(upto[best as int] == index.entries@[best as int]);
        if !text_before(index.entries[i].modified.as_str(), index.entries[best].modified.as_str()) {
            best = i;
        }
        i += 1;
    }
    assert(index.entries@.take(index.entries.len() as int) =~= index.entries@);
    Some(index.entries[best].clone())
}

/// The path of the transcript of a session.
pub fn session_path(entry: &SessionEntry) -> (path: String)
    ensures
        path == entry.full_path,
{
    entry.full_path.clone()
}

/// The hexadecimal digit for `d`.
pub open spec fn hex_digit(d: nat) -> char {
    if d < 10 {
        digit(d)
    } else if d == 10 {
        'a'
    } else if d == 11 {
        'b'
    } else if d == 12 {
        'c'
    } else if d == 13 {
        'd'
    } else if d == 14 {
        'e'
    } else {
        'f'
    }
}

/// The two hexadecimal digits of a byte.
pub open spec fn hex_byte(b: u8) -> Seq<char> {
    seq![hex_digit((b / 16) as nat), hex_digit((b % 16) as nat)]
}

/// The hexadecimal digits of the bytes `bytes[from..to]`.
pub open spec fn hex_bytes(bytes: Seq<u8>, from: int, to: int) -> Seq<char>
    decreases to - from,
{
    if from >= to {
        Seq::empty()
    } else {
        hex_bytes(bytes, from, to - 1) + hex_byte(bytes[to - 1])
    }
}

/// The sixteen bytes as the identifier of a session: the version and
/// variant of a random identifier are set in the seventh and the ninth
/// byte, every other bit stays.
pub open spec fn stamped(bytes: Seq<u8>) -> Seq<u8> {
    bytes.update(6, (bytes[6] & 0x0f) | 0x40).update(8, (bytes[8] & 0x3f) | 0x80)
}

/// The text of an identifier: the hexadecimal digits of its bytes in
/// groups of four, two, two, two and six bytes, with hyphens between.
pub open spec fn uuid_text(bytes: Seq<u8>) -> Seq<char> {
    hex_bytes(bytes, 0, 4) + seq!['-'] + hex_bytes(bytes, 4, 6) + seq!['-'] + hex_bytes(
        bytes,
        6,
        8,
    ) + seq!['-'] + hex_bytes(bytes, 8, 10) + seq!['-'] + hex_bytes(bytes, 10, 16)
}

fn hex_char(d: u8) -> (c: char)
    requires
        d < 16,
    ensures
        c == hex_digit(d as nat),
{
    if d == 0 {
        '0'
    } else if d == 1 {
        '1'
    } else if d == 2 {
        '2'
    } else if d == 3 {
        '3'
    } else if d == 4 {
        '4'
    } else if d == 5 {
        '5'
    } else if d == 6 {
        '6'
    } else if d == 7 {
        '7'
    } else if d == 8 {
        '8'
    } else if d == 9 {
        '9'
    } else if d == 10 {
        'a'
    } else if d == 11 {
        'b'
    } else if d == 12 {
        'c'
    } else if d == 13 {
        'd'
    } else if d == 14 {
        'e'
    } else {
        'f'
    }
}

fn push_hex(out: &mut String, bytes: &Vec<u8>, from: usize, to: usize)
    requires
        from <= to <= bytes.len(),
    ensures
        final(out)@ == old(out)@ + hex_bytes(bytes@, from as int, to as int),
{
    let mut i: usize = from;
    assert(old(out)@ + Seq::<char>::empty() =~= old(out)@);
    while i < to
        invariant
            from <= i <= to <= bytes.len(),
            out@ == old(out)@ + hex_bytes(bytes@, from as int, i as int),
        decreases to - i,
    {
        let b = bytes[i];
        out.push(hex_char(b / 16));
        out.push(hex_char(b % 16));
        assert(out@ =~= old(out)@ + hex_bytes(bytes@, from as int, i + 1));
        i += 1;
    }
}

/// Makes the identifier of a session from sixteen random bytes.
pub fn format_uuid(random: &Vec<u8>) -> (id: String)
    requires
        random.len() == 16,
    ensures
        id@ == uuid_text(stamped(random@)),
{
    let mut bytes: Vec<u8> = Vec::new();
    let mut i: usize = 0;
    while i < 16
        invariant
            i <= 16,
            random.len() == 16,
            bytes@ == random@.take(i as int),
        decreases 16 - i,
    {
        bytes.push(random[i]);
        assert(random@.take(i + 1) =~= random@.take(i as int).push(random@[i as int]));
        i += 1;
    }
    assert(bytes@ =~= random@);
    let six = (bytes[6] & 0x0f) | 0x40;
    bytes.set(6, six);
    let eight = (bytes[8] & 0x3f) | 0x80;
    bytes.set(8, eight);
    assert(bytes@ =~= stamped(random@));
    let mut id = String::new();
    push_hex(&mut id, &bytes, 0, 4);
    id.push('-');
    push_hex(&mut id, &bytes, 4, 6);
    id.push('-');
    push_hex(&mut id, &bytes, 6, 8);
    id.push('-');
    push_hex(&mut id, &bytes, 8, 10);
    id.push('-');
    push_hex(&mut id, &bytes, 10, 16);
    assert(id@ =~= uuid_text(stamped(random@)));
    id
}

/// The decimal digits of `n`, behind as many zeros as it takes to make
/// `width` characters of them.
pub open spec fn padded(n: nat, width: nat) -> Seq<char> {
    if decimal(n).len() >= width {
        decimal(n)
    } else {
        Seq::new((width - decimal(n).len()) as nat, |i: int| '0') + decimal(n)
    }
}

/// Appends the decimal digits of `n` to `out`, behind as many zeros as it
/// takes to make `width` characters of them.
pub fn push_padded(out: &mut String, n: u32, width: usize)
    ensures
        final(out)@ == old(out)@ + padded(n as nat, width as nat),
{
    let digits = decimal_string(n as u64);
    let len = digits.as_str().unicode_len();
    let mut i: usize = len;
    let ghost zeros = Seq::new((width - len) as nat, |i: int| '0');
    assert(old(out)@ + zeros.take(0) =~= old(out)@);
    while i < width
        invariant
            len <= i,
            len < width ==> i <= width,
            len < width ==> zeros.len() == width - len,
            len < width ==> out@ == old(out)@ + zeros.take(i - len),
            len >= width ==> out@ == old(out)@,
            zeros == Seq::new((width - len) as nat, |i: int| '0'),
        decreases width - i,
    {
        out.push('0');
        assert(zeros.take(i + 1 - len) =~= zeros.take(i - len).push('0'));
        assert(out@ =~= old(out)@ + zeros.take(i + 1 - len));
        i += 1;
    }
    out.append(digits.as_str());
    proof {
        if len < width {
            assert(zeros.take(width - len) =~= zeros);
        }
        assert(out@ =~= old(out)@ + padded(n as nat, width as nat));
    }
}

/// The text of a moment of universal time, to the second.
pub open spec fn timestamp_text(year: nat, month: nat, day: nat, hour: nat, minute: nat, second: nat) -> Seq<
    char,
> {
    padded(year, 4) + seq!['-'] + padded(month, 2) + seq!['-'] + padded(day, 2) + seq!['T']
        + padded(hour, 2) + seq![':'] + padded(minute, 2) + seq![':'] + padded(second, 2)
        + ".000Z"@
}

/// Writes a moment of universal time as the index keeps it.
pub fn iso_timestamp(year: u32, month: u32, day: u32, hour: u32, minute: u32, second: u32) -> (text:
    String)
    ensures
        text@ == timestamp_text(
            year as nat,
            month as nat,
            day as nat,
            hour as nat,
            minute as nat,
            second as nat,
        ),
{
    let mut text = String::new();
    push_padded(&mut text, year, 4);
    text.push('-');
    push_padded(&mut text, month, 2);
    text.push('-');
    push_padded(&mut text, day, 2);
    text.push('T');
    push_padded(&mut text, hour, 2);
    text.push(':');
    push_padded(&mut text, minute, 2);
    text.push(':');
    push_padded(&mut text, second, 2);
    text.append(".000Z");
    assert(text@ =~= timestamp_text(
        year as nat,
        month as nat,
        day as nat,
        hour as nat,
        minute as nat,
        second as nat,
    ));
    text
}

} // verus!
