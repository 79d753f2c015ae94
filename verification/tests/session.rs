use tapir::session::{
    create_entry, empty_index, format_uuid, index_path, iso_timestamp, join_path, latest_entry,
    session_path, text_before, update_entry, SessionEntry,
};

fn entry(id: &str, modified: &str) -> SessionEntry {
    let mut e = create_entry(
        "/home/u/.tapir/sessions/-w",
        "/w",
        id.to_string(),
        "2026-01-01T00:00:00.000Z".to_string(),
        "main".to_string(),
    );
    e.modified = modified.to_string();
    e
}

#[test]
fn a_new_entry_has_no_prompt() {
    let e = entry("abc", "2026-01-01T00:00:00.000Z");
    assert_eq!(e.session_id, "abc");
    assert_eq!(e.full_path, "/home/u/.tapir/sessions/-w/abc.jsonl");
    assert_eq!(e.first_prompt, "No prompt");
    assert_eq!(e.summary, "");
    assert_eq!(e.message_count, 0);
    assert_eq!(e.created, "2026-01-01T00:00:00.000Z");
    assert_eq!(e.git_branch, "main");
    assert_eq!(e.project_path, "/w");
    assert_eq!(session_path(&e), "/home/u/.tapir/sessions/-w/abc.jsonl");
}

#[test]
fn paths_are_joined_with_one_slash() {
    assert_eq!(join_path("/a", "b"), "/a/b");
    assert_eq!(join_path("/a/", "b"), "/a/b");
    assert_eq!(join_path("", "b"), "b");
    assert_eq!(join_path("/", "b"), "/b");
    assert_eq!(index_path("/s"), "/s/sessions-index.json");
}

#[test]
fn entries_are_replaced_or_added() {
    let mut index = empty_index("");
    assert_eq!(index.version, 1);
    update_entry(&mut index, &entry("a", "1"));
    update_entry(&mut index, &entry("b", "2"));
    assert_eq!(index.original_path, "/w");
    let mut changed = entry("a", "3");
    changed.project_path = "/other".to_string();
    changed.summary = "named".to_string();
    update_entry(&mut index, &changed);
    assert_eq!(index.entries, vec![changed, entry("b", "2")]);
    assert_eq!(index.original_path, "/w");
    let mut kept = empty_index("/first");
    update_entry(&mut kept, &entry("a", "1"));
    assert_eq!(kept.original_path, "/first");
}

#[test]
fn the_latest_entry_is_the_last_of_the_newest() {
    let mut index = empty_index("");
    assert_eq!(latest_entry(&index), None);
    for (id, modified) in [
        ("a", "2026-01-02T00:00:00.000Z"),
        ("b", "2026-01-03T00:00:00.000Z"),
        ("c", "2026-01-01T00:00:00.000Z"),
        ("d", "2026-01-03T00:00:00.000Z"),
        ("e", "2026-01-02T23:59:59.000Z"),
    ] {
        update_entry(&mut index, &entry(id, modified));
    }
    assert_eq!(latest_entry(&index).unwrap().session_id, "d");
    let newest = index
        .entries
        .iter()
        .cloned()
        .max_by(|a, b| a.modified.cmp(&b.modified))
        .unwrap();
    assert_eq!(latest_entry(&index), Some(newest));
}

#[test]
fn texts_are_ordered_by_their_bytes() {
    for (a, b) in [
        ("", ""),
        ("", "a"),
        ("a", ""),
        ("a", "b"),
        ("b", "a"),
        ("ab", "abc"),
        ("abc", "ab"),
        ("abc", "abd"),
        ("Z", "a"),
        ("\u{e9}", "z"),
        ("\u{e9}", "\u{1F600}"),
        ("same", "same"),
    ] {
        assert_eq!(text_before(a, b), a < b, "{a:?} < {b:?}");
    }
}

#[test]
fn identifiers_are_stamped_and_written_in_hex() {
    let id = format_uuid(&vec![0u8; 16]);
    assert_eq!(id, "00000000-0000-4000-8000-000000000000");
    let id = format_uuid(&vec![0xffu8; 16]);
    assert_eq!(id, "ffffffff-ffff-4fff-bfff-ffffffffffff");
    let bytes: Vec<u8> = (0u8..16).map(|i| i * 17).collect();
    assert_eq!(format_uuid(&bytes), "00112233-4455-4677-8899-aabbccddeeff");
}

#[test]
fn moments_are_written_with_leading_zeros() {
    assert_eq!(iso_timestamp(2026, 1, 2, 3, 4, 5), "2026-01-02T03:04:05.000Z");
    assert_eq!(iso_timestamp(1999, 12, 31, 23, 59, 59), "1999-12-31T23:59:59.000Z");
    assert_eq!(iso_timestamp(0, 0, 0, 0, 0, 0), "0000-00-00T00:00:00.000Z");
    assert_eq!(iso_timestamp(12345, 100, 7, 0, 0, 60), "12345-100-07T00:00:60.000Z");
}
