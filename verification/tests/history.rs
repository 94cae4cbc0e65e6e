use herdr_clip::history::{
    entries_from, repeats_image, repeats_text, Content, Entry, HistoryStore, LegacyEntry,
};
use herdr_clip::img::rgba_hash;
use herdr_clip::legacy::{legacy_lines, readable_entries};
use herdr_clip::sqlite::FetchedRow;
use std::path::Path;

fn open(dir: &Path, entries: usize, entry_bytes: usize, image_bytes: usize) -> HistoryStore {
    let conn = rusqlite::Connection::open(dir.join("history.db")).unwrap();
    HistoryStore::new(conn, entries, entry_bytes, image_bytes).unwrap()
}

fn store(dir: &Path) -> HistoryStore {
    open(dir, 50, 256 * 1024, 5 * 1024 * 1024)
}

fn texts(s: &HistoryStore) -> Vec<String> {
    s.load()
        .iter()
        .map(|e| match &e.content {
            Content::Text(t) => t.clone(),
            Content::Image { .. } => "<image>".into(),
        })
        .collect()
}

#[test]
fn load_returns_empty_when_no_db() {
    let dir = tempfile::tempdir().unwrap();
    assert!(store(dir.path()).load().is_empty());
}

#[test]
fn fresh_db_uses_incremental_auto_vacuum() {
    let dir = tempfile::tempdir().unwrap();
    let _s = store(dir.path());
    let conn = rusqlite::Connection::open(dir.path().join("history.db")).unwrap();
    let mode: i64 = conn.query_row("PRAGMA auto_vacuum", [], |r| r.get(0)).unwrap();
    assert_eq!(mode, 2, "2 = INCREMENTAL");
}

#[test]
fn fresh_db_uses_wal() {
    let dir = tempfile::tempdir().unwrap();
    let _s = store(dir.path());
    let conn = rusqlite::Connection::open(dir.path().join("history.db")).unwrap();
    let mode: String = conn.query_row("PRAGMA journal_mode", [], |r| r.get(0)).unwrap();
    assert_eq!(mode, "wal");
}

#[test]
fn append_then_load_returns_newest_first() {
    let dir = tempfile::tempdir().unwrap();
    let mut s = store(dir.path());
    assert!(s.append_text("first", 1).unwrap());
    assert!(s.append_text("second", 2).unwrap());
    let entries = s.load();
    assert_eq!(entries.len(), 2);
    assert_eq!(entries[0].content, Content::Text("second".into()));
    assert_eq!(entries[0].ts, 2);
    assert_eq!(entries[1].content, Content::Text("first".into()));
}

#[test]
fn reading_with_errors_reads_the_same() {
    let dir = tempfile::tempdir().unwrap();
    let mut s = store(dir.path());
    s.append_text("a", 1).unwrap();
    assert_eq!(s.try_load().unwrap(), s.load());
    assert_eq!(s.try_load().unwrap().len(), 1);
}

#[test]
fn history_survives_reopening_the_store() {
    let dir = tempfile::tempdir().unwrap();
    store(dir.path()).append_text("kept", 1).unwrap();
    assert_eq!(texts(&store(dir.path())), vec!["kept"]);
}

#[test]
fn append_identical_to_newest_is_skipped() {
    let dir = tempfile::tempdir().unwrap();
    let mut s = store(dir.path());
    assert!(s.append_text("same", 1).unwrap());
    assert!(!s.append_text("same", 2).unwrap());
    let entries = s.load();
    assert_eq!(entries.len(), 1);
    assert_eq!(entries[0].ts, 1, "skipped re-copy must not touch the timestamp");
}

#[test]
fn append_existing_older_text_moves_it_to_front() {
    let dir = tempfile::tempdir().unwrap();
    let mut s = store(dir.path());
    s.append_text("a", 1).unwrap();
    s.append_text("b", 2).unwrap();
    assert!(s.append_text("a", 3).unwrap());
    assert_eq!(texts(&s), vec!["a", "b"]);
    assert_eq!(s.load()[0].ts, 3, "moved entry gets the new timestamp");
}

#[test]
fn history_is_capped_dropping_oldest() {
    let dir = tempfile::tempdir().unwrap();
    let mut s = open(dir.path(), 3, 256 * 1024, 1024);
    for (i, t) in ["a", "b", "c", "d"].iter().enumerate() {
        s.append_text(t, i as u64).unwrap();
    }
    assert_eq!(texts(&s), vec!["d", "c", "b"]);
}

#[test]
fn oversized_and_empty_text_are_skipped() {
    let dir = tempfile::tempdir().unwrap();
    let mut s = open(dir.path(), 50, 10, 1024);
    assert!(!s.append_text("", 1).unwrap());
    assert!(!s.append_text("12345678901", 2).unwrap()); // 11 bytes > 10
    assert!(s.append_text("1234567890", 3).unwrap()); // exactly 10 is fine
    assert_eq!(s.load().len(), 1);
}

#[test]
fn text_limit_counts_bytes_not_characters() {
    let dir = tempfile::tempdir().unwrap();
    let mut s = open(dir.path(), 50, 4, 1024);
    assert!(s.append_text("éé", 1).unwrap());
    assert!(!s.append_text("ééa", 2).unwrap());
}

#[test]
fn delete_removes_entry_by_id() {
    let dir = tempfile::tempdir().unwrap();
    let mut s = store(dir.path());
    s.append_text("keep", 1).unwrap();
    s.append_text("drop", 2).unwrap();
    let drop_id = s.load()[0].id;
    s.delete(drop_id).unwrap();
    assert_eq!(texts(&s), vec!["keep"]);
}

#[test]
fn deleting_an_unknown_id_changes_nothing() {
    let dir = tempfile::tempdir().unwrap();
    let mut s = store(dir.path());
    s.append_text("keep", 1).unwrap();
    s.delete(77).unwrap();
    assert_eq!(texts(&s), vec!["keep"]);
}

#[test]
fn insertion_order_wins_over_wall_clock() {
    let dir = tempfile::tempdir().unwrap();
    let mut s = store(dir.path());
    s.append_text("first", 100).unwrap();
    s.append_text("second", 50).unwrap(); // clock went backwards
    assert_eq!(texts(&s), vec!["second", "first"]);
}

#[test]
fn identical_to_front_is_skipped_even_under_clock_skew() {
    let dir = tempfile::tempdir().unwrap();
    let mut s = store(dir.path());
    s.append_text("a", 100).unwrap();
    s.append_text("b", 50).unwrap(); // clock went backwards; b is front by insertion
    assert!(!s.append_text("b", 60).unwrap(), "front entry re-copy must be a no-op");
    assert_eq!(s.load()[0].ts, 50, "skip must not touch the timestamp");
}

#[test]
fn image_roundtrip_metadata_and_blob() {
    let dir = tempfile::tempdir().unwrap();
    let mut s = store(dir.path());
    let png = vec![1u8, 2, 3, 4, 5];
    assert!(s.append_image(&png, 10, 20, rgba_hash(&png), 7).unwrap());
    let entries = s.load();
    assert_eq!(entries.len(), 1);
    assert_eq!(entries[0].content, Content::Image { w: 10, h: 20, bytes: 5 });
    assert_eq!(entries[0].ts, 7);
    assert_eq!(s.get_image(entries[0].id).unwrap(), Some(png));
    assert_eq!(s.get_image(9999).unwrap(), None);
}

#[test]
fn a_text_entry_has_no_image() {
    let dir = tempfile::tempdir().unwrap();
    let mut s = store(dir.path());
    s.append_text("text", 1).unwrap();
    assert_eq!(s.get_image(s.load()[0].id).unwrap(), None);
}

#[test]
fn image_dedup_and_oversize_mirror_text_semantics() {
    let dir = tempfile::tempdir().unwrap();
    let mut s = open(dir.path(), 50, 1024, 4);
    assert!(!s.append_image(&[0; 5], 1, 1, 11, 1).unwrap()); // 5 bytes > 4
    assert!(!s.append_image(&[], 1, 1, 12, 1).unwrap());
    assert!(s.append_image(&[1, 2, 3], 1, 1, 42, 2).unwrap());
    assert!(!s.append_image(&[1, 2, 3], 1, 1, 42, 3).unwrap()); // identical to newest
    assert_eq!(s.load()[0].ts, 2);
    s.append_text("interleaved", 4).unwrap();
    assert!(s.append_image(&[1, 2, 3], 1, 1, 42, 5).unwrap()); // move-to-front
    assert_eq!(s.load().len(), 2);
    assert_eq!(s.load()[0].content, Content::Image { w: 1, h: 1, bytes: 3 });
    assert_eq!(s.load()[0].ts, 5);
}

#[test]
fn image_dedup_keys_on_pixels_not_encoding() {
    let dir = tempfile::tempdir().unwrap();
    let mut s = store(dir.path());
    // Two different encodings of the "same pixels" (same dims + hash):
    assert!(s.append_image(&[1, 2, 3], 4, 4, 42, 1).unwrap());
    assert!(!s.append_image(&[9, 9, 9, 9], 4, 4, 42, 2).unwrap(), "same pixels, different bytes: skip");
    assert_eq!(s.load().len(), 1);
    // Same dims, different pixels: distinct entry
    assert!(s.append_image(&[1, 2, 3], 4, 4, 43, 3).unwrap());
    assert_eq!(s.load().len(), 2);
}

#[test]
fn images_with_other_dimensions_or_large_hashes_are_distinct() {
    let dir = tempfile::tempdir().unwrap();
    let mut s = store(dir.path());
    assert!(s.append_image(&[1], 2, 3, u64::MAX, 1).unwrap());
    assert!(s.append_image(&[1], 3, 2, u64::MAX, 2).unwrap());
    assert!(s.append_image(&[1], 3, 2, u64::MAX - 1, 3).unwrap());
    assert_eq!(s.load().len(), 3);
    assert!(s.append_image(&[1], 2, 3, u64::MAX, 4).unwrap()); // moves to front
    assert_eq!(s.load().len(), 3);
}

#[test]
fn text_and_images_share_the_entry_cap() {
    let dir = tempfile::tempdir().unwrap();
    let mut s = open(dir.path(), 2, 1024, 1024);
    s.append_text("old", 1).unwrap();
    s.append_image(&[9], 1, 1, 9, 2).unwrap();
    s.append_text("new", 3).unwrap();
    assert_eq!(s.load().len(), 2);
    assert_eq!(texts(&s), vec!["new", "<image>"]);
}

#[test]
fn newest_text_skips_images_and_prefers_newest() {
    let dir = tempfile::tempdir().unwrap();
    let mut s = store(dir.path());
    assert_eq!(s.newest_text(), None);
    s.append_text("older", 1).unwrap();
    s.append_text("newer", 2).unwrap();
    s.append_image(&[1, 2, 3], 1, 1, 42, 3).unwrap();
    assert_eq!(s.newest_text(), Some("newer".into()));
}

#[test]
fn newest_text_none_when_only_images() {
    let dir = tempfile::tempdir().unwrap();
    let mut s = store(dir.path());
    s.append_image(&[1, 2, 3], 1, 1, 42, 1).unwrap();
    assert_eq!(s.newest_text(), None);
}

#[test]
fn ids_grow_and_timestamps_keep_all_bits() {
    let dir = tempfile::tempdir().unwrap();
    let mut s = store(dir.path());
    s.append_text("a", u64::MAX).unwrap();
    s.append_text("b", 0).unwrap();
    let ids: Vec<i64> = s.load().iter().map(|e| e.id).collect();
    assert_eq!(ids, vec![2, 1]);
    assert_eq!(s.load()[1].ts, u64::MAX);
}

#[test]
fn a_cap_beyond_every_history_drops_nothing() {
    let dir = tempfile::tempdir().unwrap();
    let mut s = open(dir.path(), usize::MAX, 1024, 1024);
    s.append_text("a", 1).unwrap();
    s.append_text("b", 2).unwrap();
    assert_eq!(texts(&s), vec!["b", "a"]);
}

#[test]
fn texts_that_only_look_alike_are_kept_apart() {
    let dir = tempfile::tempdir().unwrap();
    let mut s = store(dir.path());
    for t in ["1", "1.0", "01", "a", "A", "a "] {
        assert!(s.append_text(t, 1).unwrap());
    }
    assert_eq!(texts(&s), vec!["a ", "A", "a", "01", "1.0", "1"]);
}

#[test]
fn rows_that_do_not_read_as_entries_are_skipped() {
    let dir = tempfile::tempdir().unwrap();
    let mut s = store(dir.path());
    s.append_text("good", 1).unwrap();
    let conn = rusqlite::Connection::open(dir.path().join("history.db")).unwrap();
    conn.execute(
        "INSERT INTO entries (ts, kind, img, img_w, img_h, img_hash) VALUES (2, 'image', x'00', -1, 1, 5)",
        [],
    )
    .unwrap();
    conn.execute("INSERT INTO entries (ts, kind, text) VALUES ('late', 'text', 'bad')", []).unwrap();
    assert_eq!(texts(&s), vec!["good"]);
}

#[test]
fn a_store_without_its_table_reports_errors() {
    let conn = rusqlite::Connection::open_in_memory().unwrap();
    conn.execute_batch("CREATE VIEW entries AS SELECT 1 AS id").unwrap();
    // `IF NOT EXISTS` accepts the view, but nothing can be written to it.
    let mut s = HistoryStore::new(conn, 50, 1024, 1024).unwrap();
    assert!(s.append_text("x", 1).is_err());
    assert!(s.load().is_empty());
    assert!(s.delete(1).is_err());
    assert!(s.append_image(&[1], 1, 1, 1, 1).is_err());
}

#[test]
fn two_stores_see_each_others_entries() {
    let dir = tempfile::tempdir().unwrap();
    let mut a = store(dir.path());
    let mut b = store(dir.path());
    a.append_text("from a", 1).unwrap();
    b.append_text("from b", 2).unwrap();
    assert_eq!(texts(&a), vec!["from b", "from a"]);
    assert!(!a.append_text("from b", 3).unwrap());
}

#[test]
fn deleted_space_is_reclaimed() {
    let dir = tempfile::tempdir().unwrap();
    let mut s = store(dir.path());
    s.append_image(&vec![7; 400_000], 1, 1, 1, 1).unwrap();
    s.delete(s.load()[0].id).unwrap();
    let conn = rusqlite::Connection::open(dir.path().join("history.db")).unwrap();
    let free: i64 = conn.query_row("PRAGMA freelist_count", [], |r| r.get(0)).unwrap();
    assert_eq!(free, 0);
}

fn legacy(raw: &[u8]) -> Vec<LegacyEntry> {
    let mut parsed = Vec::new();
    for line in legacy_lines(raw) {
        let value = serde_json::from_str::<serde_json::Value>(&line).ok();
        parsed.push(value.map(|value| LegacyEntry {
            ts: value["ts"].as_u64().unwrap(),
            text: value["text"].as_str().unwrap().to_string(),
        }));
    }
    readable_entries(parsed)
}

#[test]
fn import_keeps_order_and_skips_corrupt_lines() {
    let dir = tempfile::tempdir().unwrap();
    let mut s = store(dir.path());
    assert!(s.is_empty().unwrap());
    let raw = b"{\"ts\":1,\"text\":\"old a\"}\n{not json\n{\"ts\":2,\"text\":\"old b\"}\n";
    s.import(&legacy(raw)).unwrap();
    assert_eq!(texts(&s), vec!["old b", "old a"], "corrupt line skipped, order kept");
    assert!(!s.is_empty().unwrap());
    s.append_text("new", 3).unwrap();
    assert_eq!(texts(&store(dir.path())), vec!["new", "old b", "old a"]);
}

#[test]
fn import_tolerates_invalid_utf8_lines() {
    let dir = tempfile::tempdir().unwrap();
    let mut s = store(dir.path());
    let mut raw = b"{\"ts\":1,\"text\":\"older\"}\n".to_vec();
    raw.extend_from_slice(&[0xff, 0xfe, b'\n']);
    raw.extend_from_slice(b"{\"ts\":2,\"text\":\"newer\"}\n");
    s.import(&legacy(&raw)).unwrap();
    assert_eq!(texts(&s), vec!["newer", "older"], "bad line skipped, rest imported");
}

#[test]
fn import_takes_all_valid_lines() {
    let dir = tempfile::tempdir().unwrap();
    let lines: Vec<String> =
        (0..200).map(|i| format!("{{\"ts\":{i},\"text\":\"entry {i}\"}}")).collect();
    let mut s = open(dir.path(), 500, 1024, 1024);
    s.import(&legacy(lines.join("\n").as_bytes())).unwrap();
    assert_eq!(s.load().len(), 200);
}

#[test]
fn import_respects_the_limits() {
    let dir = tempfile::tempdir().unwrap();
    let mut s = open(dir.path(), 2, 3, 1024);
    let entry = |ts, text: &str| LegacyEntry { ts, text: text.into() };
    s.import(&[entry(1, "a"), entry(2, "long"), entry(3, "b"), entry(4, "a"), entry(5, "c")]).unwrap();
    assert_eq!(texts(&s), vec!["c", "a"]);
    let first: &Entry = &s.load()[1];
    assert_eq!(first.ts, 4);
}

#[test]
fn import_of_nothing_leaves_the_history_empty() {
    let dir = tempfile::tempdir().unwrap();
    let mut s = store(dir.path());
    s.import(&[]).unwrap();
    assert!(s.is_empty().unwrap());
}

#[test]
fn fetched_rows_become_entries_as_far_as_they_read() {
    let row = |id, kind: Option<&str>, text: Option<&str>, len| FetchedRow {
        id,
        ts: Some(-1),
        kind: kind.map(String::from),
        text: text.map(String::from),
        img_w: Some(2),
        img_h: Some(3),
        img_len: len,
    };
    let rows = vec![
        Ok(row(4, Some("text"), Some("a"), None)),
        Ok(row(3, Some("text"), None, None)),
        Ok(row(2, Some("image"), None, Some(9))),
        Ok(row(1, None, Some("b"), Some(9))),
        Err(rusqlite::Error::InvalidQuery),
    ];
    let expected = vec![
        Entry { id: 4, ts: u64::MAX, content: Content::Text("a".into()) },
        Entry { id: 2, ts: u64::MAX, content: Content::Image { w: 2, h: 3, bytes: 9 } },
    ];
    assert_eq!(entries_from(rows), expected);
    assert!(entries_from(Vec::new()).is_empty());
}

#[test]
fn the_newest_row_decides_about_repetition() {
    let text = |kind: &str, t: Option<&str>| Some((kind.to_string(), t.map(String::from)));
    assert!(repeats_text(&text("text", Some("a")), "a"));
    assert!(!repeats_text(&text("text", Some("a")), "b"));
    assert!(!repeats_text(&text("image", Some("a")), "a"));
    assert!(!repeats_text(&text("text", None), "a"));
    assert!(!repeats_text(&None, "a"));
    let image = |kind: &str, w, hash| Some((kind.to_string(), w, Some(3), Some(hash)));
    assert!(repeats_image(&image("image", Some(2), -7), 2, 3, -7));
    assert!(!repeats_image(&image("image", Some(2), -7), 2, 3, 7));
    assert!(!repeats_image(&image("image", Some(3), -7), 2, 3, -7));
    assert!(!repeats_image(&image("text", Some(2), -7), 2, 3, -7));
    assert!(!repeats_image(&image("image", None, -7), 2, 3, -7));
    assert!(!repeats_image(&None, 2, 3, -7));
}

#[test]
fn errors_are_those_that_sqlite_gives() {
    let conn = rusqlite::Connection::open_in_memory().unwrap();
    conn.execute_batch("CREATE VIEW entries AS SELECT x FROM nowhere").unwrap();
    let mut s = HistoryStore::new(conn, 50, 1024, 1024).unwrap();
    let says = |e: rusqlite::Error| assert!(e.to_string().contains("nowhere"), "{e}");
    says(s.is_empty().unwrap_err().0);
    says(s.get_image(1).unwrap_err().0);
    says(s.append_text("x", 1).unwrap_err().0);
    says(s.delete(1).unwrap_err().0);
    says(s.import(&[LegacyEntry { ts: 1, text: "x".into() }]).unwrap_err().0);
    says(s.append_image(&[1], 1, 1, 1, 1).unwrap_err().0);
    says(s.try_load().unwrap_err().0);
    assert!(s.load().is_empty());
    assert_eq!(s.newest_text(), None);
    // What may not be stored anyway needs no statement.
    s.import(&[LegacyEntry { ts: 1, text: "".into() }]).unwrap();
}

#[test]
fn a_file_that_is_no_database_is_refused_during_setup() {
    let mut file = tempfile::NamedTempFile::new().unwrap();
    std::io::Write::write_all(&mut file, &[b'x'; 4096]).unwrap();
    let conn = rusqlite::Connection::open(file.path()).unwrap();
    let e = HistoryStore::new(conn, 50, 1024, 1024).err().unwrap();
    assert_eq!(e.0.sqlite_error_code(), Some(rusqlite::ErrorCode::NotADatabase));
}

#[test]
fn a_listing_after_an_append_is_the_old_one_with_the_copy_in_front() {
    let dir = tempfile::tempdir().unwrap();
    let mut s = open(dir.path(), 3, 1024, 1024);
    s.append_text("a", 1).unwrap();
    s.append_image(&[1], 2, 2, 7, 2).unwrap();
    s.append_text("b", 3).unwrap();
    let before = s.load();
    assert!(s.append_text("a", 4).unwrap());
    let after = s.load();
    assert_eq!(after[0], Entry { id: 4, ts: 4, content: Content::Text("a".into()) });
    assert_eq!(&after[1..], &before[..2]);
    assert!(s.append_image(&[9, 9], 2, 2, 7, 5).unwrap());
    let last = s.load();
    assert_eq!(last[0], Entry { id: 5, ts: 5, content: Content::Image { w: 2, h: 2, bytes: 2 } });
    assert_eq!(&last[1..], &after[..2]);
    assert_eq!(s.get_image(last[0].id).unwrap(), Some(vec![9, 9]));
    assert_eq!(s.get_image(last[1].id).unwrap(), None);
    assert!(!s.append_image(&[3], 2, 2, 7, 6).unwrap());
    assert_eq!(s.load(), last);
}

#[test]
fn reopening_drops_nothing_even_under_a_smaller_limit() {
    let dir = tempfile::tempdir().unwrap();
    let mut s = store(dir.path());
    for t in ["a", "b", "c"] {
        s.append_text(t, 1).unwrap();
    }
    let listed = s.load();
    drop(s);
    assert_eq!(open(dir.path(), 1, 1024, 1024).load(), listed);
}
