use herdr_clip::history::{Content, HistoryStore};
use herdr_clip::img::rgba_hash;
use herdr_clip::restore::{restore_image, stored_pixels, RestoreError};
use herdr_clip::watcher::{now_ms, to_milliseconds, ClipboardWatch};

fn store() -> HistoryStore {
    let conn = rusqlite::Connection::open_in_memory().unwrap();
    HistoryStore::new(conn, 50, 1024, 1024).unwrap()
}

#[test]
fn an_unchanged_text_is_recorded_once() {
    let mut s = store();
    let mut watch = ClipboardWatch::new();
    assert!(watch.record_text(&mut s, "a", 1).unwrap().unwrap());
    assert!(watch.record_text(&mut s, "a", 2).is_none());
    // Deleted from the history, but still the same clipboard.
    s.delete(s.load()[0].id).unwrap();
    assert!(watch.record_text(&mut s, "a", 3).is_none());
    assert!(watch.record_text(&mut s, "b", 4).unwrap().unwrap());
    assert!(watch.record_text(&mut s, "a", 5).unwrap().unwrap());
    assert_eq!(s.load().len(), 2);
}

#[test]
fn a_skipped_text_is_not_tried_again() {
    let mut s = store();
    let mut watch = ClipboardWatch::new();
    let long = "x".repeat(1025);
    assert!(!watch.record_text(&mut s, &long, 1).unwrap().unwrap());
    assert!(watch.record_text(&mut s, &long, 2).is_none());
    assert!(s.load().is_empty());
}

#[test]
fn images_are_captured_with_their_pixels() {
    let mut watch = ClipboardWatch::new();
    let rgba: Vec<u8> = (0..16).collect();
    let captured = watch.on_image(2, 2, rgba.clone()).unwrap();
    assert_eq!((captured.w, captured.h), (2, 2));
    assert_eq!(captured.hash, rgba_hash(&rgba));
    assert_eq!(stored_pixels(Some(captured.png)).unwrap(), (2, 2, rgba.clone()));
    assert!(watch.on_image(2, 2, rgba).is_none());
    assert!(watch.on_image(2, 2, vec![0; 3]).is_none()); // does not fit its dimensions
    assert!(watch.on_image(0, 0, vec![]).is_none());
}

#[test]
fn a_copied_image_is_restored() {
    let mut s = store();
    let mut watch = ClipboardWatch::new();
    let rgba: Vec<u8> = (0..24).map(|i| i * 9).collect();
    assert!(watch.record_image(&mut s, 3, 2, rgba.clone(), 8).unwrap().unwrap());
    let entries = s.load();
    assert!(matches!(entries[0].content, Content::Image { w: 3, h: 2, .. }));
    assert_eq!(entries[0].ts, 8);
    assert_eq!(restore_image(&s, entries[0].id).unwrap(), (3, 2, rgba));
}

#[test]
fn texts_and_images_are_watched_apart() {
    let mut watch = ClipboardWatch::new();
    assert!(watch.on_text("a"));
    assert!(watch.on_image(1, 1, vec![1, 2, 3, 4]).is_some());
    assert!(!watch.on_text("a"));
    assert!(watch.on_image(1, 1, vec![1, 2, 3, 4]).is_none());
}

#[test]
fn each_restore_error_has_its_input() {
    let mut s = store();
    s.append_text("text", 1).unwrap();
    s.append_image(b"not a png", 1, 1, 1, 2).unwrap();
    let entries = s.load();
    assert!(matches!(restore_image(&s, entries[0].id), Err(RestoreError::Image(_))));
    assert!(matches!(restore_image(&s, entries[1].id), Err(RestoreError::NotFound)));
    assert!(matches!(restore_image(&s, 999), Err(RestoreError::NotFound)));
    let conn = rusqlite::Connection::open_in_memory().unwrap();
    conn.execute_batch("CREATE VIEW entries AS SELECT 1 AS id").unwrap();
    let broken = HistoryStore::new(conn, 1, 1, 1).unwrap();
    assert!(matches!(restore_image(&broken, 1), Err(RestoreError::Store(_))));
}

#[test]
fn times_are_in_milliseconds() {
    assert_eq!(to_milliseconds(Some((12, 345_678_901))), 12_345);
    assert_eq!(to_milliseconds(None), 0);
    assert_eq!(to_milliseconds(Some((u64::MAX, 999_999_999))), u64::MAX);
}

#[test]
fn the_clock_has_passed_2020() {
    assert!(now_ms() > 1_577_836_800_000);
}

#[test]
fn a_failed_append_is_answered_once_and_not_retried() {
    let conn = rusqlite::Connection::open_in_memory().unwrap();
    conn.execute_batch("CREATE VIEW entries AS SELECT x FROM nowhere").unwrap();
    let mut broken = HistoryStore::new(conn, 50, 1024, 1024).unwrap();
    let mut watch = ClipboardWatch::new();
    let e = watch.record_text(&mut broken, "a", 1).unwrap().unwrap_err();
    assert!(e.0.to_string().contains("nowhere"));
    assert!(watch.record_text(&mut broken, "a", 2).is_none());
    let e = watch.record_image(&mut broken, 1, 1, vec![1, 2, 3, 4], 3).unwrap().unwrap_err();
    assert!(e.0.to_string().contains("nowhere"));
    assert!(watch.record_image(&mut broken, 1, 1, vec![1, 2, 3, 4], 4).is_none());
}
