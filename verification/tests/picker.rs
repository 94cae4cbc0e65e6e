use herdr_clip::history::{Content, Entry};
use herdr_clip::label::{entry_label, format_preview};
use herdr_clip::picker::{paste_text, Key, Outcome, PickerState};

fn t(id: i64, ts: u64, text: &str) -> Entry {
    Entry { id, ts, content: Content::Text(text.into()) }
}

fn img(id: i64, ts: u64, w: u32, h: u32, bytes: usize) -> Entry {
    Entry { id, ts, content: Content::Image { w, h, bytes } }
}

fn entries() -> Vec<Entry> {
    vec![t(3, 3, "newest cargo build"), t(2, 2, "middle"), t(1, 1, "oldest line")]
}

#[test]
fn typing_filters_and_resets_selection() {
    let mut s = PickerState::new(entries());
    s.on_key(Key::Down);
    for c in "cargo".chars() {
        assert_eq!(s.on_key(Key::Char(c)), Outcome::Continue);
    }
    let vis: Vec<_> = s.visible().iter().map(|e| e.id).collect();
    assert_eq!(vis, vec![3]);
    assert_eq!(s.selected, 0);
}

#[test]
fn navigation_clamps_to_visible_range() {
    let mut s = PickerState::new(entries());
    s.on_key(Key::Up);
    assert_eq!(s.selected, 0);
    for _ in 0..10 {
        s.on_key(Key::Down);
    }
    assert_eq!(s.selected, 2);
}

#[test]
fn enter_pastes_single_line_entry() {
    let mut s = PickerState::new(entries());
    s.on_key(Key::Down);
    assert_eq!(s.on_key(Key::Enter), Outcome::Paste("middle".into()));
}

#[test]
fn enter_on_multiline_requires_confirmation() {
    let mut s = PickerState::new(vec![t(1, 1, "a\nb\n")]);
    assert_eq!(s.on_key(Key::Enter), Outcome::Continue);
    assert!(s.pending_confirm);
    assert!(s.status.as_deref().unwrap_or("").contains("2-line"));
    assert_eq!(s.on_key(Key::Enter), Outcome::Paste("a\nb".into()));
}

#[test]
fn any_other_key_disarms_multiline_confirmation() {
    let mut s = PickerState::new(vec![t(1, 1, "a\nb")]);
    s.on_key(Key::Enter);
    s.on_key(Key::Down);
    assert!(!s.pending_confirm);
    assert_eq!(s.on_key(Key::Enter), Outcome::Continue); // re-arms, doesn't paste
}

#[test]
fn enter_on_image_restores_without_confirmation() {
    let mut s = PickerState::new(vec![img(7, 1, 640, 480, 1000)]);
    assert_eq!(s.on_key(Key::Enter), Outcome::RestoreImage(7));
    assert!(!s.pending_confirm);
}

#[test]
fn images_match_filter_by_badge_text() {
    let mut s = PickerState::new(vec![t(2, 2, "hello"), img(1, 1, 640, 480, 1000)]);
    for c in "img".chars() {
        s.on_key(Key::Char(c));
    }
    let vis: Vec<_> = s.visible().iter().map(|e| e.id).collect();
    assert_eq!(vis, vec![1]);
}

#[test]
fn delete_removes_selected_and_reports_id() {
    let mut s = PickerState::new(entries());
    s.on_key(Key::Down);
    assert_eq!(s.on_key(Key::DeleteEntry), Outcome::Delete(2));
    let vis: Vec<_> = s.visible().iter().map(|e| e.id).collect();
    assert_eq!(vis, vec![3, 1]);
    s.on_key(Key::Down);
    assert_eq!(s.on_key(Key::DeleteEntry), Outcome::Delete(1));
    assert_eq!(s.selected, 0);
}

#[test]
fn esc_clears_filter_then_cancels() {
    let mut s = PickerState::new(entries());
    s.on_key(Key::Char('m'));
    assert_eq!(s.on_key(Key::Esc), Outcome::Continue);
    assert!(s.filter.is_empty());
    assert_eq!(s.on_key(Key::Esc), Outcome::Cancel);
}

#[test]
fn enter_and_delete_on_empty_history_are_noops() {
    let mut s = PickerState::new(Vec::new());
    assert_eq!(s.on_key(Key::Enter), Outcome::Continue);
    assert_eq!(s.on_key(Key::DeleteEntry), Outcome::Continue);
}

#[test]
fn keys_are_noops_when_filter_matches_nothing() {
    let mut s = PickerState::new(vec![t(1, 1, "hello")]);
    for c in "zzz".chars() {
        s.on_key(Key::Char(c));
    }
    assert!(s.visible().is_empty());
    s.on_key(Key::Up);
    s.on_key(Key::Down);
    assert_eq!(s.on_key(Key::Enter), Outcome::Continue);
    assert_eq!(s.on_key(Key::DeleteEntry), Outcome::Continue);
}

#[test]
fn paste_text_strips_at_most_one_trailing_newline() {
    assert_eq!(paste_text("cmd\n"), "cmd");
    assert_eq!(paste_text("cmd\r\n"), "cmd");
    assert_eq!(paste_text("cmd\n\n"), "cmd\n");
    assert_eq!(paste_text("cmd"), "cmd");
}

#[test]
fn format_preview_flattens_truncates_and_badges() {
    assert_eq!(format_preview("plain text", 80), "plain text");
    assert_eq!(format_preview("a\n  b\tc\n", 80), "[2L] a b c");
    assert_eq!(format_preview("abcdef", 5), "abcd…");
    assert_eq!(format_preview("   \n", 80), "(whitespace)");
}

#[test]
fn preview_badge_matches_confirm_line_count() {
    assert_eq!(format_preview("a\nb\n\n\n", 80), "[3L] a b");
}

#[test]
fn entry_labels_cover_both_kinds() {
    assert_eq!(entry_label(&t(1, 1, "some text"), 80), "some text");
    assert_eq!(entry_label(&img(1, 1, 1920, 1080, 2 * 1024 * 1024), 80), "[IMG 1920x1080 · 2.0 MB]");
    assert_eq!(entry_label(&img(1, 1, 8, 8, 300), 80), "[IMG 8x8 · 300 B]");
}
