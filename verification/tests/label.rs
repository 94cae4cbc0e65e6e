use herdr_clip::label::format_preview;
use herdr_clip::history::{Content, Entry};
use herdr_clip::picker::{searchable, Key, Outcome, PickerState};

fn text(id: i64, text: &str) -> Entry {
    Entry { id, ts: 0, content: Content::Text(text.into()) }
}

#[test]
fn previews_fit_their_width() {
    for width in 1..12 {
        for sample in ["abcdef", "ééééééééééééé", "a\nb\nc", "x y  z"] {
            assert!(format_preview(sample, width).chars().count() <= width);
        }
    }
    assert_eq!(format_preview("abc", 3), "abc");
    assert_eq!(format_preview("abcd", 3), "ab…");
    assert_eq!(format_preview("abc", 0), "…");
    assert_eq!(format_preview("", 0), "(whitespace)");
}

#[test]
fn previews_are_one_line() {
    assert_eq!(format_preview("a\r\n\u{2028}b\u{85}c", 80), "[2L] a b c");
    assert_eq!(format_preview("\n\n\n", 80), "[2L] ");
}

#[test]
fn one_line_with_a_newline_needs_no_badge_and_no_confirmation() {
    assert_eq!(format_preview("ls -l\n", 80), "ls -l");
    let mut s = PickerState::new(vec![text(1, "ls -l\r\n")]);
    assert_eq!(s.on_key(Key::Enter), Outcome::Paste("ls -l".into()));
}

#[test]
fn typing_narrows_and_erasing_widens() {
    let mut s = PickerState::new(vec![text(2, "alpha"), text(1, "beta")]);
    assert_eq!(s.visible().len(), 2);
    s.on_key(Key::Char('a'));
    assert_eq!(s.visible().len(), 2);
    s.on_key(Key::Char('l'));
    assert_eq!(s.visible().len(), 1);
    s.on_key(Key::Backspace);
    assert_eq!(s.visible().len(), 2);
}

#[test]
fn only_deleting_changes_the_entries() {
    let mut s = PickerState::new(vec![text(2, "alpha"), text(1, "beta")]);
    for key in [Key::Up, Key::Down, Key::Enter, Key::Char('z'), Key::DeleteEntry, Key::Esc] {
        s.on_key(key);
        assert_eq!(s.entries.len(), 2);
    }
    assert_eq!(s.on_key(Key::DeleteEntry), Outcome::Delete(2));
    assert_eq!(s.entries, vec![text(1, "beta")]);
}

#[test]
fn images_are_found_by_their_dimensions() {
    let image = Entry { id: 1, ts: 0, content: Content::Image { w: 1920, h: 1080, bytes: 9 } };
    let mut s = PickerState::new(vec![image]);
    for c in "1920x1080".chars() {
        s.on_key(Key::Char(c));
        assert_eq!(s.visible().len(), 1);
    }
    s.on_key(Key::Char('x'));
    assert!(s.visible().is_empty());
}

#[test]
fn search_is_by_text_or_dimensions() {
    let image = |id, ts, bytes| Entry { id, ts, content: Content::Image { w: 64, h: 48, bytes } };
    assert_eq!(searchable(&text(1, "Some\nText")), "Some\nText");
    assert_eq!(searchable(&image(1, 2, 3)), "image img 64x48");
    assert_eq!(searchable(&image(4, 5, 6)), "image img 64x48");
}

#[test]
fn deleting_takes_one_line_out_of_a_filtered_list() {
    let mut s = PickerState::new(vec![text(4, "ab"), text(3, "x"), text(2, "ba"), text(1, "aa")]);
    s.on_key(Key::Char('a'));
    s.on_key(Key::Down);
    assert_eq!(s.on_key(Key::DeleteEntry), Outcome::Delete(2));
    let shown: Vec<i64> = s.visible().iter().map(|e| e.id).collect();
    assert_eq!(shown, vec![4, 1]);
    s.on_key(Key::Char('b'));
    assert_eq!(s.visible().iter().map(|e| e.id).collect::<Vec<_>>(), vec![4]);
    s.on_key(Key::Backspace);
    assert_eq!(s.visible().iter().map(|e| e.id).collect::<Vec<_>>(), vec![4, 1]);
}

#[test]
fn previews_of_previews_and_of_texts_with_a_newline() {
    for sample in ["abcdef", "a  b\tc", "a\nb\nc d", " x ", ""] {
        for width in 12..20 {
            let once = format_preview(sample, width);
            assert_eq!(format_preview(&once, width), once);
        }
    }
    for sample in ["", "a", "a b", "a\nb"] {
        assert_eq!(format_preview(&format!("{sample}\n"), 9), format_preview(sample, 9));
        assert_eq!(format_preview(&format!("{sample}\r\n"), 9), format_preview(sample, 9));
    }
    // Blank lines count, so a newline after one shows.
    assert_eq!(format_preview("a\n\n", 9), "a");
    assert_eq!(format_preview("a\n\n\n", 9), "[2L] a");
}
