use herdr_clip::cli::{list_lines, parse_command, Command};
use herdr_clip::history::{Content, Entry};
use herdr_clip::paste::{
    after_focus_asked, after_target_tried, first_paste_step, paste_target, PasteStep,
};
use herdr_clip::picker::{paste_text, PickerState};
use herdr_clip::screen::{footer_text, list_labels, list_selection, preview_text};
use herdr_clip::session::{
    on_key_press, on_paste_failed, serve_arguments, KeyCode, KeyPress, LoopAction, Modifiers,
};

const NONE: Modifiers = Modifiers { control: false, shift: false, other: false };
const CONTROL: Modifiers = Modifiers { control: true, shift: false, other: false };
const SHIFT: Modifiers = Modifiers { control: false, shift: true, other: false };
const ALT: Modifiers = Modifiers { control: false, shift: false, other: true };
const CONTROL_SHIFT: Modifiers = Modifiers { control: true, shift: true, other: false };

fn press(code: KeyCode, modifiers: Modifiers) -> KeyPress {
    KeyPress { code, modifiers, pressed: true }
}

fn text(id: i64, text: &str) -> Entry {
    Entry { id, ts: 10 + id as u64, content: Content::Text(text.into()) }
}

fn image(id: i64) -> Entry {
    Entry { id, ts: 10 + id as u64, content: Content::Image { w: 640, h: 480, bytes: 1536 } }
}

fn state() -> PickerState {
    PickerState::new(vec![text(3, "echo hi\n"), image(2), text(1, "a\nb")])
}

#[test]
fn control_keys_move_delete_and_quit() {
    let mut s = state();
    assert_eq!(on_key_press(&mut s, press(KeyCode::Char('n'), CONTROL)), LoopAction::Nothing);
    assert_eq!(s.selected, 1);
    assert_eq!(on_key_press(&mut s, press(KeyCode::Char('p'), CONTROL)), LoopAction::Nothing);
    assert_eq!(s.selected, 0);
    assert_eq!(on_key_press(&mut s, press(KeyCode::Down, ALT)), LoopAction::Nothing);
    assert_eq!(on_key_press(&mut s, press(KeyCode::Char('d'), CONTROL)), LoopAction::Delete(2));
    assert_eq!(on_key_press(&mut s, press(KeyCode::Up, SHIFT)), LoopAction::Nothing);
    assert_eq!(on_key_press(&mut s, press(KeyCode::Delete, NONE)), LoopAction::Delete(3));
    assert_eq!(on_key_press(&mut s, press(KeyCode::Char('c'), CONTROL)), LoopAction::Quit);
    assert_eq!(s.entries.len(), 1);
}

#[test]
fn characters_filter_only_without_control_or_alt() {
    let mut s = state();
    for ignored in [ALT, CONTROL, CONTROL_SHIFT] {
        assert_eq!(on_key_press(&mut s, press(KeyCode::Char('x'), ignored)), LoopAction::Nothing);
        assert_eq!(s.filter, "");
    }
    assert_eq!(on_key_press(&mut s, press(KeyCode::Char('c'), CONTROL_SHIFT)), LoopAction::Nothing);
    on_key_press(&mut s, press(KeyCode::Char('c'), NONE));
    on_key_press(&mut s, press(KeyCode::Char('D'), SHIFT));
    assert_eq!(s.filter, "cD");
    on_key_press(&mut s, press(KeyCode::Backspace, ALT));
    assert_eq!(s.filter, "c");
    assert_eq!(on_key_press(&mut s, press(KeyCode::Esc, NONE)), LoopAction::Nothing);
    assert_eq!(on_key_press(&mut s, press(KeyCode::Esc, NONE)), LoopAction::Quit);
}

#[test]
fn releases_and_other_keys_are_ignored() {
    let mut s = state();
    let release = KeyPress { code: KeyCode::Enter, modifiers: NONE, pressed: false };
    assert_eq!(on_key_press(&mut s, release), LoopAction::Nothing);
    let quit = KeyPress { code: KeyCode::Char('c'), modifiers: CONTROL, pressed: false };
    assert_eq!(on_key_press(&mut s, quit), LoopAction::Nothing);
    assert_eq!(on_key_press(&mut s, press(KeyCode::Other, NONE)), LoopAction::Nothing);
}

#[test]
fn enter_pastes_restores_and_asks() {
    let mut s = state();
    assert_eq!(on_key_press(&mut s, press(KeyCode::Enter, NONE)), LoopAction::Paste("echo hi".into()));
    on_key_press(&mut s, press(KeyCode::Down, NONE));
    assert_eq!(on_key_press(&mut s, press(KeyCode::Enter, NONE)), LoopAction::Restore(2));
    on_key_press(&mut s, press(KeyCode::Down, NONE));
    assert_eq!(on_key_press(&mut s, press(KeyCode::Enter, NONE)), LoopAction::Nothing);
    assert_eq!(footer_text(&s), "2-line entry — press Enter again to paste");
    assert_eq!(on_key_press(&mut s, press(KeyCode::Enter, NONE)), LoopAction::Paste("a\nb".into()));
}

#[test]
fn a_failed_paste_shows_in_the_footer() {
    let mut s = state();
    on_paste_failed(&mut s, "no target pane");
    assert_eq!(footer_text(&s), "paste failed: no target pane");
    on_key_press(&mut s, press(KeyCode::Down, NONE));
    assert_eq!(
        footer_text(&s),
        "filter: ▏  ↑/↓ move · type to filter · Enter paste · Ctrl+D delete · Esc quit"
    );
}

#[test]
fn a_lone_carriage_return_is_no_newline() {
    assert_eq!(paste_text("cmd\r"), "cmd\r");
    assert_eq!(paste_text("cmd\r\r\n"), "cmd\r");
    assert_eq!(paste_text("\n"), "");
    assert_eq!(paste_text(""), "");
}

#[test]
fn the_list_shows_labels_within_the_borders() {
    let s = state();
    assert_eq!(list_labels(&s, 80), vec!["echo hi", "[IMG 640x480 · 1.5 KB]", "[2L] a b"]);
    assert_eq!(list_labels(&s, 8)[0], "echo…");
    assert_eq!(list_labels(&s, 2)[0], "…");
    assert_eq!(list_selection(&s), Some(0));
    let empty = PickerState::new(Vec::new());
    assert!(list_labels(&empty, 80).is_empty());
    assert_eq!(list_selection(&empty), None);
}

#[test]
fn the_preview_shows_the_entry_in_full() {
    let mut s = state();
    assert_eq!(preview_text(&s), "echo hi\n");
    on_key_press(&mut s, press(KeyCode::Down, NONE));
    assert_eq!(
        preview_text(&s),
        "PNG image 640×480, 1.5 KB.\n\nEnter restores it to the system clipboard."
    );
    let empty = PickerState::new(Vec::new());
    assert_eq!(preview_text(&empty), "clipboard history is empty — copy something first");
}

#[test]
fn commands_are_parsed() {
    let parse = |args: &[&str]| parse_command(&args.iter().map(|a| a.to_string()).collect());
    assert_eq!(parse(&["watch"]), Command::Watch);
    assert_eq!(parse(&["watch-foreground"]), Command::WatchForeground);
    assert_eq!(parse(&["pick", "ignored"]), Command::Pick);
    assert_eq!(parse(&["list"]), Command::List);
    assert_eq!(parse(&["latest"]), Command::Latest);
    assert_eq!(parse(&["save-copied"]), Command::SaveCopied);
    assert_eq!(parse(&["serve-clipboard", "-12"]), Command::ServeClipboard(-12));
    assert_eq!(parse(&["serve-clipboard", "x"]), Command::ServeClipboardUsage);
    assert_eq!(parse(&["serve-clipboard"]), Command::ServeClipboardUsage);
    assert_eq!(parse(&["Watch"]), Command::Usage);
    assert_eq!(parse(&[]), Command::Usage);
}

#[test]
fn serving_an_image_is_asked_for_by_its_id() {
    for id in [1, 42, i64::MAX, i64::MIN] {
        assert_eq!(parse_command(&serve_arguments(id)), Command::ServeClipboard(id));
    }
    assert_eq!(serve_arguments(7), vec!["serve-clipboard", "7"]);
}

#[test]
fn the_list_is_tab_separated() {
    let entries = vec![text(3, "x\ty\n"), image(2)];
    assert_eq!(list_lines(&entries), vec!["0\t13\tx y", "1\t12\t[IMG 640x480 · 1.5 KB]"]);
    let long = vec![text(1, &"z".repeat(101))];
    assert_eq!(list_lines(&long)[0], format!("0\t11\t{}…", "z".repeat(99)));
}

#[test]
fn the_target_is_the_recorded_pane_but_never_the_picker() {
    assert_eq!(paste_target(Some(" w1:p2\n"), Some("w1:p9")), Some("w1:p2".into()));
    assert_eq!(paste_target(Some("w1:p2"), None), Some("w1:p2".into()));
    assert_eq!(paste_target(Some("w1:p9\n"), Some("w1:p9")), None);
    assert_eq!(paste_target(Some(" \n"), None), None);
    assert_eq!(paste_target(None, None), None);
}

#[test]
fn pasting_falls_back_to_the_focused_pane() {
    assert_eq!(first_paste_step(Some("p")), PasteStep::Send("p".into()));
    assert_eq!(first_paste_step(None), PasteStep::AskFocused);
    assert_eq!(after_target_tried(true), PasteStep::Done);
    assert_eq!(after_target_tried(false), PasteStep::AskFocused);
    assert_eq!(after_focus_asked(Some("q".into()), Some("p")), PasteStep::Send("q".into()));
    assert_eq!(after_focus_asked(Some("q".into()), None), PasteStep::Send("q".into()));
    assert_eq!(after_focus_asked(Some("p".into()), Some("p")), PasteStep::NoTarget);
    assert_eq!(after_focus_asked(None, Some("p")), PasteStep::NoTarget);
}
