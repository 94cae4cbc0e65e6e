//! The picker's event loop: from terminal keys to what is to be done.
use vstd::prelude::*;

use crate::decimal::{parsed_i64, signed_decimal, signed_decimal_string, written_i64_reads_back};
use crate::picker::{after_key, Key, Outcome, OutcomeView, PickerState, PickerView};

verus! {

/// A key of the terminal.
pub enum KeyCode {
    Char(char),
    Up,
    Down,
    Enter,
    Esc,
    Backspace,
    Delete,
    Other,
}

/// The modifiers that are held with a key.
#[derive(Clone, Copy)]
pub struct Modifiers {
    pub control: bool,
    pub shift: bool,
    /// Any modifier besides these two.
    pub other: bool,
}

/// A key event of the terminal.
pub struct KeyPress {
    pub code: KeyCode,
    pub modifiers: Modifiers,
    /// False for the repetition or the release of a key.
    pub pressed: bool,
}

/// What a key event means to the picker.
pub enum KeyAction {
    Ignore,
    Quit,
    Press(Key),
}

/// Control, and nothing else, is held.
pub open spec fn only_control(m: Modifiers) -> bool {
    m.control && !m.shift && !m.other
}

/// Nothing but shift is held.
pub open spec fn at_most_shift(m: Modifiers) -> bool {
    !m.control && !m.other
}

/// What a key event means to the picker.
pub open spec fn key_action(press: KeyPress) -> KeyAction {
    if !press.pressed {
        KeyAction::Ignore
    } else {
        match press.code {
            KeyCode::Up => KeyAction::Press(Key::Up),
            KeyCode::Down => KeyAction::Press(Key::Down),
            KeyCode::Enter => KeyAction::Press(Key::Enter),
            KeyCode::Esc => KeyAction::Press(Key::Esc),
            KeyCode::Backspace => KeyAction::Press(Key::Backspace),
            KeyCode::Delete => KeyAction::Press(Key::DeleteEntry),
            KeyCode::Other => KeyAction::Ignore,
            KeyCode::Char(c) => if only_control(press.modifiers) {
                if c == 'c' {
                    KeyAction::Quit
                } else if c == 'd' {
                    KeyAction::Press(Key::DeleteEntry)
                } else if c == 'p' {
                    KeyAction::Press(Key::Up)
                } else if c == 'n' {
                    KeyAction::Press(Key::Down)
                } else {
                    KeyAction::Ignore
                }
            } else if at_most_shift(press.modifiers) {
                KeyAction::Press(Key::Char(c))
            } else {
                KeyAction::Ignore
            },
        }
    }
}

/// Maps a key event of the terminal to the picker's keys.
pub fn map_key(press: KeyPress) -> (action: KeyAction)
    ensures
        action == key_action(press),
{
    if !press.pressed {
        return KeyAction::Ignore;
    }
    let m = press.modifiers;
    match press.code {
        KeyCode::Up => KeyAction::Press(Key::Up),
        KeyCode::Down => KeyAction::Press(Key::Down),
        KeyCode::Enter => KeyAction::Press(Key::Enter),
        KeyCode::Esc => KeyAction::Press(Key::Esc),
        KeyCode::Backspace => KeyAction::Press(Key::Backspace),
        KeyCode::Delete => KeyAction::Press(Key::DeleteEntry),
        KeyCode::Other => KeyAction::Ignore,
        KeyCode::Char(c) => if m.control && !m.shift && !m.other {
            match c {
                'c' => KeyAction::Quit,
                'd' => KeyAction::Press(Key::DeleteEntry),
                'p' => KeyAction::Press(Key::Up),
                'n' => KeyAction::Press(Key::Down),
                _ => KeyAction::Ignore,
            }
        } else if !m.control && !m.other {
            KeyAction::Press(Key::Char(c))
        } else {
            KeyAction::Ignore
        },
    }
}

/// What the event loop is to do after a key event.
#[derive(Debug, PartialEq)]
pub enum LoopAction {
    /// Go on.
    Nothing,
    /// Leave the picker.
    Quit,
    /// Delete the entry from the store, and go on.
    Delete(i64),
    /// Have the image served from another process, and leave.
    Restore(i64),
    /// Paste the text and leave; stay with a message if that fails.
    Paste(String),
}

/// What the event loop is to do, given what the picker answered.
pub open spec fn is_loop_action(action: LoopAction, outcome: OutcomeView) -> bool {
    match outcome {
        OutcomeView::Continue => action == LoopAction::Nothing,
        OutcomeView::Cancel => action == LoopAction::Quit,
        OutcomeView::Delete(id) => action == LoopAction::Delete(id),
        OutcomeView::RestoreImage(id) => action == LoopAction::Restore(id),
        OutcomeView::Paste(t) => action matches LoopAction::Paste(text) && text@ == t,
    }
}

/// One turn of the event loop: the key event changes the state, and the loop
/// learns what to do.
pub fn on_key_press(state: &mut PickerState, press: KeyPress) -> (action: LoopAction)
    ensures
        match key_action(press) {
            KeyAction::Ignore => final(state)@ == old(state)@ && action == LoopAction::Nothing,
            KeyAction::Quit => final(state)@ == old(state)@ && action == LoopAction::Quit,
            KeyAction::Press(key) => final(state)@ == after_key(old(state)@, key).0
                && is_loop_action(action, after_key(old(state)@, key).1),
        },
{
    match map_key(press) {
        KeyAction::Ignore => LoopAction::Nothing,
        KeyAction::Quit => LoopAction::Quit,
        KeyAction::Press(key) => match state.on_key(key) {
            Outcome::Continue => LoopAction::Nothing,
            Outcome::Cancel => LoopAction::Quit,
            Outcome::Delete(id) => LoopAction::Delete(id),
            Outcome::RestoreImage(id) => LoopAction::Restore(id),
            Outcome::Paste(text) => LoopAction::Paste(text),
        },
    }
}

/// Puts the reason why a paste failed into the status line.
pub fn on_paste_failed(state: &mut PickerState, reason: &str)
    ensures
        final(state)@ == (PickerView {
            status: Some("paste failed: "@ + reason@),
            ..old(state)@
        }),
{
    let mut message = String::new();
    message.append("paste failed: ");
    message.append(reason);
    assert(message@ =~= "paste failed: "@ + reason@);
    state.status = Some(message);
}

/// The arguments that have this program serve the image `id`.
pub fn serve_arguments(id: i64) -> (args: Vec<String>)
    ensures
        args@.len() == 2,
        args@[0]@ == "serve-clipboard"@,
        args@[1]@ == signed_decimal(id as int),
        parsed_i64(args@[1]@) == Some(id),
{
    proof {
        written_i64_reads_back(id);
    }
    let mut args: Vec<String> = Vec::new();
    args.push("serve-clipboard".to_owned());
    args.push(signed_decimal_string(id));
    args
}

/// Only a press has an effect; of all presses, control with `c` alone closes
/// the picker whatever its state, and a character reaches the filter only
/// without control.
pub proof fn only_control_c_quits_at_once(press: KeyPress)
    ensures
        !press.pressed ==> key_action(press) is Ignore,
        key_action(press) is Quit <==> press.pressed && press.code == KeyCode::Char('c')
            && only_control(press.modifiers),
        key_action(press) matches KeyAction::Press(Key::Char(c)) ==> press.code == KeyCode::Char(c)
            && at_most_shift(press.modifiers),
{
}

} // verus!
