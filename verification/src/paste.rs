//! Which pane a picked text is sent to.
use vstd::prelude::*;

use crate::text::{opt_text, trim, trimmed};

verus! {

/// The view of an optional borrowed text.
pub open spec fn opt_str(s: Option<&str>) -> Option<Seq<char>> {
    match s {
        Some(t) => Some(t@),
        None => None,
    }
}

/// The pane that was focused before the picker: what the watcher recorded,
/// unless that is nothing or the picker's own pane.
pub open spec fn recorded_target(
    recorded: Option<Seq<char>>,
    self_pane: Option<Seq<char>>,
) -> Option<Seq<char>> {
    match recorded {
        Some(r) => if trimmed(r).len() > 0 && Some(trimmed(r)) != self_pane {
            Some(trimmed(r))
        } else {
            None
        },
        None => None,
    }
}

fn is_pane(id: &String, pane: Option<&str>) -> (r: bool)
    ensures
        r == (opt_str(pane) == Some(id@)),
{
    match pane {
        Some(p) => *id == p.to_owned(),
        None => false,
    }
}

/// Paste target: the pane focused before the overlay took focus, recorded by
/// the watcher. Never the picker itself.
pub fn paste_target(recorded: Option<&str>, self_pane: Option<&str>) -> (r: Option<String>)
    ensures
        opt_text(r) == recorded_target(opt_str(recorded), opt_str(self_pane)),
{
    match recorded {
        Some(text) => {
            let id = trim(text);
            if !id.as_str().is_empty() && !is_pane(&id, self_pane) {
                Some(id)
            } else {
                None
            }
        },
        None => None,
    }
}

/// What to do next to paste a text.
#[derive(Debug, PartialEq)]
pub enum PasteStep {
    /// Send the text to this pane.
    Send(String),
    /// Ask herdr which pane is focused.
    AskFocused,
    /// The text has arrived.
    Done,
    /// There is no pane to send the text to.
    NoTarget,
}

/// The first step: the recorded target, if there is one.
pub fn first_paste_step(target: Option<&str>) -> (step: PasteStep)
    ensures
        match target {
            Some(t) => step matches PasteStep::Send(id) && id@ == t@,
            None => step == PasteStep::AskFocused,
        },
{
    match target {
        Some(t) => PasteStep::Send(t.to_owned()),
        None => PasteStep::AskFocused,
    }
}

/// The step after the recorded target was tried: it may have closed.
pub fn after_target_tried(sent: bool) -> (step: PasteStep)
    ensures
        step == (if sent {
            PasteStep::Done
        } else {
            PasteStep::AskFocused
        }),
{
    if sent {
        PasteStep::Done
    } else {
        PasteStep::AskFocused
    }
}

/// The step after herdr named the focused pane: send to it, unless it is the
/// picker itself.
pub fn after_focus_asked(focused: Option<String>, self_pane: Option<&str>) -> (step: PasteStep)
    ensures
        match focused {
            Some(id) => if opt_str(self_pane) == Some(id@) {
                step == PasteStep::NoTarget
            } else {
                step == PasteStep::Send(id)
            },
            None => step == PasteStep::NoTarget,
        },
{
    match focused {
        Some(id) => if is_pane(&id, self_pane) {
            PasteStep::NoTarget
        } else {
            PasteStep::Send(id)
        },
        None => PasteStep::NoTarget,
    }
}

/// The recorded target is never the picker's own pane, and never empty.
pub proof fn target_is_never_the_picker(
    recorded: Option<Seq<char>>,
    self_pane: Option<Seq<char>>,
)
    ensures
        recorded_target(recorded, self_pane) matches Some(id) ==> id.len() > 0 && Some(id)
            != self_pane,
{
}

} // verus!
