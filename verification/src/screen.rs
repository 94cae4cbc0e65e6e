//! The texts that the picker shows.
use vstd::prelude::*;

use crate::decimal::{decimal, push_decimal};
use crate::history::{Content, ContentView, Entry, EntryView};
use crate::label::{entry_label, label};
use crate::picker::{highlighted, visible_entries, PickerState, PickerView};
use crate::size::{human_size, size_text};

verus! {

/// The columns that a list of the given width leaves for a label, between its
/// borders.
pub open spec fn label_width(columns: u16) -> nat {
    if columns >= 3 {
        (columns - 3) as nat
    } else {
        0
    }
}

/// The labels of the visible entries, in a list of the given width.
pub fn list_labels(state: &PickerState, columns: u16) -> (labels: Vec<String>)
    ensures
        labels@.map_values(|l: String| l@) == visible_entries(state@).map_values(
            |e: EntryView| label(e, label_width(columns)),
        ),
{
    let width: usize = if columns >= 3 { (columns - 3) as usize } else { 0 };
    let shown = state.visible();
    let ghost views = shown@.map_values(|e: &Entry| e@);
    let ghost expected = views.map_values(|e: EntryView| label(e, label_width(columns)));
    let mut labels: Vec<String> = Vec::new();
    let mut i: usize = 0;
    while i < shown.len()
        invariant
            i <= shown@.len(),
            width == label_width(columns),
            views == shown@.map_values(|e: &Entry| e@),
            expected == views.map_values(|e: EntryView| label(e, label_width(columns))),
            labels@.map_values(|l: String| l@) == expected.take(i as int),
        decreases shown@.len() - i,
    {
        assert(views[i as int] == shown@[i as int]@);
        let ghost before = labels@.map_values(|l: String| l@);
        let text = entry_label(shown[i], width);
        labels.push(text);
        assert(labels@.map_values(|l: String| l@) =~= before.push(text@));
        assert(expected.take(i + 1) =~= expected.take(i as int).push(expected[i as int]));
        i += 1;
    }
    assert(expected.take(i as int) =~= expected);
    labels
}

/// The line of the list that is highlighted: none where it has no lines.
pub fn list_selection(state: &PickerState) -> (r: Option<usize>)
    ensures
        r == (if visible_entries(state@).len() > 0 {
            Some(state.selected)
        } else {
            None::<usize>
        }),
{
    let shown = state.visible();
    assert(shown@.map_values(|e: &Entry| e@).len() == shown@.len());
    if shown.len() > 0 {
        Some(state.selected)
    } else {
        None
    }
}

/// The text of the preview panel.
pub open spec fn preview_panel(s: PickerView) -> Seq<char> {
    match highlighted(s) {
        None => "clipboard history is empty — copy something first"@,
        Some(e) => match e.content {
            ContentView::Text(t) => t,
            ContentView::Image { w, h, bytes } => "PNG image "@ + decimal(w as nat) + "×"@
                + decimal(h as nat) + ", "@ + size_text(bytes as nat)
                + ".\n\nEnter restores it to the system clipboard."@,
        },
    }
}

/// The highlighted entry in full.
pub fn preview_text(state: &PickerState) -> (text: String)
    ensures
        text@ == preview_panel(state@),
{
    match state.selected_entry() {
        None => "clipboard history is empty — copy something first".to_owned(),
        Some(e) => match &e.content {
            Content::Text(t) => t.clone(),
            Content::Image { w, h, bytes } => {
                let mut text = String::new();
                text.append("PNG image ");
                push_decimal(&mut text, *w as u64);
                text.append("×");
                push_decimal(&mut text, *h as u64);
                text.append(", ");
                let size = human_size(*bytes);
                text.append(size.as_str());
                text.append(".\n\nEnter restores it to the system clipboard.");
                assert(text@ =~= preview_panel(state@));
                text
            },
        },
    }
}

/// The text of the footer: the status, or else the filter and the keys.
pub open spec fn footer(s: PickerView) -> Seq<char> {
    match s.status {
        Some(status) => status,
        None => "filter: "@ + s.filter
            + "▏  ↑/↓ move · type to filter · Enter paste · Ctrl+D delete · Esc quit"@,
    }
}

/// The text of the footer.
pub fn footer_text(state: &PickerState) -> (text: String)
    ensures
        text@ == footer(state@),
{
    match &state.status {
        Some(status) => status.clone(),
        None => {
            let mut text = String::new();
            text.append("filter: ");
            text.append(state.filter.as_str());
            text.append("▏  ↑/↓ move · type to filter · Enter paste · Ctrl+D delete · Esc quit");
            assert(text@ =~= footer(state@));
            text
        },
    }
}

} // verus!
