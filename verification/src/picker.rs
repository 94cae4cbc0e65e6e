//! The picker's state and how each key changes it.
use vstd::prelude::*;

use crate::decimal::{decimal, push_decimal};
use crate::filter::{fuzzy_match, matches_filter};
use crate::history::{entry_views, Content, ContentView, Entry, EntryView};
use crate::text::{chars_of, count_lines, lines, string_of, without_cr};

verus! {

/// Terminal-agnostic key model, so that state transitions need no terminal.
pub enum Key {
    Up,
    Down,
    Enter,
    Esc,
    Backspace,
    DeleteEntry,
    Char(char),
}

#[derive(Debug, PartialEq)]
pub enum Outcome {
    Continue,
    Cancel,
    /// Final text to send (trailing newline already stripped).
    Paste(String),
    /// Image entry to restore to the system clipboard (by store id).
    RestoreImage(i64),
    /// Entry with this id was removed from the state; persist the delete.
    Delete(i64),
}

/// An outcome as mathematical values.
pub enum OutcomeView {
    Continue,
    Cancel,
    Paste(Seq<char>),
    RestoreImage(i64),
    Delete(i64),
}

impl View for Outcome {
    type V = OutcomeView;

    open spec fn view(&self) -> OutcomeView {
        match *self {
            Outcome::Continue => OutcomeView::Continue,
            Outcome::Cancel => OutcomeView::Cancel,
            Outcome::Paste(t) => OutcomeView::Paste(t@),
            Outcome::RestoreImage(id) => OutcomeView::RestoreImage(id),
            Outcome::Delete(id) => OutcomeView::Delete(id),
        }
    }
}

pub struct PickerState {
    /// Newest first.
    pub entries: Vec<Entry>,
    pub filter: String,
    /// Index into the visible entries.
    pub selected: usize,
    pub pending_confirm: bool,
    pub status: Option<String>,
}

/// The picker's state as mathematical values. The entries are newest first.
#[verifier::ext_equal]
pub struct PickerView {
    pub entries: Seq<EntryView>,
    pub filter: Seq<char>,
    pub selected: usize,
    pub pending_confirm: bool,
    pub status: Option<Seq<char>>,
}

/// What the filter runs against: the text itself, or a label for an image
/// with "image", "img" and the dimensions in it.
pub open spec fn searchable_text(e: EntryView) -> Seq<char> {
    match e.content {
        ContentView::Text(t) => t,
        ContentView::Image { w, h, .. } => "image img "@ + decimal(w as nat) + "x"@
            + decimal(h as nat),
    }
}

/// Whether entry `e` passes the filter of `s`.
pub open spec fn is_visible(s: PickerView, e: EntryView) -> bool {
    matches_filter(s.filter, searchable_text(e))
}

/// The entries that pass the filter, in history order.
pub open spec fn visible_entries(s: PickerView) -> Seq<EntryView> {
    s.entries.filter(|e: EntryView| is_visible(s, e))
}

/// The highlighted entry, if there is one.
pub open spec fn highlighted(s: PickerView) -> Option<EntryView> {
    let shown = visible_entries(s);
    if s.selected < shown.len() {
        Some(shown[s.selected as int])
    } else {
        None
    }
}

/// `text` as it is pasted: without the one newline (LF or CRLF) that ends it,
/// if one does.
pub open spec fn pasted(text: Seq<char>) -> Seq<char> {
    if text.len() > 0 && text.last() == '\n' {
        without_cr(text.drop_last())
    } else {
        text
    }
}

/// The message that asks for a second Enter on a text of several lines.
pub open spec fn confirm_message(text: Seq<char>) -> Seq<char> {
    decimal(lines(text).len())
        + "-line entry — press Enter again to paste"@
}

/// Any key but Enter withdraws the question for confirmation and the status.
pub open spec fn disarmed(s: PickerView) -> PickerView {
    PickerView { pending_confirm: false, status: None, ..s }
}

/// Where the selection lands after entries went: on the last visible one if
/// it pointed past that.
pub open spec fn clamped(selected: usize, visible: nat) -> usize {
    if visible > 0 && selected >= visible {
        (visible - 1) as usize
    } else {
        selected
    }
}

/// What Enter does in state `s`.
pub open spec fn after_enter(s: PickerView) -> (PickerView, OutcomeView) {
    match highlighted(s) {
        None => (s, OutcomeView::Continue),
        Some(e) => match e.content {
            ContentView::Image { .. } => (
                PickerView { pending_confirm: false, ..s },
                OutcomeView::RestoreImage(e.id),
            ),
            ContentView::Text(t) => if pasted(t).contains('\n') && !s.pending_confirm {
                (
                    PickerView {
                        pending_confirm: true,
                        status: Some(confirm_message(pasted(t))),
                        ..s
                    },
                    OutcomeView::Continue,
                )
            } else {
                (PickerView { pending_confirm: false, ..s }, OutcomeView::Paste(pasted(t)))
            },
        },
    }
}

/// What the delete key does in state `s`: every entry with the highlighted
/// entry's id goes.
pub open spec fn after_delete(s: PickerView) -> (PickerView, OutcomeView) {
    match highlighted(s) {
        None => (disarmed(s), OutcomeView::Continue),
        Some(e) => {
            let left = PickerView {
                entries: s.entries.filter(|o: EntryView| o.id != e.id),
                ..disarmed(s)
            };
            (
                PickerView {
                    selected: clamped(s.selected, visible_entries(left).len()),
                    ..left
                },
                OutcomeView::Delete(e.id),
            )
        },
    }
}

/// The state that `key` leads to from `s`, and what the picker is to do.
pub open spec fn after_key(s: PickerView, key: Key) -> (PickerView, OutcomeView) {
    match key {
        Key::Up => (
            PickerView {
                selected: (if s.selected > 0 { s.selected - 1 } else { 0 }) as usize,
                ..disarmed(s)
            },
            OutcomeView::Continue,
        ),
        Key::Down => (
            PickerView {
                selected: (if s.selected + 1 < visible_entries(s).len() {
                    s.selected + 1
                } else {
                    s.selected as int
                }) as usize,
                ..disarmed(s)
            },
            OutcomeView::Continue,
        ),
        Key::Char(c) => (
            PickerView { filter: s.filter.push(c), selected: 0, ..disarmed(s) },
            OutcomeView::Continue,
        ),
        Key::Backspace => (
            PickerView {
                filter: if s.filter.len() > 0 { s.filter.drop_last() } else { s.filter },
                selected: 0,
                ..disarmed(s)
            },
            OutcomeView::Continue,
        ),
        Key::Esc => if s.filter.len() == 0 {
            (disarmed(s), OutcomeView::Cancel)
        } else {
            (
                PickerView { filter: Seq::empty(), selected: 0, ..disarmed(s) },
                OutcomeView::Continue,
            )
        },
        Key::DeleteEntry => after_delete(s),
        Key::Enter => after_enter(s),
    }
}

impl View for PickerState {
    type V = PickerView;

    open spec fn view(&self) -> PickerView {
        PickerView {
            entries: entry_views(self.entries@),
            filter: self.filter@,
            selected: self.selected,
            pending_confirm: self.pending_confirm,
            status: match self.status {
                Some(t) => Some(t@),
                None => None,
            },
        }
    }
}

/// What the filter runs against: the text itself, or a stable label for an
/// image ("img", "image" and the dimensions match).
pub fn searchable(e: &Entry) -> (s: String)
    ensures
        s@ == searchable_text(e@),
{
    match &e.content {
        Content::Text(t) => t.clone(),
        Content::Image { w, h, .. } => {
            let mut s = String::new();
            s.append("image img ");
            push_decimal(&mut s, *w as u64);
            s.append("x");
            push_decimal(&mut s, *h as u64);
            assert(s@ =~= searchable_text(e@));
            s
        },
    }
}

/// Filtering a list that is one element longer.
pub proof fn filter_grows(s: Seq<EntryView>, keep: spec_fn(EntryView) -> bool, i: int)
    requires
        0 <= i < s.len(),
    ensures
        s.take(i + 1).filter(keep) == (if keep(s[i]) {
            s.take(i).filter(keep).push(s[i])
        } else {
            s.take(i).filter(keep)
        }),
{
    reveal(Seq::filter);
    assert(s.take(i + 1).drop_last() =~= s.take(i));
}

impl PickerState {
    pub fn new(entries: Vec<Entry>) -> (s: Self)
        ensures
            s@ == (PickerView {
                entries: entry_views(entries@),
                filter: Seq::empty(),
                selected: 0,
                pending_confirm: false,
                status: None,
            }),
    {
        PickerState {
            entries,
            filter: String::new(),
            selected: 0,
            pending_confirm: false,
            status: None,
        }
    }

    /// Filtered view, history order preserved (newest first).
    pub fn visible(&self) -> (v: Vec<&Entry>)
        ensures
            v@.map_values(|e: &Entry| e@) == visible_entries(self@),
    {
        let mut v: Vec<&Entry> = Vec::new();
        let mut i: usize = 0;
        let ghost keep = |e: EntryView| is_visible(self@, e);
        while i < self.entries.len()
            invariant
                i <= self.entries@.len(),
                keep == (|e: EntryView| is_visible(self@, e)),
                v@.map_values(|e: &Entry| e@) == self@.entries.take(i as int).filter(keep),
            decreases self.entries@.len() - i,
        {
            let e = &self.entries[i];
            let text = searchable(e);
            let ghost before = v@.map_values(|e: &Entry| e@);
            assert(self@.entries[i as int] == e@);
            proof {
                filter_grows(self@.entries, keep, i as int);
            }
            if fuzzy_match(self.filter.as_str(), text.as_str()) {
                v.push(e);
                assert(v@.map_values(|e: &Entry| e@) =~= before.push(e@));
            }
            i += 1;
        }
        assert(self@.entries.take(i as int) =~= self@.entries);
        v
    }

    pub fn selected_entry(&self) -> (r: Option<&Entry>)
        ensures
            match r {
                Some(e) => highlighted(self@) == Some(e@),
                None => highlighted(self@) is None,
            },
    {
        let shown = self.visible();
        assert(shown@.map_values(|e: &Entry| e@).len() == shown@.len());
        if self.selected < shown.len() {
            assert(shown@.map_values(|e: &Entry| e@)[self.selected as int]
                == shown@[self.selected as int]@);
            Some(shown[self.selected])
        } else {
            None
        }
    }

    /// Removes every entry with `id` from the state.
    fn remove_entries(&mut self, id: i64)
        ensures
            final(self)@ == (PickerView {
                entries: old(self)@.entries.filter(|o: EntryView| o.id != id),
                ..old(self)@
            }),
    {
        let ghost before = self@.entries;
        let ghost keep = |o: EntryView| o.id != id;
        let mut all: Vec<Entry> = Vec::new();
        std::mem::swap(&mut all, &mut self.entries);
        let mut kept: Vec<Entry> = Vec::new();
        for e in it: all
            invariant
                entry_views(it.seq()) == before,
                keep == (|o: EntryView| o.id != id),
                entry_views(kept@) == before.take(it.index() as int).filter(keep),
        {
            proof {
                filter_grows(before, keep, it.index() as int);
                assert(before[it.index() as int] == e@);
            }
            let ghost views = entry_views(kept@);
            if e.id != id {
                kept.push(e);
                assert(entry_views(kept@) =~= views.push(e@));
            }
        }
        assert(before.take(before.len() as int) =~= before);
        self.entries = kept;
    }

    /// Applies `key` to the state and says what the picker is to do.
    pub fn on_key(&mut self, key: Key) -> (r: Outcome)
        ensures
            final(self)@ == after_key(old(self)@, key).0,
            r@ == after_key(old(self)@, key).1,
    {
        if !matches!(key, Key::Enter) {
            self.pending_confirm = false;
            self.status = None;
        }
        match key {
            Key::Up => {
                if self.selected > 0 {
                    self.selected = self.selected - 1;
                }
                Outcome::Continue
            },
            Key::Down => {
                let len: usize = self.visible_count();
                proof {
                    visible_is_by_entries_and_filter(self@, old(self)@);
                }
                if len > 0 && self.selected < len - 1 {
                    self.selected = self.selected + 1;
                }
                Outcome::Continue
            },
            Key::Char(c) => {
                self.filter.push(c);
                self.selected = 0;
                Outcome::Continue
            },
            Key::Backspace => {
                self.filter.pop();
                self.selected = 0;
                Outcome::Continue
            },
            Key::Esc => {
                if self.filter.as_str().is_empty() {
                    Outcome::Cancel
                } else {
                    self.filter = String::new();
                    self.selected = 0;
                    Outcome::Continue
                }
            },
            Key::DeleteEntry => {
                proof {
                    visible_is_by_entries_and_filter(self@, old(self)@);
                }
                let id: i64 = match self.selected_entry() {
                    Some(e) => e.id,
                    None => return Outcome::Continue,
                };
                self.remove_entries(id);
                let len: usize = self.visible_count();
                if len > 0 && self.selected >= len {
                    self.selected = len - 1;
                }
                Outcome::Delete(id)
            },
            Key::Enter => {
                let (id, text) = match self.selected_entry() {
                    None => return Outcome::Continue,
                    Some(e) => match &e.content {
                        Content::Image { .. } => (e.id, None),
                        Content::Text(t) => (e.id, Some(paste_text(t.as_str()))),
                    },
                };
                match text {
                    None => {
                        self.pending_confirm = false;
                        Outcome::RestoreImage(id)
                    },
                    Some(text) => {
                        let chars = chars_of(text.as_str());
                        if contains_newline(chars.as_slice()) && !self.pending_confirm {
                            self.pending_confirm = true;
                            let mut message = String::new();
                            push_decimal(&mut message, count_lines(chars.as_slice()) as u64);
                            message.append("-line entry — press Enter again to paste");
                            assert(message@ =~= confirm_message(text@));
                            self.status = Some(message);
                            return Outcome::Continue;
                        }
                        self.pending_confirm = false;
                        Outcome::Paste(text)
                    },
                }
            },
        }
    }

    /// How many entries pass the filter.
    fn visible_count(&self) -> (n: usize)
        ensures
            n == visible_entries(self@).len(),
    {
        let shown = self.visible();
        assert(shown@.map_values(|e: &Entry| e@).len() == shown@.len());
        shown.len()
    }
}

/// Only the entries and the filter decide what is visible.
pub proof fn visible_is_by_entries_and_filter(s: PickerView, t: PickerView)
    requires
        s.entries == t.entries,
        s.filter == t.filter,
    ensures
        visible_entries(s) == visible_entries(t),
{
    assert((|e: EntryView| is_visible(s, e)) =~= (|e: EntryView| is_visible(t, e)));
}

fn contains_newline(chars: &[char]) -> (r: bool)
    ensures
        r == chars@.contains('\n'),
{
    let mut i: usize = 0;
    while i < chars.len()
        invariant
            i <= chars@.len(),
            forall|j: int| 0 <= j < i ==> chars@[j] != '\n',
        decreases chars@.len() - i,
    {
        if chars[i] == '\n' {
            return true;
        }
        i += 1;
    }
    false
}

/// Strip at most one trailing newline (LF or CRLF), so that pasting a
/// shell-copied command doesn't immediately execute it.
pub fn paste_text(text: &str) -> (r: String)
    ensures
        r@ == pasted(text@),
{
    let mut chars = chars_of(text);
    if chars.len() > 0 && chars[chars.len() - 1] == '\n' {
        chars.pop();
        if chars.len() > 0 && chars[chars.len() - 1] == '\r' {
            chars.pop();
        }
    }
    string_of(chars.as_slice())
}

} // verus!
