//! What holds of the picker whatever keys are pressed.
use vstd::prelude::*;

use crate::decimal::decimal;
use crate::filter::{
    a_match_is_an_embedding, literal_substring_matches, longer_filter_matches_less, lowercase,
    matches_filter,
};
use crate::history::{ContentView, EntryView};
use crate::picker::{
    after_key, disarmed, highlighted, is_visible, pasted, searchable_text, visible_entries,
    visible_is_by_entries_and_filter, Key, Outcome, OutcomeView, PickerState, PickerView,
};
use crate::text::lines;

verus! {

/// The selection points at a visible entry whenever there is one.
pub open spec fn in_range(s: PickerView) -> bool {
    visible_entries(s).len() > 0 ==> s.selected < visible_entries(s).len()
}

/// A fresh picker has its selection in range, and no key moves it out.
pub proof fn selection_stays_in_range(s: PickerView, key: Key)
    ensures
        s.selected == 0 ==> in_range(s),
        in_range(s) ==> in_range(after_key(s, key).0),
        s.selected < visible_entries(s).len() && visible_entries(after_key(s, key).0).len() > 0
            ==> after_key(s, key).0.selected < visible_entries(after_key(s, key).0).len(),
{
    let t = after_key(s, key).0;
    if t.entries == s.entries && t.filter == s.filter {
        visible_is_by_entries_and_filter(s, t);
    }
    if key is DeleteEntry {
        if highlighted(s) is Some {
            let e = highlighted(s).unwrap();
            let left = PickerView {
                entries: s.entries.filter(|o: EntryView| o.id != e.id),
                ..disarmed(s)
            };
            visible_is_by_entries_and_filter(left, t);
        }
    }
}

/// An entry is shown exactly if it is in the history and its whole text passes
/// the filter.
pub proof fn shown_is_what_matches_as_a_whole(s: PickerView, e: EntryView, text: Seq<char>)
    requires
        match e.content {
            ContentView::Text(t) => text == t,
            ContentView::Image { w, h, .. } => text == "image img "@ + decimal(w as nat) + "x"@
                + decimal(h as nat),
        },
    ensures
        visible_entries(s).contains(e) <==> s.entries.contains(e) && matches_filter(
            s.filter,
            text,
        ),
        visible_entries(s).contains(e) <==> s.entries.contains(e) && exists|at: Seq<int>|
            #[trigger] at.len() == lowercase(s.filter).len() && (forall|i: int|
                0 <= i < at.len() ==> 0 <= #[trigger] at[i] < lowercase(text).len() && lowercase(
                    text,
                )[at[i]] == lowercase(s.filter)[i]) && (forall|i: int, j: int|
                0 <= i < j < at.len() ==> #[trigger] at[i] < #[trigger] at[j]),
{
    let seen = |o: EntryView| is_visible(s, o);
    let shown = visible_entries(s);
    a_match_is_an_embedding(s.filter, text);
    if shown.contains(e) {
        s.entries.lemma_filter_contains_rev(seen, e);
        let i = choose|i: int| 0 <= i < shown.len() && shown[i] == e;
        s.entries.lemma_filter_pred(seen, i);
    }
    if s.entries.contains(e) && matches_filter(s.filter, text) {
        let i = choose|i: int| 0 <= i < s.entries.len() && s.entries[i] == e;
        s.entries.lemma_filter_contains(seen, i);
    }
}

/// A text that has the filter in it, anywhere, is shown.
pub proof fn texts_with_the_filter_in_them_are_shown(
    s: PickerView,
    e: EntryView,
    before: Seq<char>,
    after: Seq<char>,
)
    requires
        s.entries.contains(e),
        e.content == ContentView::Text(before + s.filter + after),
    ensures
        visible_entries(s).contains(e),
{
    shown_is_what_matches_as_a_whole(s, e, before + s.filter + after);
    literal_substring_matches(before, s.filter, after);
}

/// What is shown stands in the order of the history, each entry as often as
/// there: an entry more at the end of the history is shown at the end or not at
/// all.
pub proof fn the_list_keeps_the_order_of_the_history(s: PickerView, e: EntryView, text: Seq<char>)
    requires
        match e.content {
            ContentView::Text(t) => text == t,
            ContentView::Image { w, h, .. } => text == "image img "@ + decimal(w as nat) + "x"@
                + decimal(h as nat),
        },
    ensures
        s.entries.len() == 0 ==> visible_entries(s).len() == 0,
        visible_entries(PickerView { entries: s.entries.push(e), ..s }) == (if matches_filter(
            s.filter,
            text,
        ) {
            visible_entries(s).push(e)
        } else {
            visible_entries(s)
        }),
{
    reveal(Seq::filter);
    let more = PickerView { entries: s.entries.push(e), ..s };
    assert(more.entries.drop_last() =~= s.entries);
    assert((|o: EntryView| is_visible(s, o)) =~= (|o: EntryView| is_visible(more, o)));
}

/// Which entry is highlighted: the one at the selected line.
pub proof fn the_selected_line_is_highlighted(s: PickerView)
    ensures
        s.selected < visible_entries(s).len() ==> highlighted(s) == Some(
            visible_entries(s)[s.selected as int],
        ),
        s.selected >= visible_entries(s).len() ==> highlighted(s) is None,
{
}

/// Up and Down move by one line and undo each other; at an end they stay. They
/// change nothing else but the question for confirmation.
pub proof fn up_and_down_move_by_one_line(s: PickerView)
    requires
        visible_entries(s).len() <= usize::MAX,
    ensures
        ({
            let up = after_key(s, Key::Up).0;
            let down = after_key(s, Key::Down).0;
            let n = visible_entries(s).len();
            &&& s.selected > 0 ==> up.selected + 1 == s.selected
            &&& s.selected == 0 ==> up.selected == 0
            &&& s.selected + 1 < n ==> down.selected == s.selected + 1
            &&& s.selected + 1 >= n ==> down.selected == s.selected
            &&& s.selected + 1 < n ==> after_key(down, Key::Up).0.selected == s.selected
            &&& 0 < s.selected < n ==> after_key(up, Key::Down).0.selected == s.selected
            &&& up.entries == s.entries && up.filter == s.filter
            &&& down.entries == s.entries && down.filter == s.filter
            &&& after_key(s, Key::Up).1 == OutcomeView::Continue
            &&& after_key(s, Key::Down).1 == OutcomeView::Continue
        }),
{
    visible_is_by_entries_and_filter(after_key(s, Key::Up).0, s);
}

/// Typed characters gather at the end of the filter, Backspace takes the last
/// one away, Escape takes all of them; the selection goes back to the top.
pub proof fn the_filter_is_what_was_typed(s: PickerView, c: char)
    ensures
        ({
            let typed = after_key(s, Key::Char(c));
            let erased = after_key(s, Key::Backspace);
            let cleared = after_key(s, Key::Esc);
            &&& typed.0.filter.len() == s.filter.len() + 1
            &&& typed.0.filter.last() == c
            &&& s.filter.is_prefix_of(typed.0.filter)
            &&& typed.0.selected == 0
            &&& typed.1 == OutcomeView::Continue
            &&& s.filter.len() == 0 ==> erased.0.filter.len() == 0
            &&& s.filter.len() > 0 ==> erased.0.filter.push(s.filter.last()) == s.filter
            &&& erased.0.selected == 0
            &&& erased.1 == OutcomeView::Continue
            &&& cleared.0.filter.len() == 0
            &&& s.filter.len() > 0 ==> cleared.0.selected == 0 && cleared.1
                == OutcomeView::Continue
            &&& s.filter.len() == 0 ==> cleared.1 == OutcomeView::Cancel && cleared.0.selected
                == s.selected
            &&& typed.0.entries == s.entries && erased.0.entries == s.entries
                && cleared.0.entries == s.entries
        }),
{
    if s.filter.len() > 0 {
        assert(s.filter.drop_last().push(s.filter.last()) =~= s.filter);
    }
}

/// Enter leaves the list, the filter and the selection alone. It pastes or
/// restores what is highlighted and nothing else; the question that it asks
/// names the number of lines.
pub proof fn enter_acts_on_the_highlighted_line(s: PickerView)
    ensures
        ({
            let (t, outcome) = after_key(s, Key::Enter);
            &&& t.entries == s.entries && t.filter == s.filter && t.selected == s.selected
            &&& outcome matches OutcomeView::Paste(text) ==> (highlighted(s) matches Some(e) && (
            e.content matches ContentView::Text(whole) && text == pasted(whole)))
            &&& outcome matches OutcomeView::RestoreImage(id) ==> (highlighted(s) matches Some(e)
                && e.content is Image && e.id == id)
            &&& !(outcome is Cancel) && !(outcome is Delete)
            &&& outcome is Continue && t.pending_confirm && !s.pending_confirm ==> (highlighted(
                s,
            ) matches Some(e) && (e.content matches ContentView::Text(whole) && t.status == Some(
                decimal(lines(pasted(whole)).len())
                    + "-line entry — press Enter again to paste"@,
            )))
            &&& !(outcome is Continue) ==> !t.pending_confirm && t.status == s.status
        }),
{
}

/// Delete leaves the filter alone, and the selection too, unless it pointed at
/// the last line: it then points at the new last one.
pub proof fn delete_keeps_the_place(s: PickerView)
    requires
        highlighted(s) is Some,
    ensures
        ({
            let t = after_key(s, Key::DeleteEntry).0;
            let n = visible_entries(t).len();
            &&& t.filter == s.filter
            &&& s.selected < n ==> t.selected == s.selected
            &&& 0 < n <= s.selected ==> t.selected == n - 1
            &&& n == 0 ==> t.selected == s.selected
        }),
{
    let t = after_key(s, Key::DeleteEntry).0;
    let e = highlighted(s).unwrap();
    let left = PickerView { entries: s.entries.filter(|o: EntryView| o.id != e.id), ..disarmed(s) };
    visible_is_by_entries_and_filter(left, t);
}

/// The picker's mathematical state shows every field of it, and an outcome's
/// value all of the outcome.
pub proof fn the_picker_s_value_shows_everything(s: PickerState, r: Outcome, i: int)
    ensures
        s@.entries.len() == s.entries@.len(),
        0 <= i < s.entries@.len() ==> s@.entries[i] == s.entries@[i]@,
        s@.filter == s.filter@,
        s@.selected == s.selected,
        s@.pending_confirm == s.pending_confirm,
        s.status is None ==> s@.status is None,
        s.status matches Some(t) ==> s@.status == Some(t@),
        r@ is Continue <==> r is Continue,
        r@ is Cancel <==> r is Cancel,
        r matches Outcome::Paste(t) ==> r@ == OutcomeView::Paste(t@),
        r matches Outcome::RestoreImage(id) ==> r@ == OutcomeView::RestoreImage(id),
        r matches Outcome::Delete(id) ==> r@ == OutcomeView::Delete(id),
{
}

/// A text with a line break in it is pasted only where the state before had
/// already asked for confirmation.
pub proof fn multiline_paste_needs_confirmation(s: PickerView, key: Key)
    ensures
        after_key(s, key).1 matches OutcomeView::Paste(t) ==> t.contains('\n') ==> key is Enter
            && s.pending_confirm,
{
}

/// Only Enter leaves the picker waiting for confirmation, and only where it
/// has just asked for it, or was waiting and found nothing to act on.
pub proof fn only_enter_arms_confirmation(s: PickerView, key: Key)
    requires
        after_key(s, key).0.pending_confirm,
    ensures
        key is Enter,
        highlighted(s) matches Some(e) ==> !s.pending_confirm && (e.content matches
            ContentView::Text(t) && pasted(t).contains('\n')),
        highlighted(s) is None ==> s.pending_confirm,
{
}

/// Any key but Enter withdraws the question: Enter after it asks again rather
/// than paste several lines.
pub proof fn any_other_key_disarms(s: PickerView, key: Key)
    requires
        !(key is Enter),
    ensures
        !after_key(s, key).0.pending_confirm,
        after_key(s, key).0.status is None,
        after_key(after_key(s, key).0, Key::Enter).1 matches OutcomeView::Paste(t)
            ==> !t.contains('\n'),
{
}

/// Enter twice on a text of several lines asks first and pastes then.
pub proof fn second_enter_pastes(s: PickerView, text: Seq<char>)
    requires
        !s.pending_confirm,
        highlighted(s) matches Some(e) && e.content == ContentView::Text(text),
        pasted(text).contains('\n'),
    ensures
        after_key(s, Key::Enter).1 == OutcomeView::Continue,
        after_key(s, Key::Enter).0.status is Some,
        after_key(after_key(s, Key::Enter).0, Key::Enter).1 == OutcomeView::Paste(pasted(text)),
{
    visible_is_by_entries_and_filter(s, after_key(s, Key::Enter).0);
}

/// Enter on a text without a line break pastes it at once.
pub proof fn enter_pastes_one_line_at_once(s: PickerView, text: Seq<char>)
    requires
        highlighted(s) matches Some(e) && e.content == ContentView::Text(text),
        !pasted(text).contains('\n'),
    ensures
        after_key(s, Key::Enter).1 == OutcomeView::Paste(pasted(text)),
{
}

/// Enter on an image restores it at once, and asks nothing.
pub proof fn enter_restores_images_at_once(s: PickerView)
    requires
        highlighted(s) matches Some(e) && e.content is Image,
    ensures
        after_key(s, Key::Enter).1 == OutcomeView::RestoreImage(highlighted(s).unwrap().id),
        !after_key(s, Key::Enter).0.pending_confirm,
{
}

/// With nothing highlighted, Enter changes nothing and delete only withdraws
/// a question; neither has an outcome.
pub proof fn nothing_highlighted_nothing_done(s: PickerView)
    requires
        highlighted(s) is None,
    ensures
        after_key(s, Key::Enter) == (s, OutcomeView::Continue),
        after_key(s, Key::DeleteEntry) == (disarmed(s), OutcomeView::Continue),
{
}

/// Escape first clears a filter and cancels where there is none, so that
/// twice always cancels.
pub proof fn escape_twice_cancels(s: PickerView)
    ensures
        after_key(s, Key::Esc).1 == (if s.filter.len() == 0 {
            OutcomeView::Cancel
        } else {
            OutcomeView::Continue
        }),
        after_key(s, Key::Esc).0.filter.len() == 0,
        after_key(after_key(s, Key::Esc).0, Key::Esc).1 == OutcomeView::Cancel,
{
}

/// No key but delete changes the entries.
pub proof fn only_delete_changes_entries(s: PickerView, key: Key)
    requires
        !(key is DeleteEntry),
    ensures
        after_key(s, key).0.entries == s.entries,
{
}

/// Delete reports the highlighted entry's id, removes what has that id, and
/// keeps everything else.
pub proof fn delete_removes_the_highlighted(s: PickerView)
    requires
        highlighted(s) is Some,
    ensures
        ({
            let id = highlighted(s).unwrap().id;
            let left = after_key(s, Key::DeleteEntry).0.entries;
            &&& after_key(s, Key::DeleteEntry).1 == OutcomeView::Delete(id)
            &&& forall|e: EntryView| #[trigger]
                left.contains(e) <==> s.entries.contains(e) && e.id != id
            &&& left.len() < s.entries.len()
        }),
{
    let shown = visible_entries(s);
    let e = shown[s.selected as int];
    let keep = |o: EntryView| o.id != e.id;
    let seen = |o: EntryView| is_visible(s, o);
    assert(shown.contains(e));
    s.entries.lemma_filter_contains_rev(seen, e);
    let left = s.entries.filter(keep);
    assert forall|o: EntryView| #[trigger] left.contains(o) <==> s.entries.contains(o) && o.id
        != e.id by {
        if left.contains(o) {
            s.entries.lemma_filter_contains_rev(keep, o);
            let i = choose|i: int| 0 <= i < left.len() && left[i] == o;
            s.entries.lemma_filter_pred(keep, i);
        }
        if s.entries.contains(o) && o.id != e.id {
            let i = choose|i: int| 0 <= i < s.entries.len() && s.entries[i] == o;
            s.entries.lemma_filter_contains(keep, i);
        }
    }
    let at = choose|i: int| 0 <= i < s.entries.len() && s.entries[i] == e;
    filter_drops(s.entries, keep, at);
}

proof fn filter_drops(s: Seq<EntryView>, keep: spec_fn(EntryView) -> bool, at: int)
    requires
        0 <= at < s.len(),
        !keep(s[at]),
    ensures
        s.filter(keep).len() < s.len(),
    decreases s.len(),
{
    reveal(Seq::filter);
    if at < s.len() - 1 {
        filter_drops(s.drop_last(), keep, at);
    } else {
        s.drop_last().lemma_filter_len(keep);
    }
}

/// No two entries share an id.
pub open spec fn distinct_ids(entries: Seq<EntryView>) -> bool {
    forall|i: int, j: int|
        0 <= i < j < entries.len() ==> (#[trigger] entries[i]).id != (#[trigger] entries[j]).id
}

/// Two filters in either order keep the same entries, in the same order.
proof fn filters_commute(
    s: Seq<EntryView>,
    a: spec_fn(EntryView) -> bool,
    b: spec_fn(EntryView) -> bool,
)
    ensures
        s.filter(a).filter(b) == s.filter(b).filter(a),
    decreases s.len(),
{
    reveal(Seq::filter);
    if s.len() > 0 {
        let front = s.drop_last();
        filters_commute(front, a, b);
        assert(front.filter(a).push(s.last()).drop_last() =~= front.filter(a));
        assert(front.filter(b).push(s.last()).drop_last() =~= front.filter(b));
    }
}

/// What a stronger filter keeps, it keeps of what a weaker one keeps.
proof fn stronger_filter(
    s: Seq<EntryView>,
    weak: spec_fn(EntryView) -> bool,
    strong: spec_fn(EntryView) -> bool,
)
    requires
        forall|e: EntryView| #[trigger] strong(e) ==> weak(e),
    ensures
        s.filter(strong) == s.filter(weak).filter(strong),
    decreases s.len(),
{
    reveal(Seq::filter);
    if s.len() > 0 {
        let front = s.drop_last();
        stronger_filter(front, weak, strong);
        assert(front.filter(weak).push(s.last()).drop_last() =~= front.filter(weak));
    }
}

/// Filtering leaves ids distinct.
proof fn distinct_ids_are_kept(s: Seq<EntryView>, keep: spec_fn(EntryView) -> bool)
    requires
        distinct_ids(s),
    ensures
        distinct_ids(s.filter(keep)),
        forall|i: int| 0 <= i < s.filter(keep).len() ==> s.contains(#[trigger] s.filter(keep)[i]),
    decreases s.len(),
{
    reveal(Seq::filter);
    let f = s.filter(keep);
    if s.len() > 0 {
        let front = s.drop_last();
        assert forall|i: int, j: int| 0 <= i < j < front.len() implies (#[trigger] front[i]).id != (
        #[trigger] front[j]).id by {
            assert(s[i].id != s[j].id);
        }
        distinct_ids_are_kept(front, keep);
        let g = front.filter(keep);
        assert forall|i: int| 0 <= i < g.len() implies s.contains(#[trigger] g[i]) && g[i].id
            != s.last().id by {
            assert(front.contains(g[i]));
            let k = choose|k: int| 0 <= k < front.len() && front[k] == g[i];
            assert(s[k] == g[i]);
            assert(s[k].id != s[s.len() - 1].id);
        }
        assert forall|i: int, j: int| 0 <= i < j < f.len() implies (#[trigger] f[i]).id != (
        #[trigger] f[j]).id by {
            assert(f[i] == g[i]);
            if j < g.len() {
                assert(f[j] == g[j]);
            }
        }
        assert forall|i: int| 0 <= i < f.len() implies s.contains(#[trigger] f[i]) by {
            if i < g.len() {
                assert(f[i] == g[i]);
            } else {
                assert(s[s.len() - 1] == f[i]);
            }
        }
    }
}

/// Dropping the one entry with an id drops the entry at its place.
proof fn filter_removes_one(s: Seq<EntryView>, at: int)
    requires
        distinct_ids(s),
        0 <= at < s.len(),
    ensures
        s.filter(|o: EntryView| o.id != s[at].id) == s.remove(at),
    decreases s.len(),
{
    reveal(Seq::filter);
    let keep = |o: EntryView| o.id != s[at].id;
    let front = s.drop_last();
    assert forall|i: int, j: int| 0 <= i < j < front.len() implies (#[trigger] front[i]).id != (
    #[trigger] front[j]).id by {
        assert(s[i].id != s[j].id);
    }
    if at == s.len() - 1 {
        assert forall|i: int| 0 <= i < front.len() implies keep(#[trigger] front[i]) by {
            assert(s[i].id != s[at].id);
        }
        filter_keeps_these(front, keep);
        assert(s.remove(at) =~= front);
    } else {
        filter_removes_one(front, at);
        assert(s[at].id != s[s.len() - 1].id);
        assert(front[at] == s[at]);
        assert(s.remove(at) =~= front.remove(at).push(s.last()));
    }
}

proof fn filter_keeps_these(s: Seq<EntryView>, keep: spec_fn(EntryView) -> bool)
    requires
        forall|i: int| 0 <= i < s.len() ==> keep(#[trigger] s[i]),
    ensures
        s.filter(keep) == s,
    decreases s.len(),
{
    reveal(Seq::filter);
    if s.len() > 0 {
        let front = s.drop_last();
        assert forall|i: int| 0 <= i < front.len() implies keep(#[trigger] front[i]) by {
            assert(keep(s[i]));
        }
        filter_keeps_these(front, keep);
        assert(keep(s[s.len() - 1]));
        assert(front.push(s.last()) =~= s);
    }
}

/// Delete takes the highlighted line out of the list and leaves the others as
/// they were, in order.
pub proof fn delete_takes_out_the_highlighted_line(s: PickerView)
    requires
        distinct_ids(s.entries),
        highlighted(s) is Some,
    ensures
        visible_entries(after_key(s, Key::DeleteEntry).0) == visible_entries(s).remove(
            s.selected as int,
        ),
        distinct_ids(after_key(s, Key::DeleteEntry).0.entries),
{
    let t = after_key(s, Key::DeleteEntry).0;
    let shown = visible_entries(s);
    let at = s.selected as int;
    let keep = |o: EntryView| o.id != shown[at].id;
    let seen = |o: EntryView| is_visible(s, o);
    let seen_after = |o: EntryView| is_visible(t, o);
    assert(seen =~= seen_after);
    filters_commute(s.entries, keep, seen);
    distinct_ids_are_kept(s.entries, seen);
    distinct_ids_are_kept(s.entries, keep);
    filter_removes_one(shown, at);
}

/// Typing a character leaves, of what is shown, what passes the new filter, in
/// the same order; and Backspace shows the list of before again.
pub proof fn typing_and_erasing(s: PickerView, c: char)
    ensures
        ({
            let typed = after_key(s, Key::Char(c)).0;
            let erased = after_key(typed, Key::Backspace).0;
            &&& visible_entries(typed) == visible_entries(s).filter(
                |e: EntryView| is_visible(typed, e),
            )
            &&& erased.filter == s.filter
            &&& visible_entries(erased) == visible_entries(s)
        }),
{
    let typed = after_key(s, Key::Char(c)).0;
    let erased = after_key(typed, Key::Backspace).0;
    let weak = |e: EntryView| is_visible(s, e);
    let strong = |e: EntryView| is_visible(typed, e);
    assert forall|e: EntryView| #[trigger] strong(e) implies weak(e) by {
        longer_filter_matches_less(s.filter, c, searchable_text(e));
    }
    stronger_filter(s.entries, weak, strong);
    assert(erased.filter =~= s.filter);
    visible_is_by_entries_and_filter(erased, s);
}

/// Typing a character shows nothing that was not shown before.
pub proof fn typing_narrows_the_list(s: PickerView, c: char, e: EntryView)
    requires
        visible_entries(after_key(s, Key::Char(c)).0).contains(e),
    ensures
        visible_entries(s).contains(e),
{
    let t = after_key(s, Key::Char(c)).0;
    let seen = |o: EntryView| is_visible(s, o);
    let seen_after = |o: EntryView| is_visible(t, o);
    s.entries.lemma_filter_contains_rev(seen_after, e);
    let shown = visible_entries(t);
    let i = choose|i: int| 0 <= i < shown.len() && shown[i] == e;
    s.entries.lemma_filter_pred(seen_after, i);
    longer_filter_matches_less(s.filter, c, searchable_text(e));
    let j = choose|j: int| 0 <= j < s.entries.len() && s.entries[j] == e;
    s.entries.lemma_filter_contains(seen, j);
}

/// Without a filter everything is shown.
pub proof fn no_filter_shows_everything(s: PickerView)
    requires
        s.filter.len() == 0,
    ensures
        visible_entries(s) == s.entries,
{
    let seen = |o: EntryView| is_visible(s, o);
    assert(s.filter =~= Seq::empty());
    assert forall|o: EntryView| #[trigger] seen(o) by {
        crate::filter::empty_filter_matches_everything(searchable_text(o));
    }
    filter_keeps_all(s.entries, seen);
}

proof fn filter_keeps_all(s: Seq<EntryView>, keep: spec_fn(EntryView) -> bool)
    requires
        forall|o: EntryView| #[trigger] keep(o),
    ensures
        s.filter(keep) == s,
    decreases s.len(),
{
    reveal(Seq::filter);
    if s.len() > 0 {
        filter_keeps_all(s.drop_last(), keep);
        assert(s.drop_last().push(s.last()) =~= s);
    }
}

/// The filter looks at a text itself, and at nothing but the dimensions of an
/// image: not at ids, times or sizes.
pub proof fn search_is_by_text_or_dimensions(e: EntryView, o: EntryView)
    ensures
        e.content matches ContentView::Text(t) ==> searchable_text(e) == t,
        e.content == o.content ==> searchable_text(e) == searchable_text(o),
        e.content matches ContentView::Image { w, h, .. } ==> searchable_text(e) == "image img "@
            + decimal(w as nat) + "x"@ + decimal(h as nat),
        (e.content matches ContentView::Image { w, h, .. } && (o.content matches
            ContentView::Image { w: ow, h: oh, .. } && w == ow && h == oh)) ==> searchable_text(e)
            == searchable_text(o),
{
}

/// An image is found by "img", by "image" and by its dimensions.
pub proof fn images_are_found_by_kind_and_dimensions(e: EntryView, w: u32, h: u32, bytes: usize)
    requires
        e.content == (ContentView::Image { w, h, bytes }),
    ensures
        matches_filter("img"@, searchable_text(e)),
        matches_filter("image"@, searchable_text(e)),
        matches_filter(decimal(w as nat) + "x"@ + decimal(h as nat), searchable_text(e)),
{
    reveal_strlit("image img ");
    reveal_strlit("img");
    reveal_strlit("image");
    let full = searchable_text(e);
    let dims = decimal(w as nat) + "x"@ + decimal(h as nat);
    assert(full =~= "image img "@ + dims);
    assert(full =~= full.take(6) + "img"@ + full.skip(9));
    literal_substring_matches(full.take(6), "img"@, full.skip(9));
    assert(full =~= full.take(0) + "image"@ + full.skip(5));
    literal_substring_matches(full.take(0), "image"@, full.skip(5));
    assert(full =~= "image img "@ + dims + Seq::<char>::empty());
    literal_substring_matches("image img "@, dims, Seq::empty());
}

/// A newline at the end of a text is stripped, be it LF or CRLF, and nothing
/// more; a text that does not end in a newline is pasted as it is.
pub proof fn paste_strips_exactly_the_newline(text: Seq<char>)
    ensures
        text.len() == 0 || text.last() != '\r' ==> pasted(text.push('\n')) == text,
        pasted(text.push('\r').push('\n')) == text,
        text.len() == 0 || text.last() != '\n' ==> pasted(text) == text,
{
    assert(text.push('\n').drop_last() =~= text);
    assert(text.push('\r').drop_last() =~= text);
    assert(text.push('\r').push('\n').drop_last() =~= text.push('\r'));
}

/// A pasted text is the entry's text less at most one newline at its end.
pub proof fn paste_strips_at_most_one_newline(text: Seq<char>)
    ensures
        ({
            ||| pasted(text) == text
            ||| pasted(text).push('\n') == text
            ||| pasted(text).push('\r').push('\n') == text
        }),
        pasted(text) == text <==> !(text.len() > 0 && text.last() == '\n'),
{
    if text.len() > 0 && text.last() == '\n' {
        let front = text.drop_last();
        assert(front.push('\n') =~= text);
        if front.len() > 0 && front.last() == '\r' {
            assert(front.drop_last().push('\r') =~= front);
        }
    }
}

} // verus!
