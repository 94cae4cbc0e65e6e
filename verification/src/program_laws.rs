//! What the program's surface does, told by what goes in and what comes out:
//! keys, screen, command line, configuration, directories, times.
use vstd::prelude::*;

use crate::cli::{command_of, list_line, Command};
use crate::config::{configured, default_config, field, field_views, Config};
use crate::decimal::{decimal, parsed_i64};
use crate::history::{ContentView, EntryView, LegacyEntry};
use crate::label::label;
use crate::legacy::{lossy_text, parsed_view, step_after, MigrationEvent};
use crate::legacy_laws::{legacy_copies, migrated};
use crate::paths::{chosen_dir, joined, STATE_FALLBACK_REL};
use crate::picker::{highlighted, Key, OutcomeView, PickerView};
use crate::screen::{footer, label_width, preview_panel};
use crate::session::{is_loop_action, key_action, KeyAction, KeyCode, KeyPress, LoopAction};
use crate::size::size_text;
use crate::table::{after_texts, StoredRow};
use crate::text::lines;
use crate::watcher::milliseconds;

verus! {

/// The keys that name an action do it whatever is held with them, once they
/// are pressed: arrows move, Enter, Escape and Backspace are themselves, Delete
/// deletes.
pub proof fn named_keys_do_what_they_say(press: KeyPress)
    requires
        press.pressed,
    ensures
        press.code is Up ==> key_action(press) == KeyAction::Press(Key::Up),
        press.code is Down ==> key_action(press) == KeyAction::Press(Key::Down),
        press.code is Enter ==> key_action(press) == KeyAction::Press(Key::Enter),
        press.code is Esc ==> key_action(press) == KeyAction::Press(Key::Esc),
        press.code is Backspace ==> key_action(press) == KeyAction::Press(Key::Backspace),
        press.code is Delete ==> key_action(press) == KeyAction::Press(Key::DeleteEntry),
        press.code is Other ==> key_action(press) is Ignore,
{
}

/// Characters are typed, with or without shift. With control alone four of
/// them are commands, and with anything else held they are nothing.
pub proof fn characters_are_typed_or_commands(press: KeyPress, c: char)
    requires
        press.pressed,
        press.code == KeyCode::Char(c),
    ensures
        !press.modifiers.control && !press.modifiers.other ==> key_action(press)
            == KeyAction::Press(Key::Char(c)),
        press.modifiers.other || (press.modifiers.control && press.modifiers.shift) ==> key_action(
            press,
        ) is Ignore,
        press.modifiers.control && !press.modifiers.shift && !press.modifiers.other ==> {
            &&& c == 'c' ==> key_action(press) is Quit
            &&& c == 'd' ==> key_action(press) == KeyAction::Press(Key::DeleteEntry)
            &&& c == 'p' ==> key_action(press) == KeyAction::Press(Key::Up)
            &&& c == 'n' ==> key_action(press) == KeyAction::Press(Key::Down)
            &&& c != 'c' && c != 'd' && c != 'p' && c != 'n' ==> key_action(press) is Ignore
        },
{
}

/// A key that is held or let go has no effect.
pub proof fn only_presses_have_an_effect(press: KeyPress)
    requires
        !press.pressed,
    ensures
        key_action(press) is Ignore,
{
}

/// The loop does what the picker answers, with the entry or the text that the
/// answer names.
pub proof fn the_loop_does_what_the_picker_answers(action: LoopAction, outcome: OutcomeView)
    requires
        is_loop_action(action, outcome),
    ensures
        action is Nothing <==> outcome is Continue,
        action is Quit <==> outcome is Cancel,
        action matches LoopAction::Delete(id) ==> outcome == OutcomeView::Delete(id),
        action matches LoopAction::Restore(id) ==> outcome == OutcomeView::RestoreImage(id),
        action matches LoopAction::Paste(text) ==> outcome == OutcomeView::Paste(text@),
{
}

/// Three columns of a list are not for labels.
pub proof fn labels_leave_three_columns(columns: u16)
    ensures
        columns >= 3 ==> label_width(columns) + 3 == columns,
        columns < 3 ==> label_width(columns) == 0,
{
}

/// The preview shows the highlighted text in full, or says what the highlighted
/// image is; with nothing highlighted it says so.
pub proof fn the_preview_is_of_the_highlighted(s: PickerView)
    ensures
        highlighted(s) is None ==> preview_panel(s)
            == "clipboard history is empty — copy something first"@,
        highlighted(s) matches Some(e) ==> {
            &&& e.content matches ContentView::Text(t) ==> preview_panel(s) == t
            &&& e.content matches ContentView::Image { w, h, bytes } ==> preview_panel(s)
                == "PNG image "@ + decimal(w as nat) + "×"@ + decimal(h as nat) + ", "@
                + size_text(bytes as nat) + ".\n\nEnter restores it to the system clipboard."@
        },
{
}

/// The footer shows the status as long as there is one, else the filter as it
/// was typed, and the keys.
pub proof fn the_footer_is_the_status_or_the_filter(s: PickerView)
    ensures
        s.status matches Some(status) ==> footer(s) == status,
        s.status is None ==> footer(s) == "filter: "@ + s.filter
            + "▏  ↑/↓ move · type to filter · Enter paste · Ctrl+D delete · Esc quit"@,
{
}

/// A command is known by its first argument, whatever follows; only
/// `serve-clipboard` looks at the next one, which is a number.
pub proof fn commands_are_known_by_their_names(rest: Seq<Seq<char>>, name: Seq<char>, id: i64)
    ensures
        command_of(Seq::empty()) is Usage,
        command_of(seq!["watch"@] + rest) is Watch,
        command_of(seq!["watch-foreground"@] + rest) is WatchForeground,
        command_of(seq!["pick"@] + rest) is Pick,
        command_of(seq!["list"@] + rest) is List,
        command_of(seq!["latest"@] + rest) is Latest,
        command_of(seq!["save-copied"@] + rest) is SaveCopied,
        parsed_i64(name) == Some(id) ==> command_of(seq!["serve-clipboard"@, name] + rest)
            == Command::ServeClipboard(id),
        parsed_i64(name) is None ==> command_of(seq!["serve-clipboard"@, name] + rest)
            is ServeClipboardUsage,
        command_of(seq!["serve-clipboard"@]) is ServeClipboardUsage,
        name != "watch"@ && name != "watch-foreground"@ && name != "pick"@ && name != "list"@
            && name != "latest"@ && name != "save-copied"@ && name != "serve-clipboard"@
            ==> command_of(seq![name] + rest) is Usage,
{
    reveal_strlit("watch");
    reveal_strlit("watch-foreground");
    reveal_strlit("pick");
    reveal_strlit("list");
    reveal_strlit("latest");
    reveal_strlit("save-copied");
    reveal_strlit("serve-clipboard");
    assert("watch"@.len() == 5 && "watch-foreground"@.len() == 16 && "pick"@.len() == 4
        && "list"@.len() == 4 && "latest"@.len() == 6 && "save-copied"@.len() == 11
        && "serve-clipboard"@.len() == 15);
    assert("pick"@[0] != "list"@[0]);
    assert((seq!["serve-clipboard"@, name] + rest)[0] == "serve-clipboard"@);
    assert((seq!["serve-clipboard"@, name] + rest)[1] == name);
    assert((seq![name] + rest)[0] == name);
    assert((seq!["watch"@] + rest)[0] == "watch"@);
    assert((seq!["watch-foreground"@] + rest)[0] == "watch-foreground"@);
    assert((seq!["pick"@] + rest)[0] == "pick"@);
    assert((seq!["list"@] + rest)[0] == "list"@);
    assert((seq!["latest"@] + rest)[0] == "latest"@);
    assert((seq!["save-copied"@] + rest)[0] == "save-copied"@);
}

/// A line of the list is position, time and label, with tabs between them; the
/// label has a hundred columns.
pub proof fn list_lines_are_tab_separated(i: nat, e: EntryView)
    ensures
        list_line(i, e) == decimal(i) + "\t"@ + decimal(e.ts as nat) + "\t"@ + label(e, 100),
{
}

/// The defaults that the documentation gives.
pub proof fn defaults_are_as_documented()
    ensures
        default_config().max_entries == 50,
        default_config().max_entry_bytes == 262144,
        default_config().max_image_bytes == 5242880,
        default_config().poll_ms == 500,
{
}

/// A document without a broken value sets what it names, each key by itself;
/// what it does not name, or names as zero, has its default.
pub proof fn settings_are_taken_as_given(
    fields: Seq<(Seq<char>, Option<i64>)>,
    entries: i64,
    entry_bytes: i64,
    image_bytes: i64,
    poll: i64,
)
    requires
        0 <= entries <= usize::MAX,
        0 <= entry_bytes <= usize::MAX,
        0 <= image_bytes <= usize::MAX,
        0 <= poll,
        field(fields, "max_entries"@) == Some(Some(entries)) || (entries == 0 && field(
            fields,
            "max_entries"@,
        ) is None),
        field(fields, "max_entry_bytes"@) == Some(Some(entry_bytes)) || (entry_bytes == 0 && field(
            fields,
            "max_entry_bytes"@,
        ) is None),
        field(fields, "max_image_bytes"@) == Some(Some(image_bytes)) || (image_bytes == 0 && field(
            fields,
            "max_image_bytes"@,
        ) is None),
        field(fields, "poll_ms"@) == Some(Some(poll)) || (poll == 0 && field(
            fields,
            "poll_ms"@,
        ) is None),
    ensures
        ({
            let c = configured(Some(fields));
            &&& c.max_entries == (if entries == 0 {
                50
            } else {
                entries as int
            })
            &&& c.max_entry_bytes == (if entry_bytes == 0 {
                262144
            } else {
                entry_bytes as int
            })
            &&& c.max_image_bytes == (if image_bytes == 0 {
                5242880
            } else {
                image_bytes as int
            })
            &&& c.poll_ms == (if poll == 0 {
                500
            } else {
                poll as int
            })
        }),
{
}

/// A document that does not parse, or gives a value that is no count, counts as
/// none.
pub proof fn broken_documents_count_as_none(fields: Seq<(Seq<char>, Option<i64>)>, key: Seq<char>)
    requires
        key == "max_entries"@ || key == "max_entry_bytes"@ || key == "max_image_bytes"@ || key
            == "poll_ms"@,
        field(fields, key) matches Some(value) && (value matches Some(n) ==> n < 0 || (key
            != "poll_ms"@ && n > usize::MAX)),
    ensures
        configured(Some(fields)) == (Config {
            max_entries: 50,
            max_entry_bytes: 262144,
            max_image_bytes: 5242880,
            poll_ms: 500,
        }),
        configured(None) == configured(Some(fields)),
{
}

/// The value of a key is the one that stands with it.
pub proof fn fields_are_found_by_their_keys(
    fields: Seq<(Seq<char>, Option<i64>)>,
    key: Seq<char>,
    other: Seq<char>,
    value: Option<i64>,
)
    ensures
        field(Seq::empty(), key) is None,
        field(seq![(key, value)] + fields, key) == Some(value),
        other != key ==> field(seq![(other, value)] + fields, key) == field(fields, key),
{
    assert((seq![(key, value)] + fields)[0] == (key, value));
    assert((seq![(other, value)] + fields)[0] == (other, value));
    assert((seq![(other, value)] + fields).skip(1) =~= fields);
}

/// Fields that were read have the keys and values that were read.
pub proof fn field_views_show_keys_and_values(fields: Seq<(String, Option<i64>)>, i: int)
    ensures
        field_views(fields).len() == fields.len(),
        0 <= i < fields.len() ==> field_views(fields)[i] == (fields[i].0@, fields[i].1),
{
}

/// A path below a directory is the directory, a slash where none ends it, and
/// the path; a path from the root is itself. A variable that names a directory
/// is followed, and one that is empty is not.
pub proof fn directories_are_where_they_are_named(base: Seq<u8>, rel: Seq<u8>, var: Seq<u8>)
    ensures
        rel.len() > 0 && rel[0] == 47 ==> joined(base, rel) == rel,
        (rel.len() == 0 || rel[0] != 47) && base.len() > 0 && base.last() != 47 ==> joined(
            base,
            rel,
        ) == base + seq![47u8] + rel,
        (rel.len() == 0 || rel[0] != 47) && (base.len() == 0 || base.last() == 47) ==> joined(
            base,
            rel,
        ) == base + rel,
        var.len() > 0 ==> chosen_dir(Some(var), base, rel) == var,
        var.len() == 0 ==> chosen_dir(Some(var), base, rel) == joined(base, rel),
        chosen_dir(None, base, rel) == joined(base, rel),
        STATE_FALLBACK_REL@ == ".local/state/herdr/plugins/jlangston.multi-clipboard"@,
{
    assert(base.push(47u8) =~= base + seq![47u8]);
}

/// A migration looks for the file, counts, imports into an empty database, and
/// retires the file, in this order and no other.
pub proof fn migrations_go_in_order()
    ensures
        step_after(MigrationEvent::LookedFor { exists: true }) is Count,
        step_after(MigrationEvent::LookedFor { exists: false }) is Finish,
        step_after(MigrationEvent::Counted { empty: true }) is Import,
        step_after(MigrationEvent::Counted { empty: false }) is Retire,
        step_after(MigrationEvent::Imported) is Retire,
        step_after(MigrationEvent::Retired) is Finish,
{
}

/// An empty history takes the copies in, one after the other; any other stays.
pub proof fn only_an_empty_history_is_migrated_to(
    rows: Seq<StoredRow>,
    copies: Seq<(u64, Seq<char>)>,
    max: nat,
    max_bytes: nat,
)
    ensures
        rows.len() > 0 ==> migrated(rows, copies, max, max_bytes) == rows,
        migrated(Seq::empty(), copies, max, max_bytes) == after_texts(
            Seq::empty(),
            copies,
            max,
            max_bytes,
        ),
{
}

/// The entries of a legacy file are those of its lines, one after the other.
pub proof fn legacy_entries_are_those_of_the_lines(
    raw: Seq<u8>,
    parse: spec_fn(Seq<char>) -> Option<(u64, Seq<char>)>,
    e: LegacyEntry,
)
    ensures
        legacy_copies(raw, parse) == lines(lossy_text(raw)).filter_map(parse),
        parsed_view(Some(e)) == Some((e.ts, e.text@)),
        parsed_view(None) is None,
{
}

/// A time is its seconds a thousandfold and the milliseconds that its
/// nanoseconds make, as long as that fits; beyond, what does not fit is dropped.
pub proof fn milliseconds_are_thousandths(secs: u64, nanos: u32)
    ensures
        secs * 1000 + nanos / 1_000_000 <= u64::MAX ==> milliseconds(Some((secs, nanos))) == secs
            * 1000 + nanos / 1_000_000,
        milliseconds(Some((secs, nanos))) <= u64::MAX,
        (secs * 1000 + nanos / 1_000_000 - milliseconds(Some((secs, nanos))))
            % 0x1_0000_0000_0000_0000 == 0,
        milliseconds(None) == 0,
{
}

} // verus!
