//! What holds of a migration of the legacy file, wherever it stops.
use vstd::prelude::*;

use crate::history::{legacy_views, texts_stored, HistoryStore, LegacyEntry};
use crate::legacy::{lossy_text, parsed_view, step_after, MigrationEvent, MigrationStep};
use crate::listing_laws::{all_written, imported_rows_are_written};
use crate::table::{after_texts, entries_of, row_limit, StoredRow};
use crate::text::lines;

verus! {

/// The history's rows, and whether the legacy file is still in its place.
pub struct MigrationView {
    pub rows: Seq<StoredRow>,
    pub in_place: bool,
}

/// The times and texts that the file holds: those of its lines that parse, in
/// order. `parse` reads one line.
pub open spec fn legacy_copies(
    raw: Seq<u8>,
    parse: spec_fn(Seq<char>) -> Option<(u64, Seq<char>)>,
) -> Seq<(u64, Seq<char>)> {
    lines(lossy_text(raw)).filter_map(parse)
}

/// What a migration makes of the rows: an empty history takes the copies in,
/// any other stays as it is.
pub open spec fn migrated(
    rows: Seq<StoredRow>,
    copies: Seq<(u64, Seq<char>)>,
    max: nat,
    max_bytes: nat,
) -> Seq<StoredRow> {
    if rows.len() == 0 {
        after_texts(rows, copies, max, max_bytes)
    } else {
        rows
    }
}

/// What a step that succeeds comes to. One that fails leaves everything as it
/// was: an import is one transaction.
pub open spec fn performed(
    step: MigrationStep,
    m: MigrationView,
    copies: Seq<(u64, Seq<char>)>,
    max: nat,
    max_bytes: nat,
) -> (MigrationView, MigrationEvent) {
    match step {
        MigrationStep::Count => (m, MigrationEvent::Counted { empty: m.rows.len() == 0 }),
        MigrationStep::Import => (
            MigrationView { rows: after_texts(m.rows, copies, max, max_bytes), ..m },
            MigrationEvent::Imported,
        ),
        MigrationStep::Retire => (MigrationView { in_place: false, ..m }, MigrationEvent::Retired),
        MigrationStep::Finish => (m, MigrationEvent::Retired),
    }
}

/// Where a migration stands that has just seen `event` and gets through `n`
/// more steps.
pub open spec fn after_steps(
    n: nat,
    event: MigrationEvent,
    m: MigrationView,
    copies: Seq<(u64, Seq<char>)>,
    max: nat,
    max_bytes: nat,
) -> MigrationView
    decreases n,
{
    if n == 0 || step_after(event) is Finish {
        m
    } else {
        let (next, seen) = performed(step_after(event), m, copies, max, max_bytes);
        after_steps((n - 1) as nat, seen, next, copies, max, max_bytes)
    }
}

/// A migration of an existing file, however many of its steps succeed. The
/// file is given up only once the rows are what the migration makes of them;
/// as long as it stays, nothing is lost. Where the import fails, which is the
/// second step, the history stays as it was and the file stays. With three
/// steps it is through.
pub proof fn migration_is_all_or_nothing(
    rows: Seq<StoredRow>,
    raw: Seq<u8>,
    parse: spec_fn(Seq<char>) -> Option<(u64, Seq<char>)>,
    max: nat,
    max_bytes: nat,
    n: nat,
)
    ensures
        ({
            let copies = legacy_copies(raw, parse);
            let start = MigrationView { rows, in_place: true };
            let end = after_steps(
                n,
                MigrationEvent::LookedFor { exists: true },
                start,
                copies,
                max,
                max_bytes,
            );
            &&& end.rows == rows || end.rows == migrated(rows, copies, max, max_bytes)
            &&& !end.in_place ==> end.rows == migrated(rows, copies, max, max_bytes)
            &&& n <= 1 ==> end == start
            &&& rows.len() > 0 ==> end.rows == rows
            &&& n >= 3 ==> !end.in_place
        }),
{
    reveal_with_fuel(after_steps, 5);
}

/// Lines that are parsed one by one hold the same entries as the file.
proof fn parsed_lines_hold_the_copies(
    parsed: Seq<Option<LegacyEntry>>,
    all: Seq<Seq<char>>,
    parse: spec_fn(Seq<char>) -> Option<(u64, Seq<char>)>,
    n: int,
)
    requires
        parsed.len() == all.len(),
        0 <= n <= all.len(),
        forall|i: int| 0 <= i < all.len() ==> parsed_view(#[trigger] parsed[i]) == parse(all[i]),
    ensures
        parsed.take(n).filter_map(|e: Option<LegacyEntry>| parsed_view(e)) == all.take(
            n,
        ).filter_map(parse),
    decreases n,
{
    let f = |e: Option<LegacyEntry>| parsed_view(e);
    if n == 0 {
        reveal(Seq::filter_map);
        assert(parsed.take(0).filter_map(f) =~= all.take(0).filter_map(parse));
    } else {
        parsed_lines_hold_the_copies(parsed, all, parse, n - 1);
        parsed.lemma_filter_map_take_succ(f, n - 1);
        all.lemma_filter_map_take_succ(parse, n - 1);
        assert(parsed_view(parsed[n - 1]) == parse(all[n - 1]));
    }
}

/// A migration over the store's calls. `is_empty` found no rows; each of the
/// file's lines was parsed; `readable_entries` gave `entries`; and `import`,
/// which found no rows either, left the rows `u`. Then `u` is what copying the
/// file's entries one after the other makes of an empty history, and a listing
/// shows it. Where `import` fails instead it commits nothing, and where
/// `is_empty` finds rows nothing is called that could.
pub proof fn an_import_migrates_an_empty_history(
    store: HistoryStore,
    raw: Seq<u8>,
    parse: spec_fn(Seq<char>) -> Option<(u64, Seq<char>)>,
    parsed: Seq<Option<LegacyEntry>>,
    entries: Seq<LegacyEntry>,
    t: Seq<StoredRow>,
    u: Seq<StoredRow>,
)
    requires
        parsed.len() == lines(lossy_text(raw)).len(),
        forall|i: int|
            0 <= i < parsed.len() ==> parsed_view(#[trigger] parsed[i]) == parse(
                lines(lossy_text(raw))[i],
            ),
        legacy_views(entries) == parsed.filter_map(|e: Option<LegacyEntry>| parsed_view(e)),
        entries.len() <= i64::MAX,
        t.len() == 0,
        texts_stored(store, legacy_views(entries), t, u),
    ensures
        ({
            let copies = legacy_copies(raw, parse);
            let max = row_limit(store.max_entries);
            let max_bytes = store.max_entry_bytes as nat;
            &&& u == after_texts(t, copies, max, max_bytes)
            &&& u == migrated(t, copies, max, max_bytes)
            &&& entries_of(u) == entries_of(migrated(t, copies, max, max_bytes))
            &&& all_written(u)
        }),
{
    let all = lines(lossy_text(raw));
    parsed_lines_hold_the_copies(parsed, all, parse, all.len() as int);
    assert(parsed.take(all.len() as int) =~= parsed);
    assert(all.take(all.len() as int) =~= all);
    imported_rows_are_written(
        t,
        legacy_copies(raw, parse),
        row_limit(store.max_entries),
        store.max_entry_bytes as nat,
    );
}

/// Without a legacy file nothing is done.
pub proof fn without_a_file_nothing_is_migrated(
    m: MigrationView,
    copies: Seq<(u64, Seq<char>)>,
    max: nat,
    max_bytes: nat,
    n: nat,
)
    ensures
        after_steps(n, MigrationEvent::LookedFor { exists: false }, m, copies, max, max_bytes) == m,
{
}

/// A migration that is repeated, because it stopped before the file was
/// renamed, changes nothing more.
pub proof fn migrating_again_changes_nothing(
    rows: Seq<StoredRow>,
    copies: Seq<(u64, Seq<char>)>,
    max: nat,
    max_bytes: nat,
)
    ensures
        migrated(migrated(rows, copies, max, max_bytes), copies, max, max_bytes) == migrated(
            rows,
            copies,
            max,
            max_bytes,
        ),
{
    let once = migrated(rows, copies, max, max_bytes);
    if once.len() == 0 {
        assert(once =~= rows);
    }
}

} // verus!
