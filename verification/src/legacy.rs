//! The line-based history that preceded the database.
use vstd::prelude::*;
use vstd::utf8::{decode_utf8, valid_utf8};

use crate::history::{legacy_views, LegacyEntry};
use crate::text::{chars_of, lines, split_lines};

verus! {

/// What `String::from_utf8_lossy` makes of bytes.
pub uninterp spec fn lossy_text(bytes: Seq<u8>) -> Seq<char>;

/// `String::from_utf8_lossy`: valid UTF-8 is read as it is; what is not valid
/// is replaced.
#[verifier::external_body]
fn read_lossy(bytes: &[u8]) -> (text: String)
    ensures
        text@ == lossy_text(bytes@),
        valid_utf8(bytes@) ==> text@ == decode_utf8(bytes@),
{
    String::from_utf8_lossy(bytes).into_owned()
}

/// The lines of the file. One bad byte must not make the rest unreadable: a
/// line with invalid UTF-8 in it stays a line, and fails to parse later.
pub fn legacy_lines(raw: &[u8]) -> (r: Vec<String>)
    ensures
        r@.map_values(|l: String| l@) == lines(lossy_text(raw@)),
        valid_utf8(raw@) ==> r@.map_values(|l: String| l@) == lines(decode_utf8(raw@)),
{
    let text = read_lossy(raw);
    let chars = chars_of(text.as_str());
    split_lines(chars.as_slice())
}

/// The view of an entry that a line was parsed to.
pub open spec fn parsed_view(entry: Option<LegacyEntry>) -> Option<(u64, Seq<char>)> {
    match entry {
        Some(e) => Some((e.ts, e.text@)),
        None => None,
    }
}

/// The entries among the parsed lines, in order; lines that did not parse are
/// skipped.
pub fn readable_entries(parsed: Vec<Option<LegacyEntry>>) -> (r: Vec<LegacyEntry>)
    ensures
        legacy_views(r@) == parsed@.filter_map(|e: Option<LegacyEntry>| parsed_view(e)),
{
    let mut r: Vec<LegacyEntry> = Vec::new();
    let ghost all = parsed@;
    let ghost f = |e: Option<LegacyEntry>| parsed_view(e);
    for entry in it: parsed
        invariant
            it.seq() == all,
            f == (|e: Option<LegacyEntry>| parsed_view(e)),
            legacy_views(r@) == all.take(it.index() as int).filter_map(f),
    {
        proof {
            all.lemma_filter_map_take_succ(f, it.index() as int);
        }
        let ghost before = legacy_views(r@);
        match entry {
            Some(e) => {
                r.push(e);
                assert(legacy_views(r@) =~= before + seq![(e.ts, e.text@)]);
            },
            None => {
                assert(before =~= before + Seq::<(u64, Seq<char>)>::empty());
            },
        }
    }
    assert(all.take(all.len() as int) =~= all);
    r
}

/// What has just come about in a migration of the legacy file.
pub enum MigrationEvent {
    /// The file was looked for.
    LookedFor { exists: bool },
    /// The database's entries were counted.
    Counted { empty: bool },
    /// All of the file's entries have been committed to the database.
    Imported,
    /// The file was renamed.
    Retired,
}

/// What is to be done next.
#[derive(Debug, PartialEq, Eq, Structural)]
pub enum MigrationStep {
    /// See whether the database holds entries.
    Count,
    /// Import the file's entries in one transaction.
    Import,
    /// Rename the file, so that it is never imported again.
    Retire,
    /// Nothing.
    Finish,
}

/// What is to be done after `event`.
pub open spec fn step_after(event: MigrationEvent) -> MigrationStep {
    match event {
        MigrationEvent::LookedFor { exists } => if exists {
            MigrationStep::Count
        } else {
            MigrationStep::Finish
        },
        MigrationEvent::Counted { empty } => if empty {
            MigrationStep::Import
        } else {
            MigrationStep::Retire
        },
        MigrationEvent::Imported => MigrationStep::Retire,
        MigrationEvent::Retired => MigrationStep::Finish,
    }
}

/// What is to be done after `event`: the file is imported only into an empty
/// database, and retired only once that is committed or not needed. A crash in
/// between leaves the file, and the next start tries again.
pub fn migration_step(event: MigrationEvent) -> (step: MigrationStep)
    ensures
        step == step_after(event),
{
    match event {
        MigrationEvent::LookedFor { exists } => if exists {
            MigrationStep::Count
        } else {
            MigrationStep::Finish
        },
        MigrationEvent::Counted { empty } => if empty {
            MigrationStep::Import
        } else {
            MigrationStep::Retire
        },
        MigrationEvent::Imported => MigrationStep::Retire,
        MigrationEvent::Retired => MigrationStep::Finish,
    }
}

/// Only an empty database is imported into, and the file is given up only
/// after its entries are in the database, or where the database has others.
pub proof fn nothing_is_retired_before_it_is_imported(event: MigrationEvent)
    ensures
        step_after(event) == MigrationStep::Import <==> event == (MigrationEvent::Counted {
            empty: true,
        }),
        step_after(event) == MigrationStep::Retire <==> event is Imported || event == (
        MigrationEvent::Counted { empty: false }),
{
}

} // verus!
