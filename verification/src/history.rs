//! Clipboard history: its entries, and the SQLite store that keeps them.
use vstd::prelude::*;

use crate::sqlite;
use crate::sqlite::{
    begun, broke_off, committed, fetched, found, has_refused, listing_refused, reclaim_tried,
    refused, setup_of, setup_refused, table, Database, FetchedRow, Setup, WriteEvent, WriteLog,
};
use crate::table::{
    accepts_image, accepts_text, after_text, after_texts, capped, entries_of, entry_of, filter_keeps_first,
    filter_of_empty, fits_as_image, fits_as_text, has_room, has_room_for, image_of, newest_first, newest_text_in,
    room_after_texts, row_limit, stores_image, stores_text, with_image, with_text, without_row, StoredRow,
};
use crate::text::{opt_bytes, opt_text};

verus! {

#[derive(Debug, Clone, PartialEq)]
pub enum Content {
    Text(String),
    /// Metadata only: the PNG bytes are fetched by the entry's id.
    Image { w: u32, h: u32, bytes: usize },
}

#[derive(Debug, Clone, PartialEq)]
pub struct Entry {
    pub id: i64,
    pub ts: u64,
    pub content: Content,
}

/// What an entry holds, as mathematical values.
pub enum ContentView {
    Text(Seq<char>),
    Image { w: u32, h: u32, bytes: usize },
}

/// An entry as mathematical values.
pub struct EntryView {
    pub id: i64,
    pub ts: u64,
    pub content: ContentView,
}

impl View for Content {
    type V = ContentView;

    open spec fn view(&self) -> ContentView {
        match *self {
            Content::Text(t) => ContentView::Text(t@),
            Content::Image { w, h, bytes } => ContentView::Image { w, h, bytes },
        }
    }
}

impl View for Entry {
    type V = EntryView;

    open spec fn view(&self) -> EntryView {
        EntryView { id: self.id, ts: self.ts, content: self.content@ }
    }
}

/// A list of entries as mathematical values.
pub open spec fn entry_views(entries: Seq<Entry>) -> Seq<EntryView> {
    entries.map_values(|e: Entry| e@)
}

/// Why the store could not do its work: SQLite's own error.
#[derive(Debug)]
pub struct StoreError(pub rusqlite::Error);

/// SQLite-backed clipboard history. Concurrency between the watcher, which
/// appends, and the picker, which reads and deletes, is SQLite's: one writer
/// at a time, the others waiting for a while.
pub struct HistoryStore {
    pub db: Database,
    pub log: WriteLog,
    pub max_entries: usize,
    pub max_entry_bytes: usize,
    pub max_image_bytes: usize,
}

/// How long a statement waits for another process's lock, in seconds.
pub const BUSY_TIMEOUT_SECS: u64 = 5;

/// How a connection is set up for the store. The vacuum mode comes before the
/// switch to WAL, which writes the database's header and so fixes the mode;
/// the table comes last.
pub open spec fn store_setup() -> Seq<Setup> {
    seq![
        Setup::Immediate,
        Setup::BusyTimeout(BUSY_TIMEOUT_SECS),
        Setup::Pragma("auto_vacuum"@, "INCREMENTAL"@),
        Setup::Pragma("journal_mode"@, "WAL"@),
        Setup::Batch(sqlite::SCHEMA@),
    ]
}

/// `c` is the connection `conn` after the first `k` steps of the setup for the
/// store, with a step left that may fail. The first one cannot.
pub open spec fn setup_reached(
    conn: rusqlite::Connection,
    c: rusqlite::Connection,
    k: int,
) -> bool {
    1 <= k < store_setup().len() && setup_of(c) == setup_of(conn) + store_setup().take(k)
}

/// A row with the columns that were fetched, the others left out.
pub open spec fn row_of(f: FetchedRow) -> StoredRow {
    StoredRow {
        id: f.id,
        ts: f.ts,
        kind: opt_text(f.kind),
        text: opt_text(f.text),
        img: None,
        img_len: f.img_len,
        img_w: f.img_w,
        img_h: f.img_h,
        img_hash: None,
    }
}

/// The entry that a fetched row holds; none where stepping to it failed.
pub open spec fn entry_of_fetched(row: Result<FetchedRow, rusqlite::Error>) -> Option<EntryView> {
    match row {
        Ok(f) => entry_of(row_of(f)),
        Err(_) => None,
    }
}

/// The entry that the fetched columns hold, if they read as one.
pub fn entry_from(f: FetchedRow) -> (r: Option<Entry>)
    ensures
        match r {
            Some(e) => entry_of(row_of(f)) == Some(e@),
            None => entry_of(row_of(f)) is None,
        },
{
    let ts: i64 = match f.ts {
        Some(ts) => ts,
        None => return None,
    };
    let kind = match f.kind {
        Some(kind) => kind,
        None => return None,
    };
    if kind == "text".to_owned() {
        match f.text {
            Some(text) => Some(Entry { id: f.id, ts: ts as u64, content: Content::Text(text) }),
            None => None,
        }
    } else {
        match (f.img_w, f.img_h, f.img_len) {
            (Some(w), Some(h), Some(len)) => Some(
                Entry {
                    id: f.id,
                    ts: ts as u64,
                    content: Content::Image { w, h, bytes: len as usize },
                },
            ),
            _ => None,
        }
    }
}

/// The entries among the fetched rows, in order; what does not read as an
/// entry is skipped.
pub fn entries_from(rows: Vec<Result<FetchedRow, rusqlite::Error>>) -> (r: Vec<Entry>)
    ensures
        entry_views(r@) == rows@.filter_map(
            |row: Result<FetchedRow, rusqlite::Error>| entry_of_fetched(row),
        ),
{
    let mut r: Vec<Entry> = Vec::new();
    let ghost all = rows@;
    let ghost f = |row: Result<FetchedRow, rusqlite::Error>| entry_of_fetched(row);
    for row in it: rows
        invariant
            it.seq() == all,
            f == (|row: Result<FetchedRow, rusqlite::Error>| entry_of_fetched(row)),
            entry_views(r@) == all.take(it.index() as int).filter_map(f),
    {
        proof {
            all.lemma_filter_map_take_succ(f, it.index() as int);
        }
        let ghost before = entry_views(r@);
        match row {
            Ok(fetched_row) => match entry_from(fetched_row) {
                Some(e) => {
                    r.push(e);
                    assert(entry_views(r@) =~= before + seq![e@]);
                },
                None => {
                    assert(before =~= before + Seq::<EntryView>::empty());
                },
            },
            Err(_) => {
                assert(before =~= before + Seq::<EntryView>::empty());
            },
        }
    }
    assert(all.take(all.len() as int) =~= all);
    r
}

/// Rows that were fetched one by one hold the entries of those rows.
proof fn fetched_entries(
    rows: Seq<Result<FetchedRow, rusqlite::Error>>,
    t: Seq<StoredRow>,
    n: int,
)
    requires
        0 <= n <= rows.len(),
        n <= t.len(),
        forall|i: int|
            0 <= i < n ==> (#[trigger] rows[i]) is Ok && fetched(rows[i].unwrap(), t[i]),
    ensures
        rows.take(n).filter_map(
            |row: Result<FetchedRow, rusqlite::Error>| entry_of_fetched(row),
        ) == entries_of(t.take(n)),
    decreases n,
{
    let f = |row: Result<FetchedRow, rusqlite::Error>| entry_of_fetched(row);
    let g = |r: StoredRow| entry_of(r);
    if n == 0 {
        reveal(Seq::filter_map);
        assert(rows.take(0).filter_map(f) =~= t.take(0).filter_map(g));
    } else {
        fetched_entries(rows, t, n - 1);
        rows.lemma_filter_map_take_succ(f, n - 1);
        t.lemma_filter_map_take_succ(g, n - 1);
        assert(rows[n - 1] is Ok);
        assert(entry_of_fetched(rows[n - 1]) == entry_of(t[n - 1]));
    }
}

/// The newest text among `entries`, skipping images; none when they hold no
/// text.
pub fn newest_text_of(entries: &[Entry]) -> (r: Option<String>)
    ensures
        opt_text(r) == newest_text_in(entry_views(entries@)),
{
    let mut i: usize = 0;
    assert(entry_views(entries@).skip(0) =~= entry_views(entries@));
    while i < entries.len()
        invariant
            i <= entries@.len(),
            newest_text_in(entry_views(entries@)) == newest_text_in(
                entry_views(entries@).skip(i as int),
            ),
        decreases entries@.len() - i,
    {
        let ghost rest = entry_views(entries@).skip(i as int);
        assert(rest[0] == entries@[i as int]@);
        assert(rest.skip(1) =~= entry_views(entries@).skip(i + 1));
        match &entries[i].content {
            Content::Text(t) => return Some(t.clone()),
            Content::Image { .. } => {},
        }
        i += 1;
    }
    None
}

/// Whether the newest row, given its kind and text, stores `text`.
pub fn repeats_text(newest: &Option<(String, Option<String>)>, text: &str) -> (r: bool)
    ensures
        r == (newest matches Some((kind, Some(t))) && kind@ == "text"@ && t@ == text@),
{
    match newest {
        Some((kind, Some(t))) => *kind == "text".to_owned() && *t == text.to_owned(),
        _ => false,
    }
}

/// The newest row's kind, dimensions and pixel hash; the last three are NULL
/// where it is a text.
pub type NewestImageKey = (String, Option<u32>, Option<u32>, Option<i64>);

/// Whether the newest row, given its key, stores the image with these
/// dimensions and this hash.
pub fn repeats_image(newest: &Option<NewestImageKey>, w: u32, h: u32, hash: i64) -> (r: bool)
    ensures
        r == (newest matches Some((kind, Some(nw), Some(nh), Some(nhash))) && kind@ == "image"@
            && nw == w && nh == h && nhash == hash),
{
    match newest {
        Some((kind, Some(nw), Some(nh), Some(nhash))) => *kind == "image".to_owned() && *nw == w
            && *nh == h && *nhash == hash,
        _ => false,
    }
}

/// One entry of the line-based history that preceded the database.
#[derive(Debug)]
pub struct LegacyEntry {
    pub ts: u64,
    pub text: String,
}

/// Legacy entries as times and texts.
pub open spec fn legacy_views(entries: Seq<LegacyEntry>) -> Seq<(u64, Seq<char>)> {
    entries.map_values(|e: LegacyEntry| (e.ts, e.text@))
}

/// None of the copied texts is of a size that may be stored.
pub open spec fn none_fits(copies: Seq<(u64, Seq<char>)>, max_bytes: nat) -> bool {
    forall|i: int| 0 <= i < copies.len() ==> !fits_as_text((#[trigger] copies[i]).1, max_bytes)
}

/// `b` is the store `a` after one commit and nothing else: of a transaction
/// that kept other writers out, found the rows `before` and left the rows
/// `after`.
pub open spec fn wrote(
    a: HistoryStore,
    b: HistoryStore,
    before: Seq<StoredRow>,
    after: Seq<StoredRow>,
) -> bool {
    &&& same_settings(a, b)
    &&& found(a.db, before)
    &&& newest_first(before)
    &&& committed(a.db, before, after)
    &&& b.log.events() == a.log.events().push(
        WriteEvent::Committed { before, after, write_locked: true },
    )
}

/// The same, and free pages were given back after the commit.
pub open spec fn wrote_and_reclaimed(
    a: HistoryStore,
    b: HistoryStore,
    before: Seq<StoredRow>,
    after: Seq<StoredRow>,
) -> bool {
    &&& same_settings(a, b)
    &&& found(a.db, before)
    &&& newest_first(before)
    &&& committed(a.db, before, after)
    &&& exists|steps: Option<usize>| #[trigger]
        reclaim_tried(a.db, steps) && b.log.events() == a.log.events().push(
            WriteEvent::Committed { before, after, write_locked: true },
        ).push(WriteEvent::Vacuumed { steps })
}

/// What storing `text` in `store` at time `ts` makes of the rows `t`: the rows
/// `u`, and whether it was appended. Where the largest possible id is in use,
/// what the rows become is left open.
pub open spec fn text_stored(
    store: HistoryStore,
    text: Seq<char>,
    ts: u64,
    appended: bool,
    t: Seq<StoredRow>,
    u: Seq<StoredRow>,
) -> bool {
    &&& appended == accepts_text(t, text, store.max_entry_bytes as nat)
    &&& has_room(t) ==> u == after_text(
        t,
        text,
        ts,
        row_limit(store.max_entries),
        store.max_entry_bytes as nat,
    )
}

/// What storing an image in `store` makes of the rows `t`, where it is not
/// skipped.
pub open spec fn image_stored(
    store: HistoryStore,
    png: Seq<u8>,
    w: u32,
    h: u32,
    hash: u64,
    ts: u64,
    t: Seq<StoredRow>,
    u: Seq<StoredRow>,
) -> bool {
    &&& accepts_image(t, png, w, h, hash, store.max_image_bytes as nat)
    &&& has_room(t) ==> u == with_image(t, png, w, h, hash, ts, row_limit(store.max_entries))
}

/// What importing `copies` into `store` makes of the rows `t`.
pub open spec fn texts_stored(
    store: HistoryStore,
    copies: Seq<(u64, Seq<char>)>,
    t: Seq<StoredRow>,
    u: Seq<StoredRow>,
) -> bool {
    has_room_for(t, copies.len()) ==> u == after_texts(
        t,
        copies,
        row_limit(store.max_entries),
        store.max_entry_bytes as nat,
    )
}

/// The two are on the same database, with the same limits.
pub open spec fn same_settings(a: HistoryStore, b: HistoryStore) -> bool {
    &&& a.db == b.db
    &&& a.max_entries == b.max_entries
    &&& a.max_entry_bytes == b.max_entry_bytes
    &&& a.max_image_bytes == b.max_image_bytes
}

impl HistoryStore {
    /// A store on the database that `conn` is open on, set up for it.
    pub fn new(
        conn: rusqlite::Connection,
        max_entries: usize,
        max_entry_bytes: usize,
        max_image_bytes: usize,
    ) -> (res: Result<Self, StoreError>)
        ensures
            res matches Ok(s) ==> s.max_entries == max_entries && s.max_entry_bytes
                == max_entry_bytes && s.max_image_bytes == max_image_bytes,
            res matches Ok(s) ==> setup_of(s.db.connection()) == setup_of(conn) + store_setup(),
            res matches Ok(s) ==> s.log.events() == Seq::<WriteEvent>::empty(),
            res matches Err(e) ==> exists|c: rusqlite::Connection, k: int| #[trigger]
                setup_reached(conn, c, k) && setup_refused(c, store_setup()[k], e.0),
    {
        let mut c = conn;
        sqlite::set_immediate(&mut c);
        assert(setup_of(c) =~= setup_of(conn) + store_setup().take(1));
        assert(setup_reached(conn, c, 1));
        match sqlite::set_busy_timeout(&mut c, BUSY_TIMEOUT_SECS) {
            Ok(()) => {},
            Err(e) => return Err(StoreError(e)),
        }
        assert(setup_of(c) =~= setup_of(conn) + store_setup().take(2));
        assert(setup_reached(conn, c, 2));
        match sqlite::set_pragma(&mut c, "auto_vacuum", "INCREMENTAL") {
            Ok(()) => {},
            Err(e) => return Err(StoreError(e)),
        }
        assert(setup_of(c) =~= setup_of(conn) + store_setup().take(3));
        assert(setup_reached(conn, c, 3));
        match sqlite::set_pragma(&mut c, "journal_mode", "WAL") {
            Ok(()) => {},
            Err(e) => return Err(StoreError(e)),
        }
        assert(setup_of(c) =~= setup_of(conn) + store_setup().take(4));
        assert(setup_reached(conn, c, 4));
        match sqlite::run_batch(&mut c, sqlite::SCHEMA) {
            Ok(()) => {},
            Err(e) => return Err(StoreError(e)),
        }
        assert(setup_of(c) =~= setup_of(conn) + store_setup());
        assert(setup_of(c)[setup_of(conn).len() as int] == Setup::Immediate);
        let (db, log) = Database::on(c);
        Ok(HistoryStore { db, log, max_entries, max_entry_bytes, max_image_bytes })
    }

    /// The entries of the table that `tx` sees, newest first (by insertion,
    /// not by the clock). Where SQLite fails on the way, those before that.
    pub fn load_in(tx: &rusqlite::Transaction<'_>) -> (res: Result<Vec<Entry>, StoreError>)
        ensures
            res matches Ok(r) ==> exists|n: int|
                0 <= n <= table(*tx).len() && entry_views(r@) == #[trigger] entries_of(
                    table(*tx).take(n),
                ) && (n == table(*tx).len() || broke_off(begun(*tx).db, table(*tx), n)),
            res matches Err(e) ==> refused(begun(*tx).db, e.0),
    {
        let rows = match sqlite::select_rows(tx) {
            Ok(rows) => rows,
            Err(e) => return Err(StoreError(e)),
        };
        let ghost all = rows@;
        let entries = entries_from(rows);
        proof {
            let f = |row: Result<FetchedRow, rusqlite::Error>| entry_of_fetched(row);
            let n: int = if all.len() > 0 && all.last() is Err {
                all.len() - 1
            } else {
                all.len() as int
            };
            if n > 0 {
                assert(all[n - 1] is Ok);
            }
            fetched_entries(all, table(*tx), n);
            if n < all.len() {
                assert(all[n] is Err);
                assert(listing_refused(begun(*tx).db, table(*tx), n, all[n]->Err_0));
                all.lemma_filter_map_take_succ(f, n);
                assert(all.take(n + 1) =~= all);
                assert(all.take(n).filter_map(f) + Seq::<EntryView>::empty()
                    =~= all.take(n).filter_map(f));
            } else {
                assert(all.take(n) =~= all);
            }
            assert(entry_views(entries@) == entries_of(table(*tx).take(n)));
        }
        Ok(entries)
    }

    /// Entries newest first; image entries carry metadata only. An error where
    /// the query for them fails; where SQLite fails on the way through the
    /// rows, the entries before that.
    pub fn try_load(&self) -> (res: Result<Vec<Entry>, StoreError>)
        ensures
            res matches Ok(r) ==> exists|t: Seq<StoredRow>, n: int| #[trigger]
                found(self.db, t) && newest_first(t) && 0 <= n <= t.len() && entry_views(r@)
                    == #[trigger] entries_of(t.take(n)) && (n == t.len() || broke_off(self.db, t, n)),
            res matches Err(e) ==> refused(self.db, e.0),
    {
        match sqlite::begin_read(&self.db) {
            Ok(tx) => Self::load_in(&tx),
            Err(e) => Err(StoreError(e)),
        }
    }

    /// Entries newest first; image entries carry metadata only. All of them,
    /// unless SQLite fails.
    pub fn load(&self) -> (r: Vec<Entry>)
        ensures
            (r@.len() == 0 && has_refused(self.db)) || exists|t: Seq<StoredRow>, n: int|
                #[trigger]
                found(self.db, t) && newest_first(t) && 0 <= n <= t.len() && entry_views(r@)
                    == #[trigger] entries_of(t.take(n)) && (n == t.len() || broke_off(self.db, t, n)),
    {
        match self.try_load() {
            Ok(entries) => entries,
            Err(e) => {
                assert(refused(self.db, e.0));
                Vec::new()
            },
        }
    }

    /// Newest text entry's content, skipping image entries; none when the
    /// history holds no text, or SQLite fails before the first one.
    pub fn newest_text(&self) -> (r: Option<String>)
        ensures
            (r is None && has_refused(self.db)) || exists|t: Seq<StoredRow>, n: int| #[trigger]
                found(self.db, t) && newest_first(t) && 0 <= n <= t.len() && opt_text(r)
                    == newest_text_in(#[trigger] entries_of(t.take(n))) && (n == t.len()
                    || broke_off(self.db, t, n)),
    {
        let entries = self.load();
        newest_text_of(entries.as_slice())
    }

    /// Stores `text` in the table that `tx` sees, as its newest entry. False
    /// where it is skipped: empty, oversized, or what the newest entry holds.
    pub fn append_text_in(
        tx: &mut rusqlite::Transaction<'_>,
        text: &str,
        ts: u64,
        max_entries: usize,
        max_entry_bytes: usize,
    ) -> (res: Result<bool, StoreError>)
        ensures
            !fits_as_text(text@, max_entry_bytes as nat) ==> (res matches Ok(appended)
                && !appended),
            res is Ok ==> begun(*final(tx)) == begun(*old(tx)),
            res matches Ok(appended) ==> appended == accepts_text(
                table(*old(tx)),
                text@,
                max_entry_bytes as nat,
            ),
            res matches Ok(false) ==> table(*final(tx)) == table(*old(tx)),
            res matches Ok(true) ==> has_room(table(*old(tx))) ==> table(*final(tx)) == with_text(
                table(*old(tx)),
                text@,
                ts,
                row_limit(max_entries),
            ),
            res matches Err(e) ==> refused(begun(*old(tx)).db, e.0),
    {
        if text.is_empty() || text.as_bytes().len() > max_entry_bytes {
            return Ok(false);
        }
        match sqlite::newest_text_columns(tx) {
            Ok(newest) => {
                if repeats_text(&newest, text) {
                    return Ok(false);
                }
            },
            Err(e) => return Err(StoreError(e)),
        }
        proof {
            let keep = |r: StoredRow| !stores_text(r, text@);
            if table(*tx).len() > 0 {
                filter_keeps_first(table(*tx), keep);
            } else {
                filter_of_empty(table(*tx), keep);
            }
        }
        match sqlite::delete_text(tx, text) {
            Ok(_) => {},
            Err(e) => return Err(StoreError(e)),
        }
        match sqlite::insert_text(tx, ts as i64, text) {
            Ok(_) => {},
            Err(e) => return Err(StoreError(e)),
        }
        Self::enforce_cap(tx, max_entries)?;
        Ok(true)
    }

    /// Store text as the newest entry. Returns false when skipped (empty,
    /// oversized, or identical to the current newest entry).
    pub fn append_text(&mut self, text: &str, ts: u64) -> (res: Result<bool, StoreError>)
        ensures
            res matches Ok(appended) ==> exists|t: Seq<StoredRow>, u: Seq<StoredRow>| #[trigger]
                wrote_and_reclaimed(*old(self), *final(self), t, u) && text_stored(
                    *old(self),
                    text@,
                    ts,
                    appended,
                    t,
                    u,
                ),
            res matches Err(e) ==> refused(old(self).db, e.0) && *final(self) == *old(self),
    {
        let mut tx = match sqlite::begin_write(&self.db) {
            Ok(tx) => tx,
            Err(e) => return Err(StoreError(e)),
        };
        let appended = Self::append_text_in(
            &mut tx,
            text,
            ts,
            self.max_entries,
            self.max_entry_bytes,
        )?;
        let ghost (before, after) = (begun(tx).rows, table(tx));
        match sqlite::commit(tx, &mut self.log) {
            Ok(()) => {},
            Err(e) => return Err(StoreError(e)),
        }
        sqlite::vacuum(&self.db, &mut self.log);
        assert(wrote_and_reclaimed(*old(self), *self, before, after));
        Ok(appended)
    }

    /// Stores a PNG in the table that `tx` sees, as its newest entry. False
    /// where its pixels are those of the newest entry.
    pub fn append_image_in(
        tx: &mut rusqlite::Transaction<'_>,
        png: &[u8],
        w: u32,
        h: u32,
        rgba_hash: u64,
        ts: u64,
        max_entries: usize,
        max_image_bytes: usize,
    ) -> (res: Result<bool, StoreError>)
        ensures
            !fits_as_image(png@, max_image_bytes as nat) ==> (res matches Ok(appended)
                && !appended),
            res is Ok ==> begun(*final(tx)) == begun(*old(tx)),
            res matches Ok(appended) ==> appended == accepts_image(
                table(*old(tx)),
                png@,
                w,
                h,
                rgba_hash,
                max_image_bytes as nat,
            ),
            res matches Ok(false) ==> table(*final(tx)) == table(*old(tx)),
            res matches Ok(true) ==> has_room(table(*old(tx))) ==> table(*final(tx)) == with_image(
                table(*old(tx)),
                png@,
                w,
                h,
                rgba_hash,
                ts,
                row_limit(max_entries),
            ),
            res matches Err(e) ==> refused(begun(*old(tx)).db, e.0),
    {
        if png.len() == 0 || png.len() > max_image_bytes {
            return Ok(false);
        }
        let hash: i64 = rgba_hash as i64;
        match sqlite::newest_image_columns(tx) {
            Ok(newest) => {
                if repeats_image(&newest, w, h, hash) {
                    return Ok(false);
                }
            },
            Err(e) => return Err(StoreError(e)),
        }
        proof {
            let keep = |r: StoredRow| !stores_image(r, w, h, hash);
            if table(*tx).len() > 0 {
                filter_keeps_first(table(*tx), keep);
            } else {
                filter_of_empty(table(*tx), keep);
            }
        }
        match sqlite::delete_image(tx, w, h, hash) {
            Ok(_) => {},
            Err(e) => return Err(StoreError(e)),
        }
        match sqlite::insert_image(tx, ts as i64, png, w, h, hash) {
            Ok(_) => {},
            Err(e) => return Err(StoreError(e)),
        }
        Self::enforce_cap(tx, max_entries)?;
        Ok(true)
    }

    /// Store a PNG image as the newest entry; same skip and dedup semantics as
    /// text, keyed on the pixel content (dimensions and RGBA hash) rather than
    /// the encoded bytes: a restore that re-encodes the same pixels
    /// differently must still dedup.
    pub fn append_image(
        &mut self,
        png: &[u8],
        w: u32,
        h: u32,
        rgba_hash: u64,
        ts: u64,
    ) -> (res: Result<bool, StoreError>)
        ensures
            !fits_as_image(png@, old(self).max_image_bytes as nat) ==> (res matches Ok(appended)
                && !appended),
            fits_as_image(png@, old(self).max_image_bytes as nat) ==> (res matches Ok(false)
                ==> exists|t: Seq<StoredRow>| #[trigger]
                found(old(self).db, t) && newest_first(t) && !accepts_image(
                    t,
                    png@,
                    w,
                    h,
                    rgba_hash,
                    old(self).max_image_bytes as nat,
                )),
            res matches Ok(false) ==> *final(self) == *old(self),
            res matches Ok(true) ==> exists|t: Seq<StoredRow>, u: Seq<StoredRow>| #[trigger]
                wrote_and_reclaimed(*old(self), *final(self), t, u) && image_stored(
                    *old(self),
                    png@,
                    w,
                    h,
                    rgba_hash,
                    ts,
                    t,
                    u,
                ),
            res matches Err(e) ==> refused(old(self).db, e.0) && *final(self) == *old(self),
    {
        if png.len() == 0 || png.len() > self.max_image_bytes {
            return Ok(false);
        }
        let mut tx = match sqlite::begin_write(&self.db) {
            Ok(tx) => tx,
            Err(e) => return Err(StoreError(e)),
        };
        let appended = Self::append_image_in(
            &mut tx,
            png,
            w,
            h,
            rgba_hash,
            ts,
            self.max_entries,
            self.max_image_bytes,
        )?;
        if !appended {
            return Ok(false);
        }
        let ghost (before, after) = (begun(tx).rows, table(tx));
        match sqlite::commit(tx, &mut self.log) {
            Ok(()) => {},
            Err(e) => return Err(StoreError(e)),
        }
        sqlite::vacuum(&self.db, &mut self.log);
        assert(wrote_and_reclaimed(*old(self), *self, before, after));
        Ok(true)
    }

    /// PNG bytes of an image entry in the table that `tx` sees.
    pub fn get_image_in(tx: &rusqlite::Transaction<'_>, id: i64) -> (res: Result<
        Option<Vec<u8>>,
        StoreError,
    >)
        ensures
            res matches Ok(img) ==> opt_bytes(img) == image_of(table(*tx), id),
            res matches Err(e) ==> refused(begun(*tx).db, e.0),
    {
        match sqlite::select_image(tx, id) {
            Ok(Some(img)) => Ok(img),
            Ok(None) => Ok(None),
            Err(e) => Err(StoreError(e)),
        }
    }

    /// PNG bytes for an image entry; none if the id is gone or not an image.
    pub fn get_image(&self, id: i64) -> (res: Result<Option<Vec<u8>>, StoreError>)
        ensures
            res matches Ok(img) ==> exists|t: Seq<StoredRow>| #[trigger]
                found(self.db, t) && newest_first(t) && opt_bytes(img) == image_of(t, id),
            res matches Err(e) ==> refused(self.db, e.0),
    {
        match sqlite::begin_read(&self.db) {
            Ok(tx) => Self::get_image_in(&tx, id),
            Err(e) => Err(StoreError(e)),
        }
    }

    /// Removes the entry `id` from the table that `tx` sees.
    pub fn delete_in(tx: &mut rusqlite::Transaction<'_>, id: i64) -> (res: Result<(), StoreError>)
        ensures
            res is Ok ==> begun(*final(tx)) == begun(*old(tx)),
            res is Ok ==> table(*final(tx)) == without_row(table(*old(tx)), id),
            res matches Err(e) ==> refused(begun(*old(tx)).db, e.0),
    {
        match sqlite::delete_row(tx, id) {
            Ok(_) => Ok(()),
            Err(e) => Err(StoreError(e)),
        }
    }

    /// Removes the entry `id`.
    pub fn delete(&mut self, id: i64) -> (res: Result<(), StoreError>)
        ensures
            res is Ok ==> exists|t: Seq<StoredRow>, u: Seq<StoredRow>| #[trigger]
                wrote_and_reclaimed(*old(self), *final(self), t, u) && u == without_row(t, id),
            res matches Err(e) ==> refused(old(self).db, e.0) && *final(self) == *old(self),
    {
        let mut tx = match sqlite::begin_write(&self.db) {
            Ok(tx) => tx,
            Err(e) => return Err(StoreError(e)),
        };
        Self::delete_in(&mut tx, id)?;
        let ghost (before, after) = (begun(tx).rows, table(tx));
        match sqlite::commit(tx, &mut self.log) {
            Ok(()) => {},
            Err(e) => return Err(StoreError(e)),
        }
        sqlite::vacuum(&self.db, &mut self.log);
        assert(wrote_and_reclaimed(*old(self), *self, before, after));
        Ok(())
    }

    /// Keeps the newest `max_entries` rows.
    fn enforce_cap(tx: &mut rusqlite::Transaction<'_>, max_entries: usize) -> (res: Result<
        (),
        StoreError,
    >)
        ensures
            res is Ok ==> begun(*final(tx)) == begun(*old(tx)),
            res is Ok ==> table(*final(tx)) == capped(table(*old(tx)), row_limit(max_entries)),
            res is Ok && max_entries <= i64::MAX ==> table(*final(tx)) == (if table(*old(tx)).len()
                > max_entries {
                table(*old(tx)).take(max_entries as int)
            } else {
                table(*old(tx))
            }),
            res matches Err(e) ==> refused(begun(*old(tx)).db, e.0),
    {
        let max: i64 = if max_entries as u64 > i64::MAX as u64 {
            i64::MAX
        } else {
            max_entries as i64
        };
        match sqlite::delete_beyond(tx, max) {
            Ok(_) => Ok(()),
            Err(e) => Err(StoreError(e)),
        }
    }

    /// Whether the history holds no entry at all.
    pub fn is_empty(&self) -> (res: Result<bool, StoreError>)
        ensures
            res matches Ok(empty) ==> exists|t: Seq<StoredRow>| #[trigger]
                found(self.db, t) && newest_first(t) && empty == (t.len() == 0),
            res matches Err(e) ==> refused(self.db, e.0),
    {
        let tx = match sqlite::begin_read(&self.db) {
            Ok(tx) => tx,
            Err(e) => return Err(StoreError(e)),
        };
        match sqlite::count_rows(&tx) {
            Ok(n) => Ok(n == 0),
            Err(e) => Err(StoreError(e)),
        }
    }

    /// Copies the legacy entries, in order, into the table that `tx` sees.
    pub fn import_in(
        tx: &mut rusqlite::Transaction<'_>,
        entries: &[LegacyEntry],
        max_entries: usize,
        max_entry_bytes: usize,
    ) -> (res: Result<(), StoreError>)
        ensures
            res is Ok ==> begun(*final(tx)) == begun(*old(tx)),
            res is Ok && has_room_for(table(*old(tx)), entries@.len()) ==> table(*final(tx))
                == after_texts(
                table(*old(tx)),
                legacy_views(entries@),
                row_limit(max_entries),
                max_entry_bytes as nat,
            ),
            none_fits(legacy_views(entries@), max_entry_bytes as nat) ==> res is Ok && table(
                *final(tx),
            ) == table(*old(tx)),
            res matches Err(e) ==> refused(begun(*old(tx)).db, e.0),
    {
        let ghost before = table(*tx);
        let ghost copies = legacy_views(entries@);
        let mut i: usize = 0;
        while i < entries.len()
            invariant
                i <= entries@.len(),
                copies == legacy_views(entries@),
                begun(*tx) == begun(*old(tx)),
                none_fits(copies, max_entry_bytes as nat) ==> table(*tx) == before,
                has_room_for(before, copies.len()) ==> table(*tx) == after_texts(
                    before,
                    copies.take(i as int),
                    row_limit(max_entries),
                    max_entry_bytes as nat,
                ),
            decreases entries@.len() - i,
        {
            proof {
                assert(copies.take(i + 1).drop_last() =~= copies.take(i as int));
                assert(copies[i as int] == (entries@[i as int].ts, entries@[i as int].text@));
                if has_room_for(before, copies.len()) {
                    room_after_texts(
                        before,
                        copies.take(i as int),
                        row_limit(max_entries),
                        max_entry_bytes as nat,
                        1,
                    );
                }
            }
            let _appended = Self::append_text_in(
                tx,
                entries[i].text.as_str(),
                entries[i].ts,
                max_entries,
                max_entry_bytes,
            )?;
            i += 1;
        }
        assert(copies.take(i as int) =~= copies);
        Ok(())
    }

    /// Imports the legacy entries in one transaction: all of them, or none.
    pub fn import(&mut self, entries: &[LegacyEntry]) -> (res: Result<(), StoreError>)
        ensures
            res is Ok ==> exists|t: Seq<StoredRow>, u: Seq<StoredRow>| #[trigger]
                wrote(*old(self), *final(self), t, u) && texts_stored(
                    *old(self),
                    legacy_views(entries@),
                    t,
                    u,
                ),
            res matches Err(e) ==> refused(old(self).db, e.0) && *final(self) == *old(self),
    {
        let mut tx = match sqlite::begin_write(&self.db) {
            Ok(tx) => tx,
            Err(e) => return Err(StoreError(e)),
        };
        Self::import_in(&mut tx, entries, self.max_entries, self.max_entry_bytes)?;
        let ghost (before, after) = (begun(tx).rows, table(tx));
        match sqlite::commit(tx, &mut self.log) {
            Ok(()) => {
                assert(wrote(*old(self), *self, before, after));
                Ok(())
            },
            Err(e) => Err(StoreError(e)),
        }
    }
}

} // verus!
