//! What the store's operations do to the rows, row by row and in plain terms.
use vstd::prelude::*;
use vstd::utf8::encode_utf8;

use crate::history::{
    entry_of_fetched, image_stored, legacy_views, none_fits, row_of, setup_reached, store_setup,
    text_stored, texts_stored, wrote, wrote_and_reclaimed, Content, ContentView, Entry, EntryView,
    HistoryStore, LegacyEntry,
};
use crate::sqlite::{
    broke_off, committed, fetched, found, has_refused, listing_refused, reclaim_tried, refused,
    setup_of, Database, FetchedRow, Setup, WriteEvent, SCHEMA,
};
use crate::table::{
    accepts_image, accepts_text, capped, entries_of, entry_of, has_room, has_room_for, image_of,
    newest_first, newest_text_in, next_id, row_limit, stores_image, stores_text, without_image,
    without_row, without_text, StoredRow,
};
use crate::text::{opt_bytes, opt_text};

verus! {

/// A limit on the history is that number of rows: nothing is dropped before
/// there are more, and exactly the excess is dropped then.
pub proof fn the_limit_is_exact(t: Seq<StoredRow>, max_entries: usize)
    requires
        max_entries <= i64::MAX,
    ensures
        row_limit(max_entries) == max_entries,
        t.len() <= max_entries ==> capped(t, row_limit(max_entries)) == t,
        t.len() > max_entries ==> capped(t, row_limit(max_entries)).len() == max_entries,
        capped(t, row_limit(max_entries)).is_prefix_of(t),
{
    assert(capped(t, row_limit(max_entries)) =~= t.take(
        capped(t, row_limit(max_entries)).len() as int,
    ));
}

/// Only a full range of ids keeps a copy from getting the next one: there is
/// room as long as the newest id is not the largest possible.
pub proof fn there_is_room_below_the_largest_id(t: Seq<StoredRow>, n: nat)
    ensures
        has_room(t) <==> t.len() == 0 || t[0].id < i64::MAX,
        n <= i64::MAX && (t.len() == 0 || t[0].id + n <= i64::MAX) ==> has_room_for(t, n),
        t.len() == 0 ==> next_id(t) == 1,
        t.len() > 0 && t[0].id < i64::MAX ==> next_id(t) == t[0].id + 1,
{
}

/// The rows after `append_text`, whatever else the table holds. It is skipped
/// where the text is empty or has more bytes than the limit, or where the
/// newest row is that text; the rows then stay. Else a row with the text and
/// the time comes first, every other row but those with the same text follows
/// in the same order, and what is beyond the limit is gone.
pub proof fn rows_after_append_text(
    store: HistoryStore,
    text: Seq<char>,
    ts: u64,
    appended: bool,
    t: Seq<StoredRow>,
    u: Seq<StoredRow>,
)
    requires
        text_stored(store, text, ts, appended, t, u),
        t.len() > 0 ==> t[0].id < i64::MAX,
        0 < store.max_entries <= i64::MAX,
    ensures
        ({
            let others = t.filter(
                |r: StoredRow| !(r.kind == Some("text"@) && r.text == Some(text)),
            );
            &&& !appended <==> text.len() == 0 || encode_utf8(text).len() > store.max_entry_bytes
                || (t.len() > 0 && t[0].kind == Some("text"@) && t[0].text == Some(text))
            &&& !appended ==> u == t
            &&& appended ==> {
                &&& u.len() == (if 1 + others.len() <= store.max_entries {
                    1 + others.len()
                } else {
                    store.max_entries as nat
                })
                &&& u[0].id == (if t.len() == 0 {
                    1
                } else {
                    t[0].id + 1
                })
                &&& u[0].ts matches Some(stamp) && stamp as u64 == ts
                &&& u[0].kind == Some("text"@)
                &&& u[0].text == Some(text)
                &&& u[0].img is None
                &&& forall|i: int| 1 <= i < u.len() ==> #[trigger] u[i] == others[i - 1]
            }
        }),
{
    assert((ts as i64) as u64 == ts) by (bit_vector);
    let others = t.filter(|r: StoredRow| !(r.kind == Some("text"@) && r.text == Some(text)));
    let keep = |r: StoredRow| !stores_text(r, text);
    assert(keep =~= (|r: StoredRow| !(r.kind == Some("text"@) && r.text == Some(text))));
    assert(without_text(t, text) == others);
}

/// The rows after `append_image` where it answers true.
pub proof fn rows_after_append_image(
    store: HistoryStore,
    png: Seq<u8>,
    w: u32,
    h: u32,
    hash: u64,
    ts: u64,
    t: Seq<StoredRow>,
    u: Seq<StoredRow>,
)
    requires
        image_stored(store, png, w, h, hash, ts, t, u),
        t.len() > 0 ==> t[0].id < i64::MAX,
        0 < store.max_entries <= i64::MAX,
        png.len() <= i64::MAX,
    ensures
        ({
            let others = t.filter(
                |r: StoredRow|
                    !(r.kind == Some("image"@) && r.img_w == Some(w) && r.img_h == Some(h)
                        && r.img_hash == Some(hash as i64)),
            );
            &&& 0 < png.len() <= store.max_image_bytes
            &&& t.len() > 0 ==> !(t[0].kind == Some("image"@) && t[0].img_w == Some(w)
                && t[0].img_h == Some(h) && t[0].img_hash == Some(hash as i64))
            &&& u.len() == (if 1 + others.len() <= store.max_entries {
                1 + others.len()
            } else {
                store.max_entries as nat
            })
            &&& u[0].id == (if t.len() == 0 {
                1
            } else {
                t[0].id + 1
            })
            &&& u[0].ts matches Some(stamp) && stamp as u64 == ts
            &&& u[0].kind == Some("image"@)
            &&& u[0].text is None
            &&& u[0].img == Some(png)
            &&& u[0].img_len matches Some(len) && len == png.len()
            &&& u[0].img_w == Some(w)
            &&& u[0].img_h == Some(h)
            &&& u[0].img_hash == Some(hash as i64)
            &&& forall|i: int| 1 <= i < u.len() ==> #[trigger] u[i] == others[i - 1]
        }),
{
    assert((ts as i64) as u64 == ts) by (bit_vector);
    let drop = |r: StoredRow|
        !(r.kind == Some("image"@) && r.img_w == Some(w) && r.img_h == Some(h) && r.img_hash
            == Some(hash as i64));
    let keep = |r: StoredRow| !stores_image(r, w, h, hash as i64);
    assert(keep =~= drop);
    assert(without_image(t, w, h, hash as i64) == t.filter(drop));
}

/// `append_image` is skipped exactly where the PNG is empty or has more bytes
/// than the limit, or where the newest row is an image of these dimensions and
/// this hash.
pub proof fn images_are_skipped_by_size_and_newest_row(
    t: Seq<StoredRow>,
    png: Seq<u8>,
    w: u32,
    h: u32,
    hash: u64,
    max_bytes: nat,
)
    ensures
        !accepts_image(t, png, w, h, hash, max_bytes) <==> png.len() == 0 || png.len() > max_bytes
            || (t.len() > 0 && t[0].kind == Some("image"@) && t[0].img_w == Some(w) && t[0].img_h
            == Some(h) && t[0].img_hash == Some(hash as i64)),
{
}

/// An import copies one text after the other: its last entry is appended to
/// what the others leave.
pub proof fn imports_append_one_by_one(
    store: HistoryStore,
    copies: Seq<(u64, Seq<char>)>,
    last: (u64, Seq<char>),
    t: Seq<StoredRow>,
    u: Seq<StoredRow>,
    v: Seq<StoredRow>,
)
    requires
        texts_stored(store, copies, t, u),
        texts_stored(store, copies.push(last), t, v),
        copies.len() < i64::MAX,
        t.len() > 0 ==> t[0].id + copies.len() + 1 <= i64::MAX,
        t.len() == 0 || t[0].id < i64::MAX,
    ensures
        copies.len() == 0 ==> u == t,
        text_stored(
            store,
            last.1,
            last.0,
            accepts_text(u, last.1, store.max_entry_bytes as nat),
            u,
            v,
        ),
{
    assert(copies.push(last).drop_last() =~= copies);
    assert(has_room_for(t, copies.push(last).len()));
    assert(has_room_for(t, copies.len()));
}

/// A delete takes away the rows with that id, and no others.
pub proof fn rows_after_delete(t: Seq<StoredRow>, id: i64)
    ensures
        without_row(t, id) == t.filter(|r: StoredRow| r.id != id),
        forall|r: StoredRow| #[trigger]
            without_row(t, id).contains(r) <==> t.contains(r) && r.id != id,
{
    let keep = |r: StoredRow| r.id != id;
    let left = t.filter(keep);
    assert forall|r: StoredRow| #[trigger] left.contains(r) <==> t.contains(r) && r.id != id by {
        if left.contains(r) {
            t.lemma_filter_contains_rev(keep, r);
            let i = choose|i: int| 0 <= i < left.len() && left[i] == r;
            t.lemma_filter_pred(keep, i);
        }
        if t.contains(r) && r.id != id {
            let i = choose|i: int| 0 <= i < t.len() && t[i] == r;
            t.lemma_filter_contains(keep, i);
        }
    }
}

/// What is read of a row is what stands in it: a text row gives its text, any
/// other its dimensions and the length of its bytes; the id and the time come
/// along. A row that lacks one of these is not listed.
pub proof fn a_row_is_listed_as_it_stands(r: StoredRow)
    ensures
        entry_of(r) matches Some(e) ==> e.id == r.id && (r.ts matches Some(ts) && e.ts == ts as u64)
            && r.kind is Some,
        entry_of(r) matches Some(e) ==> r.kind == Some("text"@) ==> (e.content matches
            ContentView::Text(text) && r.text == Some(text)),
        entry_of(r) matches Some(e) ==> r.kind != Some("text"@) ==> (e.content matches
            ContentView::Image { w, h, bytes } && r.img_w == Some(w) && r.img_h == Some(h) && (
        r.img_len matches Some(len) && bytes == len as usize)),
        r.ts is Some && r.kind == Some("text"@) && r.text is Some ==> entry_of(r) is Some,
        r.ts is Some && r.kind is Some && r.kind != Some("text"@) && r.img_w is Some && r.img_h
            is Some && r.img_len is Some ==> entry_of(r) is Some,
{
}

/// A listing shows one row after the other.
pub proof fn listings_go_row_by_row(t: Seq<StoredRow>, r: StoredRow)
    ensures
        entries_of(Seq::<StoredRow>::empty()).len() == 0,
        entries_of(t.push(r)) == (match entry_of(r) {
            Some(e) => entries_of(t).push(e),
            None => entries_of(t),
        }),
{
    reveal(Seq::filter_map);
    assert(t.push(r).drop_last() =~= t);
    assert(entries_of(t.push(r)) =~= (match entry_of(r) {
        Some(e) => entries_of(t).push(e),
        None => entries_of(t),
    }));
}

/// The newest text is the text of the first entry that is one: everything
/// before it is an image.
pub proof fn newest_text_is_the_first_text(entries: Seq<EntryView>)
    ensures
        newest_text_in(entries) is None ==> forall|i: int|
            0 <= i < entries.len() ==> (#[trigger] entries[i]).content is Image,
        newest_text_in(entries) matches Some(text) ==> exists|i: int|
            0 <= i < entries.len() && (#[trigger] entries[i]).content == ContentView::Text(text) && (
            forall|j: int| 0 <= j < i ==> (#[trigger] entries[j]).content is Image),
    decreases entries.len(),
{
    if entries.len() > 0 {
        if entries[0].content is Image {
            let rest = entries.skip(1);
            newest_text_is_the_first_text(rest);
            match newest_text_in(entries) {
                None => {
                    assert forall|i: int| 0 <= i < entries.len() implies (
                    #[trigger] entries[i]).content is Image by {
                        if i > 0 {
                            assert(rest[i - 1] == entries[i]);
                        }
                    }
                },
                Some(text) => {
                    let k = choose|k: int|
                        0 <= k < rest.len() && (#[trigger] rest[k]).content == ContentView::Text(
                            text,
                        ) && (forall|j: int| 0 <= j < k ==> (#[trigger] rest[j]).content is Image);
                    assert(entries[k + 1] == rest[k]);
                    assert forall|j: int| 0 <= j < k + 1 implies (
                    #[trigger] entries[j]).content is Image by {
                        if j > 0 {
                            assert(rest[j - 1] == entries[j]);
                        }
                    }
                },
            }
        } else {
            assert(entries[0].content == ContentView::Text(newest_text_in(entries).unwrap()));
        }
    }
}

/// The bytes of an id are those of the row that has it.
pub proof fn bytes_are_those_of_the_row(t: Seq<StoredRow>, id: i64, i: int)
    requires
        forall|a: int, b: int|
            0 <= a < b < t.len() ==> (#[trigger] t[a]).id > (#[trigger] t[b]).id,
    ensures
        0 <= i < t.len() && t[i].id == id ==> image_of(t, id) == t[i].img,
        (forall|j: int| 0 <= j < t.len() ==> (#[trigger] t[j]).id != id) ==> image_of(t, id)
            is None,
{
    if 0 <= i < t.len() && t[i].id == id {
        let k = choose|k: int| 0 <= k < t.len() && (#[trigger] t[k]).id == id;
        assert(k == i);
    }
}

/// Newest first means descending ids.
pub proof fn newest_first_is_by_id(t: Seq<StoredRow>)
    ensures
        newest_first(t) <==> forall|i: int, j: int|
            0 <= i < j < t.len() ==> (#[trigger] t[i]).id > (#[trigger] t[j]).id,
{
}

/// A write is one commit, by a transaction that kept other writers out and
/// found what the database held, on a store that is otherwise the same.
pub proof fn a_write_is_one_commit(
    a: HistoryStore,
    b: HistoryStore,
    before: Seq<StoredRow>,
    after: Seq<StoredRow>,
)
    ensures
        wrote(a, b, before, after) ==> {
            &&& found(a.db, before)
            &&& committed(a.db, before, after)
            &&& forall|i: int, j: int|
                0 <= i < j < before.len() ==> (#[trigger] before[i]).id > (#[trigger] before[j]).id
            &&& b.log.events().len() == a.log.events().len() + 1
            &&& a.log.events().is_prefix_of(b.log.events())
            &&& b.log.events().last() == (WriteEvent::Committed {
                before,
                after,
                write_locked: true,
            })
            &&& b.db == a.db && b.max_entries == a.max_entries && b.max_entry_bytes
                == a.max_entry_bytes && b.max_image_bytes == a.max_image_bytes
        },
        wrote_and_reclaimed(a, b, before, after) ==> {
            let n = a.log.events().len() as int;
            &&& found(a.db, before)
            &&& committed(a.db, before, after)
            &&& forall|i: int, j: int|
                0 <= i < j < before.len() ==> (#[trigger] before[i]).id > (#[trigger] before[j]).id
            &&& b.log.events().len() == n + 2
            &&& a.log.events().is_prefix_of(b.log.events())
            &&& b.log.events()[n] == (WriteEvent::Committed { before, after, write_locked: true })
            &&& b.log.events()[n + 1] matches WriteEvent::Vacuumed { steps } && reclaim_tried(
                a.db,
                steps,
            )
            &&& b.db == a.db && b.max_entries == a.max_entries && b.max_entry_bytes
                == a.max_entry_bytes && b.max_image_bytes == a.max_image_bytes
        },
{
}

/// A listing falls short only where SQLite gave an error.
pub proof fn listings_fall_short_only_by_errors(db: Database, t: Seq<StoredRow>, n: int)
    ensures
        has_refused(db) <==> exists|e: rusqlite::Error| refused(db, e),
        broke_off(db, t, n) <==> exists|e: rusqlite::Error| listing_refused(db, t, n, e),
{
}

/// A connection is set up for the store in this order: the lock and the waiting
/// time, then the vacuum mode, which the switch to WAL fixes, then that switch,
/// then the table.
pub proof fn the_setup_is_in_order(conn: rusqlite::Connection, c: rusqlite::Connection, k: int)
    ensures
        store_setup().len() == 5,
        store_setup()[0] == Setup::Immediate,
        store_setup()[1] == Setup::BusyTimeout(5),
        store_setup()[2] == Setup::Pragma("auto_vacuum"@, "INCREMENTAL"@),
        store_setup()[3] == Setup::Pragma("journal_mode"@, "WAL"@),
        store_setup()[4] == Setup::Batch(SCHEMA@),
        SCHEMA@ == "CREATE TABLE IF NOT EXISTS entries (
    id       INTEGER PRIMARY KEY,
    ts       INTEGER NOT NULL,
    kind     TEXT NOT NULL,
    text     TEXT,
    img      BLOB,
    img_w    INTEGER,
    img_h    INTEGER,
    img_hash INTEGER,
    CHECK (
        (kind = 'text' AND text IS NOT NULL AND img IS NULL)
        OR (kind = 'image' AND img IS NOT NULL AND img_hash IS NOT NULL AND text IS NULL)
    )
);"@,
        setup_reached(conn, c, k) ==> 1 <= k < 5 && setup_of(c).len() == setup_of(conn).len() + k
            && setup_of(conn).is_prefix_of(setup_of(c)) && forall|i: int|
            0 <= i < k ==> #[trigger] setup_of(c)[setup_of(conn).len() + i] == store_setup()[i],
{
}

/// The mathematical value of an entry shows all of it.
pub proof fn entry_views_show_everything(e: Entry, entries: Seq<LegacyEntry>, i: int)
    ensures
        e@.id == e.id,
        e@.ts == e.ts,
        e.content matches Content::Text(t) ==> e@.content == ContentView::Text(t@),
        e.content matches Content::Image { w, h, bytes } ==> e@.content == (ContentView::Image {
            w,
            h,
            bytes,
        }),
        legacy_views(entries).len() == entries.len(),
        0 <= i < entries.len() ==> legacy_views(entries)[i] == (entries[i].ts, entries[i].text@),
{
}

/// Optional texts and bytes have the values of what they hold.
pub proof fn optional_views(text: String, bytes: Vec<u8>)
    ensures
        opt_text(Some(text)) == Some(text@),
        opt_text(None) is None,
        opt_bytes(Some(bytes)) == Some(bytes@),
        opt_bytes(None) is None,
{
}

/// Of copies of which none fits, each is empty or longer than the limit, and
/// only then does none fit.
pub proof fn what_does_not_fit_is_empty_or_too_long(copies: Seq<(u64, Seq<char>)>, max_bytes: nat)
    ensures
        none_fits(copies, max_bytes) <==> forall|i: int|
            0 <= i < copies.len() ==> (#[trigger] copies[i]).1.len() == 0 || encode_utf8(
                copies[i].1,
            ).len() > max_bytes,
{
}

/// A fetched row has the columns of the row that it was fetched from, and where
/// none was fetched nothing is listed.
pub proof fn fetched_columns_are_those_of_the_row(f: FetchedRow, r: StoredRow, e: rusqlite::Error)
    ensures
        fetched(f, r) ==> entry_of(row_of(f)) == entry_of(r),
        fetched(f, r) ==> entry_of_fetched(Ok(f)) == entry_of(r),
        entry_of_fetched(Err(e)) is None,
        row_of(f).id == f.id,
        row_of(f).ts == f.ts,
        row_of(f).kind == opt_text(f.kind),
        row_of(f).text == opt_text(f.text),
        row_of(f).img_w == f.img_w,
        row_of(f).img_h == f.img_h,
        row_of(f).img_len == f.img_len,
{
}

} // verus!
