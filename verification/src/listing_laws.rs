//! What a listing of the history shows after a copy, given what it showed
//! before: the later transaction finds the rows that the earlier one left.
use vstd::prelude::*;

use crate::history::{image_stored, text_stored, ContentView, EntryView, HistoryStore};
use crate::history_laws::{copied_image_is_read_back_first, history_stays_newest_first};
use crate::sqlite::{found, WriteEvent};
use crate::table::{
    accepts_image, after_text, after_texts, capped, entries_of, entry_of, fits_as_text, has_room,
    image_of, image_row, newest_first, next_id, row_limit, row_with, stores_image, stores_text,
    text_row, with_image, without_image, without_row, without_text, StoredRow,
};

verus! {

/// The row is one that the store may have written: a text, or an image with
/// its dimensions and bytes.
pub open spec fn is_written(r: StoredRow) -> bool {
    r.ts is Some && {
        ||| r.kind == Some("text"@) && r.text is Some && r.img is None
        ||| r.kind == Some("image"@) && r.img is Some && r.img_w is Some && r.img_h is Some
            && r.img_len is Some
    }
}

/// All rows are such that the store may have written them.
pub open spec fn all_written(t: Seq<StoredRow>) -> bool {
    forall|i: int| 0 <= i < t.len() ==> is_written(#[trigger] t[i])
}

/// The first `max` entries.
pub open spec fn cut(entries: Seq<EntryView>, max: nat) -> Seq<EntryView> {
    if entries.len() > max {
        entries.take(max as int)
    } else {
        entries
    }
}

/// Whether the entry is listed for a row of `t` that stores an image with these
/// dimensions and this hash.
pub open spec fn lists_image(
    t: Seq<StoredRow>,
    e: EntryView,
    w: u32,
    h: u32,
    hash: u64,
) -> bool {
    row_with(t, e.id) matches Some(r) && stores_image(r, w, h, hash as i64)
}

proof fn kinds_differ()
    ensures
        "text"@ != "image"@,
{
    reveal_strlit("text");
    reveal_strlit("image");
    assert("text"@.len() != "image"@.len());
}

/// A written row is listed: a text with its text, an image as an image.
proof fn written_row_reads(r: StoredRow)
    requires
        is_written(r),
    ensures
        entry_of(r) matches Some(e) && e.id == r.id && (e.content is Image <==> r.img is Some) && (
        e.content is Text <==> r.kind == Some("text"@)),
        forall|text: Seq<char>| #[trigger]
            stores_text(r, text) <==> entry_of(r).unwrap().content == ContentView::Text(text),
{
    kinds_differ();
}

/// Written rows are listed one by one.
proof fn written_rows_read(t: Seq<StoredRow>)
    requires
        all_written(t),
    ensures
        entries_of(t).len() == t.len(),
        forall|i: int|
            0 <= i < t.len() ==> #[trigger] entries_of(t)[i] == entry_of(t[i]).unwrap()
                && entries_of(t)[i].id == t[i].id,
    decreases t.len(),
{
    reveal(Seq::filter_map);
    if t.len() > 0 {
        let front = t.drop_last();
        assert forall|i: int| 0 <= i < front.len() implies is_written(#[trigger] front[i]) by {
            assert(front[i] == t[i]);
        }
        written_rows_read(front);
        assert(is_written(t[t.len() - 1]));
        written_row_reads(t.last());
        assert(entries_of(t) =~= entries_of(front).push(entry_of(t.last()).unwrap()));
        assert forall|i: int| 0 <= i < t.len() implies #[trigger] entries_of(t)[i] == entry_of(
            t[i],
        ).unwrap() && entries_of(t)[i].id == t[i].id by {
            if i < front.len() {
                assert(entries_of(front)[i] == entry_of(front[i]).unwrap());
            }
        }
    }
}

/// Dropping rows drops their entries from the listing.
proof fn listing_of_filtered(
    t: Seq<StoredRow>,
    keep: spec_fn(StoredRow) -> bool,
    keep_entry: spec_fn(EntryView) -> bool,
)
    requires
        all_written(t),
        forall|i: int|
            0 <= i < t.len() ==> keep(#[trigger] t[i]) == keep_entry(entry_of(t[i]).unwrap()),
    ensures
        entries_of(t.filter(keep)) == entries_of(t).filter(keep_entry),
        all_written(t.filter(keep)),
    decreases t.len(),
{
    reveal(Seq::filter_map);
    reveal(Seq::filter);
    if t.len() == 0 {
        assert(entries_of(t.filter(keep)) =~= entries_of(t).filter(keep_entry));
    } else {
        let front = t.drop_last();
        assert forall|i: int| 0 <= i < front.len() implies is_written(#[trigger] front[i]) && keep(
            front[i],
        ) == keep_entry(entry_of(front[i]).unwrap()) by {
            assert(front[i] == t[i]);
        }
        listing_of_filtered(front, keep, keep_entry);
        let last = t[t.len() - 1];
        assert(is_written(last));
        written_row_reads(last);
        let e = entry_of(last).unwrap();
        assert(entries_of(t) =~= entries_of(front).push(e));
        assert(entries_of(t).drop_last() =~= entries_of(front));
        if keep(last) {
            assert(t.filter(keep) == front.filter(keep).push(last));
            assert(front.filter(keep).push(last).drop_last() =~= front.filter(keep));
            assert(entries_of(t.filter(keep)) =~= entries_of(front.filter(keep)).push(e));
            assert forall|i: int| 0 <= i < t.filter(keep).len() implies is_written(
                #[trigger] t.filter(keep)[i],
            ) by {
                if i < front.filter(keep).len() {
                    assert(is_written(front.filter(keep)[i]));
                }
            }
        }
    }
}

/// Cutting the rows cuts the listing.
proof fn listing_of_capped(t: Seq<StoredRow>, max: nat)
    requires
        all_written(t),
    ensures
        entries_of(capped(t, max)) == cut(entries_of(t), max),
        all_written(capped(t, max)),
{
    let c = capped(t, max);
    assert forall|i: int| 0 <= i < c.len() implies is_written(#[trigger] c[i]) by {
        assert(c[i] == t[i]);
    }
    written_rows_read(t);
    written_rows_read(c);
    assert forall|i: int| 0 <= i < c.len() implies #[trigger] entries_of(c)[i] == cut(
        entries_of(t),
        max,
    )[i] by {
        assert(entries_of(t)[i] == entry_of(t[i]).unwrap());
    }
    assert(entries_of(c) =~= cut(entries_of(t), max));
}

/// A row in front is listed in front.
proof fn listing_of_front(r: StoredRow, rest: Seq<StoredRow>)
    requires
        is_written(r),
        all_written(rest),
    ensures
        all_written(seq![r] + rest),
        entries_of(seq![r] + rest) == seq![entry_of(r).unwrap()] + entries_of(rest),
{
    let all = seq![r] + rest;
    assert forall|i: int| 0 <= i < all.len() implies is_written(#[trigger] all[i]) by {
        if i > 0 {
            assert(all[i] == rest[i - 1]);
        }
    }
    written_rows_read(all);
    written_rows_read(rest);
    assert forall|i: int| 0 <= i < all.len() implies #[trigger] entries_of(all)[i] == (seq![
        entry_of(r).unwrap(),
    ] + entries_of(rest))[i] by {
        if i > 0 {
            assert(all[i] == rest[i - 1]);
            assert(entries_of(rest)[i - 1] == entry_of(rest[i - 1]).unwrap());
        }
    }
    assert(entries_of(all) =~= seq![entry_of(r).unwrap()] + entries_of(rest));
}

/// The listing after a text was copied, in terms of the listing before: the
/// same where the copy is skipped; else the text first, then what was listed
/// without that text, cut to the limit.
pub proof fn listing_after_text(
    t: Seq<StoredRow>,
    text: Seq<char>,
    ts: u64,
    max: nat,
    max_bytes: nat,
)
    requires
        all_written(t),
    ensures
        ({
            let listed = entries_of(t);
            let after = entries_of(after_text(t, text, ts, max, max_bytes));
            let skipped = !fits_as_text(text, max_bytes) || (listed.len() > 0 && listed[0].content
                == ContentView::Text(text));
            after == (if skipped {
                listed
            } else {
                cut(
                    seq![EntryView { id: next_id(t), ts, content: ContentView::Text(text) }]
                        + listed.filter(|e: EntryView| e.content != ContentView::Text(text)),
                    max,
                )
            })
        }),
        all_written(after_text(t, text, ts, max, max_bytes)),
{
    assert((ts as i64) as u64 == ts) by (bit_vector);
    written_rows_read(t);
    if t.len() > 0 {
        assert(is_written(t[0]));
        written_row_reads(t[0]);
        assert(entries_of(t)[0] == entry_of(t[0]).unwrap());
        assert(stores_text(t[0], text) <==> entries_of(t)[0].content == ContentView::Text(text));
    }
    let keep = |r: StoredRow| !stores_text(r, text);
    let keep_entry = |e: EntryView| e.content != ContentView::Text(text);
    assert forall|i: int| 0 <= i < t.len() implies keep(#[trigger] t[i]) == keep_entry(
        entry_of(t[i]).unwrap(),
    ) by {
        assert(is_written(t[i]));
        written_row_reads(t[i]);
    }
    listing_of_filtered(t, keep, keep_entry);
    let row = text_row(next_id(t), ts as i64, text);
    listing_of_front(row, without_text(t, text));
    listing_of_capped(seq![row] + without_text(t, text), max);
}

/// The row of an id is the one that has it.
proof fn row_is_found(t: Seq<StoredRow>, i: int)
    requires
        newest_first(t),
        0 <= i < t.len(),
    ensures
        row_with(t, t[i].id) == Some(t[i]),
{
    let j = choose|j: int| 0 <= j < t.len() && (#[trigger] t[j]).id == t[i].id;
    assert(j == i);
}

/// The listing after an image was stored: the image first, then what was listed
/// without the entries of the same pixels, cut to the limit.
pub proof fn listing_after_image(
    t: Seq<StoredRow>,
    png: Seq<u8>,
    w: u32,
    h: u32,
    hash: u64,
    ts: u64,
    max: nat,
)
    requires
        newest_first(t),
        all_written(t),
        png.len() <= i64::MAX,
        png.len() <= usize::MAX,
    ensures
        entries_of(with_image(t, png, w, h, hash, ts, max)) == cut(
            seq![
                EntryView {
                    id: next_id(t),
                    ts,
                    content: ContentView::Image { w, h, bytes: png.len() as usize },
                },
            ] + entries_of(t).filter(|e: EntryView| !lists_image(t, e, w, h, hash)),
            max,
        ),
        all_written(with_image(t, png, w, h, hash, ts, max)),
{
    kinds_differ();
    assert((ts as i64) as u64 == ts) by (bit_vector);
    let keep = |r: StoredRow| !stores_image(r, w, h, hash as i64);
    let keep_entry = |e: EntryView| !lists_image(t, e, w, h, hash);
    assert forall|i: int| 0 <= i < t.len() implies keep(#[trigger] t[i]) == keep_entry(
        entry_of(t[i]).unwrap(),
    ) by {
        assert(is_written(t[i]));
        written_row_reads(t[i]);
        row_is_found(t, i);
    }
    listing_of_filtered(t, keep, keep_entry);
    let row = image_row(next_id(t), ts as i64, png, w, h, hash as i64);
    listing_of_front(row, without_image(t, w, h, hash as i64));
    listing_of_capped(seq![row] + without_image(t, w, h, hash as i64), max);
}

/// The listing after a delete is the one before without that entry.
pub proof fn listing_after_delete(t: Seq<StoredRow>, id: i64)
    requires
        all_written(t),
    ensures
        entries_of(without_row(t, id)) == entries_of(t).filter(|e: EntryView| e.id != id),
        all_written(without_row(t, id)),
{
    let keep = |r: StoredRow| r.id != id;
    let keep_entry = |e: EntryView| e.id != id;
    assert forall|i: int| 0 <= i < t.len() implies keep(#[trigger] t[i]) == keep_entry(
        entry_of(t[i]).unwrap(),
    ) by {
        assert(is_written(t[i]));
        written_row_reads(t[i]);
    }
    listing_of_filtered(t, keep, keep_entry);
}

/// An import leaves rows that are written as the store writes them.
pub proof fn imported_rows_are_written(
    t: Seq<StoredRow>,
    copies: Seq<(u64, Seq<char>)>,
    max: nat,
    max_bytes: nat,
)
    requires
        all_written(t),
    ensures
        all_written(after_texts(t, copies, max, max_bytes)),
    decreases copies.len(),
{
    if copies.len() > 0 {
        imported_rows_are_written(t, copies.drop_last(), max, max_bytes);
        listing_after_text(
            after_texts(t, copies.drop_last(), max, max_bytes),
            copies.last().1,
            copies.last().0,
            max,
            max_bytes,
        );
    }
}

/// `append_text` between two listings. It answers false exactly where the text
/// is empty, too long, or what is listed first, and the listing is then the
/// same. Else the text is listed first, under an id above all others and with
/// its time, the other entries follow as they were, without that text, and the
/// oldest are cut off at the limit.
pub proof fn append_text_between_listings(
    store: HistoryStore,
    text: Seq<char>,
    ts: u64,
    appended: bool,
    t: Seq<StoredRow>,
    u: Seq<StoredRow>,
)
    requires
        text_stored(store, text, ts, appended, t, u),
        newest_first(t),
        all_written(t),
        has_room(t),
        store.max_entries > 0,
    ensures
        ({
            let before = entries_of(t);
            let after = entries_of(u);
            let others = before.filter(|e: EntryView| e.content != ContentView::Text(text));
            &&& !appended <==> text.len() == 0 || vstd::utf8::encode_utf8(text).len()
                > store.max_entry_bytes || (before.len() > 0 && before[0].content
                == ContentView::Text(text))
            &&& !appended ==> after == before
            &&& appended ==> {
                &&& after.len() > 0
                &&& after.len() <= store.max_entries
                &&& after[0] == (EntryView {
                    id: next_id(t),
                    ts,
                    content: ContentView::Text(text),
                })
                &&& after.skip(1) == cut(others, (row_limit(store.max_entries) - 1) as nat)
                &&& store.max_entries <= i64::MAX ==> after.len() == (if 1 + others.len()
                    <= store.max_entries {
                    1 + others.len()
                } else {
                    store.max_entries as nat
                })
                &&& forall|i: int|
                    1 <= i < after.len() ==> 0 <= i - 1 < others.len() && #[trigger] after[i]
                        == others[i - 1]
                &&& forall|i: int| 0 <= i < before.len() ==> after[0].id > (#[trigger] before[i]).id
                &&& forall|i: int|
                    1 <= i < after.len() ==> (#[trigger] after[i]).content != ContentView::Text(
                        text,
                    )
            }
        }),
        newest_first(u),
        all_written(u),
{
    let max = row_limit(store.max_entries);
    let before = entries_of(t);
    let after = entries_of(u);
    let keep = |e: EntryView| e.content != ContentView::Text(text);
    let others = before.filter(keep);
    listing_after_text(t, text, ts, max, store.max_entry_bytes as nat);
    written_rows_read(t);
    if t.len() > 0 {
        assert(is_written(t[0]));
        written_row_reads(t[0]);
        assert(before[0] == entry_of(t[0]).unwrap());
        assert(stores_text(t[0], text) <==> before[0].content == ContentView::Text(text));
    }
    history_stays_newest_first(t, text, Seq::empty(), 0, 0, 0, ts, 0, max);
    if appended {
        assert(after.skip(1) =~= cut(others, (max - 1) as nat));
        assert forall|i: int| 0 <= i < before.len() implies after[0].id > (
        #[trigger] before[i]).id by {
            assert(before[i].id == t[i].id);
            assert(t[0].id >= t[i].id);
        }
        assert forall|i: int| 1 <= i < after.len() implies (#[trigger] after[i]).content
            != ContentView::Text(text) by {
            assert(after[i] == others[i - 1]);
            before.lemma_filter_pred(keep, i - 1);
        }
    }
}

/// `append_image` between two listings, where it answers true: the image is
/// listed first, with its time, the other entries follow as they were, without
/// those of the same pixels, and the oldest are cut off at the limit. Under the
/// id that is listed for it, the bytes are found again.
pub proof fn append_image_between_listings(
    store: HistoryStore,
    png: Seq<u8>,
    w: u32,
    h: u32,
    hash: u64,
    ts: u64,
    t: Seq<StoredRow>,
    u: Seq<StoredRow>,
)
    requires
        image_stored(store, png, w, h, hash, ts, t, u),
        newest_first(t),
        all_written(t),
        has_room(t),
        store.max_entries > 0,
        png.len() <= i64::MAX,
    ensures
        ({
            let before = entries_of(t);
            let after = entries_of(u);
            let others = before.filter(|e: EntryView| !lists_image(t, e, w, h, hash));
            &&& after.len() > 0
            &&& after.len() <= store.max_entries
            &&& after[0] == (EntryView {
                id: next_id(t),
                ts,
                content: ContentView::Image { w, h, bytes: png.len() as usize },
            })
            &&& after.skip(1) == cut(others, (row_limit(store.max_entries) - 1) as nat)
            &&& store.max_entries <= i64::MAX ==> after.len() == (if 1 + others.len()
                <= store.max_entries {
                1 + others.len()
            } else {
                store.max_entries as nat
            })
            &&& forall|i: int|
                1 <= i < after.len() ==> 0 <= i - 1 < others.len() && #[trigger] after[i]
                    == others[i - 1]
            &&& forall|i: int|
                0 <= i < entries_of(t).len() ==> after[0].id > (#[trigger] entries_of(t)[i]).id
            &&& image_of(u, after[0].id) == Some(png)
        }),
        newest_first(u),
        all_written(u),
{
    let max = row_limit(store.max_entries);
    let others = entries_of(t).filter(|e: EntryView| !lists_image(t, e, w, h, hash));
    listing_after_image(t, png, w, h, hash, ts, max);
    copied_image_is_read_back_first(t, png, w, h, hash, ts, max);
    history_stays_newest_first(t, Seq::empty(), png, w, h, hash, ts, 0, max);
    assert(entries_of(u).skip(1) =~= cut(others, (max - 1) as nat));
    written_rows_read(t);
    assert forall|i: int| 0 <= i < entries_of(t).len() implies entries_of(u)[0].id > (
    #[trigger] entries_of(t)[i]).id by {
        assert(entries_of(t)[i].id == t[i].id);
        assert(t[0].id >= t[i].id);
    }
}

/// `append_image` answers false exactly where the PNG is empty, too large, or
/// of the pixels of the entry that is listed first. It writes nothing then.
pub proof fn append_image_is_skipped_by_the_listing(
    t: Seq<StoredRow>,
    png: Seq<u8>,
    w: u32,
    h: u32,
    hash: u64,
    max_bytes: nat,
)
    requires
        newest_first(t),
        all_written(t),
    ensures
        !accepts_image(t, png, w, h, hash, max_bytes) <==> png.len() == 0 || png.len() > max_bytes
            || (entries_of(t).len() > 0 && lists_image(t, entries_of(t)[0], w, h, hash)),
{
    written_rows_read(t);
    if t.len() > 0 {
        assert(entries_of(t)[0].id == t[0].id);
        row_is_found(t, 0);
    }
}

/// `get_image` between listings: an id has no bytes exactly where it is listed
/// for no entry, or for a text.
pub proof fn get_image_gives_what_is_listed_as_image(t: Seq<StoredRow>, id: i64)
    requires
        newest_first(t),
        all_written(t),
    ensures
        image_of(t, id) is None <==> forall|i: int|
            0 <= i < entries_of(t).len() && (#[trigger] entries_of(t)[i]).id == id
                ==> entries_of(t)[i].content is Text,
{
    let listed = entries_of(t);
    written_rows_read(t);
    if image_of(t, id) is Some {
        let j = choose|j: int| 0 <= j < t.len() && (#[trigger] t[j]).id == id;
        assert(is_written(t[j]));
        written_row_reads(t[j]);
        assert(listed[j] == entry_of(t[j]).unwrap());
        assert(listed[j].id == id && listed[j].content is Image);
    } else {
        assert forall|i: int| 0 <= i < listed.len() && (#[trigger] listed[i]).id
            == id implies listed[i].content is Text by {
            assert(listed[i].id == t[i].id);
            row_is_found(t, i);
            assert(is_written(t[i]));
            written_row_reads(t[i]);
        }
    }
}

/// A history survives reopening: what a store that was just opened lists is
/// what was listed before, whatever its limits, since opening commits nothing.
pub proof fn a_reopened_store_lists_the_same(
    closed_store: HistoryStore,
    opened: HistoryStore,
    t: Seq<StoredRow>,
    listed: Seq<EntryView>,
    listed_again: Seq<EntryView>,
)
    requires
        found(closed_store.db, t),
        found(opened.db, t),
        opened.log.events() == Seq::<WriteEvent>::empty(),
        listed == entries_of(t.take(t.len() as int)),
        listed_again == entries_of(t.take(t.len() as int)),
    ensures
        listed_again == listed,
        listed == entries_of(t),
        all_written(t) ==> listed.len() == t.len(),
        forall|i: int|
            0 <= i < opened.log.events().len() ==> !(#[trigger] opened.log.events()[i] is Committed),
{
    assert(t.take(t.len() as int) =~= t);
    if all_written(t) {
        written_rows_read(t);
    }
}

} // verus!
