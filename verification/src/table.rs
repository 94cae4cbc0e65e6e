//! The `entries` table as a mathematical value, and what the store's
//! operations make of it.
use vstd::prelude::*;
use vstd::utf8::encode_utf8;

use crate::history::{ContentView, EntryView};

verus! {

/// One row of the `entries` table. A column is `None` where its cell does not
/// read as the type given here (most often because it is NULL).
#[verifier::ext_equal]
pub struct StoredRow {
    pub id: i64,
    pub ts: Option<i64>,
    pub kind: Option<Seq<char>>,
    pub text: Option<Seq<char>>,
    pub img: Option<Seq<u8>>,
    /// The length that SQLite gives for the blob.
    pub img_len: Option<i64>,
    pub img_w: Option<u32>,
    pub img_h: Option<u32>,
    /// The integer that the cell equals.
    pub img_hash: Option<i64>,
}

/// Rows are listed by descending id, and no two share one.
pub open spec fn newest_first(t: Seq<StoredRow>) -> bool {
    forall|i: int, j: int| 0 <= i < j < t.len() ==> (#[trigger] t[i]).id > (#[trigger] t[j]).id
}

/// Whether `r` stores `text`.
pub open spec fn stores_text(r: StoredRow, text: Seq<char>) -> bool {
    r.kind == Some("text"@) && r.text == Some(text)
}

/// Whether `r` stores an image with these dimensions and this pixel hash.
pub open spec fn stores_image(r: StoredRow, w: u32, h: u32, hash: i64) -> bool {
    r.kind == Some("image"@) && r.img_w == Some(w) && r.img_h == Some(h) && r.img_hash == Some(
        hash,
    )
}

/// The row that stores `text`.
pub open spec fn text_row(id: i64, ts: i64, text: Seq<char>) -> StoredRow {
    StoredRow {
        id,
        ts: Some(ts),
        kind: Some("text"@),
        text: Some(text),
        img: None,
        img_len: None,
        img_w: None,
        img_h: None,
        img_hash: None,
    }
}

/// The row that stores the image `png`.
pub open spec fn image_row(
    id: i64,
    ts: i64,
    png: Seq<u8>,
    w: u32,
    h: u32,
    hash: i64,
) -> StoredRow {
    StoredRow {
        id,
        ts: Some(ts),
        kind: Some("image"@),
        text: None,
        img: Some(png),
        img_len: Some(png.len() as i64),
        img_w: Some(w),
        img_h: Some(h),
        img_hash: Some(hash),
    }
}

/// Whether there is an id above all that are in use.
pub open spec fn has_room(t: Seq<StoredRow>) -> bool {
    t.len() > 0 ==> t[0].id < i64::MAX
}

/// The id that a new row gets: one above the largest in use.
pub open spec fn next_id(t: Seq<StoredRow>) -> i64 {
    if t.len() == 0 {
        1
    } else {
        (t[0].id + 1) as i64
    }
}

/// How many rows a history limited to `max_entries` keeps. SQLite takes the
/// number of rows to skip as an `i64`, so a limit beyond that counts as the
/// largest one.
pub open spec fn row_limit(max_entries: usize) -> nat {
    if max_entries > i64::MAX {
        i64::MAX as nat
    } else {
        max_entries as nat
    }
}

/// The newest `max` rows of `t`.
pub open spec fn capped(t: Seq<StoredRow>, max: nat) -> Seq<StoredRow> {
    if t.len() > max {
        t.take(max as int)
    } else {
        t
    }
}

/// `t` without what stores `text`.
pub open spec fn without_text(t: Seq<StoredRow>, text: Seq<char>) -> Seq<StoredRow> {
    t.filter(|r: StoredRow| !stores_text(r, text))
}

/// `t` without what stores the same image.
pub open spec fn without_image(t: Seq<StoredRow>, w: u32, h: u32, hash: i64) -> Seq<StoredRow> {
    t.filter(|r: StoredRow| !stores_image(r, w, h, hash))
}

/// `t` without the row `id`.
pub open spec fn without_row(t: Seq<StoredRow>, id: i64) -> Seq<StoredRow> {
    t.filter(|r: StoredRow| r.id != id)
}

/// Whether a copied `text` is to be stored: it is not empty, not too long,
/// and not what the newest row already stores.
pub open spec fn accepts_text(t: Seq<StoredRow>, text: Seq<char>, max_bytes: nat) -> bool {
    &&& fits_as_text(text, max_bytes)
    &&& !(t.len() > 0 && stores_text(t[0], text))
}

/// Whether `text` is of a size that may be stored: the limit is on its bytes.
pub open spec fn fits_as_text(text: Seq<char>, max_bytes: nat) -> bool {
    text.len() > 0 && encode_utf8(text).len() <= max_bytes
}

/// `t` after `text` was stored as the newest entry at time `ts`.
pub open spec fn with_text(t: Seq<StoredRow>, text: Seq<char>, ts: u64, max: nat) -> Seq<
    StoredRow,
> {
    capped(seq![text_row(next_id(t), ts as i64, text)] + without_text(t, text), max)
}

/// `t` after `text` was copied at time `ts`: stored, or skipped.
pub open spec fn after_text(
    t: Seq<StoredRow>,
    text: Seq<char>,
    ts: u64,
    max: nat,
    max_bytes: nat,
) -> Seq<StoredRow> {
    if accepts_text(t, text, max_bytes) {
        with_text(t, text, ts, max)
    } else {
        t
    }
}

/// `t` after all of `copies`, each a time and a text, were copied in order.
pub open spec fn after_texts(
    t: Seq<StoredRow>,
    copies: Seq<(u64, Seq<char>)>,
    max: nat,
    max_bytes: nat,
) -> Seq<StoredRow>
    decreases copies.len(),
{
    if copies.len() == 0 {
        t
    } else {
        after_text(
            after_texts(t, copies.drop_last(), max, max_bytes),
            copies.last().1,
            copies.last().0,
            max,
            max_bytes,
        )
    }
}

/// Whether there are `n` ids above all that are in use.
pub open spec fn has_room_for(t: Seq<StoredRow>, n: nat) -> bool {
    n <= i64::MAX && (t.len() > 0 ==> t[0].id + n <= i64::MAX)
}

/// Whether a copied image is to be stored: it is not empty, not too large,
/// and its pixels are not those of the newest row.
pub open spec fn accepts_image(
    t: Seq<StoredRow>,
    png: Seq<u8>,
    w: u32,
    h: u32,
    hash: u64,
    max_bytes: nat,
) -> bool {
    &&& fits_as_image(png, max_bytes)
    &&& !(t.len() > 0 && stores_image(t[0], w, h, hash as i64))
}

/// Whether `png` is an image of a size that may be stored.
pub open spec fn fits_as_image(png: Seq<u8>, max_bytes: nat) -> bool {
    0 < png.len() <= max_bytes
}

/// `t` after the image was stored as the newest entry at time `ts`.
pub open spec fn with_image(
    t: Seq<StoredRow>,
    png: Seq<u8>,
    w: u32,
    h: u32,
    hash: u64,
    ts: u64,
    max: nat,
) -> Seq<StoredRow> {
    capped(
        seq![image_row(next_id(t), ts as i64, png, w, h, hash as i64)] + without_image(
            t,
            w,
            h,
            hash as i64,
        ),
        max,
    )
}

/// The row with this id, if there is one.
pub open spec fn row_with(t: Seq<StoredRow>, id: i64) -> Option<StoredRow> {
    if exists|i: int| 0 <= i < t.len() && (#[trigger] t[i]).id == id {
        Some(t[choose|i: int| 0 <= i < t.len() && (#[trigger] t[i]).id == id])
    } else {
        None
    }
}

/// The PNG bytes of the image entry `id`; none if the id is gone or no image.
pub open spec fn image_of(t: Seq<StoredRow>, id: i64) -> Option<Seq<u8>> {
    match row_with(t, id) {
        Some(r) => r.img,
        None => None,
    }
}

/// The entry that a row holds, if its columns read as one.
pub open spec fn entry_of(r: StoredRow) -> Option<EntryView> {
    if r.ts is None || r.kind is None {
        None
    } else if r.kind == Some("text"@) {
        match r.text {
            Some(text) => Some(
                EntryView { id: r.id, ts: r.ts.unwrap() as u64, content: ContentView::Text(text) },
            ),
            None => None,
        }
    } else {
        match (r.img_w, r.img_h, r.img_len) {
            (Some(w), Some(h), Some(len)) => Some(
                EntryView {
                    id: r.id,
                    ts: r.ts.unwrap() as u64,
                    content: ContentView::Image { w, h, bytes: len as usize },
                },
            ),
            _ => None,
        }
    }
}

/// The entries of the table, newest first. Rows that do not read as an entry
/// are left out.
pub open spec fn entries_of(t: Seq<StoredRow>) -> Seq<EntryView> {
    t.filter_map(|r: StoredRow| entry_of(r))
}

/// The newest text among `entries`.
pub open spec fn newest_text_in(entries: Seq<EntryView>) -> Option<Seq<char>>
    decreases entries.len(),
{
    if entries.len() == 0 {
        None
    } else {
        match entries[0].content {
            ContentView::Text(t) => Some(t),
            ContentView::Image { .. } => newest_text_in(entries.skip(1)),
        }
    }
}

/// A first row that is kept stays the first.
pub proof fn filter_keeps_first(t: Seq<StoredRow>, keep: spec_fn(StoredRow) -> bool)
    requires
        t.len() > 0,
        keep(t[0]),
    ensures
        t.filter(keep).len() > 0,
        t.filter(keep)[0] == t[0],
    decreases t.len(),
{
    reveal(Seq::filter);
    if t.len() > 1 {
        filter_keeps_first(t.drop_last(), keep);
    }
}

/// Filtering nothing leaves nothing.
pub proof fn filter_of_empty(t: Seq<StoredRow>, keep: spec_fn(StoredRow) -> bool)
    requires
        t.len() == 0,
    ensures
        t.filter(keep).len() == 0,
{
    reveal(Seq::filter);
}

/// Copying uses up at most one id per text.
pub proof fn room_after_texts(
    t: Seq<StoredRow>,
    copies: Seq<(u64, Seq<char>)>,
    max: nat,
    max_bytes: nat,
    n: nat,
)
    requires
        has_room_for(t, copies.len() + n),
    ensures
        has_room_for(after_texts(t, copies, max, max_bytes), n),
    decreases copies.len(),
{
    if copies.len() > 0 {
        room_after_texts(t, copies.drop_last(), max, max_bytes, n + 1);
    }
}

} // verus!
