//! What holds of the history whatever is copied into it.
use vstd::prelude::*;

use crate::history::{ContentView, EntryView};
use crate::table::{
    accepts_image, accepts_text, after_text, after_texts, capped, entries_of, entry_of,
    fits_as_text, has_room, image_of, newest_first, newest_text_in, next_id,
    row_with, stores_image, stores_text, text_row, image_row, with_image, with_text, without_image,
    without_row, without_text, StoredRow,
};

verus! {

/// No two rows store the same text, and no two the same image.
pub open spec fn no_duplicates(t: Seq<StoredRow>) -> bool {
    &&& forall|i: int, j: int, text: Seq<char>|
        0 <= i < j < t.len() && #[trigger] stores_text(t[i], text) ==> !(#[trigger] stores_text(
            t[j],
            text,
        ))
    &&& forall|i: int, j: int, w: u32, h: u32, hash: i64|
        0 <= i < j < t.len() && #[trigger] stores_image(t[i], w, h, hash) ==> !(
        #[trigger] stores_image(t[j], w, h, hash))
}

/// Without duplicates, two rows differ in their texts, and in the dimensions or
/// the hashes of their images.
pub proof fn rows_without_duplicates_differ(t: Seq<StoredRow>, i: int, j: int)
    requires
        no_duplicates(t),
        0 <= i < j < t.len(),
    ensures
        t[i].kind == Some("text"@) && t[j].kind == Some("text"@) && t[i].text is Some ==> t[i].text
            != t[j].text,
        t[i].kind == Some("image"@) && t[j].kind == Some("image"@) && t[i].img_w is Some
            && t[i].img_h is Some && t[i].img_hash is Some ==> t[i].img_w != t[j].img_w
            || t[i].img_h != t[j].img_h || t[i].img_hash != t[j].img_hash,
{
    if t[i].text is Some && t[i].text == t[j].text {
        let text = t[i].text.unwrap();
        assert(t[i].kind == Some("text"@) ==> stores_text(t[i], text));
        assert(t[j].kind == Some("text"@) ==> stores_text(t[j], text));
    }
    if t[i].img_w is Some && t[i].img_h is Some && t[i].img_hash is Some && t[i].img_w
        == t[j].img_w && t[i].img_h == t[j].img_h && t[i].img_hash == t[j].img_hash {
        let (w, h, hash) = (t[i].img_w.unwrap(), t[i].img_h.unwrap(), t[i].img_hash.unwrap());
        assert(t[i].kind == Some("image"@) ==> stores_image(t[i], w, h, hash));
        assert(t[j].kind == Some("image"@) ==> stores_image(t[j], w, h, hash));
    }
}

/// A filtered list has the rows that are kept, in the order they had.
proof fn filter_keeps_order(t: Seq<StoredRow>, keep: spec_fn(StoredRow) -> bool) -> (at: Seq<int>)
    ensures
        at.len() == t.filter(keep).len(),
        forall|i: int|
            0 <= i < at.len() ==> 0 <= #[trigger] at[i] < t.len() && t.filter(keep)[i] == t[at[i]]
                && keep(t[at[i]]),
        forall|i: int, j: int| 0 <= i < j < at.len() ==> #[trigger] at[i] < #[trigger] at[j],
    decreases t.len(),
{
    reveal(Seq::filter);
    if t.len() == 0 {
        Seq::empty()
    } else {
        let front = filter_keeps_order(t.drop_last(), keep);
        if keep(t.last()) {
            front.push(t.len() - 1)
        } else {
            front
        }
    }
}

proof fn newest_first_is_kept_by_filter(t: Seq<StoredRow>, keep: spec_fn(StoredRow) -> bool)
    requires
        newest_first(t),
    ensures
        newest_first(t.filter(keep)),
{
    let at = filter_keeps_order(t, keep);
    let f = t.filter(keep);
    assert forall|i: int, j: int| 0 <= i < j < f.len() implies (#[trigger] f[i]).id > (
    #[trigger] f[j]).id by {
        assert(at[i] < at[j]);
        assert(0 <= at[i] < t.len() && 0 <= at[j] < t.len());
    }
}

proof fn no_duplicates_is_kept_by_filter(t: Seq<StoredRow>, keep: spec_fn(StoredRow) -> bool)
    requires
        no_duplicates(t),
    ensures
        no_duplicates(t.filter(keep)),
{
    let at = filter_keeps_order(t, keep);
    let f = t.filter(keep);
    assert forall|i: int, j: int, text: Seq<char>|
        0 <= i < j < f.len() && #[trigger] stores_text(f[i], text) implies !(
    #[trigger] stores_text(f[j], text)) by {
        assert(at[i] < at[j]);
        assert(0 <= at[i] < t.len() && 0 <= at[j] < t.len());
        assert(stores_text(t[at[i]], text));
    }
    assert forall|i: int, j: int, w: u32, h: u32, hash: i64|
        0 <= i < j < f.len() && #[trigger] stores_image(f[i], w, h, hash) implies !(
    #[trigger] stores_image(f[j], w, h, hash)) by {
        assert(at[i] < at[j]);
        assert(0 <= at[i] < t.len() && 0 <= at[j] < t.len());
        assert(stores_image(t[at[i]], w, h, hash));
    }
}

/// The rows are listed newest first, and stay so whatever is copied or
/// deleted.
pub proof fn history_stays_newest_first(
    t: Seq<StoredRow>,
    text: Seq<char>,
    png: Seq<u8>,
    w: u32,
    h: u32,
    hash: u64,
    ts: u64,
    id: i64,
    max: nat,
)
    requires
        newest_first(t),
    ensures
        has_room(t) ==> newest_first(with_text(t, text, ts, max)),
        has_room(t) ==> newest_first(with_image(t, png, w, h, hash, ts, max)),
        newest_first(without_row(t, id)),
{
    let keep_text = |r: StoredRow| !stores_text(r, text);
    let keep_image = |r: StoredRow| !stores_image(r, w, h, hash as i64);
    newest_first_is_kept_by_filter(t, keep_text);
    newest_first_is_kept_by_filter(t, keep_image);
    newest_first_is_kept_by_filter(t, |r: StoredRow| r.id != id);
    let at_text = filter_keeps_order(t, keep_text);
    let at_image = filter_keeps_order(t, keep_image);
    if has_room(t) {
        let rest = without_text(t, text);
        let all = seq![text_row(next_id(t), ts as i64, text)] + rest;
        assert forall|i: int, j: int| 0 <= i < j < all.len() implies (#[trigger] all[i]).id > (
        #[trigger] all[j]).id by {
            assert(all[j] == rest[j - 1]);
            if i == 0 {
                assert(rest[j - 1] == t[at_text[j - 1]]);
                assert(t[0].id >= t[at_text[j - 1]].id);
            } else {
                assert(all[i] == rest[i - 1]);
            }
        }
        let rest = without_image(t, w, h, hash as i64);
        let all = seq![image_row(next_id(t), ts as i64, png, w, h, hash as i64)] + rest;
        assert forall|i: int, j: int| 0 <= i < j < all.len() implies (#[trigger] all[i]).id > (
        #[trigger] all[j]).id by {
            assert(all[j] == rest[j - 1]);
            if i == 0 {
                assert(rest[j - 1] == t[at_image[j - 1]]);
                assert(t[0].id >= t[at_image[j - 1]].id);
            } else {
                assert(all[i] == rest[i - 1]);
            }
        }
    }
}

/// Re-copying moves an entry to the front instead of duplicating it: a
/// history without duplicates stays without them.
pub proof fn history_stays_without_duplicates(
    t: Seq<StoredRow>,
    text: Seq<char>,
    png: Seq<u8>,
    w: u32,
    h: u32,
    hash: u64,
    ts: u64,
    id: i64,
    max: nat,
)
    requires
        no_duplicates(t),
    ensures
        no_duplicates(with_text(t, text, ts, max)),
        no_duplicates(with_image(t, png, w, h, hash, ts, max)),
        no_duplicates(without_row(t, id)),
{
    reveal_strlit("text");
    reveal_strlit("image");
    assert("text"@.len() != "image"@.len());
    no_duplicates_is_kept_by_filter(t, |r: StoredRow| r.id != id);
    {
        let keep = |r: StoredRow| !stores_text(r, text);
        no_duplicates_is_kept_by_filter(t, keep);
        let at = filter_keeps_order(t, keep);
        let rest = without_text(t, text);
        let all = seq![text_row(next_id(t), ts as i64, text)] + rest;
        assert forall|i: int, j: int, x: Seq<char>|
            0 <= i < j < all.len() && #[trigger] stores_text(all[i], x) implies !(
        #[trigger] stores_text(all[j], x)) by {
            assert(all[j] == rest[j - 1]);
            assert(keep(t[at[j - 1]]));
            if i > 0 {
                assert(all[i] == rest[i - 1]);
                assert(stores_text(rest[i - 1], x));
            }
        }
        assert forall|i: int, j: int, a: u32, b: u32, x: i64|
            0 <= i < j < all.len() && #[trigger] stores_image(all[i], a, b, x) implies !(
        #[trigger] stores_image(all[j], a, b, x)) by {
            assert(all[j] == rest[j - 1]);
            if i > 0 {
                assert(all[i] == rest[i - 1]);
                assert(stores_image(rest[i - 1], a, b, x));
            }
        }
        assert(no_duplicates(all));
        no_duplicates_is_kept_by_cap(all, max);
    }
    {
        let keep = |r: StoredRow| !stores_image(r, w, h, hash as i64);
        no_duplicates_is_kept_by_filter(t, keep);
        let at = filter_keeps_order(t, keep);
        let rest = without_image(t, w, h, hash as i64);
        let all = seq![image_row(next_id(t), ts as i64, png, w, h, hash as i64)] + rest;
        assert forall|i: int, j: int, x: Seq<char>|
            0 <= i < j < all.len() && #[trigger] stores_text(all[i], x) implies !(
        #[trigger] stores_text(all[j], x)) by {
            assert(all[j] == rest[j - 1]);
            if i > 0 {
                assert(all[i] == rest[i - 1]);
                assert(stores_text(rest[i - 1], x));
            }
        }
        assert forall|i: int, j: int, a: u32, b: u32, x: i64|
            0 <= i < j < all.len() && #[trigger] stores_image(all[i], a, b, x) implies !(
        #[trigger] stores_image(all[j], a, b, x)) by {
            assert(all[j] == rest[j - 1]);
            assert(keep(t[at[j - 1]]));
            if i > 0 {
                assert(all[i] == rest[i - 1]);
                assert(stores_image(rest[i - 1], a, b, x));
            }
        }
        assert(no_duplicates(all));
        no_duplicates_is_kept_by_cap(all, max);
    }
}

proof fn no_duplicates_is_kept_by_cap(t: Seq<StoredRow>, max: nat)
    requires
        no_duplicates(t),
    ensures
        no_duplicates(capped(t, max)),
{
    let c = capped(t, max);
    assert forall|i: int, j: int, x: Seq<char>|
        0 <= i < j < c.len() && #[trigger] stores_text(c[i], x) implies !(#[trigger] stores_text(
        c[j],
        x,
    )) by {
        assert(stores_text(t[i], x));
    }
    assert forall|i: int, j: int, a: u32, b: u32, x: i64|
        0 <= i < j < c.len() && #[trigger] stores_image(c[i], a, b, x) implies !(
    #[trigger] stores_image(c[j], a, b, x)) by {
        assert(stores_image(t[i], a, b, x));
    }
}

/// The history never grows past its limit by copying, texts and images
/// counting alike; what is dropped is the oldest.
pub proof fn copying_respects_the_limit(
    t: Seq<StoredRow>,
    text: Seq<char>,
    png: Seq<u8>,
    w: u32,
    h: u32,
    hash: u64,
    ts: u64,
    max: nat,
)
    ensures
        with_text(t, text, ts, max).len() <= max,
        with_image(t, png, w, h, hash, ts, max).len() <= max,
        max > 0 ==> with_text(t, text, ts, max) == seq![text_row(next_id(t), ts as i64, text)]
            + capped(without_text(t, text), (max - 1) as nat),
        max > 0 ==> with_image(t, png, w, h, hash, ts, max) == seq![
            image_row(next_id(t), ts as i64, png, w, h, hash as i64),
        ] + capped(without_image(t, w, h, hash as i64), (max - 1) as nat),
{
    if max > 0 {
        assert(with_text(t, text, ts, max) =~= seq![text_row(next_id(t), ts as i64, text)] + capped(
            without_text(t, text),
            (max - 1) as nat,
        ));
        assert(with_image(t, png, w, h, hash, ts, max) =~= seq![
            image_row(next_id(t), ts as i64, png, w, h, hash as i64),
        ] + capped(without_image(t, w, h, hash as i64), (max - 1) as nat));
    }
}

/// The entries of a list of rows start with those of its first row.
proof fn entries_of_first(r: StoredRow, rest: Seq<StoredRow>)
    ensures
        entries_of(seq![r] + rest) == (match entry_of(r) {
            Some(e) => seq![e],
            None => Seq::empty(),
        }) + entries_of(rest),
    decreases rest.len(),
{
    reveal(Seq::filter_map);
    let all = seq![r] + rest;
    let f = |r: StoredRow| entry_of(r);
    if rest.len() == 0 {
        assert(all.drop_last() =~= Seq::<StoredRow>::empty());
        assert(all.last() == r);
        assert(Seq::<StoredRow>::empty().filter_map(f) =~= Seq::<EntryView>::empty());
        assert(all.filter_map(f) =~= (match entry_of(r) {
            Some(e) => seq![e],
            None => Seq::empty(),
        }));
        assert(rest =~= Seq::<StoredRow>::empty());
        assert(entries_of(rest) =~= Seq::<EntryView>::empty());
    } else {
        entries_of_first(r, rest.drop_last());
        assert(all.drop_last() =~= seq![r] + rest.drop_last());
        assert(all.last() == rest.last());
        let first = match entry_of(r) {
            Some(e) => seq![e],
            None => Seq::<EntryView>::empty(),
        };
        assert(entries_of(all) =~= first + entries_of(rest));
    }
}

/// What is copied is read back as the newest entry, with the time it was
/// copied at, whatever the clock said for the others.
pub proof fn copied_text_is_read_back_first(
    t: Seq<StoredRow>,
    text: Seq<char>,
    ts: u64,
    max: nat,
    max_bytes: nat,
)
    requires
        accepts_text(t, text, max_bytes),
        max > 0,
    ensures
        entries_of(after_text(t, text, ts, max, max_bytes)).len() > 0,
        entries_of(after_text(t, text, ts, max, max_bytes))[0] == (EntryView {
            id: next_id(t),
            ts,
            content: ContentView::Text(text),
        }),
        newest_text_in(entries_of(after_text(t, text, ts, max, max_bytes))) == Some(text),
{
    assert((ts as i64) as u64 == ts) by (bit_vector);
    copying_respects_the_limit(t, text, Seq::empty(), 0, 0, 0, ts, max);
    entries_of_first(
        text_row(next_id(t), ts as i64, text),
        capped(without_text(t, text), (max - 1) as nat),
    );
}

/// The same for an image, whose bytes are found under the entry's id.
pub proof fn copied_image_is_read_back_first(
    t: Seq<StoredRow>,
    png: Seq<u8>,
    w: u32,
    h: u32,
    hash: u64,
    ts: u64,
    max: nat,
)
    requires
        newest_first(t),
        has_room(t),
        max > 0,
        0 < png.len() <= i64::MAX,
        png.len() <= usize::MAX,
    ensures
        entries_of(with_image(t, png, w, h, hash, ts, max)).len() > 0,
        entries_of(with_image(t, png, w, h, hash, ts, max))[0] == (EntryView {
            id: next_id(t),
            ts,
            content: ContentView::Image { w, h, bytes: png.len() as usize },
        }),
        image_of(with_image(t, png, w, h, hash, ts, max), next_id(t)) == Some(png),
{
    reveal_strlit("text");
    reveal_strlit("image");
    assert("text"@.len() != "image"@.len());
    assert((ts as i64) as u64 == ts) by (bit_vector);
    let all = with_image(t, png, w, h, hash, ts, max);
    let row = image_row(next_id(t), ts as i64, png, w, h, hash as i64);
    copying_respects_the_limit(t, Seq::empty(), png, w, h, hash, ts, max);
    entries_of_first(row, capped(without_image(t, w, h, hash as i64), (max - 1) as nat));
    history_stays_newest_first(t, Seq::empty(), png, w, h, hash, ts, 0, max);
    assert(all[0] == row);
    let i = choose|i: int| 0 <= i < all.len() && (#[trigger] all[i]).id == next_id(t);
    assert(i == 0);
}

/// Copying the same text again right away is skipped and changes nothing.
pub proof fn copying_again_changes_nothing(
    t: Seq<StoredRow>,
    text: Seq<char>,
    ts: u64,
    later: u64,
    max: nat,
    max_bytes: nat,
)
    requires
        max > 0,
    ensures
        ({
            let once = after_text(t, text, ts, max, max_bytes);
            &&& !accepts_text(once, text, max_bytes)
            &&& after_text(once, text, later, max, max_bytes) == once
        }),
{
    if accepts_text(t, text, max_bytes) {
        assert(with_text(t, text, ts, max)[0] == text_row(next_id(t), ts as i64, text));
    }
}

/// Images count as the same by their pixels: another encoding of the newest
/// image is skipped.
pub proof fn images_are_told_apart_by_pixels(
    t: Seq<StoredRow>,
    png: Seq<u8>,
    other_png: Seq<u8>,
    w: u32,
    h: u32,
    hash: u64,
    ts: u64,
    max: nat,
    max_bytes: nat,
)
    requires
        max > 0,
    ensures
        !accepts_image(with_image(t, png, w, h, hash, ts, max), other_png, w, h, hash, max_bytes),
{
    assert(with_image(t, png, w, h, hash, ts, max)[0] == image_row(
        next_id(t),
        ts as i64,
        png,
        w,
        h,
        hash as i64,
    ));
}

/// Different hashes stay different when they are stored.
pub proof fn stored_hashes_stay_apart(a: u64, b: u64)
    requires
        a as i64 == b as i64,
    ensures
        a == b,
{
    assert(a as i64 == b as i64 ==> a == b) by (bit_vector);
}

/// The newest text is the same with and without an image in front.
pub proof fn newest_text_skips_images(e: EntryView, entries: Seq<EntryView>)
    requires
        e.content is Image,
    ensures
        newest_text_in(seq![e] + entries) == newest_text_in(entries),
{
    assert((seq![e] + entries).skip(1) =~= entries);
}

/// A listing that breaks off after some rows is a beginning of the full one:
/// what it shows is the newest part of the history.
pub proof fn a_listing_that_breaks_off_is_a_beginning(t: Seq<StoredRow>, n: int)
    requires
        0 <= n <= t.len(),
    ensures
        entries_of(t.take(n)).is_prefix_of(entries_of(t)),
        n > 0 && entry_of(t[0]) is Some ==> entries_of(t.take(n)).len() > 0 && entries_of(
            t.take(n),
        )[0] == entry_of(t[0]).unwrap(),
    decreases t.len() - n,
{
    if n < t.len() {
        a_listing_that_breaks_off_is_a_beginning(t, n + 1);
        t.lemma_filter_map_take_succ(|r: StoredRow| entry_of(r), n);
    } else {
        assert(t.take(n) =~= t);
    }
    if n > 0 {
        let rest = t.take(n).skip(1);
        assert(t.take(n) =~= seq![t[0]] + rest);
        entries_of_first(t[0], rest);
    }
}

/// Deleting removes the row with that id and keeps every other, in order.
pub proof fn delete_removes_one_row(t: Seq<StoredRow>, id: i64, other: i64)
    requires
        newest_first(t),
        other != id,
    ensures
        row_with(without_row(t, id), id) is None,
        image_of(without_row(t, id), id) is None,
        row_with(without_row(t, id), other) == row_with(t, other),
{
    let keep = |r: StoredRow| r.id != id;
    let left = without_row(t, id);
    let at = filter_keeps_order(t, keep);
    assert(forall|i: int| 0 <= i < left.len() ==> keep(t[at[i]]) && (#[trigger] left[i]) == t[at[i]]);
    newest_first_is_kept_by_filter(t, keep);
    if row_with(t, other) is Some {
        let i = choose|i: int| 0 <= i < t.len() && (#[trigger] t[i]).id == other;
        t.lemma_filter_contains(keep, i);
        let j = choose|j: int| 0 <= j < left.len() && left[j] == t[i];
        assert(left[j].id == other);
        let k = choose|k: int| 0 <= k < left.len() && (#[trigger] left[k]).id == other;
        assert(j == k);
    } else if row_with(left, other) is Some {
        let k = choose|k: int| 0 <= k < left.len() && (#[trigger] left[k]).id == other;
        assert(t[at[k]].id == other);
    }
}

/// Texts that are pairwise different, none empty or too long, and no more
/// than the history holds.
pub open spec fn importable(copies: Seq<(u64, Seq<char>)>, max: nat, max_bytes: nat) -> bool {
    &&& copies.len() <= max
    &&& copies.len() <= i64::MAX
    &&& forall|i: int|
        0 <= i < copies.len() ==> fits_as_text((#[trigger] copies[i]).1, max_bytes)
    &&& forall|i: int, j: int|
        0 <= i < j < copies.len() ==> (#[trigger] copies[i]).1 != (#[trigger] copies[j]).1
}

/// An import into an empty history keeps all of the entries, in their order.
pub proof fn import_keeps_every_entry(
    copies: Seq<(u64, Seq<char>)>,
    max: nat,
    max_bytes: nat,
)
    requires
        importable(copies, max, max_bytes),
    ensures
        after_texts(Seq::empty(), copies, max, max_bytes) == Seq::new(
            copies.len(),
            |i: int|
                text_row(
                    (copies.len() - i) as i64,
                    copies[copies.len() - 1 - i].0 as i64,
                    copies[copies.len() - 1 - i].1,
                ),
        ),
    decreases copies.len(),
{
    let n = copies.len();
    let row = |i: int|
        text_row((n - i) as i64, copies[n - 1 - i].0 as i64, copies[n - 1 - i].1);
    if n == 0 {
        assert(after_texts(Seq::empty(), copies, max, max_bytes) =~= Seq::new(n, row));
    } else {
        let front = copies.drop_last();
        import_keeps_every_entry(front, max, max_bytes);
        let t = after_texts(Seq::empty(), front, max, max_bytes);
        let (ts, text) = copies.last();
        assert(t.len() == n - 1);
        assert forall|i: int| 0 <= i < t.len() implies !stores_text(#[trigger] t[i], text) by {
            assert(t[i].text == Some(front[n - 2 - i].1));
            assert(copies[n - 2 - i].1 != copies[n - 1].1);
        }
        assert(fits_as_text(copies[n - 1].1, max_bytes));
        assert(accepts_text(t, text, max_bytes));
        let keep = |r: StoredRow| !stores_text(r, text);
        filter_keeps_everything(t, keep);
        if t.len() > 0 {
            assert(t[0].id == n - 1);
        }
        assert(with_text(t, text, ts, max) =~= Seq::new(n, row));
    }
}

proof fn filter_keeps_everything(t: Seq<StoredRow>, keep: spec_fn(StoredRow) -> bool)
    requires
        forall|i: int| 0 <= i < t.len() ==> keep(#[trigger] t[i]),
    ensures
        t.filter(keep) == t,
    decreases t.len(),
{
    reveal(Seq::filter);
    if t.len() > 0 {
        assert forall|i: int| 0 <= i < t.drop_last().len() implies keep(
            #[trigger] t.drop_last()[i],
        ) by {
            assert(keep(t[i]));
        }
        filter_keeps_everything(t.drop_last(), keep);
        assert(keep(t[t.len() - 1]));
        assert(t.drop_last().push(t.last()) =~= t);
    }
}

} // verus!
