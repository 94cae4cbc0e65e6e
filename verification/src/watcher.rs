//! The clipboard watcher: what each poll of the clipboard leads to.
use vstd::prelude::*;

use crate::history::{
    image_stored, text_stored, wrote_and_reclaimed, HistoryStore, StoreError,
};
use crate::img::{
    decoded_pixels, encode_rgba_png, fnv1a, pixel_bytes, png_bytes, rgba_hash, MAX_DECODED_BYTES,
};
use crate::sqlite::{found, refused};
use crate::table::{accepts_image, fits_as_image, newest_first, StoredRow};
use crate::text::{opt_bytes, opt_text};

verus! {

/// What the watcher saw last on the clipboard.
pub struct ClipboardWatch {
    pub last_text: Option<String>,
    pub last_image: Option<Vec<u8>>,
}

/// An image as it goes into the history.
#[derive(Debug)]
pub struct CapturedImage {
    pub png: Vec<u8>,
    pub w: u32,
    pub h: u32,
    pub hash: u64,
}

/// `c` is the image with these pixels.
pub open spec fn captures(c: CapturedImage, w: u32, h: u32, rgba: Seq<u8>) -> bool {
    &&& c.w == w
    &&& c.h == h
    &&& c.hash == fnv1a(rgba)
    &&& c.png@ == png_bytes(w, h, rgba)
}

/// Whether these pixels make an image that can be encoded.
pub open spec fn is_encodable(w: u32, h: u32, rgba: Seq<u8>) -> bool {
    w > 0 && h > 0 && rgba.len() == pixel_bytes(w, h)
}

/// Whether `text` is another one than the watch saw last.
pub open spec fn text_changed(watch: ClipboardWatch, text: Seq<char>) -> bool {
    opt_text(watch.last_text) != Some(text)
}

/// Whether the pixels are others than the watch saw last.
pub open spec fn image_changed(watch: ClipboardWatch, rgba: Seq<u8>) -> bool {
    opt_bytes(watch.last_image) != Some(rgba)
}

fn same_bytes(a: &Vec<u8>, b: &Vec<u8>) -> (r: bool)
    ensures
        r == (a@ == b@),
{
    if a.len() != b.len() {
        return false;
    }
    let mut i: usize = 0;
    while i < a.len()
        invariant
            a@.len() == b@.len(),
            i <= a@.len(),
            forall|j: int| 0 <= j < i ==> a@[j] == b@[j],
        decreases a@.len() - i,
    {
        if a[i] != b[i] {
            return false;
        }
        i += 1;
    }
    assert(a@ =~= b@);
    true
}

impl ClipboardWatch {
    /// Nothing seen yet.
    pub fn new() -> (w: Self)
        ensures
            w.last_text is None,
            w.last_image is None,
    {
        ClipboardWatch { last_text: None, last_image: None }
    }

    /// Takes note of a text on the clipboard; whether it is another one than
    /// at the last poll.
    pub fn on_text(&mut self, text: &str) -> (changed: bool)
        ensures
            changed == text_changed(*old(self), text@),
            opt_text(final(self).last_text) == Some(text@),
            final(self).last_image == old(self).last_image,
    {
        let seen = match &self.last_text {
            Some(last) => *last == text.to_owned(),
            None => false,
        };
        if seen {
            return false;
        }
        self.last_text = Some(text.to_owned());
        true
    }

    /// Takes note of an image on the clipboard; what is to be recorded of it
    /// if it is another one than at the last poll.
    pub fn on_image(&mut self, width: usize, height: usize, rgba: Vec<u8>) -> (r: Option<
        CapturedImage,
    >)
        ensures
            r is Some <==> image_changed(*old(self), rgba@) && is_encodable(
                width as u32,
                height as u32,
                rgba@,
            ),
            r matches Some(c) ==> captures(c, width as u32, height as u32, rgba@),
            r matches Some(c) ==> c.w == width as u32 && c.h == height as u32 && c.hash == fnv1a(
                rgba@,
            ) && c.png@ == png_bytes(width as u32, height as u32, rgba@),
            r matches Some(c) ==> pixel_bytes(width as u32, height as u32) <= MAX_DECODED_BYTES
                ==> decoded_pixels(c.png@) == Some((width as u32, height as u32, rgba@)),
            opt_bytes(final(self).last_image) == Some(rgba@),
            final(self).last_text == old(self).last_text,
    {
        let seen = match &self.last_image {
            Some(last) => same_bytes(last, &rgba),
            None => false,
        };
        if seen {
            return None;
        }
        let w: u32 = width as u32;
        let h: u32 = height as u32;
        let hash: u64 = rgba_hash(rgba.as_slice());
        let r = match encode_rgba_png(w, h, rgba.as_slice()) {
            Ok(png) => Some(CapturedImage { png, w, h, hash }),
            Err(_) => None,
        };
        self.last_image = Some(rgba);
        r
    }

    /// One poll that found `text`: a changed text goes into the history. What
    /// the store answered, if it was asked.
    pub fn record_text(&mut self, store: &mut HistoryStore, text: &str, ts: u64) -> (r: Option<
        Result<bool, StoreError>,
    >)
        ensures
            r is Some <==> text_changed(*old(self), text@),
            opt_text(final(self).last_text) == Some(text@),
            final(self).last_image == old(self).last_image,
            r is None ==> *final(store) == *old(store),
            r matches Some(Ok(appended)) ==> exists|t: Seq<StoredRow>, u: Seq<StoredRow>|
                #[trigger]
                wrote_and_reclaimed(*old(store), *final(store), t, u) && text_stored(
                    *old(store),
                    text@,
                    ts,
                    appended,
                    t,
                    u,
                ),
            r matches Some(Err(e)) ==> refused(old(store).db, e.0) && *final(store) == *old(store),
    {
        if self.on_text(text) {
            Some(store.append_text(text, ts))
        } else {
            None
        }
    }

    /// One poll that found an image: a changed image goes into the history.
    /// What the store answered, if it was asked.
    pub fn record_image(
        &mut self,
        store: &mut HistoryStore,
        width: usize,
        height: usize,
        rgba: Vec<u8>,
        ts: u64,
    ) -> (r: Option<Result<bool, StoreError>>)
        ensures
            r is Some <==> image_changed(*old(self), rgba@) && is_encodable(
                width as u32,
                height as u32,
                rgba@,
            ),
            opt_bytes(final(self).last_image) == Some(rgba@),
            final(self).last_text == old(self).last_text,
            r is None ==> *final(store) == *old(store),
            r is Some && !fits_as_image(
                png_bytes(width as u32, height as u32, rgba@),
                old(store).max_image_bytes as nat,
            ) ==> (r matches Some(Ok(appended)) && !appended),
            r matches Some(Ok(false)) && fits_as_image(
                png_bytes(width as u32, height as u32, rgba@),
                old(store).max_image_bytes as nat,
            ) ==> exists|t: Seq<StoredRow>| #[trigger]
                found(old(store).db, t) && newest_first(t) && !accepts_image(
                    t,
                    png_bytes(width as u32, height as u32, rgba@),
                    width as u32,
                    height as u32,
                    fnv1a(rgba@),
                    old(store).max_image_bytes as nat,
                ),
            r matches Some(Ok(false)) ==> *final(store) == *old(store),
            r matches Some(Ok(true)) ==> exists|t: Seq<StoredRow>, u: Seq<StoredRow>| #[trigger]
                wrote_and_reclaimed(*old(store), *final(store), t, u) && image_stored(
                    *old(store),
                    png_bytes(width as u32, height as u32, rgba@),
                    width as u32,
                    height as u32,
                    fnv1a(rgba@),
                    ts,
                    t,
                    u,
                ),
            r matches Some(Err(e)) ==> refused(old(store).db, e.0) && *final(store) == *old(store),
    {
        match self.on_image(width, height, rgba) {
            Some(c) => Some(store.append_image(c.png.as_slice(), c.w, c.h, c.hash, ts)),
            None => None,
        }
    }
}

/// The clock has been read, and gave `time`: seconds and nanoseconds since the
/// Unix epoch; none if it stood before that.
pub uninterp spec fn clock_read(time: Option<(u64, u32)>) -> bool;

/// `SystemTime::elapsed` of the Unix epoch: seconds and nanoseconds since
/// then; none if the clock stands before it. The nanoseconds are less than a
/// second.
#[verifier::external_body]
fn since_epoch() -> (t: Option<(u64, u32)>)
    ensures
        clock_read(t),
        t matches Some(time) ==> time.1 < 1_000_000_000,
{
    std::time::UNIX_EPOCH.elapsed().ok().map(|d| (d.as_secs(), d.subsec_nanos()))
}

/// A time since the epoch in milliseconds, as far as they fit into 64 bits;
/// zero for none.
pub open spec fn milliseconds(time: Option<(u64, u32)>) -> nat {
    match time {
        Some((secs, nanos)) => ((secs * 1000 + nanos / 1_000_000) % 0x1_0000_0000_0000_0000) as nat,
        None => 0,
    }
}

/// A time since the epoch in milliseconds.
pub fn to_milliseconds(time: Option<(u64, u32)>) -> (ms: u64)
    ensures
        ms == milliseconds(time),
{
    match time {
        Some((secs, nanos)) => {
            let ms: u128 = (secs as u128) * 1000 + (nanos / 1_000_000) as u128;
            (ms % 0x1_0000_0000_0000_0000) as u64
        },
        None => 0,
    }
}

/// The clock's time in milliseconds since the epoch.
pub fn now_ms() -> (ms: u64)
    ensures
        exists|time: Option<(u64, u32)>| #[trigger] clock_read(time) && ms == milliseconds(time),
{
    to_milliseconds(since_epoch())
}

/// A reading is recorded exactly where it is the first of its kind or differs
/// from the last one, whatever the store made of that. A watch has always
/// taken note of the last reading.
pub proof fn readings_are_recorded_where_they_differ(
    watch: ClipboardWatch,
    last_text: Seq<char>,
    text: Seq<char>,
    last_rgba: Seq<u8>,
    rgba: Seq<u8>,
)
    ensures
        watch.last_text is None ==> text_changed(watch, text),
        opt_text(watch.last_text) == Some(last_text) ==> text_changed(watch, text) == (text
            != last_text),
        watch.last_image is None ==> image_changed(watch, rgba),
        opt_bytes(watch.last_image) == Some(last_rgba) ==> image_changed(watch, rgba) == (rgba
            != last_rgba),
{
}

} // verus!
