//! Putting an image entry back on the clipboard.
use vstd::prelude::*;

use crate::history::{HistoryStore, StoreError};
use crate::img::{decode_png, decoded_pixels, ImageError};
use crate::sqlite::{found, refused};
use crate::table::{image_of, newest_first, StoredRow};
use crate::text::opt_bytes;

verus! {

/// Why an image entry could not be restored.
#[derive(Debug)]
pub enum RestoreError {
    /// The store could not be read.
    Store(StoreError),
    /// There is no such entry, or it is no image.
    NotFound,
    /// The entry's PNG could not be decoded.
    Image(ImageError),
}

/// The pixels of what the store holds for an entry.
pub fn stored_pixels(png: Option<Vec<u8>>) -> (res: Result<(u32, u32, Vec<u8>), RestoreError>)
    ensures
        match opt_bytes(png) {
            None => res matches Err(e) && e is NotFound,
            Some(bytes) => match res {
                Ok((w, h, rgba)) => decoded_pixels(bytes) == Some((w, h, rgba@)),
                Err(e) => decoded_pixels(bytes) is None && e is Image,
            },
        },
{
    match png {
        None => Err(RestoreError::NotFound),
        Some(bytes) => match decode_png(bytes.as_slice()) {
            Ok(pixels) => Ok(pixels),
            Err(e) => Err(RestoreError::Image(e)),
        },
    }
}

/// Width, height and pixels of the image entry `id`.
pub fn restore_image(store: &HistoryStore, id: i64) -> (res: Result<
    (u32, u32, Vec<u8>),
    RestoreError,
>)
    ensures
        (res matches Err(RestoreError::Store(e)) && refused(store.db, e.0)) || exists|t: Seq<StoredRow>| #[trigger]
            found(store.db, t) && newest_first(t) && (match image_of(t, id) {
                None => res matches Err(e) && e is NotFound,
                Some(bytes) => match res {
                    Ok((w, h, rgba)) => decoded_pixels(bytes) == Some((w, h, rgba@)),
                    Err(e) => decoded_pixels(bytes) is None && e is Image,
                },
            }),
{
    match store.get_image(id) {
        Ok(png) => stored_pixels(png),
        Err(e) => Err(RestoreError::Store(e)),
    }
}

} // verus!
