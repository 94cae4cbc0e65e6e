//! What holds of pixel hashes and of images as they are taken and restored.
use vstd::arithmetic::div_mod::{
    lemma_mod_multiples_vanish, lemma_mul_mod_noop_left, lemma_small_mod,
};
use vstd::prelude::*;

use crate::img::{
    decoded_pixels, fnv1a, frame_pixels, pixel_bytes, png_buffer_size, png_frame,
    png_signature, Frame, FrameView, MAX_DECODED_BYTES,
};
use crate::watcher::{captures, is_encodable, CapturedImage};

verus! {

/// The hash is FNV-1a with 64 bits: it starts at the offset basis, and takes a
/// byte in by mixing it into the lowest bits and multiplying by the prime.
pub proof fn the_hash_is_fnv_1a(before: Seq<u8>, byte: u8)
    ensures
        fnv1a(Seq::empty()) == 14695981039346656037,
        fnv1a(before.push(byte)) == ((fnv1a(before) ^ (byte as u64)) * 1099511628211)
            % 18446744073709551616,
{
    assert(before.push(byte).drop_last() =~= before);
}

/// A PNG starts with a byte that no text has, its name, and line ends that
/// would show a transfer that changes them.
pub proof fn pngs_are_known_by_their_first_bytes()
    ensures
        png_signature() == seq![0x89u8, 0x50, 0x4e, 0x47, 0x0d, 0x0a, 0x1a, 0x0a],
{
}

/// Multiplying by the hash's prime can be undone modulo 2^64.
proof fn multiplying_is_undone(x: u64)
    ensures
        (((x * 0x100_0000_01b3) % 0x1_0000_0000_0000_0000) * 14886173955864302971)
            % 0x1_0000_0000_0000_0000 == x,
{
    let m = 0x1_0000_0000_0000_0000int;
    let p = 0x100_0000_01b3int;
    let q = 14886173955864302971int;
    let k = 887285111055int;
    lemma_mul_mod_noop_left(x * p, q, m);
    assert(p * q == m * k + 1);
    assert((x * p) * q == m * (x * k) + x) by (nonlinear_arith)
        requires
            p * q == m * k + 1,
    ;
    lemma_mod_multiples_vanish(x * k, x as int, m);
    lemma_small_mod(x as nat, m as nat);
}

/// Different states stay different when they take in the same byte.
proof fn states_stay_apart(a: Seq<u8>, b: Seq<u8>, byte: u8)
    requires
        fnv1a(a) != fnv1a(b),
    ensures
        fnv1a(a.push(byte)) != fnv1a(b.push(byte)),
{
    let g = fnv1a(a);
    let h = fnv1a(b);
    let c = byte as u64;
    assert(a.push(byte).drop_last() =~= a);
    assert(b.push(byte).drop_last() =~= b);
    multiplying_is_undone(g ^ c);
    multiplying_is_undone(h ^ c);
    assert(g ^ c == h ^ c ==> g == h) by (bit_vector);
}

/// The same bytes after different states leave them different.
proof fn states_stay_apart_through(a: Seq<u8>, b: Seq<u8>, after: Seq<u8>)
    requires
        fnv1a(a) != fnv1a(b),
    ensures
        fnv1a(a + after) != fnv1a(b + after),
    decreases after.len(),
{
    if after.len() == 0 {
        assert(a + after =~= a);
        assert(b + after =~= b);
    } else {
        let front = after.drop_last();
        states_stay_apart_through(a, b, front);
        states_stay_apart(a + front, b + front, after.last());
        assert((a + front).push(after.last()) =~= a + after);
        assert((b + front).push(after.last()) =~= b + after);
    }
}

/// Two different bytes lead a state to two different ones, which do not agree
/// again after one more byte each.
proof fn bytes_lead_apart(a: Seq<u8>, x: u8, y: u8, v: u8, w: u8)
    requires
        x != y,
    ensures
        fnv1a(a.push(x)) != fnv1a(a.push(y)),
        fnv1a(a.push(x).push(v)) != fnv1a(a.push(y).push(w)),
{
    let h = fnv1a(a);
    let (s, t) = (a.push(x), a.push(y));
    assert(s.drop_last() =~= a);
    assert(t.drop_last() =~= a);
    assert(s.push(v).drop_last() =~= s);
    assert(t.push(w).drop_last() =~= t);
    let (bx, by, bv, bw) = (x as u64, y as u64, v as u64, w as u64);
    let (p, q) = (h ^ bx, h ^ by);
    assert(bx != by ==> h ^ bx != h ^ by) by (bit_vector);
    assert(bx < 256 ==> (h ^ bx) / 256 == h / 256) by (bit_vector);
    assert(by < 256 ==> (h ^ by) / 256 == h / 256) by (bit_vector);
    let (g, k) = (fnv1a(s), fnv1a(t));
    let m = 0x1_0000_0000_0000_0000int;
    let n = (p * 0x100_0000_01b3) / m - (q * 0x100_0000_01b3) / m;
    assert(g - k == (p - q) * 0x100_0000_01b3 - n * m);
    assert(-256 < p - q < 256 && p != q);
    assert(!(-256 < g - k < 256)) by {
        if -256 < g - k < 256 {
            assert(n == 0);
        }
    }
    assert(bv < 256 && bw < 256 && g ^ bv == k ^ bw ==> g / 256 == k / 256) by (bit_vector);
    multiplying_is_undone(g ^ bv);
    multiplying_is_undone(k ^ bw);
}

/// The hash depends on every byte: two pixel buffers that differ in one place,
/// in one byte or in two neighbouring ones, have different hashes.
pub proof fn every_byte_counts_in_the_hash(
    before: Seq<u8>,
    here: Seq<u8>,
    there: Seq<u8>,
    after: Seq<u8>,
)
    requires
        here.len() == there.len(),
        here.len() <= 2,
        here != there,
    ensures
        fnv1a(before + here + after) != fnv1a(before + there + after),
{
    let (a, b) = (before + here, before + there);
    if here.len() == 0 {
        assert(here =~= there);
    } else if here.len() == 1 {
        assert(here[0] != there[0]) by {
            if here[0] == there[0] {
                assert(here =~= there);
            }
        }
        assert(a =~= before.push(here[0]));
        assert(b =~= before.push(there[0]));
        bytes_lead_apart(before, here[0], there[0], 0, 0);
    } else {
        assert(a =~= before.push(here[0]).push(here[1]));
        assert(b =~= before.push(there[0]).push(there[1]));
        if here[0] != there[0] {
            bytes_lead_apart(before, here[0], there[0], here[1], there[1]);
        } else {
            assert(here[1] != there[1]) by {
                if here[1] == there[1] {
                    assert(here =~= there);
                }
            }
            bytes_lead_apart(before.push(here[0]), here[1], there[1], 0, 0);
        }
    }
    states_stay_apart_through(a, b, after);
}

/// The same, of two buffers of one length that differ at one position and
/// nowhere else.
pub proof fn one_changed_byte_changes_the_hash(a: Seq<u8>, b: Seq<u8>, at: int)
    requires
        a.len() == b.len(),
        0 <= at < a.len(),
        a[at] != b[at],
        forall|i: int| 0 <= i < a.len() && i != at ==> (#[trigger] a[i]) == b[i],
    ensures
        fnv1a(a) != fnv1a(b),
{
    let before = a.take(at);
    let after = a.skip(at + 1);
    assert(a =~= before + seq![a[at]] + after);
    assert(b =~= before + seq![b[at]] + after);
    assert(seq![a[at]][0] != seq![b[at]][0]);
    every_byte_counts_in_the_hash(before, seq![a[at]], seq![b[at]], after);
}

/// An image takes four bytes for each of its pixels, and one with pixels that
/// has exactly these bytes can be encoded.
pub proof fn four_bytes_for_each_pixel(w: u32, h: u32, rgba: Seq<u8>)
    ensures
        pixel_bytes(w, h) == 4 * (w * h),
        is_encodable(w, h, rgba) <==> w >= 1 && h >= 1 && rgba.len() == 4 * (w * h),
{
}

/// What is captured of an image is its dimensions and the hash of all of its
/// bytes.
pub proof fn captures_are_of_the_whole_image(c: CapturedImage, w: u32, h: u32, rgba: Seq<u8>)
    requires
        captures(c, w, h, rgba),
    ensures
        c.w == w,
        c.h == h,
        c.hash == fnv1a(rgba),
        c.png@ == crate::img::png_bytes(w, h, rgba),
{
}

/// What decoding gives is the first frame, as far as it is 8-bit RGBA, in full:
/// its dimensions and as many bytes as it says that its pixels take.
pub proof fn decoding_gives_the_frame(bytes: Seq<u8>, frame: Frame)
    ensures
        MAX_DECODED_BYTES == 256 * 1024 * 1024,
        frame@ == (FrameView {
            w: frame.w,
            h: frame.h,
            color: frame.color,
            depth: frame.depth,
            size: frame.size,
            data: frame.data@,
        }),
        frame.color == 6 && frame.depth == 8 && frame.size <= frame.data@.len() ==> frame_pixels(
            frame@,
        ) == Some((frame.w, frame.h, frame.data@.take(frame.size as int))),
        frame.color != 6 || frame.depth != 8 ==> frame_pixels(frame@) is None,
        decoded_pixels(bytes) is Some ==> png_buffer_size(bytes, MAX_DECODED_BYTES) is Some
            && png_frame(bytes, MAX_DECODED_BYTES) is Some,
        (png_buffer_size(bytes, MAX_DECODED_BYTES) matches Some(size) && size <= 256 * 1024 * 1024)
            ==> (png_frame(bytes, MAX_DECODED_BYTES) matches Some(f) ==> decoded_pixels(bytes)
            == frame_pixels(f)),
{
}

} // verus!
