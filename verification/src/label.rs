//! One-line labels for the entries of the list.
use vstd::prelude::*;

use crate::decimal::{decimal, decimal_denotes, is_digit, push_decimal};
use crate::history::{Content, ContentView, Entry, EntryView};
use crate::picker::{confirm_message, paste_text, pasted};
use crate::size::{human_size, size_text};
use crate::text::{
    chars_of, count_lines, ended_lines, flatten, flattened, is_white, lines, string_of,
};

verus! {

/// `text` on one line, with its number of lines in front if it has several.
pub open spec fn badged(text: Seq<char>) -> Seq<char> {
    let n = lines(pasted(text)).len();
    if n > 1 {
        "["@ + decimal(n) + "L] "@ + flattened(text)
    } else {
        flattened(text)
    }
}

/// `s` cut down to `width` characters, the last of them an ellipsis.
pub open spec fn shortened(s: Seq<char>, width: nat) -> Seq<char> {
    if s.len() > width {
        s.take(if width > 0 { width - 1 } else { 0 }).push('…')
    } else {
        s
    }
}

/// The preview of `text` in a list of `width` columns.
pub open spec fn preview(text: Seq<char>, width: nat) -> Seq<char> {
    let out = shortened(badged(text), width);
    if out.len() == 0 {
        "(whitespace)"@
    } else {
        out
    }
}

/// The label of entry `e` in a list of `width` columns.
pub open spec fn label(e: EntryView, width: nat) -> Seq<char> {
    match e.content {
        ContentView::Text(t) => preview(t, width),
        ContentView::Image { w, h, bytes } => "[IMG "@ + decimal(w as nat) + "x"@
            + decimal(h as nat) + " · "@ + size_text(bytes as nat)
            + "]"@,
    }
}

/// One-line list preview: whitespace runs flattened, truncation between
/// characters, `[NL]` badge for multiline entries.
pub fn format_preview(text: &str, width: usize) -> (r: String)
    ensures
        r@ == preview(text@, width as nat),
{
    let paste = paste_text(text);
    let paste_chars = chars_of(paste.as_str());
    let n: usize = count_lines(paste_chars.as_slice());
    let chars = chars_of(text);
    let flat_chars = flatten(chars.as_slice());
    let flat = string_of(flat_chars.as_slice());
    let mut out = String::new();
    if n > 1 {
        out.append("[");
        push_decimal(&mut out, n as u64);
        out.append("L] ");
    }
    out.append(flat.as_str());
    assert(out@ =~= badged(text@));
    let out_chars = chars_of(out.as_str());
    if out_chars.len() > width {
        let keep: usize = if width > 0 { width - 1 } else { 0 };
        let mut cut = String::new();
        let mut i: usize = 0;
        while i < keep
            invariant
                i <= keep <= out_chars@.len(),
                cut@ == out_chars@.take(i as int),
            decreases keep - i,
        {
            cut.push(out_chars[i]);
            i += 1;
        }
        cut.push('…');
        out = cut;
    }
    if out.as_str().is_empty() {
        out = String::new();
        out.append("(whitespace)");
        assert(out@ =~= "(whitespace)"@);
    }
    out
}

/// One-line list label for any entry kind.
pub fn entry_label(e: &Entry, width: usize) -> (r: String)
    ensures
        r@ == label(e@, width as nat),
{
    match &e.content {
        Content::Text(t) => format_preview(t.as_str(), width),
        Content::Image { w, h, bytes } => {
            let mut s = String::new();
            s.append("[IMG ");
            push_decimal(&mut s, *w as u64);
            s.append("x");
            push_decimal(&mut s, *h as u64);
            s.append(" · ");
            let size = human_size(*bytes);
            s.append(size.as_str());
            s.append("]");
            assert(s@ =~= label(e@, width as nat));
            s
        },
    }
}

/// The preview of a text takes at most `width` columns (one where `width` is
/// zero), unless it says that there is nothing but whitespace.
pub proof fn preview_fits(text: Seq<char>, width: nat)
    ensures
        1 <= preview(text, width).len(),
        preview(text, width) == "(whitespace)"@ || preview(text, width).len() <= (if width > 0 {
            width
        } else {
            1
        }),
{
    reveal_strlit("(whitespace)");
}

/// What flattening leaves: no whitespace but single spaces between words.
pub proof fn flattened_has_single_spaces(s: Seq<char>)
    ensures
        flattened(s).len() > 0 ==> !is_white(
            flattened(s).last(),
        ),
        forall|i: int|
            0 <= i < flattened(s).len() && is_white(
                #[trigger] flattened(s)[i],
            ) ==> flattened(s)[i] == ' ' && 0 < i && !is_white(
                flattened(s)[i - 1],
            ),
    decreases s.len(),
{
    if s.len() > 0 {
        flattened_has_single_spaces(s.drop_last());
    }
}

/// The characters of `s` that are not whitespace.
pub open spec fn non_white(s: Seq<char>) -> Seq<char> {
    s.filter(|c: char| !is_white(c))
}

proof fn non_white_of_push(s: Seq<char>, c: char)
    ensures
        non_white(s.push(c)) == (if is_white(c) {
            non_white(s)
        } else {
            non_white(s).push(c)
        }),
{
    reveal(Seq::filter);
    assert(s.push(c).drop_last() =~= s);
}

/// Flattening keeps every character that is not whitespace, in order.
pub proof fn flattening_keeps_the_words(s: Seq<char>)
    ensures
        non_white(flattened(s)) == non_white(s),
    decreases s.len(),
{
    if s.len() > 0 {
        flattening_keeps_the_words(s.drop_last());
        let before = flattened(s.drop_last());
        let c = s.last();
        assert(s.drop_last().push(c) =~= s);
        non_white_of_push(s.drop_last(), c);
        non_white_of_push(before, c);
        non_white_of_push(before, ' ');
        non_white_of_push(before.push(' '), c);
    }
}

/// A label for a text stays on one line: it has no whitespace but spaces.
pub proof fn preview_is_one_line(text: Seq<char>, width: nat)
    ensures
        forall|i: int|
            0 <= i < preview(text, width).len() && is_white(
                #[trigger] preview(text, width)[i],
            ) ==> preview(text, width)[i] == ' ',
{
    reveal_strlit("(whitespace)");
    reveal_strlit("[");
    reveal_strlit("L] ");
    flattened_has_single_spaces(text);
    let n = lines(pasted(text)).len();
    decimal_denotes(n);
    let out = badged(text);
    let flat = flattened(text);
    let digits = decimal(n);
    assert forall|i: int| 0 <= i < out.len() && is_white(#[trigger] out[i]) implies out[i]
        == ' ' by {
        if n > 1 {
            let head = "["@ + digits + "L] "@;
            assert(out =~= head + flat);
            if i < head.len() {
                if 1 <= i < 1 + digits.len() {
                    assert(out[i] == digits[i - 1]);
                    assert(is_digit(digits[i - 1]));
                }
            } else {
                assert(out[i] == flat[i - head.len()]);
            }
        } else {
            assert(out[i] == flat[i]);
        }
    }
    let cut = shortened(out, width);
    assert forall|i: int| 0 <= i < cut.len() && is_white(#[trigger] cut[i]) implies cut[i]
        == ' ' by {
        if out.len() > width {
            if i < cut.len() - 1 {
                assert(cut[i] == out[i]);
            }
        } else {
            assert(cut[i] == out[i]);
        }
    }
}

/// Text without a line feed is one line, and is pasted as it is.
proof fn no_line_feed_no_lines(s: Seq<char>)
    requires
        !s.contains('\n'),
    ensures
        ended_lines(s).len() == 0,
        lines(s).len() <= 1,
        pasted(s) == s,
    decreases s.len(),
{
    if s.len() > 0 {
        assert(s[s.len() - 1] != '\n');
        let front = s.drop_last();
        assert forall|i: int| 0 <= i < front.len() implies front[i] != '\n' by {
            assert(s[i] != '\n');
        }
        no_line_feed_no_lines(front);
    }
}

/// Single spaces, none of them first.
spec fn singly_spaced(s: Seq<char>) -> bool {
    forall|i: int|
        0 <= i < s.len() && is_white(#[trigger] s[i]) ==> s[i] == ' ' && 0 < i && !is_white(
            s[i - 1],
        )
}

/// Flattening has nothing to do on singly spaced text but for a last space.
proof fn singly_spaced_is_flat(s: Seq<char>)
    requires
        singly_spaced(s),
    ensures
        flattened(s) == (if s.len() > 0 && is_white(s.last()) {
            s.drop_last()
        } else {
            s
        }),
    decreases s.len(),
{
    if s.len() > 0 {
        let front = s.drop_last();
        assert forall|i: int| 0 <= i < front.len() && is_white(#[trigger] front[i]) implies front[i]
            == ' ' && 0 < i && !is_white(front[i - 1]) by {
            assert(s[i] == front[i]);
        }
        singly_spaced_is_flat(front);
        let n = s.len() - 1;
        if is_white(s[n]) {
            assert(!is_white(s[n - 1]));
            assert(front.last() == s[n - 1]);
            assert(flattened(s) =~= front);
        } else if n > 0 && is_white(s[n - 1]) {
            assert(front.last() == s[n - 1]);
            assert(0 < n - 1);
            assert(s[n - 1] == ' ');
            assert(flattened(s) =~= s);
        } else {
            assert(flattened(s) =~= s);
        }
    }
}

/// A preview is singly spaced.
proof fn preview_is_singly_spaced(text: Seq<char>, width: nat)
    ensures
        singly_spaced(preview(text, width)),
{
    reveal_strlit("(whitespace)");
    reveal_strlit("[");
    reveal_strlit("L] ");
    flattened_has_single_spaces(text);
    let n = lines(pasted(text)).len();
    decimal_denotes(n);
    let out = badged(text);
    let flat = flattened(text);
    let digits = decimal(n);
    assert forall|i: int| 0 <= i < out.len() && is_white(#[trigger] out[i]) implies out[i] == ' '
        && 0 < i && !is_white(out[i - 1]) by {
        if n > 1 {
            let head = "["@ + digits + "L] "@;
            assert(out =~= head + flat);
            if i < head.len() {
                if 1 <= i < 1 + digits.len() {
                    assert(out[i] == digits[i - 1]);
                    assert(is_digit(digits[i - 1]));
                }
            } else {
                assert(out[i] == flat[i - head.len()]);
                assert(out[i - 1] == flat[i - head.len() - 1]);
            }
        } else {
            assert(out[i] == flat[i]);
        }
    }
    let cut = shortened(out, width);
    assert forall|i: int| 0 <= i < cut.len() && is_white(#[trigger] cut[i]) implies cut[i] == ' '
        && 0 < i && !is_white(cut[i - 1]) by {
        if out.len() > width {
            if i < cut.len() - 1 {
                assert(cut[i] == out[i]);
            }
        } else {
            assert(cut[i] == out[i]);
        }
    }
}

/// The preview of a preview is that preview. This leaves out the two previews
/// that are no text of their own: the word for whitespace where it is wider
/// than the list, and a bare badge, which ends in a space.
pub proof fn preview_is_idempotent(text: Seq<char>, width: nat)
    requires
        preview(text, width).len() <= (if width > 0 {
            width
        } else {
            1
        }),
        preview(text, width).last() != ' ',
    ensures
        preview(preview(text, width), width) == preview(text, width),
{
    let out = preview(text, width);
    preview_fits(text, width);
    preview_is_singly_spaced(text, width);
    let last = out.len() - 1;
    assert(!is_white(out[last]));
    singly_spaced_is_flat(out);
    assert forall|i: int| 0 <= i < out.len() implies out[i] != '\n' by {
        if out[i] == '\n' {
            assert(is_white(out[i]));
        }
    }
    no_line_feed_no_lines(out);
    assert(badged(out) == out);
    if out.len() > width {
        reveal_strlit("(whitespace)");
        assert(shortened(badged(text), width).len() > 0);
        assert(out =~= seq!['…']);
        assert(shortened(out, width) =~= out);
    }
}

/// One more newline at the end of a text that does not end in a line break
/// changes nothing in its preview.
pub proof fn preview_ignores_a_final_newline(text: Seq<char>, width: nat)
    requires
        text.len() > 0 ==> text.last() != '\n' && text.last() != '\r',
    ensures
        preview(text.push('\n'), width) == preview(text, width),
        preview(text.push('\r').push('\n'), width) == preview(text, width),
{
    let lf = text.push('\n');
    let cr = text.push('\r');
    let crlf = cr.push('\n');
    assert(lf.drop_last() =~= text);
    assert(cr.drop_last() =~= text);
    assert(crlf.drop_last() =~= cr);
    assert(flattened(lf) == flattened(text));
    assert(flattened(cr) == flattened(text));
    assert(flattened(crlf) == flattened(text));
    assert(pasted(lf) == text);
    assert(pasted(crlf) == text);
    assert(pasted(text) == text);
}

/// The badge of a multiline text counts the same lines as the question for
/// confirmation that Enter raises on it.
pub proof fn badge_counts_confirmed_lines(text: Seq<char>)
    requires
        lines(pasted(text)).len() > 1,
    ensures
        ({
            let n = lines(pasted(text)).len();
            &&& badged(text) == "["@ + decimal(n) + "L] "@
                + flattened(text)
            &&& confirm_message(pasted(text))
                == decimal(n) + "-line entry — press Enter again to paste"@
        }),
{
}

} // verus!
