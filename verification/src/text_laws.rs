//! What lines, words and numbers are, told by how they are put together.
use vstd::prelude::*;

use crate::decimal::{
    all_digits, decimal, digits_value, is_digit, parsed_i64, signed_decimal, unsigned_part,
};
use crate::history::{ContentView, EntryView};
use crate::label::{badged, label, preview};
use crate::picker::pasted;
use crate::size::{float_step, nearest_float, rounded_quotient, size_text, tenths, MB};
use crate::text::{ended_lines, flattened, is_white, lines, open_line, trimmed, without_cr};

verus! {

/// Whitespace is what Unicode lists as such.
pub proof fn whitespace_is_what_unicode_lists(c: char)
    ensures
        is_white(c) <==> {
            ||| 0x9 <= c as u32 <= 0xd
            ||| c as u32 == 0x20
            ||| c as u32 == 0x85
            ||| c as u32 == 0xa0
            ||| c as u32 == 0x1680
            ||| 0x2000 <= c as u32 <= 0x200a
            ||| c as u32 == 0x2028
            ||| c as u32 == 0x2029
            ||| c as u32 == 0x202f
            ||| c as u32 == 0x205f
            ||| c as u32 == 0x3000
        },
{
}

/// A text without a line feed is one line that nothing ends.
proof fn an_open_line(a: Seq<char>)
    requires
        !a.contains('\n'),
    ensures
        open_line(a) == a,
        ended_lines(a).len() == 0,
    decreases a.len(),
{
    if a.len() > 0 {
        let front = a.drop_last();
        assert forall|i: int| 0 <= i < front.len() implies front[i] != '\n' by {
            assert(a[i] != '\n');
        }
        an_open_line(front);
        assert(a[a.len() - 1] != '\n');
        assert(front.push(a.last()) =~= a);
    }
}

/// What follows an ended line has the lines that it has alone.
proof fn lines_after_a_line(a: Seq<char>, b: Seq<char>)
    requires
        !a.contains('\n'),
    ensures
        open_line(a.push('\n') + b) == open_line(b),
        ended_lines(a.push('\n') + b) == seq![without_cr(a)] + ended_lines(b),
    decreases b.len(),
{
    let start = a.push('\n');
    if b.len() == 0 {
        an_open_line(a);
        assert(start + b =~= start);
        assert(start.drop_last() =~= a);
        assert(ended_lines(start) =~= seq![without_cr(a)] + ended_lines(b));
    } else {
        let front = b.drop_last();
        lines_after_a_line(a, front);
        assert((start + b).drop_last() =~= start + front);
        assert((start + b).last() == b.last());
        assert(ended_lines(start + b) =~= seq![without_cr(a)] + ended_lines(b));
    }
}

/// The lines of a text, read from its beginning. A line ends at a line feed,
/// and loses the carriage return before it; what follows has the lines that it
/// has alone. A last line needs no ending, and an ending starts no line.
pub proof fn lines_from_the_beginning(a: Seq<char>, b: Seq<char>)
    requires
        !a.contains('\n'),
    ensures
        lines(Seq::empty()).len() == 0,
        a.len() > 0 ==> lines(a) == seq![a],
        a.len() == 0 || a.last() != '\r' ==> lines(a.push('\n') + b) == seq![a] + lines(b),
        lines(a.push('\r').push('\n') + b) == seq![a] + lines(b),
{
    an_open_line(a);
    assert(a.len() > 0 ==> lines(a) =~= seq![a]);
    lines_after_a_line(a, b);
    let cr = a.push('\r');
    assert forall|i: int| 0 <= i < cr.len() implies cr[i] != '\n' by {
        if i < a.len() {
            assert(a[i] != '\n');
        }
    }
    lines_after_a_line(cr, b);
    assert(cr.drop_last() =~= a);
    assert(without_cr(cr) == a);
    assert(lines(cr.push('\n') + b) =~= seq![a] + lines(b));
    if a.len() == 0 || a.last() != '\r' {
        assert(lines(a.push('\n') + b) =~= seq![a] + lines(b));
    }
}

/// Only whitespace flattens to nothing.
proof fn only_whitespace_flattens_away(s: Seq<char>)
    ensures
        flattened(s).len() == 0 <==> forall|i: int|
            0 <= i < s.len() ==> is_white(#[trigger] s[i]),
    decreases s.len(),
{
    if s.len() > 0 {
        let front = s.drop_last();
        only_whitespace_flattens_away(front);
        assert forall|i: int| 0 <= i < front.len() implies front[i] == s[i] by {}
        if flattened(s).len() == 0 {
            assert forall|i: int| 0 <= i < s.len() implies is_white(#[trigger] s[i]) by {
                if i < front.len() {
                    assert(is_white(front[i]));
                }
            }
        } else if forall|i: int| 0 <= i < s.len() ==> is_white(#[trigger] s[i]) {
            assert(is_white(s[s.len() - 1]));
            assert forall|i: int| 0 <= i < front.len() implies is_white(#[trigger] front[i]) by {
                assert(is_white(s[i]));
            }
        }
    }
}

/// Flattening keeps words as they are, and puts one space wherever whitespace
/// stands between two of them.
pub proof fn flattening_joins_words_by_single_spaces(a: Seq<char>, c: char, b: Seq<char>)
    requires
        is_white(c),
    ensures
        (forall|i: int| 0 <= i < a.len() ==> !is_white(#[trigger] a[i])) ==> flattened(a) == a,
        flattened(a.push(c) + b) == (if flattened(a).len() == 0 {
            flattened(b)
        } else if flattened(b).len() == 0 {
            flattened(a)
        } else {
            flattened(a).push(' ') + flattened(b)
        }),
    decreases b.len(),
{
    if forall|i: int| 0 <= i < a.len() ==> !is_white(#[trigger] a[i]) {
        words_stay(a);
    }
    let start = a.push(c);
    let all = start + b;
    assert(start.drop_last() =~= a);
    if b.len() == 0 {
        assert(all =~= start);
    } else {
        let front = b.drop_last();
        let d = b.last();
        flattening_joins_words_by_single_spaces(a, c, front);
        only_whitespace_flattens_away(front);
        assert(all.drop_last() =~= start + front);
        assert(all.last() == d);
        let prev = all[all.len() - 2];
        if front.len() == 0 {
            assert(prev == c);
            assert(start + front =~= start);
        } else {
            assert(prev == front.last());
            assert(prev == b[b.len() - 2]);
            assert(front[front.len() - 1] == prev);
        }
        if !is_white(d) {
            if flattened(a).len() == 0 {
                assert(flattened(all) =~= flattened(b));
            } else if flattened(front).len() == 0 {
                assert(is_white(prev));
                assert(flattened(b) =~= seq![d]);
                assert(flattened(all) =~= flattened(a).push(' ') + flattened(b));
            } else {
                assert(flattened(all) =~= flattened(a).push(' ') + flattened(b));
            }
        }
    }
}

proof fn words_stay(a: Seq<char>)
    requires
        forall|i: int| 0 <= i < a.len() ==> !is_white(#[trigger] a[i]),
    ensures
        flattened(a) == a,
    decreases a.len(),
{
    if a.len() > 0 {
        let front = a.drop_last();
        assert forall|i: int| 0 <= i < front.len() implies !is_white(#[trigger] front[i]) by {
            assert(front[i] == a[i]);
        }
        words_stay(front);
        assert(!is_white(a[a.len() - 1]));
        if a.len() > 1 {
            assert(!is_white(a[a.len() - 2]));
        }
        assert(front.push(a.last()) =~= a);
    }
}

/// Trimming takes whitespace off both ends and nothing else.
pub proof fn trimming_takes_only_the_ends(s: Seq<char>) -> (ends: (int, int))
    ensures
        0 <= ends.0 <= ends.1 <= s.len(),
        trimmed(s) == s.subrange(ends.0, ends.1),
        forall|k: int| 0 <= k < ends.0 ==> is_white(#[trigger] s[k]),
        forall|k: int| ends.1 <= k < s.len() ==> is_white(#[trigger] s[k]),
        ends.0 < ends.1 ==> !is_white(s[ends.0]) && !is_white(s[ends.1 - 1]),
    decreases s.len(),
{
    if s.len() > 0 && is_white(s[0]) {
        let rest = s.skip(1);
        let (i, j) = trimming_takes_only_the_ends(rest);
        assert(rest.subrange(i, j) =~= s.subrange(i + 1, j + 1));
        assert forall|k: int| 0 <= k < i + 1 implies is_white(#[trigger] s[k]) by {
            if k > 0 {
                assert(is_white(rest[k - 1]));
            }
        }
        assert forall|k: int| j + 1 <= k < s.len() implies is_white(#[trigger] s[k]) by {
            assert(is_white(rest[k - 1]));
        }
        (i + 1, j + 1)
    } else if s.len() > 0 && is_white(s.last()) {
        let rest = s.drop_last();
        let (i, j) = trimming_takes_only_the_ends(rest);
        assert(rest.subrange(i, j) =~= s.subrange(i, j));
        assert forall|k: int| 0 <= k < i implies is_white(#[trigger] s[k]) by {
            assert(is_white(rest[k]));
        }
        assert forall|k: int| j <= k < s.len() implies is_white(#[trigger] s[k]) by {
            if k < s.len() - 1 {
                assert(is_white(rest[k]));
            }
        }
        (i, j)
    } else {
        assert(s.subrange(0, s.len() as int) =~= s);
        (0, s.len() as int)
    }
}

/// Numbers are written digit by digit, in tens.
pub proof fn numbers_are_written_in_tens(n: nat, d: nat)
    requires
        d < 10,
    ensures
        decimal(d).len() == 1,
        decimal(d)[0] as u32 == 48 + d,
        n > 0 ==> decimal(10 * n + d) == decimal(n) + decimal(d),
        signed_decimal(n as int) == decimal(n),
        n > 0 ==> signed_decimal(-(n as int)) == seq!['-'] + decimal(n),
{
    assert((10 * n + d) / 10 == n);
    assert((10 * n + d) % 10 == d);
    if n > 0 {
        assert(decimal(10 * n + d) =~= decimal(n) + decimal(d));
    }
}

/// Numbers are read digit by digit, in tens; a sign may stand in front, and
/// nothing else may stand there.
pub proof fn numbers_are_read_in_tens(s: Seq<char>, c: char)
    ensures
        digits_value(Seq::empty()) == 0,
        digits_value(s.push(c)) == 10 * digits_value(s) + (c as int - 48) as nat,
        s.len() > 0 && (forall|i: int| 0 <= i < s.len() ==> '0' <= (#[trigger] s[i]) <= '9') ==> {
            &&& digits_value(s) <= i64::MAX ==> parsed_i64(s) == Some(digits_value(s) as i64)
            &&& digits_value(s) <= i64::MAX ==> parsed_i64(seq!['+'] + s) == Some(
                digits_value(s) as i64,
            )
            &&& digits_value(s) <= i64::MAX + 1 ==> parsed_i64(seq!['-'] + s) == Some(
                (-(digits_value(s) as int)) as i64,
            )
            &&& digits_value(s) > i64::MAX ==> parsed_i64(s) is None
        },
        parsed_i64(s) is Some ==> s.len() > 0 && ('0' <= s.last() <= '9') && ('0' <= s[0] <= '9'
            || s[0] == '+' || s[0] == '-') && forall|i: int|
            1 <= i < s.len() ==> '0' <= (#[trigger] s[i]) <= '9',
{
    assert(s.push(c).drop_last() =~= s);
    if s.len() > 0 && (forall|i: int| 0 <= i < s.len() ==> '0' <= (#[trigger] s[i]) <= '9') {
        assert(all_digits(s));
        assert('0' <= s[0] <= '9');
        assert(unsigned_part(s) == s);
        let plus = seq!['+'] + s;
        let minus = seq!['-'] + s;
        assert(plus.skip(1) =~= s);
        assert(minus.skip(1) =~= s);
        assert(unsigned_part(plus) == s);
        assert(unsigned_part(minus) == s);
    }
    if parsed_i64(s) is Some {
        let digits = unsigned_part(s);
        assert(is_digit(digits[digits.len() - 1]));
        assert forall|i: int| 1 <= i < s.len() implies '0' <= (#[trigger] s[i]) <= '9' by {
            if digits == s {
                assert(is_digit(digits[i]));
            } else {
                assert(is_digit(digits[i - 1]));
            }
        }
        if digits == s {
            assert(is_digit(s[0]));
        }
    }
}

/// A size below a kilobyte is written as it is. Above, it is written in tenths
/// of the unit, and of all such numbers the nearest one: half a tenth off at
/// most, and the even one of two that are as near. Beyond what a float holds
/// exactly, the bytes are first taken to the nearest float.
pub proof fn sizes_are_written_to_the_nearest_tenth(n: nat)
    requires
        n < 0x1_0000_0000_0000_0000,
    ensures
        n < 1024 ==> size_text(n) == decimal(n) + " B"@,
        1024 <= n < 1024 * 1024 ==> exists|t: nat| #[trigger]
            is_tenths_text(size_text(n), t, " KB"@) && -1024 <= 2 * (t * 1024 - 10 * n) <= 1024
                && (2 * (t * 1024 - 10 * n) == 1024 || 2 * (t * 1024 - 10 * n) == -1024 ==> t % 2
                == 0),
        1024 * 1024 <= n <= 0x20_0000_0000_0000 ==> exists|t: nat| #[trigger]
            is_tenths_text(size_text(n), t, " MB"@) && -1048576 <= 2 * (t * 1048576 - 10 * n)
                <= 1048576 && (2 * (t * 1048576 - 10 * n) == 1048576 || 2 * (t * 1048576 - 10 * n)
                == -1048576 ==> t % 2 == 0),
        n > 0x20_0000_0000_0000 ==> exists|t: nat| #[trigger]
            is_tenths_text(size_text(n), t, " MB"@) && -1048576 - 20 * 1024 <= 2 * (t * 1048576
                - 10 * n) <= 1048576 + 20 * 1024,
{
    if n >= 1024 {
        let unit: nat = if n >= 1048576 {
            1048576
        } else {
            1024
        };
        let t = tenths(n, unit);
        reveal_with_fuel(float_step, 13);
        let step = float_step(n);
        assert(1 <= step <= 2048);
        if n < 0x20_0000_0000_0000 {
            assert(step == 1);
        }
        nearest_is_half_a_step_off(n, step);
        let f = nearest_float(n);
        assert(n == 0x20_0000_0000_0000 ==> f == n) by {
            if n == 0x20_0000_0000_0000 {
                assert(step == 2);
                assert(n % 2 == 0);
            }
        }
        nearest_is_half_a_step_off(10 * f, unit);
        if unit == 1024 {
            assert(is_tenths_text(size_text(n), t, " KB"@));
        } else {
            assert(is_tenths_text(size_text(n), t, " MB"@));
        }
    }
}

/// Where the floats are two or more apart, a size is that of the float nearest
/// to it, `k` steps of `step`, and the even one of two that are as near.
pub proof fn large_sizes_are_those_of_the_nearest_float(n: nat, step: nat, k: nat)
    requires
        n < 0x1_0000_0000_0000_0000,
        step == 2 || step == 4 || step == 8 || step == 16 || step == 32 || step == 64 || step
            == 128 || step == 256 || step == 512 || step == 1024 || step == 2048,
        0x10_0000_0000_0000 * step <= n < 0x20_0000_0000_0000 * step,
        -(step as int) <= 2 * (k * step - n) <= step,
        2 * (k * step - n) == step || 2 * (k * step - n) == -(step as int) ==> k % 2 == 0,
    ensures
        exists|t: nat| #[trigger]
            is_tenths_text(size_text(n), t, " MB"@) && -1048576 <= 2 * (t * 1048576 - 10 * (k
                * step)) <= 1048576 && (2 * (t * 1048576 - 10 * (k * step)) == 1048576 || 2 * (t
                * 1048576 - 10 * (k * step)) == -1048576 ==> t % 2 == 0),
{
    step_is_the_float_s(n, step);
    nearest_is_half_a_step_off(n, step);
    only_one_is_nearest(n, step, rounded_quotient(n, step), k);
    let f = nearest_float(n);
    assert(f == k * step);
    nearest_is_half_a_step_off(10 * f, 1048576);
    let t = tenths(n, 1048576);
    assert(t * 1048576 - 10 * (k * step) == t * 1048576 - 10 * f);
    assert(n >= MB);
    assert(is_tenths_text(size_text(n), t, " MB"@));
}

proof fn step_is_the_float_s(n: nat, step: nat)
    requires
        step == 1 || step == 2 || step == 4 || step == 8 || step == 16 || step == 32 || step == 64
            || step == 128 || step == 256 || step == 512 || step == 1024 || step == 2048,
        step > 1 ==> 0x10_0000_0000_0000 * step <= n,
        n < 0x20_0000_0000_0000 * step,
    ensures
        float_step(n) == step,
    decreases step,
{
    if step > 1 {
        step_is_the_float_s(n / 2, step / 2);
    }
}

proof fn only_one_is_nearest(n: nat, step: nat, a: nat, b: nat)
    requires
        step > 0,
        -(step as int) <= 2 * (a * step - n) <= step,
        2 * (a * step - n) == step || 2 * (a * step - n) == -(step as int) ==> a % 2 == 0,
        -(step as int) <= 2 * (b * step - n) <= step,
        2 * (b * step - n) == step || 2 * (b * step - n) == -(step as int) ==> b % 2 == 0,
    ensures
        a == b,
{
    let d = a - b;
    assert(d * step == a * step - b * step) by (nonlinear_arith)
        requires
            d == a - b,
    ;
    assert(d >= 2 ==> d * step >= 2 * step) by (nonlinear_arith)
        requires
            step > 0,
    ;
    assert(d <= -2 ==> d * step <= -2 * step) by (nonlinear_arith)
        requires
            step > 0,
    ;
    assert(d == 1 ==> d * step == step) by (nonlinear_arith);
    assert(d == -1 ==> d * step == -step) by (nonlinear_arith);
    assert(-1 <= d <= 1);
}

/// `text` is `t` tenths, with one digit after the point, and then `unit`.
pub open spec fn is_tenths_text(text: Seq<char>, t: nat, unit: Seq<char>) -> bool {
    text == decimal(t / 10) + "."@ + decimal(t % 10) + unit
}

proof fn nearest_is_half_a_step_off(n: nat, step: nat)
    requires
        step >= 1,
    ensures
        -(step as int) <= 2 * (rounded_quotient(n, step) * step - n) <= step,
        2 * (rounded_quotient(n, step) * step - n) == step || 2 * (rounded_quotient(n, step) * step
            - n) == -(step as int) ==> rounded_quotient(n, step) % 2 == 0,
        step == 1 ==> rounded_quotient(n, step) == n,
        step == 2 && n % 2 == 0 ==> rounded_quotient(n, step) * step == n,
{
    let q = n / step;
    let r = n % step;
    assert(n == q * step + r && 0 <= r < step) by (nonlinear_arith)
        requires
            step >= 1,
            q == n / step,
            r == n % step,
    ;
    assert((q + 1) * step == q * step + step) by (nonlinear_arith);
}

/// A list's line for a text starts as the text does on one line, behind the
/// number of its lines where there are several. Where there is room, it is all
/// there; where there is not, the line is full and ends in an ellipsis.
pub proof fn previews_show_the_beginning(text: Seq<char>, width: nat)
    ensures
        ({
            let n = lines(pasted(text)).len();
            let whole = if n > 1 {
                "["@ + decimal(n) + "L] "@ + flattened(text)
            } else {
                flattened(text)
            };
            let shown = preview(text, width);
            &&& whole.len() == 0 ==> shown == "(whitespace)"@
            &&& 0 < whole.len() <= width ==> shown == whole
            &&& whole.len() > width && width > 0 ==> shown.len() == width && shown.last() == '…'
                && shown.take(width - 1) == whole.take(width - 1)
            &&& whole.len() > 0 && width == 0 ==> shown == seq!['…']
        }),
{
    let n = lines(pasted(text)).len();
    let whole = if n > 1 {
        "["@ + decimal(n) + "L] "@ + flattened(text)
    } else {
        flattened(text)
    };
    let shown = preview(text, width);
    assert(badged(text) == whole);
    if whole.len() > width {
        if width > 0 {
            assert(shown.take(width - 1) =~= whole.take(width - 1));
        } else {
            assert(shown =~= seq!['…']);
        }
    }
}

/// An image's line names its dimensions and its size, whatever the width; a
/// text's line is its preview.
pub proof fn labels_name_what_they_stand_for(e: EntryView, width: nat)
    ensures
        e.content matches ContentView::Text(t) ==> label(e, width) == preview(t, width),
        e.content matches ContentView::Image { w, h, bytes } ==> label(e, width) == "[IMG "@
            + decimal(w as nat) + "x"@ + decimal(h as nat) + " · "@ + size_text(bytes as nat)
            + "]"@,
{
}

} // verus!
