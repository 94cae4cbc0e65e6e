//! The fuzzy filter: case-insensitive subsequence match, without scoring.
use vstd::prelude::*;

use crate::text::chars_of;

verus! {

/// What `char::to_lowercase` yields for `c`.
pub uninterp spec fn lowered(c: char) -> Seq<char>;

/// `char::to_lowercase`: the lowercase mapping of one character, which may be
/// several characters. On ASCII, the letters `A` to `Z` map to `a` to `z` and
/// every other character maps to itself.
#[verifier::external_body]
fn lowercase_of(c: char) -> (v: Vec<char>)
    ensures
        v@ == lowered(c),
        (c as u32) < 128 ==> v@ == seq![ascii_lowered(c)],
{
    c.to_lowercase().collect()
}

/// The lowercase form of an ASCII character.
pub open spec fn ascii_lowered(c: char) -> char {
    if 'A' <= c <= 'Z' {
        (c as u32 + 32) as char
    } else {
        c
    }
}

pub open spec fn is_ascii_text(s: Seq<char>) -> bool {
    forall|i: int| 0 <= i < s.len() ==> (#[trigger] s[i] as u32) < 128
}

/// The ASCII characters of `s` have their ASCII lowercase forms.
pub open spec fn lowers_ascii(s: Seq<char>) -> bool {
    forall|i: int|
        0 <= i < s.len() && (#[trigger] s[i] as u32) < 128 ==> lowered(s[i]) == seq![
            ascii_lowered(s[i]),
        ]
}

/// The two are the same but for the case of ASCII letters.
pub open spec fn same_but_ascii_case(a: Seq<char>, b: Seq<char>) -> bool {
    &&& a.len() == b.len()
    &&& forall|i: int|
        0 <= i < a.len() ==> (#[trigger] a[i]) == b[i] || ((a[i] as u32) < 128 && (b[i] as u32)
            < 128 && ascii_lowered(a[i]) == ascii_lowered(b[i]))
}

/// `s` in lowercase, character by character.
pub open spec fn lowercase(s: Seq<char>) -> Seq<char>
    decreases s.len(),
{
    if s.len() == 0 {
        Seq::empty()
    } else {
        lowercase(s.drop_last()) + lowered(s.last())
    }
}

/// `at` lists, in ascending order, the positions of `b` where the characters
/// of `a` stand.
pub open spec fn embeds(at: Seq<int>, a: Seq<char>, b: Seq<char>) -> bool {
    &&& at.len() == a.len()
    &&& forall|i: int| 0 <= i < at.len() ==> 0 <= #[trigger] at[i] < b.len() && b[at[i]] == a[i]
    &&& forall|i: int, j: int| 0 <= i < j < at.len() ==> #[trigger] at[i] < #[trigger] at[j]
}

/// Every character of `a` appears in `b`, in order.
pub open spec fn is_subsequence(a: Seq<char>, b: Seq<char>) -> bool {
    exists|at: Seq<int>| embeds(at, a, b)
}

/// Whether the filter `needle` lets `haystack` through.
pub open spec fn matches_filter(needle: Seq<char>, haystack: Seq<char>) -> bool {
    is_subsequence(lowercase(needle), lowercase(haystack))
}

proof fn subsequence_of_equal_heads(a: Seq<char>, b: Seq<char>)
    requires
        a.len() > 0,
        b.len() > 0,
        a[0] == b[0],
    ensures
        is_subsequence(a, b) == is_subsequence(a.skip(1), b.skip(1)),
{
    if is_subsequence(a, b) {
        let at = choose|at: Seq<int>| embeds(at, a, b);
        let rest = Seq::new((at.len() - 1) as nat, |i: int| at[i + 1] - 1);
        assert forall|i: int| 0 <= i < rest.len() implies 0 <= #[trigger] rest[i] < b.skip(1).len()
            && b.skip(1)[rest[i]] == a.skip(1)[i] by {
            assert(at[0] < at[i + 1]);
        }
        assert(embeds(rest, a.skip(1), b.skip(1)));
    }
    if is_subsequence(a.skip(1), b.skip(1)) {
        let rest = choose|at: Seq<int>| embeds(at, a.skip(1), b.skip(1));
        let at = Seq::new(rest.len() + 1, |i: int| if i == 0 { 0 } else { rest[i - 1] + 1 });
        assert forall|i: int| 0 <= i < at.len() implies 0 <= #[trigger] at[i] < b.len() && b[at[i]]
            == a[i] by {
            if i > 0 {
                assert(b.skip(1)[rest[i - 1]] == a.skip(1)[i - 1]);
            }
        }
        assert(embeds(at, a, b));
    }
}

proof fn subsequence_of_different_heads(a: Seq<char>, b: Seq<char>)
    requires
        a.len() > 0,
        b.len() > 0,
        a[0] != b[0],
    ensures
        is_subsequence(a, b) == is_subsequence(a, b.skip(1)),
{
    if is_subsequence(a, b) {
        let at = choose|at: Seq<int>| embeds(at, a, b);
        let rest = Seq::new(at.len(), |i: int| at[i] - 1);
        assert forall|i: int| 0 <= i < rest.len() implies 0 <= #[trigger] rest[i] < b.skip(1).len()
            && b.skip(1)[rest[i]] == a[i] by {
            assert(at[0] != 0);
            if i > 0 {
                assert(at[0] < at[i]);
            }
        }
        assert(embeds(rest, a, b.skip(1)));
    }
    if is_subsequence(a, b.skip(1)) {
        let rest = choose|at: Seq<int>| embeds(at, a, b.skip(1));
        let at = Seq::new(rest.len(), |i: int| rest[i] + 1);
        assert forall|i: int| 0 <= i < at.len() implies 0 <= #[trigger] at[i] < b.len() && b[at[i]]
            == a[i] by {
            assert(b.skip(1)[rest[i]] == a[i]);
        }
        assert(embeds(at, a, b));
    }
}

/// Whether every character of `needle` appears in `haystack`, in order.
pub fn contains_in_order(needle: &[char], haystack: &[char]) -> (r: bool)
    ensures
        r == is_subsequence(needle@, haystack@),
{
    let mut i: usize = 0;
    let mut j: usize = 0;
    assert(needle@.skip(0) =~= needle@);
    assert(haystack@.skip(0) =~= haystack@);
    while i < needle.len() && j < haystack.len()
        invariant
            i <= needle@.len(),
            j <= haystack@.len(),
            is_subsequence(needle@, haystack@) == is_subsequence(
                needle@.skip(i as int),
                haystack@.skip(j as int),
            ),
        decreases haystack@.len() - j,
    {
        proof {
            let a = needle@.skip(i as int);
            let b = haystack@.skip(j as int);
            assert(a.skip(1) =~= needle@.skip(i + 1));
            assert(b.skip(1) =~= haystack@.skip(j + 1));
            if a[0] == b[0] {
                subsequence_of_equal_heads(a, b);
            } else {
                subsequence_of_different_heads(a, b);
            }
        }
        if needle[i] == haystack[j] {
            i += 1;
        }
        j += 1;
    }
    let found = i == needle.len();
    proof {
        let a = needle@.skip(i as int);
        let b = haystack@.skip(j as int);
        if found {
            assert(embeds(Seq::<int>::empty(), a, b));
        } else if is_subsequence(a, b) {
            let at = choose|at: Seq<int>| embeds(at, a, b);
            assert(0 <= at[0] < b.len());
        }
    }
    found
}

/// `s` in lowercase, as a list of characters.
fn lowercase_chars(s: &str) -> (v: Vec<char>)
    ensures
        v@ == lowercase(s@),
        lowers_ascii(s@),
        is_ascii_text(s@) ==> v@ == s@.map_values(|c: char| ascii_lowered(c)),
{
    let chars = chars_of(s);
    let mut v: Vec<char> = Vec::new();
    let mut i: usize = 0;
    while i < chars.len()
        invariant
            chars@ == s@,
            i <= chars@.len(),
            v@ == lowercase(s@.take(i as int)),
            forall|j: int|
                0 <= j < i && (#[trigger] s@[j] as u32) < 128 ==> lowered(s@[j]) == seq![
                    ascii_lowered(s@[j]),
                ],
            is_ascii_text(s@) ==> v@ == s@.take(i as int).map_values(|c: char| ascii_lowered(c)),
        decreases chars@.len() - i,
    {
        assert(s@.take(i + 1).drop_last() =~= s@.take(i as int));
        let mut low = lowercase_of(chars[i]);
        proof {
            if is_ascii_text(s@) {
                assert((s@[i as int] as u32) < 128);
                assert(v@ + low@ =~= s@.take(i + 1).map_values(|c: char| ascii_lowered(c)));
            }
        }
        v.append(&mut low);
        i += 1;
    }
    assert(s@.take(i as int) =~= s@);
    v
}

/// Case-insensitive subsequence match (fzf-style, no scoring): every
/// character of `needle` appears in `haystack`, in order.
pub fn fuzzy_match(needle: &str, haystack: &str) -> (r: bool)
    ensures
        r == matches_filter(needle@, haystack@),
        lowers_ascii(needle@),
        lowers_ascii(haystack@),
        r <==> exists|at: Seq<int>|
            #[trigger] at.len() == lowercase(needle@).len() && (forall|i: int|
                0 <= i < at.len() ==> 0 <= #[trigger] at[i] < lowercase(haystack@).len()
                    && lowercase(haystack@)[at[i]] == lowercase(needle@)[i]) && (forall|i: int, j: int|
                0 <= i < j < at.len() ==> #[trigger] at[i] < #[trigger] at[j]),
        is_ascii_text(needle@) && is_ascii_text(haystack@) ==> r == is_subsequence(
            needle@.map_values(|c: char| ascii_lowered(c)),
            haystack@.map_values(|c: char| ascii_lowered(c)),
        ),
{
    let needle_low = lowercase_chars(needle);
    let haystack_low = lowercase_chars(haystack);
    proof {
        a_match_is_an_embedding(needle@, haystack@);
    }
    contains_in_order(needle_low.as_slice(), haystack_low.as_slice())
}

/// A filter lets a text through exactly where its lowercase characters stand in
/// the text's, at ascending positions.
pub proof fn a_match_is_an_embedding(needle: Seq<char>, haystack: Seq<char>)
    ensures
        matches_filter(needle, haystack) <==> exists|at: Seq<int>|
            #[trigger] at.len() == lowercase(needle).len() && (forall|i: int|
                0 <= i < at.len() ==> 0 <= #[trigger] at[i] < lowercase(haystack).len()
                    && lowercase(haystack)[at[i]] == lowercase(needle)[i]) && (forall|
                i: int,
                j: int,
            |
                0 <= i < j < at.len() ==> #[trigger] at[i] < #[trigger] at[j]),
{
    let (a, b) = (lowercase(needle), lowercase(haystack));
    if matches_filter(needle, haystack) {
        let at = choose|at: Seq<int>| embeds(at, a, b);
        assert(at.len() == a.len());
    }
    if exists|at: Seq<int>|
        #[trigger] at.len() == a.len() && (forall|i: int|
            0 <= i < at.len() ==> 0 <= #[trigger] at[i] < b.len() && b[at[i]] == a[i]) && (forall|
            i: int,
            j: int,
        |
            0 <= i < j < at.len() ==> #[trigger] at[i] < #[trigger] at[j]) {
        let at = choose|at: Seq<int>|
            #[trigger] at.len() == a.len() && (forall|i: int|
                0 <= i < at.len() ==> 0 <= #[trigger] at[i] < b.len() && b[at[i]] == a[i]) && (
            forall|i: int, j: int| 0 <= i < j < at.len() ==> #[trigger] at[i] < #[trigger] at[j]);
        assert(embeds(at, a, b));
    }
}

/// A text that lacks a character of the filter, or is too short for it, does
/// not pass.
pub proof fn nothing_missing_passes(needle: Seq<char>, haystack: Seq<char>, c: char)
    ensures
        matches_filter(needle, haystack) ==> lowercase(needle).len() <= lowercase(haystack).len(),
        matches_filter(needle, haystack) && lowercase(needle).contains(c) ==> lowercase(
            haystack,
        ).contains(c),
    decreases lowercase(haystack).len(),
{
    let (a, b) = (lowercase(needle), lowercase(haystack));
    if is_subsequence(a, b) {
        subsequence_is_no_longer(a, b);
        let at = choose|at: Seq<int>| embeds(at, a, b);
        if a.contains(c) {
            let i = choose|i: int| 0 <= i < a.len() && a[i] == c;
            assert(b[at[i]] == c);
        }
    }
}

proof fn subsequence_is_no_longer(a: Seq<char>, b: Seq<char>)
    requires
        is_subsequence(a, b),
    ensures
        a.len() <= b.len(),
    decreases a.len(),
{
    let at = choose|at: Seq<int>| embeds(at, a, b);
    if a.len() > 0 {
        let n = at.len() - 1;
        let front = at.drop_last();
        let rest = b.take(at[n]);
        assert forall|i: int| 0 <= i < front.len() implies 0 <= #[trigger] front[i] < rest.len()
            && rest[front[i]] == a.drop_last()[i] by {
            assert(at[i] < at[n]);
        }
        assert(embeds(front, a.drop_last(), rest));
        subsequence_is_no_longer(a.drop_last(), rest);
    }
}

/// Lowercasing takes every character, one after the other.
pub proof fn lowercasing_takes_every_character(a: Seq<char>, c: char, b: Seq<char>)
    ensures
        lowercase(Seq::empty()).len() == 0,
        lowercase(seq![c]) == lowered(c),
        lowercase(a.push(c)) == lowercase(a) + lowered(c),
        lowercase(a + b) == lowercase(a) + lowercase(b),
{
    lowercase_of_concatenation(a, b);
    assert(a.push(c).drop_last() =~= a);
    assert(seq![c].drop_last() =~= Seq::<char>::empty());
    assert(seq![c].last() == c);
    assert(lowercase(seq![c]) == lowercase(seq![c].drop_last()) + lowered(c));
    assert(Seq::<char>::empty() + lowered(c) =~= lowered(c));
}

/// The ASCII letters have the lowercase forms that they are known by, and the
/// other ASCII characters have themselves.
pub proof fn ascii_lowercase_is_as_known(s: Seq<char>, c: char, i: int)
    ensures
        'A' <= c <= 'Z' ==> ascii_lowered(c) as u32 == c as u32 + 32,
        !('A' <= c <= 'Z') ==> ascii_lowered(c) == c,
        lowers_ascii(s) && 0 <= i < s.len() && 'A' <= s[i] <= 'Z' ==> lowered(s[i]).len() == 1
            && lowered(s[i])[0] as u32 == s[i] as u32 + 32,
        lowers_ascii(s) && 0 <= i < s.len() && s[i] as u32 <= 127 && !('A' <= s[i] <= 'Z')
            ==> lowered(s[i]) == seq![s[i]],
        is_ascii_text(s) <==> forall|k: int| 0 <= k < s.len() ==> (#[trigger] s[k] as u32) <= 127,
{
}

/// An empty filter lets everything through.
pub proof fn empty_filter_matches_everything(haystack: Seq<char>)
    ensures
        matches_filter(Seq::empty(), haystack),
{
    assert(embeds(Seq::<int>::empty(), lowercase(Seq::empty()), lowercase(haystack)));
}

/// Appending on both sides keeps a subsequence.
proof fn subsequences_concatenate(a1: Seq<char>, b1: Seq<char>, a2: Seq<char>, b2: Seq<char>)
    requires
        is_subsequence(a1, b1),
        is_subsequence(a2, b2),
    ensures
        is_subsequence(a1 + a2, b1 + b2),
{
    let at1 = choose|at: Seq<int>| embeds(at, a1, b1);
    let at2 = choose|at: Seq<int>| embeds(at, a2, b2);
    let at = Seq::new(
        at1.len() + at2.len(),
        |i: int|
            if i < at1.len() {
                at1[i]
            } else {
                at2[i - at1.len()] + b1.len()
            },
    );
    assert(embeds(at, a1 + a2, b1 + b2));
}

/// Every text is a subsequence of itself.
proof fn subsequence_is_reflexive(a: Seq<char>)
    ensures
        is_subsequence(a, a),
{
    assert(embeds(Seq::new(a.len(), |i: int| i), a, a));
}

/// A subsequence of a subsequence is a subsequence.
proof fn subsequence_is_transitive(a: Seq<char>, b: Seq<char>, c: Seq<char>)
    requires
        is_subsequence(a, b),
        is_subsequence(b, c),
    ensures
        is_subsequence(a, c),
{
    let ab = choose|at: Seq<int>| embeds(at, a, b);
    let bc = choose|at: Seq<int>| embeds(at, b, c);
    let ac = Seq::new(ab.len(), |i: int| bc[ab[i]]);
    assert forall|i: int| 0 <= i < ac.len() implies 0 <= #[trigger] ac[i] < c.len() && c[ac[i]]
        == a[i] by {
        assert(0 <= ab[i] < b.len());
    }
    assert forall|i: int, j: int| 0 <= i < j < ac.len() implies #[trigger] ac[i]
        < #[trigger] ac[j] by {
        assert(ab[i] < ab[j]);
        assert(0 <= ab[i] < b.len() && 0 <= ab[j] < b.len());
    }
    assert(embeds(ac, a, c));
}

/// Lowercasing keeps a subsequence.
proof fn lowercase_keeps_subsequence(a: Seq<char>, b: Seq<char>)
    requires
        is_subsequence(a, b),
    ensures
        is_subsequence(lowercase(a), lowercase(b)),
    decreases b.len(),
{
    let at = choose|at: Seq<int>| embeds(at, a, b);
    if a.len() == 0 {
        assert(embeds(Seq::<int>::empty(), lowercase(a), lowercase(b)));
    } else if at.last() == b.len() - 1 {
        let front = at.drop_last();
        assert forall|i: int| 0 <= i < front.len() implies 0 <= #[trigger] front[i]
            < b.drop_last().len() && b.drop_last()[front[i]] == a.drop_last()[i] by {
            assert(at[i] < at[at.len() - 1]);
        }
        assert(embeds(front, a.drop_last(), b.drop_last()));
        lowercase_keeps_subsequence(a.drop_last(), b.drop_last());
        assert(a.last() == b.last());
        subsequence_is_reflexive(lowered(a.last()));
        subsequences_concatenate(
            lowercase(a.drop_last()),
            lowercase(b.drop_last()),
            lowered(a.last()),
            lowered(b.last()),
        );
    } else {
        assert forall|i: int| 0 <= i < at.len() implies 0 <= #[trigger] at[i] < b.drop_last().len()
            && b.drop_last()[at[i]] == a[i] by {
            if i < at.len() - 1 {
                assert(at[i] < at[at.len() - 1]);
            }
        }
        assert(embeds(at, a, b.drop_last()));
        lowercase_keeps_subsequence(a, b.drop_last());
        assert(embeds(Seq::<int>::empty(), Seq::<char>::empty(), lowered(b.last())));
        subsequences_concatenate(
            lowercase(a),
            lowercase(b.drop_last()),
            Seq::empty(),
            lowered(b.last()),
        );
        assert(lowercase(a) + Seq::<char>::empty() =~= lowercase(a));
    }
}

/// A filter whose characters all appear in a text, in order and as they are
/// written, lets that text through.
pub proof fn literal_subsequence_matches(needle: Seq<char>, haystack: Seq<char>)
    requires
        is_subsequence(needle, haystack),
    ensures
        matches_filter(needle, haystack),
{
    lowercase_keeps_subsequence(needle, haystack);
}

/// A filter that is part of a text lets that text through.
pub proof fn literal_substring_matches(before: Seq<char>, needle: Seq<char>, after: Seq<char>)
    ensures
        matches_filter(needle, before + needle + after),
{
    let haystack = before + needle + after;
    let at = Seq::new(needle.len(), |i: int| before.len() + i);
    assert(embeds(at, needle, haystack));
    literal_subsequence_matches(needle, haystack);
}

/// The filter looks at lowercase forms only.
pub proof fn matching_ignores_case(
    needle: Seq<char>,
    other_needle: Seq<char>,
    haystack: Seq<char>,
    other_haystack: Seq<char>,
)
    requires
        lowercase(needle) == lowercase(other_needle),
        lowercase(haystack) == lowercase(other_haystack),
    ensures
        matches_filter(needle, haystack) == matches_filter(other_needle, other_haystack),
{
}

/// Lowercasing goes character by character.
proof fn lowercase_of_concatenation(a: Seq<char>, b: Seq<char>)
    ensures
        lowercase(a + b) == lowercase(a) + lowercase(b),
    decreases b.len(),
{
    if b.len() == 0 {
        assert(a + b =~= a);
        assert(lowercase(a) + lowercase(b) =~= lowercase(a));
    } else {
        assert((a + b).drop_last() =~= a + b.drop_last());
        lowercase_of_concatenation(a, b.drop_last());
        assert(lowercase(a + b) =~= lowercase(a) + lowercase(b));
    }
}

/// A text passes the filter that spells it.
pub proof fn matching_is_reflexive(a: Seq<char>)
    ensures
        matches_filter(a, a),
{
    subsequence_is_reflexive(lowercase(a));
}

/// What passes a filter passes every filter that the first one passes.
pub proof fn matching_is_transitive(a: Seq<char>, b: Seq<char>, c: Seq<char>)
    requires
        matches_filter(a, b),
        matches_filter(b, c),
    ensures
        matches_filter(a, c),
{
    subsequence_is_transitive(lowercase(a), lowercase(b), lowercase(c));
}

/// What passes a filter passes each beginning of it.
pub proof fn beginning_of_filter_matches(a: Seq<char>, x: Seq<char>, b: Seq<char>)
    requires
        matches_filter(a + x, b),
    ensures
        matches_filter(a, b),
{
    literal_substring_matches(Seq::empty(), a, x);
    assert(Seq::<char>::empty() + a + x =~= a + x);
    matching_is_transitive(a, a + x, b);
}

/// Filters and texts that match can be strung together.
pub proof fn matching_concatenates(a: Seq<char>, b: Seq<char>, x: Seq<char>, y: Seq<char>)
    requires
        matches_filter(a, b),
        matches_filter(x, y),
    ensures
        matches_filter(a + x, b + y),
{
    lowercase_of_concatenation(a, x);
    lowercase_of_concatenation(b, y);
    subsequences_concatenate(lowercase(a), lowercase(b), lowercase(x), lowercase(y));
}

proof fn lowercase_ignores_ascii_case(a: Seq<char>, b: Seq<char>)
    requires
        same_but_ascii_case(a, b),
        lowers_ascii(a),
        lowers_ascii(b),
    ensures
        lowercase(a) == lowercase(b),
    decreases a.len(),
{
    if a.len() > 0 {
        let (c, d) = (a.drop_last(), b.drop_last());
        assert forall|i: int| 0 <= i < c.len() implies (#[trigger] c[i]) == d[i] || ((c[i] as u32)
            < 128 && (d[i] as u32) < 128 && ascii_lowered(c[i]) == ascii_lowered(d[i])) by {
            assert(a[i] == c[i]);
        }
        assert forall|i: int| 0 <= i < c.len() && (#[trigger] c[i] as u32) < 128 implies lowered(
            c[i],
        ) == seq![ascii_lowered(c[i])] by {
            assert(a[i] == c[i]);
        }
        assert forall|i: int| 0 <= i < d.len() && (#[trigger] d[i] as u32) < 128 implies lowered(
            d[i],
        ) == seq![ascii_lowered(d[i])] by {
            assert(b[i] == d[i]);
        }
        lowercase_ignores_ascii_case(c, d);
        let n = a.len() - 1;
        assert(a[n] == a.last() && b[n] == b.last());
        assert(lowered(a[n]) == lowered(b[n]));
    } else {
        assert(a =~= b);
    }
}

/// The case of ASCII letters never matters, on either side, whatever other
/// characters stand around them. That ASCII characters have their ASCII
/// lowercase forms is what each call of `fuzzy_match` finds.
pub proof fn ascii_case_never_matters(
    needle: Seq<char>,
    other_needle: Seq<char>,
    haystack: Seq<char>,
    other_haystack: Seq<char>,
)
    ensures
        same_but_ascii_case(needle, other_needle) && same_but_ascii_case(haystack, other_haystack)
            && lowers_ascii(needle) && lowers_ascii(other_needle) && lowers_ascii(haystack)
            && lowers_ascii(other_haystack) ==> matches_filter(needle, haystack) == matches_filter(
            other_needle,
            other_haystack,
        ),
{
    if same_but_ascii_case(needle, other_needle) && same_but_ascii_case(haystack, other_haystack)
        && lowers_ascii(needle) && lowers_ascii(other_needle) && lowers_ascii(haystack)
        && lowers_ascii(other_haystack) {
        lowercase_ignores_ascii_case(needle, other_needle);
        lowercase_ignores_ascii_case(haystack, other_haystack);
    }
}

/// Typing one more character lets nothing new through.
pub proof fn longer_filter_matches_less(needle: Seq<char>, c: char, haystack: Seq<char>)
    requires
        matches_filter(needle.push(c), haystack),
    ensures
        matches_filter(needle, haystack),
{
    assert(needle.push(c).drop_last() =~= needle);
    let low = lowercase(needle);
    assert(embeds(Seq::new(low.len(), |i: int| i), low, lowercase(needle.push(c))));
    subsequence_is_transitive(low, lowercase(needle.push(c)), lowercase(haystack));
}

} // verus!
