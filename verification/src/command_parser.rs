//! Movement commands embedded in model replies: bracket tags such as
//! `[navigate:bed]`, `[coords:1,2,3]` or `[move:1,0,-1]`.
//!
//! A bracket tag is a `[`, one or more characters other than `]`, and the
//! first `]` after them; tags are found left to right without overlapping
//! (the matches of the pattern `\[([^\]]+)\]`).

use vstd::prelude::*;
use crate::text::{leading_space, trailing_space, trim_start, is_space, chars_of, split_on, trimmed_fields, split_trimmed, split_chars, trimmed_string, seq_contains, contains, seq_starts_with, starts_with, string_of, trim, trim_end, trim_bounds, trim_end_index};

verus! {

/// The first index at or after `k` that holds `]`.
pub open spec fn next_close(s: Seq<char>, k: int) -> Option<int>
    decreases s.len() - k,
{
    if k < 0 || k >= s.len() {
        None
    } else if s[k] == ']' {
        Some(k)
    } else {
        next_close(s, k + 1)
    }
}

/// The end (one past the `]`) of the tag that starts at `i`, if one does.
pub open spec fn tag_at(s: Seq<char>, i: int) -> Option<int> {
    if 0 <= i < s.len() && s[i] == '[' {
        match next_close(s, i + 1) {
            Some(j) => if j > i + 1 { Some(j + 1) } else { None },
            None => None,
        }
    } else {
        None
    }
}

/// The leftmost tag starting at or after `p`: its start and end.
pub open spec fn next_tag(s: Seq<char>, p: int) -> Option<(int, int)>
    decreases s.len() - p,
{
    if p < 0 || p >= s.len() {
        None
    } else {
        match tag_at(s, p) {
            Some(e) => Some((p, e)),
            None => next_tag(s, p + 1),
        }
    }
}

/// The tag prefixes that mark movement commands.
pub open spec fn is_command_tag(content: Seq<char>) -> bool {
    ||| seq_starts_with(content, "navigate:"@)
    ||| seq_starts_with(content, "location:"@)
    ||| seq_starts_with(content, "coords:"@)
    ||| seq_starts_with(content, "coordinates:"@)
    ||| seq_starts_with(content, "move:"@)
}

/// The text kept so far when a command tag `[a..b)` is cut out, given the
/// text kept before it, the end of the previous cut and the whole reply:
/// the text up to the tag without trailing blanks, then one space when the
/// kept text does not end in one and the tag is followed by something other
/// than a space.
pub open spec fn cut_tag(s: Seq<char>, kept: Seq<char>, last_end: int, a: int, b: int) -> Seq<char> {
    let k = kept + trim_end(s.subrange(last_end, a));
    if k.len() > 0 && k.last() != ' ' && b < s.len() && s[b] != ' ' {
        k.push(' ')
    } else {
        k
    }
}

/// The reply from `p` on with its command tags cut out, given the text kept
/// so far and where the last cut ended.
pub open spec fn strip_from(s: Seq<char>, p: int, last_end: int, kept: Seq<char>) -> Seq<char>
    decreases s.len() - p,
{
    if p < 0 || p > s.len() {
        kept
    } else {
        match next_tag(s, p) {
            None => kept + s.subrange(last_end, s.len() as int),
            Some((a, b)) => if b <= p || b > s.len() {
                kept
            } else if is_command_tag(s.subrange(a + 1, b - 1)) {
                strip_from(s, b, b, cut_tag(s, kept, last_end, a, b))
            } else {
                strip_from(s, b, last_end, kept)
            },
        }
    }
}

/// The reply with its movement tags removed and its ends trimmed.
pub open spec fn strip_commands_spec(s: Seq<char>) -> Seq<char> {
    trim(strip_from(s, 0, 0, Seq::empty()))
}

proof fn lemma_next_close_bounds(s: Seq<char>, k: int)
    requires
        0 <= k,
    ensures
        match next_close(s, k) {
            Some(j) => k <= j < s.len() && s[j] == ']' && forall|t: int| k <= t < j ==> s[t] != ']',
            None => forall|t: int| k <= t < s.len() ==> s[t] != ']',
        },
    decreases s.len() - k,
{
    if k < 0 || k >= s.len() {
    } else if s[k] == ']' {
    } else {
        lemma_next_close_bounds(s, k + 1);
    }
}

proof fn lemma_next_tag_bounds(s: Seq<char>, p: int)
    requires
        0 <= p,
    ensures
        match next_tag(s, p) {
            Some((a, b)) => p <= a && a + 2 < b <= s.len() && tag_at(s, a) == Some(b),
            None => true,
        },
    decreases s.len() - p,
{
    if p < 0 || p >= s.len() {
    } else {
        match tag_at(s, p) {
            Some(e) => {
                lemma_next_close_bounds(s, p + 1);
            },
            None => {
                lemma_next_tag_bounds(s, p + 1);
            },
        }
    }
}

/// None of the tags met scanning `s` from `p` on (left to right, without
/// overlap) is a movement command.
pub open spec fn tags_clean_from(s: Seq<char>, p: int) -> bool
    decreases s.len() - p,
{
    if p < 0 || p >= s.len() {
        true
    } else {
        match next_tag(s, p) {
            None => true,
            Some((a, b)) => if b <= p || b > s.len() {
                true
            } else {
                !is_command_tag(s.subrange(a + 1, b - 1)) && tags_clean_from(s, b)
            },
        }
    }
}

/// The text holds no movement tag.
pub open spec fn no_command_tags(s: Seq<char>) -> bool {
    tags_clean_from(s, 0)
}

/// Every `[` from `q` on has a `]` somewhere after it.
pub open spec fn no_open_bracket(s: Seq<char>, q: int) -> bool {
    forall|i: int| q <= i < s.len() && s[i] == '[' ==> #[trigger] next_close(s, i + 1) is Some
}

/// Scanning `s` from `q` meets no movement tag and ends with no `[` that
/// text appended later could close.
pub open spec fn settled_from(s: Seq<char>, q: int) -> bool
    decreases s.len() - q,
{
    if q < 0 || q >= s.len() {
        true
    } else {
        match next_tag(s, q) {
            None => no_open_bracket(s, q),
            Some((a, b)) => if b <= q || b > s.len() {
                true
            } else {
                !is_command_tag(s.subrange(a + 1, b - 1)) && settled_from(s, b)
            },
        }
    }
}

pub(crate) proof fn close_found(v: Seq<char>, k: int, j: int)
    requires
        0 <= k <= j < v.len(),
        v[j] == ']',
        forall|t: int| k <= t < j ==> v[t] != ']',
    ensures
        next_close(v, k) == Some(j),
    decreases j - k,
{
    if k < j {
        close_found(v, k + 1, j);
    }
}

proof fn close_shift(x: Seq<char>, y: Seq<char>, k: int)
    requires
        0 <= k,
    ensures
        next_close(x + y, x.len() + k) == match next_close(y, k) {
            Some(j) => Some(x.len() + j),
            None => None::<int>,
        },
    decreases y.len() - k,
{
    if k < y.len() {
        assert((x + y)[x.len() + k] == y[k]);
        if y[k] != ']' {
            close_shift(x, y, k + 1);
            assert(x.len() + k + 1 == x.len() + (k + 1));
        }
    }
}

proof fn tag_at_shift(x: Seq<char>, y: Seq<char>, k: int)
    requires
        0 <= k,
    ensures
        tag_at(x + y, x.len() + k) == match tag_at(y, k) {
            Some(e) => Some(x.len() + e),
            None => None::<int>,
        },
{
    close_shift(x, y, k + 1);
    assert(x.len() + k + 1 == x.len() + (k + 1));
    if k < y.len() {
        assert((x + y)[x.len() + k] == y[k]);
    }
}

proof fn next_tag_shift(x: Seq<char>, y: Seq<char>, k: int)
    requires
        0 <= k,
    ensures
        next_tag(x + y, x.len() + k) == match next_tag(y, k) {
            Some((a, b)) => Some((x.len() + a, x.len() + b)),
            None => None::<(int, int)>,
        },
    decreases y.len() - k,
{
    if k < y.len() {
        tag_at_shift(x, y, k);
        if tag_at(y, k) is None {
            next_tag_shift(x, y, k + 1);
            assert(x.len() + k + 1 == x.len() + (k + 1));
        }
    }
}

proof fn clean_shift(x: Seq<char>, y: Seq<char>, k: int)
    requires
        0 <= k,
    ensures
        tags_clean_from(x + y, x.len() + k) == tags_clean_from(y, k),
    decreases y.len() - k,
{
    if k < y.len() {
        next_tag_shift(x, y, k);
        lemma_next_tag_bounds(y, k);
        match next_tag(y, k) {
            Some((a, b)) => {
                assert((x + y).subrange(x.len() + a + 1, x.len() + b - 1) =~= y.subrange(a + 1, b - 1));
                clean_shift(x, y, b);
            },
            None => {},
        }
    }
}

proof fn settled_shift(x: Seq<char>, y: Seq<char>, k: int)
    requires
        0 <= k,
    ensures
        settled_from(x + y, x.len() + k) == settled_from(y, k),
    decreases y.len() - k,
{
    if k < y.len() {
        next_tag_shift(x, y, k);
        lemma_next_tag_bounds(y, k);
        match next_tag(y, k) {
            Some((a, b)) => {
                assert((x + y).subrange(x.len() + a + 1, x.len() + b - 1) =~= y.subrange(a + 1, b - 1));
                settled_shift(x, y, b);
            },
            None => {
                let w = x + y;
                if no_open_bracket(y, k) {
                    assert forall|i: int| x.len() + k <= i < w.len() && w[i] == '[' implies #[trigger] next_close(w, i + 1) is Some by {
                        close_shift(x, y, i - x.len() + 1);
                        assert(next_close(y, i - x.len() + 1) is Some);
                    }
                }
                if no_open_bracket(w, x.len() + k) {
                    assert forall|i: int| k <= i < y.len() && y[i] == '[' implies #[trigger] next_close(y, i + 1) is Some by {
                        close_shift(x, y, i + 1);
                        assert(w[x.len() + i] == y[i]);
                        assert(next_close(w, x.len() + i + 1) is Some);
                    }
                }
            },
        }
    }
}

proof fn close_prefix(x: Seq<char>, y: Seq<char>, k: int)
    requires
        0 <= k,
        next_close(x, k) is Some,
    ensures
        next_close(x + y, k) == next_close(x, k),
    decreases x.len() - k,
{
    if k < x.len() {
        assert((x + y)[k] == x[k]);
        if x[k] != ']' {
            close_prefix(x, y, k + 1);
        }
    }
}

/// The end of a tag at `a` closes it: its last character is `]`.
proof fn tag_close(s: Seq<char>, a: int, b: int)
    requires
        0 <= a,
        tag_at(s, a) == Some(b),
    ensures
        a + 2 < b <= s.len(),
        s[a] == '[',
        s[b - 1] == ']',
        next_close(s, a + 1) == Some(b - 1),
        forall|t: int| a + 1 <= t < b - 1 ==> s[t] != ']',
{
    lemma_next_close_bounds(s, a + 1);
}

proof fn settled_step(x: Seq<char>, q: int)
    requires
        0 <= q < x.len(),
        settled_from(x, q),
        tag_at(x, q) is None,
    ensures
        settled_from(x, q + 1),
{
    lemma_next_tag_bounds(x, q + 1);
}

proof fn settled_prefix_next_tag(x: Seq<char>, y: Seq<char>, q: int)
    requires
        0 <= q <= x.len(),
        settled_from(x, q),
    ensures
        next_tag(x + y, q) == match next_tag(x, q) {
            Some(t) => Some(t),
            None => match next_tag(y, 0) {
                Some((a, b)) => Some((x.len() + a, x.len() + b)),
                None => None::<(int, int)>,
            },
        },
    decreases x.len() - q,
{
    if q == x.len() {
        next_tag_shift(x, y, 0);
    } else {
        assert((x + y)[q] == x[q]);
        match tag_at(x, q) {
            Some(e) => {
                tag_close(x, q, e);
                close_prefix(x, y, q + 1);
            },
            None => {
                if x[q] == '[' {
                    lemma_next_close_bounds(x, q + 1);
                    lemma_next_tag_bounds(x, q);
                    match next_tag(x, q) {
                        Some((a, b)) => {
                            tag_close(x, a, b);
                        },
                        None => {
                            assert(next_close(x, q + 1) is Some);
                        },
                    }
                    close_prefix(x, y, q + 1);
                }
                settled_step(x, q);
                settled_prefix_next_tag(x, y, q + 1);
            },
        }
    }
}

proof fn settled_concat_clean(x: Seq<char>, y: Seq<char>, q: int)
    requires
        0 <= q <= x.len(),
        settled_from(x, q),
        tags_clean_from(y, 0),
    ensures
        tags_clean_from(x + y, q),
    decreases x.len() - q,
{
    if q == x.len() {
        clean_shift(x, y, 0);
    } else {
        settled_prefix_next_tag(x, y, q);
        lemma_next_tag_bounds(x, q);
        match next_tag(x, q) {
            Some((a, b)) => {
                assert((x + y).subrange(a + 1, b - 1) =~= x.subrange(a + 1, b - 1));
                settled_concat_clean(x, y, b);
            },
            None => {
                lemma_next_tag_bounds(y, 0);
                match next_tag(y, 0) {
                    Some((a, b)) => {
                        assert((x + y).subrange(x.len() + a + 1, x.len() + b - 1) =~= y.subrange(a + 1, b - 1));
                        clean_shift(x, y, b);
                    },
                    None => {},
                }
            },
        }
    }
}

proof fn settled_concat(x: Seq<char>, y: Seq<char>, q: int)
    requires
        0 <= q <= x.len(),
        settled_from(x, q),
        settled_from(y, 0),
    ensures
        settled_from(x + y, q),
    decreases x.len() - q,
{
    if q == x.len() {
        settled_shift(x, y, 0);
    } else {
        settled_prefix_next_tag(x, y, q);
        lemma_next_tag_bounds(x, q);
        match next_tag(x, q) {
            Some((a, b)) => {
                assert((x + y).subrange(a + 1, b - 1) =~= x.subrange(a + 1, b - 1));
                settled_concat(x, y, b);
            },
            None => {
                lemma_next_tag_bounds(y, 0);
                match next_tag(y, 0) {
                    Some((a, b)) => {
                        assert((x + y).subrange(x.len() + a + 1, x.len() + b - 1) =~= y.subrange(a + 1, b - 1));
                        settled_shift(x, y, b);
                    },
                    None => {
                        let w = x + y;
                        assert forall|i: int| q <= i < w.len() && w[i] == '[' implies #[trigger] next_close(w, i + 1) is Some by {
                            if i < x.len() {
                                assert(x[i] == '[');
                                assert(next_close(x, i + 1) is Some);
                                close_prefix(x, y, i + 1);
                            } else {
                                assert(y[i - x.len()] == '[');
                                assert(no_open_bracket(y, 0));
                                assert(next_close(y, i - x.len() + 1) is Some);
                                close_shift(x, y, i - x.len() + 1);
                            }
                        }
                    },
                }
            },
        }
    }
}

/// Text with no bracket in it.
pub open spec fn bracket_free(z: Seq<char>) -> bool {
    forall|i: int| 0 <= i < z.len() ==> z[i] != '[' && z[i] != ']'
}

proof fn close_junk(t: Seq<char>, z: Seq<char>, k: int)
    requires
        0 <= k,
        bracket_free(z),
    ensures
        next_close(t + z, k) == next_close(t, k),
    decreases (t + z).len() - k,
{
    if k < (t + z).len() {
        if k < t.len() {
            assert((t + z)[k] == t[k]);
        } else {
            assert((t + z)[k] == z[k - t.len()]);
        }
        if (t + z)[k] != ']' {
            close_junk(t, z, k + 1);
        }
    }
}

proof fn next_tag_junk(t: Seq<char>, z: Seq<char>, q: int)
    requires
        0 <= q,
        bracket_free(z),
    ensures
        next_tag(t + z, q) == next_tag(t, q),
    decreases (t + z).len() - q,
{
    if q < (t + z).len() {
        close_junk(t, z, q + 1);
        if q < t.len() {
            assert((t + z)[q] == t[q]);
        } else {
            assert((t + z)[q] == z[q - t.len()]);
        }
        if tag_at(t + z, q) is None {
            next_tag_junk(t, z, q + 1);
        }
    }
}

proof fn settled_junk(t: Seq<char>, z: Seq<char>, q: int)
    requires
        0 <= q,
        bracket_free(z),
    ensures
        settled_from(t + z, q) == settled_from(t, q),
        tags_clean_from(t + z, q) == tags_clean_from(t, q),
    decreases (t + z).len() - q,
{
    if q < (t + z).len() {
        next_tag_junk(t, z, q);
        lemma_next_tag_bounds(t, q);
        match next_tag(t, q) {
            Some((a, b)) => {
                assert((t + z).subrange(a + 1, b - 1) =~= t.subrange(a + 1, b - 1));
                settled_junk(t, z, b);
            },
            None => {
                let w = t + z;
                if q < t.len() && no_open_bracket(t, q) {
                    assert forall|i: int| q <= i < w.len() && w[i] == '[' implies #[trigger] next_close(w, i + 1) is Some by {
                        if i >= t.len() {
                            assert(w[i] == z[i - t.len()]);
                        }
                        assert(w[i] == t[i]);
                        close_junk(t, z, i + 1);
                    }
                }
                if no_open_bracket(w, q) {
                    assert forall|i: int| q <= i < t.len() && t[i] == '[' implies #[trigger] next_close(t, i + 1) is Some by {
                        assert(w[i] == t[i]);
                        close_junk(t, z, i + 1);
                    }
                }
                if q >= t.len() {
                    assert forall|i: int| q <= i < w.len() && w[i] == '[' implies #[trigger] next_close(w, i + 1) is Some by {
                        assert(w[i] == z[i - t.len()]);
                    }
                }
            },
        }
    }
}

proof fn no_tag_before(s: Seq<char>, p: int, i: int)
    requires
        0 <= p <= i,
        next_tag(s, p) matches Some((a, b)) && i < a,
    ensures
        tag_at(s, i) is None,
    decreases i - p,
{
    if p < i {
        if tag_at(s, p) is None {
            no_tag_before(s, p + 1, i);
        }
    }
}

proof fn none_tagged(g: Seq<char>, k: int)
    requires
        0 <= k,
        forall|i: int| k <= i < g.len() ==> #[trigger] tag_at(g, i) is None,
    ensures
        next_tag(g, k) is None,
    decreases g.len() - k,
{
    if k < g.len() {
        assert(tag_at(g, k) is None);
        none_tagged(g, k + 1);
    }
}

/// The text between a scan position and the next tag is settled.
proof fn gap_settled(s: Seq<char>, p: int)
    requires
        0 <= p,
        next_tag(s, p) is Some,
    ensures
        settled_from(s.subrange(p, next_tag(s, p).unwrap().0), 0),
{
    lemma_next_tag_bounds(s, p);
    let (a, b) = next_tag(s, p).unwrap();
    tag_close(s, a, b);
    let g = s.subrange(p, a);
    assert forall|i: int| 0 <= i < g.len() implies #[trigger] tag_at(g, i) is None && (g[i] == '[' ==> next_close(g, i + 1) is Some) by {
        if g[i] == '[' {
            no_tag_before(s, p, p + i);
            lemma_next_close_bounds(s, p + i + 1);
            assert(s[b - 1] == ']');
            assert(next_close(s, p + i + 1) == Some(p + i + 1));
            assert(g[i + 1] == ']');
            close_found(g, i + 1, i + 1);
        }
    }
    none_tagged(g, 0);
    if g.len() > 0 {
        assert forall|i: int| 0 <= i < g.len() && g[i] == '[' implies #[trigger] next_close(g, i + 1) is Some by {
            assert(tag_at(g, i) is None);
        }
    }
}

/// A single tag that is not a movement command is settled.
proof fn tag_settled(s: Seq<char>, a: int, b: int)
    requires
        0 <= a,
        tag_at(s, a) == Some(b),
        !is_command_tag(s.subrange(a + 1, b - 1)),
    ensures
        settled_from(s.subrange(a, b), 0),
{
    tag_close(s, a, b);
    let v = s.subrange(a, b);
    assert forall|t: int| 1 <= t < b - a - 1 implies v[t] != ']' by {
        assert(v[t] == s[a + t]);
    }
    close_found(v, 1, b - a - 1);
    assert(tag_at(v, 0) == Some(b - a));
    assert(next_tag(v, 0) == Some((0int, b - a)));
    assert(v.subrange(1, b - a - 1) =~= s.subrange(a + 1, b - 1));
    assert(settled_from(v, b - a));
}

/// Text with trailing blanks is its trimmed form followed by blanks.
proof fn trailing_blanks(s: Seq<char>)
    ensures
        trailing_space(s) <= s.len(),
        forall|i: int| s.len() - trailing_space(s) <= i < s.len() ==> is_space(#[trigger] s[i]),
        trailing_space(s) < s.len() ==> !is_space(s[s.len() - trailing_space(s) - 1]),
    decreases s.len(),
{
    if s.len() > 0 && is_space(s.last()) {
        trailing_blanks(s.drop_last());
        assert forall|i: int| s.len() - trailing_space(s) <= i < s.len() implies is_space(#[trigger] s[i]) by {
            if i < s.len() - 1 {
                assert(s[i] == s.drop_last()[i]);
            }
        }
        if trailing_space(s) < s.len() {
            assert(s[s.len() - trailing_space(s) - 1] == s.drop_last()[s.drop_last().len() - trailing_space(s.drop_last()) - 1]);
        }
    }
}

/// Text with leading blanks is blanks followed by its trimmed form.
proof fn leading_blanks(s: Seq<char>)
    ensures
        leading_space(s) <= s.len(),
        forall|i: int| 0 <= i < leading_space(s) ==> is_space(#[trigger] s[i]),
        leading_space(s) < s.len() ==> !is_space(s[leading_space(s) as int]),
    decreases s.len(),
{
    if s.len() > 0 && is_space(s[0]) {
        leading_blanks(s.drop_first());
        assert forall|i: int| 0 <= i < leading_space(s) implies is_space(#[trigger] s[i]) by {
            if i > 0 {
                assert(s[i] == s.drop_first()[i - 1]);
            }
        }
        if leading_space(s) < s.len() {
            assert(s[leading_space(s) as int] == s.drop_first()[leading_space(s.drop_first()) as int]);
        }
    }
}

/// Every character of `trim(s)` is a character of `s`, in order.
pub(crate) proof fn lemma_trim_inside(s: Seq<char>, i: int)
    requires
        0 <= i < trim(s).len(),
    ensures
        0 <= leading_space(s) + i < s.len(),
        trim(s)[i] == s[leading_space(s) + i],
{
    leading_blanks(s);
    trailing_blanks(trim_start(s));
}

proof fn blanks_bracket_free(z: Seq<char>)
    requires
        forall|i: int| 0 <= i < z.len() ==> is_space(#[trigger] z[i]),
    ensures
        bracket_free(z),
{
    assert forall|i: int| 0 <= i < z.len() implies z[i] != '[' && z[i] != ']' by {
        assert(is_space(z[i]));
    }
}

/// Dropping trailing blanks keeps a text settled.
proof fn trim_end_settled(w: Seq<char>)
    requires
        settled_from(w, 0),
    ensures
        settled_from(trim_end(w), 0),
{
    trailing_blanks(w);
    let t = trim_end(w);
    let z = w.subrange(t.len() as int, w.len() as int);
    assert(w =~= t + z);
    assert forall|i: int| 0 <= i < z.len() implies is_space(#[trigger] z[i]) by {
        assert(z[i] == w[t.len() + i]);
    }
    blanks_bracket_free(z);
    settled_junk(t, z, 0);
}

/// The text kept when a movement tag is cut out stays settled.
proof fn cut_settled(s: Seq<char>, kept: Seq<char>, last_end: int, p: int)
    requires
        0 <= last_end <= p,
        settled_from(kept, 0),
        settled_from(s.subrange(last_end, p), 0),
        next_tag(s, p) is Some,
    ensures
        settled_from(cut_tag(s, kept, last_end, next_tag(s, p).unwrap().0, next_tag(s, p).unwrap().1), 0),
{
    lemma_next_tag_bounds(s, p);
    let (a, b) = next_tag(s, p).unwrap();
    gap_settled(s, p);
    let seg = s.subrange(last_end, a);
    assert(seg =~= s.subrange(last_end, p) + s.subrange(p, a));
    settled_concat(s.subrange(last_end, p), s.subrange(p, a), 0);
    trim_end_settled(seg);
    let k = kept + trim_end(seg);
    settled_concat(kept, trim_end(seg), 0);
    let sp = seq![' '];
    assert(bracket_free(sp));
    settled_junk(k, sp, 0);
    assert(k.push(' ') =~= k + sp);
}

/// The text scanned past a tag that stays is still settled.
proof fn segment_settled(s: Seq<char>, last_end: int, p: int)
    requires
        0 <= last_end <= p,
        settled_from(s.subrange(last_end, p), 0),
        next_tag(s, p) matches Some((a, b)) && !is_command_tag(s.subrange(a + 1, b - 1)),
    ensures
        settled_from(s.subrange(last_end, next_tag(s, p).unwrap().1), 0),
{
    lemma_next_tag_bounds(s, p);
    let (a, b) = next_tag(s, p).unwrap();
    gap_settled(s, p);
    tag_settled(s, a, b);
    settled_concat(s.subrange(p, a), s.subrange(a, b), 0);
    assert(s.subrange(p, b) =~= s.subrange(p, a) + s.subrange(a, b));
    settled_concat(s.subrange(last_end, p), s.subrange(p, b), 0);
    assert(s.subrange(last_end, b) =~= s.subrange(last_end, p) + s.subrange(p, b));
}

/// What is left after cutting the movement tags out holds none.
pub(crate) proof fn strip_from_clean(s: Seq<char>, p: int, last_end: int, kept: Seq<char>)
    requires
        0 <= last_end <= p <= s.len(),
        settled_from(kept, 0),
        settled_from(s.subrange(last_end, p), 0),
    ensures
        tags_clean_from(strip_from(s, p, last_end, kept), 0),
    decreases s.len() - p,
{
    lemma_next_tag_bounds(s, p);
    match next_tag(s, p) {
        None => {
            let y2 = s.subrange(p, s.len() as int);
            assert(s =~= s.subrange(0, p) + y2);
            next_tag_shift(s.subrange(0, p), y2, 0);
            assert(tags_clean_from(y2, 0));
            let y = s.subrange(last_end, s.len() as int);
            assert(y =~= s.subrange(last_end, p) + y2);
            settled_concat_clean(s.subrange(last_end, p), y2, 0);
            settled_concat_clean(kept, y, 0);
        },
        Some((a, b)) => {
            if is_command_tag(s.subrange(a + 1, b - 1)) {
                cut_settled(s, kept, last_end, p);
                assert(settled_from(s.subrange(b, b), 0));
                strip_from_clean(s, b, b, cut_tag(s, kept, last_end, a, b));
            } else {
                segment_settled(s, last_end, p);
                strip_from_clean(s, b, last_end, kept);
            }
        },
    }
}

proof fn clean_skip(k: Seq<char>, i: int)
    requires
        0 <= i < k.len(),
        k[i] != '[',
        tags_clean_from(k, i),
    ensures
        tags_clean_from(k, i + 1),
{
    lemma_next_tag_bounds(k, i + 1);
}

proof fn clean_skip_blanks(k: Seq<char>, i: int, lead: int)
    requires
        0 <= i <= lead <= k.len(),
        tags_clean_from(k, i),
        forall|j: int| 0 <= j < lead ==> is_space(#[trigger] k[j]),
    ensures
        tags_clean_from(k, lead),
    decreases lead - i,
{
    if i < lead {
        assert(is_space(k[i]));
        clean_skip(k, i);
        clean_skip_blanks(k, i + 1, lead);
    }
}

/// Trimming keeps a text free of movement tags.
pub(crate) proof fn trim_clean(k: Seq<char>)
    requires
        tags_clean_from(k, 0),
    ensures
        tags_clean_from(trim(k), 0),
{
    leading_blanks(k);
    let lead = leading_space(k) as int;
    clean_skip_blanks(k, 0, lead);
    let u = trim_start(k);
    assert(k =~= k.subrange(0, lead) + u);
    clean_shift(k.subrange(0, lead), u, 0);
    trailing_blanks(u);
    let t = trim_end(u);
    let z = u.subrange(t.len() as int, u.len() as int);
    assert(u =~= t + z);
    assert forall|j: int| 0 <= j < z.len() implies is_space(#[trigger] z[j]) by {
        assert(z[j] == u[t.len() + j]);
    }
    blanks_bracket_free(z);
    settled_junk(t, z, 0);
}

/// Cutting movement tags from a text that holds none keeps it whole.
pub(crate) proof fn strip_from_clean_text(r: Seq<char>, p: int, last_end: int, kept: Seq<char>)
    requires
        0 <= last_end <= p <= r.len(),
        tags_clean_from(r, p),
    ensures
        strip_from(r, p, last_end, kept) == kept + r.subrange(last_end, r.len() as int),
    decreases r.len() - p,
{
    lemma_next_tag_bounds(r, p);
    match next_tag(r, p) {
        None => {},
        Some((a, b)) => {
            strip_from_clean_text(r, b, last_end, kept);
        },
    }
}

/// Trimming a trimmed text changes nothing.
pub(crate) proof fn trim_twice(x: Seq<char>)
    ensures
        trim(trim(x)) == trim(x),
{
    leading_blanks(x);
    let u = trim_start(x);
    trailing_blanks(u);
    let t = trim(x);
    if t.len() == 0 {
        assert(trim(t) =~= t);
    } else {
        assert(t[0] == u[0]);
        assert(u[0] == x[leading_space(x) as int]);
        assert(leading_space(t) == 0);
        assert(t.last() == u[u.len() - trailing_space(u) - 1]);
        assert(trailing_space(t) == 0);
        assert(trim_start(t) =~= t);
        assert(trim(t) =~= t);
    }
}

/// The end of the tag that starts at `i`, if one does.
fn tag_end(s: &[char], i: usize) -> (r: Option<usize>)
    ensures
        match r {
            Some(e) => tag_at(s@, i as int) == Some(e as int),
            None => tag_at(s@, i as int) is None,
        },
{
    if i >= s.len() || s[i] != '[' {
        return None;
    }
    let mut j = i + 1;
    while j < s.len() && s[j] != ']'
        invariant
            i + 1 <= j <= s@.len(),
            s@[i as int] == '[',
            next_close(s@, i + 1) == next_close(s@, j as int),
        decreases s.len() - j,
    {
        j += 1;
    }
    if j >= s.len() {
        return None;
    }
    if j > i + 1 {
        Some(j + 1)
    } else {
        None
    }
}

/// The leftmost tag starting at or after `p`.
fn find_tag(s: &[char], p: usize) -> (r: Option<(usize, usize)>)
    ensures
        match r {
            Some((a, b)) => next_tag(s@, p as int) == Some((a as int, b as int)),
            None => next_tag(s@, p as int) is None,
        },
{
    let mut k = p;
    while k < s.len()
        invariant
            p <= k,
            next_tag(s@, p as int) == next_tag(s@, k as int),
        decreases s.len() - k,
    {
        match tag_end(s, k) {
            Some(e) => return Some((k, e)),
            None => {},
        }
        k += 1;
    }
    None
}

/// Whether a tag's content names a movement command.
fn is_command(content: &[char]) -> (r: bool)
    ensures
        r == is_command_tag(content@),
{
    starts_with(content, &chars_of("navigate:")) || starts_with(content, &chars_of("location:"))
        || starts_with(content, &chars_of("coords:")) || starts_with(content, &chars_of("coordinates:"))
        || starts_with(content, &chars_of("move:"))
}

/// Appends `s[from..to]` to `out`.
fn push_range(out: &mut Vec<char>, s: &[char], from: usize, to: usize)
    requires
        from <= to <= s@.len(),
    ensures
        final(out)@ == old(out)@ + s@.subrange(from as int, to as int),
{
    let mut i = from;
    while i < to
        invariant
            from <= i <= to <= s@.len(),
            out@ == old(out)@ + s@.subrange(from as int, i as int),
        decreases to - i,
    {
        out.push(s[i]);
        assert(s@.subrange(from as int, i + 1) == s@.subrange(from as int, i as int).push(s@[i as int]));
        i += 1;
    }
}

/// Parses movement tags out of model replies.
pub struct MovementCommandParser;

impl MovementCommandParser {
    /// A parser.
    pub fn new() -> (p: Self) {
        MovementCommandParser
    }

    /// The reply with its movement tags cut out and its ends trimmed; other
    /// bracketed text stays.
    pub fn strip_commands(response: &str) -> (clean: String)
        ensures
            clean@ == strip_commands_spec(response@),
    {
        let s = chars_of(response);
        let mut kept: Vec<char> = Vec::new();
        let mut last_end: usize = 0;
        let mut p: usize = 0;
        loop
            invariant
                s@ == response@,
                last_end <= p <= s@.len(),
                strip_from(s@, 0, 0, Seq::empty()) == strip_from(s@, p as int, last_end as int, kept@),
            decreases s.len() - p,
        {
            proof {
                lemma_next_tag_bounds(s@, p as int);
            }
            match find_tag(&s, p) {
                None => {
                    let ghost before = kept@;
                    assert(strip_from(s@, p as int, last_end as int, before) == before + s@.subrange(last_end as int, s@.len() as int));
                    push_range(&mut kept, &s, last_end, s.len());
                    let (x, y) = trim_bounds(&kept);
                    return string_of(&kept, x, y);
                },
                Some((a, b)) => {
                    proof {
                        lemma_next_close_bounds(s@, a + 1);
                    }
                    let content_end = b - 1;
                    let mut content: Vec<char> = Vec::new();
                    push_range(&mut content, &s, a + 1, content_end);
                    assert(content@ == s@.subrange(a + 1, b - 1));
                    if is_command(&content) {
                        let ghost before = kept@;
                        let e = trim_end_index(&s, last_end, a);
                        push_range(&mut kept, &s, last_end, e);
                        assert(s@.subrange(last_end as int, e as int) =~= trim_end(s@.subrange(last_end as int, a as int)));
                        assert(kept@ == before + trim_end(s@.subrange(last_end as int, a as int)));
                        if kept.len() > 0 && kept[kept.len() - 1] != ' ' {
                            if b < s.len() && s[b] != ' ' {
                                kept.push(' ');
                            }
                        }
                        last_end = b;
                    }
                    p = b;
                },
            }
        }
    }
}

/// The content of the first tag of the reply, if it has one.
pub open spec fn first_tag_content(s: Seq<char>) -> Option<Seq<char>> {
    match next_tag(s, 0) {
        Some((a, b)) => Some(s.subrange(a + 1, b - 1)),
        None => None,
    }
}

/// The trimmed text between the first and second `:` of a tag's content
/// (empty when it has no `:`).
pub open spec fn field_after_colon(content: Seq<char>) -> Seq<char> {
    let parts = split_on(content, ':');
    if parts.len() > 1 {
        trim(parts[1])
    } else {
        Seq::empty()
    }
}

/// A movement tag with its fields as text; the numbers in them are read by
/// the caller.
#[derive(Debug, Clone, PartialEq, Eq)]
pub enum BracketCommand {
    /// Go to a named place, maybe at a given speed.
    Target { target: String, speed: Option<String> },
    /// Go to coordinates: x, y, z, then maybe a world and a speed.
    Coordinates { fields: Vec<String> },
    /// Move by offsets: dx, dy, dz, then maybe a speed.
    Relative { fields: Vec<String> },
}

/// A movement tag as plain text values.
pub enum BracketView {
    Target(Seq<char>, Option<Seq<char>>),
    Coordinates(Seq<Seq<char>>),
    Relative(Seq<Seq<char>>),
}

/// The tag's plain view.
pub open spec fn bracket_view(c: BracketCommand) -> BracketView {
    match c {
        BracketCommand::Target { target, speed } => BracketView::Target(target@, match speed {
            Some(s) => Some(s@),
            None => None,
        }),
        BracketCommand::Coordinates { fields } => BracketView::Coordinates(fields@.map_values(|f: String| f@)),
        BracketCommand::Relative { fields } => BracketView::Relative(fields@.map_values(|f: String| f@)),
    }
}

/// A coordinate command, when the fields are at least three.
pub open spec fn coordinate_view(inner: Seq<char>) -> Option<BracketView> {
    let f = trimmed_fields(inner, ',');
    if f.len() >= 3 {
        Some(BracketView::Coordinates(f))
    } else {
        None
    }
}

/// The movement command that a tag's content holds, if any.
pub open spec fn classify_tag(re: Seq<char>) -> Option<BracketView> {
    if seq_starts_with(re, "navigate:"@) || seq_starts_with(re, "location:"@) {
        let inner = field_after_colon(re);
        if seq_contains(inner, ","@) {
            coordinate_view(inner)
        } else {
            let parts = split_on(inner, '|');
            Some(BracketView::Target(trim(parts[0]), if parts.len() > 1 { Some(trim(parts[1])) } else { None }))
        }
    } else if seq_starts_with(re, "coords:"@) || seq_starts_with(re, "coordinates:"@) {
        coordinate_view(field_after_colon(re))
    } else if seq_starts_with(re, "move:"@) {
        let f = trimmed_fields(field_after_colon(re), ',');
        if f.len() >= 3 {
            Some(BracketView::Relative(f))
        } else {
            None
        }
    } else {
        None
    }
}

/// `split_on` always yields a first piece.
proof fn index_of_lemma_helper(s: Seq<char>, sep: char) -> (u: ())
    ensures
        split_on(s, sep).len() >= 1,
    decreases s.len(),
{
    match crate::text::index_of(s, sep) {
        None => {},
        Some(i) => {
            if 0 <= i < s.len() {
                index_of_lemma_helper(s.subrange(i + 1, s.len() as int), sep);
            }
        },
    }
}

/// The content of the first tag of the reply.
pub fn regex_inner(response: &str) -> (r: Option<String>)
    ensures
        match r {
            Some(c) => first_tag_content(response@) == Some(c@),
            None => first_tag_content(response@) is None,
        },
{
    let s = chars_of(response);
    match find_tag(&s, 0) {
        None => None,
        Some((a, b)) => {
            proof {
                lemma_next_tag_bounds(s@, 0);
            }
            Some(string_of(&s, a + 1, b - 1))
        },
    }
}

/// The trimmed text between the first and second `:` of `content`.
fn colon_field(content: &[char]) -> (v: Vec<char>)
    ensures
        v@ == field_after_colon(content@),
{
    let parts = split_chars(content, ':');
    if parts.len() > 1 {
        let t = trimmed_string(&parts[1]);
        let v = chars_of(t.as_str());
        v
    } else {
        Vec::new()
    }
}

impl MovementCommandParser {
    /// The movement command of the reply's first tag, with its numbers still
    /// as text.
    pub fn parse_bracket_fields(response: &str) -> (r: Option<BracketCommand>)
        ensures
            match (r, first_tag_content(response@)) {
                (None, None) => true,
                (None, Some(re)) => classify_tag(re) is None,
                (Some(cmd), Some(re)) => classify_tag(re) == Some(bracket_view(cmd)),
                (Some(_), None) => false,
            },
    {
        let re_text = match regex_inner(response) {
            None => return None,
            Some(t) => t,
        };
        let re = chars_of(re_text.as_str());
        if starts_with(&re, &chars_of("navigate:")) || starts_with(&re, &chars_of("location:")) {
            let inner = colon_field(&re);
            if contains(&inner, &chars_of(",")) {
                Self::coordinate_fields(&inner)
            } else {
                let parts = split_chars(&inner, '|');
                proof {
                    index_of_lemma_helper(inner@, '|');
                }
                let target = trimmed_string(&parts[0]);
                let speed = if parts.len() > 1 { Some(trimmed_string(&parts[1])) } else { None };
                Some(BracketCommand::Target { target, speed })
            }
        } else if starts_with(&re, &chars_of("coords:")) || starts_with(&re, &chars_of("coordinates:")) {
            let inner = colon_field(&re);
            Self::coordinate_fields(&inner)
        } else if starts_with(&re, &chars_of("move:")) {
            let inner = colon_field(&re);
            let fields = split_trimmed(&inner, ',');
            if fields.len() >= 3 {
                assert(fields@.map_values(|f: String| f@) =~= trimmed_fields(inner@, ','));
                let r = BracketCommand::Relative { fields };
                proof {
                    assert(bracket_view(r) == BracketView::Relative(trimmed_fields(inner@, ',')));
                }
                Some(r)
            } else {
                None
            }
        } else {
            None
        }
    }

    fn coordinate_fields(inner: &[char]) -> (r: Option<BracketCommand>)
        ensures
            match r {
                Some(cmd) => coordinate_view(inner@) == Some(bracket_view(cmd)),
                None => coordinate_view(inner@) is None,
            },
    {
        let fields = split_trimmed(inner, ',');
        if fields.len() >= 3 {
            assert(fields@.map_values(|f: String| f@) =~= trimmed_fields(inner@, ','));
            let r = BracketCommand::Coordinates { fields };
            proof {
                assert(bracket_view(r) == BracketView::Coordinates(trimmed_fields(inner@, ',')));
            }
            Some(r)
        } else {
            None
        }
    }
}

} // verus!
