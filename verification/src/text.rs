//! Character-level helpers used by the parsers and matchers of this crate.
//!
//! Text is handled as sequences of `char`; every helper here is stated over
//! `Seq<char>`, the view of `str` and `String`.

use vstd::prelude::*;

verus! {

broadcast use vstd::string::group_string_axioms;

/// `p` occurs in `s` starting at index `i`.
pub open spec fn occurs_at(s: Seq<char>, p: Seq<char>, i: int) -> bool {
    &&& 0 <= i
    &&& i + p.len() <= s.len()
    &&& s.subrange(i, i + p.len()) == p
}

/// `p` occurs somewhere in `s`.
pub open spec fn seq_contains(s: Seq<char>, p: Seq<char>) -> bool {
    exists|i: int| occurs_at(s, p, i)
}

/// `p` is a prefix of `s`.
pub open spec fn seq_starts_with(s: Seq<char>, p: Seq<char>) -> bool {
    occurs_at(s, p, 0)
}

/// `p` is a suffix of `s`.
pub open spec fn seq_ends_with(s: Seq<char>, p: Seq<char>) -> bool {
    occurs_at(s, p, s.len() - p.len())
}

/// The first index at or after `from` where `p` occurs in `s`, if any.
pub open spec fn first_occurrence_from(s: Seq<char>, p: Seq<char>, from: int) -> Option<int> {
    if exists|i: int| from <= i && occurs_at(s, p, i) {
        Some(choose|i: int| from <= i && occurs_at(s, p, i) && forall|j: int| from <= j < i ==> !occurs_at(s, p, j))
    } else {
        None
    }
}

/// The characters that Unicode gives the `White_Space` property, which is
/// what `char::is_whitespace` tests for.
pub open spec fn is_space(c: char) -> bool {
    let n = c as u32;
    ||| 9 <= n <= 13
    ||| n == 32
    ||| n == 0x85
    ||| n == 0xA0
    ||| n == 0x1680
    ||| 0x2000 <= n <= 0x200A
    ||| n == 0x2028
    ||| n == 0x2029
    ||| n == 0x202F
    ||| n == 0x205F
    ||| n == 0x3000
}

/// Number of leading white-space characters of `s`.
pub open spec fn leading_space(s: Seq<char>) -> nat
    decreases s.len(),
{
    if s.len() > 0 && is_space(s[0]) {
        1 + leading_space(s.drop_first())
    } else {
        0
    }
}

/// Number of trailing white-space characters of `s`.
pub open spec fn trailing_space(s: Seq<char>) -> nat
    decreases s.len(),
{
    if s.len() > 0 && is_space(s.last()) {
        1 + trailing_space(s.drop_last())
    } else {
        0
    }
}

/// `s` without its trailing white space (what `str::trim_end` gives).
pub open spec fn trim_end(s: Seq<char>) -> Seq<char> {
    s.subrange(0, s.len() - trailing_space(s))
}

/// `s` without its leading white space (what `str::trim_start` gives).
pub open spec fn trim_start(s: Seq<char>) -> Seq<char> {
    s.subrange(leading_space(s) as int, s.len() as int)
}

/// `s` without leading and trailing white space (what `str::trim` gives).
pub open spec fn trim(s: Seq<char>) -> Seq<char> {
    trim_end(trim_start(s))
}

/// ASCII characters are those below 128.
pub open spec fn is_ascii_char(c: char) -> bool {
    (c as u32) < 128
}

/// ASCII letters and digits.
pub open spec fn is_ascii_alnum(c: char) -> bool {
    let n = c as u32;
    ||| 48 <= n <= 57
    ||| 65 <= n <= 90
    ||| 97 <= n <= 122
}

/// The lower-case form of an ASCII character (others are left as they are).
pub open spec fn ascii_lower(c: char) -> char {
    let n = c as u32;
    if 65 <= n <= 90 {
        ((n + 32) as u32) as char
    } else {
        c
    }
}

/// What `str::to_lowercase` returns for `s`: Unicode's lower-case mapping.
pub uninterp spec fn lowercase(s: Seq<char>) -> Seq<char>;

/// What `char::is_alphanumeric` returns for `c`: whether Unicode calls it
/// alphabetic or numeric.
pub uninterp spec fn unicode_alphanumeric(c: char) -> bool;

/// Whether `c` is white space (what `char::is_whitespace` tests): one of
/// the `White_Space` characters that `is_space` lists.
pub(crate) fn char_is_whitespace(c: char) -> (r: bool)
    ensures
        r == is_space(c),
{
    let n = c as u32;
    (9 <= n && n <= 13) || n == 32 || n == 0x85 || n == 0xA0 || n == 0x1680
        || (0x2000 <= n && n <= 0x200A) || n == 0x2028 || n == 0x2029 || n == 0x202F
        || n == 0x205F || n == 0x3000
}

/// `std::primitive::char::is_alphanumeric`. Its result is named
/// `unicode_alphanumeric`; on ASCII characters the documentation fixes it to
/// the ASCII letters and digits. Beyond ASCII nothing more is stated.
#[verifier::external_body]
pub(crate) fn char_is_alphanumeric(c: char) -> (r: bool)
    ensures
        r == unicode_alphanumeric(c),
        is_ascii_char(c) ==> (r == is_ascii_alnum(c)),
{
    c.is_alphanumeric()
}

/// `str::to_lowercase`. Its result is named `lowercase`; the documentation
/// fixes it on ASCII text, where each letter is mapped to its lower-case form
/// and nothing else changes. Beyond ASCII only the name is stated.
#[verifier::external_body]
pub(crate) fn to_lowercase(s: &str) -> (r: String)
    ensures
        r@ == lowercase(s@),
        (forall|i: int| 0 <= i < s@.len() ==> is_ascii_char(#[trigger] s@[i])) ==> r@ == s@.map_values(|c: char| ascii_lower(c)),
{
    s.to_lowercase()
}

/// `String::push`: appends one character.
#[verifier::external_body]
pub(crate) fn push_char(s: &mut String, c: char)
    ensures
        final(s)@ == old(s)@.push(c),
{
    s.push(c)
}

/// The characters of `s`, in order.
pub fn chars_of(s: &str) -> (v: Vec<char>)
    ensures
        v@ == s@,
{
    let mut v: Vec<char> = Vec::new();
    for c in it: s.chars()
        invariant
            v@ == it.seq().take(it.index() as int),
            it.seq() == s@,
    {
        v.push(c);
    }
    v
}

/// The string made of the characters `v[from..to]`.
pub fn string_of(v: &[char], from: usize, to: usize) -> (s: String)
    requires
        from <= to <= v@.len(),
    ensures
        s@ == v@.subrange(from as int, to as int),
{
    let mut s = String::new();
    let mut i = from;
    while i < to
        invariant
            from <= i <= to <= v@.len(),
            s@ == v@.subrange(from as int, i as int),
        decreases to - i,
    {
        push_char(&mut s, v[i]);
        assert(v@.subrange(from as int, i + 1) == v@.subrange(from as int, i as int).push(v@[i as int]));
        i += 1;
    }
    s
}

/// Whether `p` occurs in `s` at index `i`.
pub fn occurs_at_exec(s: &[char], p: &[char], i: usize) -> (r: bool)
    ensures
        r == occurs_at(s@, p@, i as int),
{
    let n = s.len();
    if p.len() > n || i > n - p.len() {
        return false;
    }
    let mut k: usize = 0;
    while k < p.len()
        invariant
            n == s@.len(),
            i + p@.len() <= s@.len(),
            k <= p@.len(),
            forall|j: int| 0 <= j < k ==> s@[i + j] == p@[j],
        decreases p.len() - k,
    {
        if s[i + k] != p[k] {
            assert(s@.subrange(i as int, i + p@.len())[k as int] != p@[k as int]);
            return false;
        }
        k += 1;
    }
    assert(s@.subrange(i as int, i + p@.len()) =~= p@);
    true
}

/// Whether `s` starts with `p`.
pub fn starts_with(s: &[char], p: &[char]) -> (r: bool)
    ensures
        r == seq_starts_with(s@, p@),
{
    occurs_at_exec(s, p, 0)
}

/// Whether `s` ends with `p`.
pub fn ends_with(s: &[char], p: &[char]) -> (r: bool)
    ensures
        r == seq_ends_with(s@, p@),
{
    if p.len() > s.len() {
        return false;
    }
    occurs_at_exec(s, p, s.len() - p.len())
}

/// The first index at or after `from` where `p` occurs in `s`.
pub fn find_from(s: &[char], p: &[char], from: usize) -> (r: Option<usize>)
    ensures
        match r {
            Some(i) => {
                &&& from <= i
                &&& occurs_at(s@, p@, i as int)
                &&& forall|j: int| from <= j < i ==> !occurs_at(s@, p@, j)
                &&& first_occurrence_from(s@, p@, from as int) == Some(i as int)
            },
            None => {
                &&& forall|j: int| from <= j ==> !occurs_at(s@, p@, j)
                &&& first_occurrence_from(s@, p@, from as int) is None
            },
        },
{
    let n = s.len();
    if p.len() > n || from > n - p.len() {
        assert forall|j: int| from <= j implies !occurs_at(s@, p@, j) by {}
        return None;
    }
    let last = n - p.len();
    let mut i = from;
    while i <= last
        invariant
            n == s@.len(),
            last == n - p@.len(),
            from <= i,
            forall|j: int| from <= j < i ==> !occurs_at(s@, p@, j),
        decreases last + 1 - i,
    {
        if occurs_at_exec(s, p, i) {
            let ghost w = i as int;
            assert(from <= w && occurs_at(s@, p@, w) && forall|j: int| from <= j < w ==> !occurs_at(s@, p@, j));
            let ghost c = choose|k: int| from <= k && occurs_at(s@, p@, k) && forall|j: int| from <= j < k ==> !occurs_at(s@, p@, j);
            assert(c == w) by {
                if c < w {
                } else if c > w {
                }
            }
            return Some(i);
        }
        if i == last {
            assert forall|j: int| from <= j implies !occurs_at(s@, p@, j) by {
                if j > i {
                    assert(j + p@.len() > s@.len());
                }
            }
            return None;
        }
        i += 1;
    }
    None
}

/// Whether `p` occurs anywhere in `s`.
pub fn contains(s: &[char], p: &[char]) -> (r: bool)
    ensures
        r == seq_contains(s@, p@),
{
    let f = find_from(s, p, 0);
    match f {
        Some(i) => true,
        None => {
            assert forall|j: int| !occurs_at(s@, p@, j) by {
                if 0 <= j {
                }
            }
            false
        },
    }
}

/// Whether the two character sequences are equal.
pub fn chars_eq(a: &[char], b: &[char]) -> (r: bool)
    ensures
        r == (a@ == b@),
{
    if a.len() != b.len() {
        return false;
    }
    let r = occurs_at_exec(a, b, 0);
    proof {
        assert(a@.subrange(0, a@.len() as int) =~= a@);
    }
    r
}

/// Index of the first non-white-space character of `s[..end]`, or `end`.
pub fn skip_space_from(s: &[char], start: usize, end: usize) -> (r: usize)
    requires
        start <= end <= s@.len(),
    ensures
        start <= r <= end,
        r == start + leading_space(s@.subrange(start as int, end as int)),
{
    let mut i = start;
    while i < end && char_is_whitespace(s[i])
        invariant
            start <= i <= end <= s@.len(),
            leading_space(s@.subrange(start as int, end as int)) == (i - start) + leading_space(s@.subrange(i as int, end as int)),
        decreases end - i,
    {
        assert(s@.subrange(i + 1, end as int) =~= s@.subrange(i as int, end as int).drop_first());
        i += 1;
    }
    i
}

/// Index one past the last non-white-space character of `s[start..end]`, or `start`.
pub fn trim_end_index(s: &[char], start: usize, end: usize) -> (r: usize)
    requires
        start <= end <= s@.len(),
    ensures
        start <= r <= end,
        r == end - trailing_space(s@.subrange(start as int, end as int)),
{
    let mut j = end;
    while j > start && char_is_whitespace(s[j - 1])
        invariant
            start <= j <= end <= s@.len(),
            trailing_space(s@.subrange(start as int, end as int)) == (end - j) + trailing_space(s@.subrange(start as int, j as int)),
        decreases j - start,
    {
        assert(s@.subrange(start as int, j - 1) =~= s@.subrange(start as int, j as int).drop_last());
        j -= 1;
    }
    j
}

/// Bounds `(a, b)` such that `v[a..b]` is `v` trimmed of white space.
pub fn trim_bounds(v: &[char]) -> (r: (usize, usize))
    ensures
        r.0 <= r.1 <= v@.len(),
        v@.subrange(r.0 as int, r.1 as int) == trim(v@),
{
    let n = v.len();
    let a = skip_space_from(v, 0, n);
    assert(v@.subrange(0, n as int) =~= v@);
    let b = trim_end_index(v, a, n);
    assert(v@.subrange(a as int, b as int) =~= trim_start(v@).subrange(0, trim_start(v@).len() - trailing_space(trim_start(v@))));
    (a, b)
}

/// The characters of `s` without leading and trailing white space.
pub fn trimmed_chars(s: &str) -> (v: Vec<char>)
    ensures
        v@ == trim(s@),
{
    let all = chars_of(s);
    let (a, b) = trim_bounds(&all);
    let mut v: Vec<char> = Vec::new();
    let mut i = a;
    while i < b
        invariant
            a <= i <= b <= all@.len(),
            v@ == all@.subrange(a as int, i as int),
        decreases b - i,
    {
        v.push(all[i]);
        assert(all@.subrange(a as int, i + 1) == all@.subrange(a as int, i as int).push(all@[i as int]));
        i += 1;
    }
    v
}

/// Whether `lit` occurs in `m`.
pub fn has_text(m: &[char], lit: &str) -> (r: bool)
    ensures
        r == seq_contains(m@, lit@),
{
    contains(m, &chars_of(lit))
}

/// Whether `m` starts with `lit`.
pub fn begins_with(m: &[char], lit: &str) -> (r: bool)
    ensures
        r == seq_starts_with(m@, lit@),
{
    starts_with(m, &chars_of(lit))
}

/// Whether `m` ends with `lit`.
pub fn finishes_with(m: &[char], lit: &str) -> (r: bool)
    ensures
        r == seq_ends_with(m@, lit@),
{
    ends_with(m, &chars_of(lit))
}

/// Whether `m` is exactly `lit`.
pub fn is_text(m: &[char], lit: &str) -> (r: bool)
    ensures
        r == (m@ == lit@),
{
    chars_eq(m, &chars_of(lit))
}

/// `String::push_str`: appends `t`.
#[verifier::external_body]
pub(crate) fn push_str(s: &mut String, t: &str)
    ensures
        final(s)@ == old(s)@ + t@,
{
    s.push_str(t)
}

/// Whether the two strings hold the same characters.
pub fn same_text(a: &str, b: &str) -> (r: bool)
    ensures
        r == (a@ == b@),
{
    chars_eq(&chars_of(a), &chars_of(b))
}

/// `a`, then `b`, as one string.
pub fn join2(a: &str, b: &str) -> (s: String)
    ensures
        s@ == a@ + b@,
{
    let mut s = a.to_string();
    push_str(&mut s, b);
    s
}

/// `a`, then `b`, then `c`, as one string.
pub fn join3(a: &str, b: &str, c: &str) -> (s: String)
    ensures
        s@ == a@ + b@ + c@,
{
    let mut s = a.to_string();
    push_str(&mut s, b);
    push_str(&mut s, c);
    s
}

/// The first index of `c` in `s`, if any.
pub open spec fn index_of(s: Seq<char>, c: char) -> Option<int>
    decreases s.len(),
{
    if s.len() == 0 {
        None
    } else if s[0] == c {
        Some(0)
    } else {
        match index_of(s.drop_first(), c) {
            Some(i) => Some(i + 1),
            None => None,
        }
    }
}

/// The pieces of `s` between the occurrences of `sep` (what `str::split`
/// with a character gives): always at least one piece.
pub open spec fn split_on(s: Seq<char>, sep: char) -> Seq<Seq<char>>
    decreases s.len(),
{
    match index_of(s, sep) {
        None => seq![s],
        Some(i) => if 0 <= i < s.len() {
            seq![s.subrange(0, i)] + split_on(s.subrange(i + 1, s.len() as int), sep)
        } else {
            seq![s]
        },
    }
}

pub(crate) proof fn lemma_index_of(s: Seq<char>, c: char)
    ensures
        match index_of(s, c) {
            Some(i) => 0 <= i < s.len() && s[i] == c && forall|j: int| 0 <= j < i ==> s[j] != c,
            None => forall|j: int| 0 <= j < s.len() ==> s[j] != c,
        },
    decreases s.len(),
{
    if s.len() > 0 && s[0] != c {
        lemma_index_of(s.drop_first(), c);
        match index_of(s.drop_first(), c) {
            Some(i) => {
                assert forall|j: int| 0 <= j < i + 1 implies s[j] != c by {
                    if j > 0 {
                        assert(s[j] == s.drop_first()[j - 1]);
                    }
                }
            },
            None => {
                assert forall|j: int| 0 <= j < s.len() implies s[j] != c by {
                    if j > 0 {
                        assert(s[j] == s.drop_first()[j - 1]);
                    }
                }
            },
        }
    }
}

/// The first index of `c` in `s[from..]`, counted from the start of `s`.
fn index_from(s: &[char], c: char, from: usize) -> (r: Option<usize>)
    requires
        from <= s@.len(),
    ensures
        match r {
            Some(i) => index_of(s@.subrange(from as int, s@.len() as int), c) == Some(i - from),
            None => index_of(s@.subrange(from as int, s@.len() as int), c) is None,
        },
{
    let mut k = from;
    while k < s.len()
        invariant
            from <= k <= s@.len(),
            forall|j: int| from <= j < k ==> s@[j] != c,
        decreases s.len() - k,
    {
        if s[k] == c {
            let ghost t = s@.subrange(from as int, s@.len() as int);
            proof {
                lemma_index_of(t, c);
                match index_of(t, c) {
                    Some(i) => {
                        if i < k - from {
                            assert(t[i] == s@[from + i]);
                        } else if i > k - from {
                            assert(t[k - from] == s@[k as int]);
                        }
                    },
                    None => {
                        assert(t[k - from] == s@[k as int]);
                    },
                }
            }
            return Some(k);
        }
        k += 1;
    }
    proof {
        let t = s@.subrange(from as int, s@.len() as int);
        lemma_index_of(t, c);
        match index_of(t, c) {
            Some(i) => {
                assert(t[i] == s@[from + i]);
            },
            None => {},
        }
    }
    None
}

/// The characters `s[from..to]`.
pub fn slice_chars(s: &[char], from: usize, to: usize) -> (v: Vec<char>)
    requires
        from <= to <= s@.len(),
    ensures
        v@ == s@.subrange(from as int, to as int),
{
    let mut v: Vec<char> = Vec::new();
    let mut i = from;
    while i < to
        invariant
            from <= i <= to <= s@.len(),
            v@ == s@.subrange(from as int, i as int),
        decreases to - i,
    {
        v.push(s[i]);
        assert(s@.subrange(from as int, i + 1) == s@.subrange(from as int, i as int).push(s@[i as int]));
        i += 1;
    }
    v
}

/// The pieces of `s` between the occurrences of `sep`.
pub fn split_chars(s: &[char], sep: char) -> (pieces: Vec<Vec<char>>)
    ensures
        pieces@.len() == split_on(s@, sep).len(),
        forall|i: int| 0 <= i < pieces@.len() ==> #[trigger] pieces@[i]@ == split_on(s@, sep)[i],
{
    let mut pieces: Vec<Vec<char>> = Vec::new();
    let mut start: usize = 0;
    assert(s@.subrange(0, s@.len() as int) =~= s@);
    loop
        invariant
            start <= s@.len(),
            pieces@.len() + split_on(s@.subrange(start as int, s@.len() as int), sep).len() == split_on(s@, sep).len(),
            forall|i: int| 0 <= i < pieces@.len() ==> #[trigger] pieces@[i]@ == split_on(s@, sep)[i],
            forall|i: int| 0 <= i < split_on(s@.subrange(start as int, s@.len() as int), sep).len() ==>
                #[trigger] split_on(s@.subrange(start as int, s@.len() as int), sep)[i] == split_on(s@, sep)[pieces@.len() + i],
        decreases s.len() - start,
    {
        let ghost rest = s@.subrange(start as int, s@.len() as int);
        match index_from(s, sep, start) {
            None => {
                let piece = slice_chars(s, start, s.len());
                assert(split_on(rest, sep) == seq![rest]);
                assert(split_on(rest, sep)[0] == split_on(s@, sep)[pieces@.len() as int]);
                pieces.push(piece);
                return pieces;
            },
            Some(k) => {
                proof {
                    lemma_index_of(rest, sep);
                }
                let piece = slice_chars(s, start, k);
                let ghost i = k - start;
                assert(rest.subrange(0, i) =~= s@.subrange(start as int, k as int));
                assert(rest.subrange(i + 1, rest.len() as int) =~= s@.subrange(k + 1, s@.len() as int));
                assert(split_on(rest, sep) == seq![rest.subrange(0, i)] + split_on(rest.subrange(i + 1, rest.len() as int), sep));
                assert(split_on(rest, sep)[0] == split_on(s@, sep)[pieces@.len() as int]);
                let ghost old_len = pieces@.len();
                pieces.push(piece);
                start = k + 1;
                proof {
                    let nr = s@.subrange(start as int, s@.len() as int);
                    assert forall|j: int| 0 <= j < split_on(nr, sep).len() implies
                        #[trigger] split_on(nr, sep)[j] == split_on(s@, sep)[pieces@.len() + j] by {
                        assert(split_on(rest, sep)[j + 1] == split_on(nr, sep)[j]);
                    }
                }
            },
        }
    }
}

/// `v` trimmed of white space, as a string.
pub fn trimmed_string(v: &[char]) -> (s: String)
    ensures
        s@ == trim(v@),
{
    let (a, b) = trim_bounds(v);
    string_of(v, a, b)
}

/// Each piece of `s` between occurrences of `sep`, trimmed.
pub open spec fn trimmed_fields(s: Seq<char>, sep: char) -> Seq<Seq<char>> {
    split_on(s, sep).map_values(|p: Seq<char>| trim(p))
}

/// The pieces of `s` between occurrences of `sep`, each trimmed.
pub fn split_trimmed(s: &[char], sep: char) -> (fields: Vec<String>)
    ensures
        fields@.len() == trimmed_fields(s@, sep).len(),
        forall|i: int| 0 <= i < fields@.len() ==> #[trigger] fields@[i]@ == trimmed_fields(s@, sep)[i],
{
    let pieces = split_chars(s, sep);
    let mut fields: Vec<String> = Vec::new();
    let mut i: usize = 0;
    while i < pieces.len()
        invariant
            i <= pieces@.len(),
            pieces@.len() == split_on(s@, sep).len(),
            forall|j: int| 0 <= j < pieces@.len() ==> #[trigger] pieces@[j]@ == split_on(s@, sep)[j],
            fields@.len() == i,
            forall|j: int| 0 <= j < i ==> #[trigger] fields@[j]@ == trimmed_fields(s@, sep)[j],
        decreases pieces.len() - i,
    {
        assert(pieces@[i as int]@ == split_on(s@, sep)[i as int]);
        fields.push(trimmed_string(&pieces[i]));
        i += 1;
    }
    fields
}

} // verus!
