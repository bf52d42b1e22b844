//! Movement intentions written in plain English or Spanish ("I will go to
//! the kitchen", "voy a ir a la cama"): the place named after the phrase.

use vstd::prelude::*;
use crate::text::{occurs_at, is_space, char_is_whitespace, lowercase, to_lowercase, chars_of, find_from, first_occurrence_from,
    string_of};

verus! {

/// The words of `s`: its maximal runs of characters that are not white
/// space, in order.
pub open spec fn words(s: Seq<char>) -> Seq<Seq<char>>
    decreases s.len(),
{
    if s.len() == 0 {
        Seq::empty()
    } else {
        let w = words(s.drop_last());
        let c = s.last();
        if is_space(c) {
            w
        } else if s.len() >= 2 && !is_space(s[s.len() - 2]) && w.len() > 0 {
            w.update(w.len() - 1, w.last().push(c))
        } else {
            w.push(seq![c])
        }
    }
}

/// The words joined with single spaces.
pub open spec fn join_words(ws: Seq<Seq<char>>) -> Seq<char>
    decreases ws.len(),
{
    if ws.len() == 0 {
        Seq::empty()
    } else if ws.len() == 1 {
        ws[0]
    } else {
        join_words(ws.drop_last()) + seq![' '] + ws.last()
    }
}

/// `s` without the copies of `c` at its end.
pub open spec fn trim_end_char(s: Seq<char>, c: char) -> Seq<char>
    decreases s.len(),
{
    if s.len() > 0 && s.last() == c {
        trim_end_char(s.drop_last(), c)
    } else {
        s
    }
}

/// The phrases that announce a movement, each followed by the place.
pub open spec fn movement_phrases() -> Seq<Seq<char>> {
    seq![
        "go to the "@, "walk to the "@, "head to the "@, "move to the "@,
        "ir a la "@, "ir al "@, "caminar hasta "@, "moverse a "@, "ir hacia "@,
    ]
}

/// The place named after the first occurrence of `phrase` in the lower-case
/// text `lower`: up to three words, joined with spaces, without trailing
/// `.`, then `,`, then `!`.
pub open spec fn place_after(lower: Seq<char>, phrase: Seq<char>) -> Option<Seq<char>> {
    match first_occurrence_from(lower, phrase, 0) {
        Some(pos) => {
            let after = lower.skip(pos + phrase.len());
            let ws = words(after);
            let first = if ws.len() > 3 { ws.take(3) } else { ws };
            Some(trim_end_char(trim_end_char(trim_end_char(join_words(first), '.'), ','), '!'))
        },
        None => None,
    }
}

/// The place named by the first of `phrases` (from the `k`th on) that
/// occurs in `lower` with a non-empty place after it.
pub open spec fn place_from(lower: Seq<char>, phrases: Seq<Seq<char>>, k: int) -> Option<Seq<char>>
    decreases phrases.len() - k,
{
    if k >= phrases.len() || k < 0 {
        None
    } else {
        match place_after(lower, phrases[k]) {
            Some(t) => if t.len() > 0 { Some(t) } else { place_from(lower, phrases, k + 1) },
            None => place_from(lower, phrases, k + 1),
        }
    }
}

/// The place a response says the NPC moves to, if it says so in words.
pub open spec fn spoken_destination(response: Seq<char>) -> Option<Seq<char>> {
    place_from(lowercase(response), movement_phrases(), 0)
}

/// The words of `s` (see `words`).
pub fn split_words(s: &[char]) -> (ws: Vec<Vec<char>>)
    ensures
        ws@.map_values(|w: Vec<char>| w@) == words(s@),
{
    let mut ws: Vec<Vec<char>> = Vec::new();
    let mut i: usize = 0;
    while i < s.len()
        invariant
            i <= s@.len(),
            ws@.map_values(|w: Vec<char>| w@) == words(s@.take(i as int)),
            i > 0 && !is_space(s@[i - 1]) ==> ws@.len() > 0,
        decreases s.len() - i,
    {
        let c = s[i];
        let ghost t = s@.take(i + 1);
        let ghost before = ws@;
        proof {
            assert(t.drop_last() =~= s@.take(i as int));
            assert(t.last() == c);
            if i >= 1 {
                assert(t[i - 1] == s@[i - 1]);
            }
        }
        if char_is_whitespace(c) {
        } else if i >= 1 && !char_is_whitespace(s[i - 1]) {
            let last = ws.len() - 1;
            let mut w = ws.remove(last);
            w.push(c);
            ws.push(w);
            proof {
                assert(ws@.map_values(|w: Vec<char>| w@) =~= before.map_values(|w: Vec<char>| w@).update(last as int, before[last as int]@.push(c)));
            }
        } else {
            let mut w: Vec<char> = Vec::new();
            w.push(c);
            ws.push(w);
            proof {
                assert(w@ =~= seq![c]);
                assert(ws@.map_values(|w: Vec<char>| w@) =~= before.map_values(|w: Vec<char>| w@).push(seq![c]));
            }
        }
        i += 1;
    }
    proof {
        assert(s@.take(s@.len() as int) =~= s@);
    }
    ws
}

/// The first `n` words joined with single spaces.
fn join_first(ws: &Vec<Vec<char>>, n: usize) -> (s: Vec<char>)
    requires
        n <= ws@.len(),
    ensures
        s@ == join_words(ws@.map_values(|w: Vec<char>| w@).take(n as int)),
{
    let ghost all = ws@.map_values(|w: Vec<char>| w@);
    let mut s: Vec<char> = Vec::new();
    let mut i: usize = 0;
    while i < n
        invariant
            i <= n <= ws@.len(),
            all == ws@.map_values(|w: Vec<char>| w@),
            s@ == join_words(all.take(i as int)),
        decreases n - i,
    {
        let ghost before = s@;
        proof {
            assert(all.take(i + 1).drop_last() =~= all.take(i as int));
            assert(all.take(i + 1).last() == ws@[i as int]@);
        }
        if i > 0 {
            s.push(' ');
        }
        let w = &ws[i];
        let mut j: usize = 0;
        let ghost mid = s@;
        while j < w.len()
            invariant
                j <= w@.len(),
                s@ == mid + w@.take(j as int),
            decreases w.len() - j,
        {
            s.push(w[j]);
            proof {
                assert(w@.take(j + 1) =~= w@.take(j as int).push(w@[j as int]));
                assert(s@ =~= mid + w@.take(j + 1));
            }
            j += 1;
        }
        proof {
            assert(w@.take(w@.len() as int) =~= w@);
            if i == 0 {
                assert(all.take(1) =~= seq![all[0]]);
                assert(s@ =~= w@);
            } else {
                assert(mid == before.push(' '));
                assert(s@ =~= before + seq![' '] + w@);
            }
        }
        i += 1;
    }
    s
}

/// `s` without the copies of `c` at its end.
fn trim_end_char_exec(s: Vec<char>, c: char) -> (t: Vec<char>)
    ensures
        t@ == trim_end_char(s@, c),
{
    let mut n: usize = s.len();
    assert(s@.take(n as int) =~= s@);
    while n > 0 && s[n - 1] == c
        invariant
            n <= s@.len(),
            trim_end_char(s@.take(n as int), c) == trim_end_char(s@, c),
        decreases n,
    {
        proof {
            assert(s@.take(n as int).drop_last() =~= s@.take(n - 1));
            assert(s@.take(n as int).last() == c);
        }
        n -= 1;
    }
    proof {
        if n > 0 {
            assert(s@.take(n as int).last() != c);
        }
        assert(trim_end_char(s@.take(n as int), c) == s@.take(n as int));
    }
    let mut t = s;
    t.truncate(n);
    proof {
        assert(t@ =~= s@.take(n as int));
    }
    t
}

/// The place named after the first occurrence of `phrase` in `lower` (see
/// `place_after`).
fn place_after_exec(lower: &Vec<char>, phrase: &str) -> (r: Option<Vec<char>>)
    ensures
        match r {
            Some(t) => place_after(lower@, phrase@) == Some(t@),
            None => place_after(lower@, phrase@) is None,
        },
{
    let p = chars_of(phrase);
    match find_from(lower, &p, 0) {
        None => None,
        Some(pos) => {
            let plen = p.len();
            let total = lower.len();
            proof {
                assert(occurs_at(lower@, p@, pos as int));
                assert(pos + plen <= lower@.len());
            }
            let start = pos + plen;
            let after = string_of(lower, start, total);
            let ac = chars_of(after.as_str());
            proof {
                assert(ac@ =~= lower@.skip(pos + p@.len()));
            }
            let ws = split_words(&ac);
            let n = if ws.len() > 3 { 3 } else { ws.len() };
            let joined = join_first(&ws, n);
            proof {
                let all = ws@.map_values(|w: Vec<char>| w@);
                if ws@.len() <= 3 {
                    assert(all.take(n as int) =~= all);
                }
            }
            let t = trim_end_char_exec(trim_end_char_exec(trim_end_char_exec(joined, '.'), ','), '!');
            Some(t)
        },
    }
}

/// The place named by the first of `phrases`, from the `k`th on, that occurs
/// in `lower` with a non-empty place after it (see `place_from`).
fn place_from_exec(lower: &Vec<char>, phrases: &[&str], k: usize) -> (r: Option<Vec<char>>)
    requires
        k <= phrases@.len(),
    ensures
        match r {
            Some(t) => place_from(lower@, phrases@.map_values(|p: &str| p@), k as int) == Some(t@),
            None => place_from(lower@, phrases@.map_values(|p: &str| p@), k as int) is None,
        },
    decreases phrases@.len() - k,
{
    let ghost ps = phrases@.map_values(|p: &str| p@);
    if k >= phrases.len() {
        return None;
    }
    proof {
        assert(ps[k as int] == phrases@[k as int]@);
    }
    match place_after_exec(lower, phrases[k]) {
        Some(t) => {
            if t.len() > 0 {
                Some(t)
            } else {
                place_from_exec(lower, phrases, k + 1)
            }
        },
        None => place_from_exec(lower, phrases, k + 1),
    }
}

/// The place a response says the NPC moves to, if it says so in words (see
/// `spoken_destination`).
pub fn parse_natural_language(response: &str) -> (r: Option<String>)
    ensures
        match r {
            Some(t) => spoken_destination(response@) == Some(t@),
            None => spoken_destination(response@) is None,
        },
{
    let lower_text = to_lowercase(response);
    let lower = chars_of(lower_text.as_str());
    let phrases = ["go to the ", "walk to the ", "head to the ", "move to the ",
        "ir a la ", "ir al ", "caminar hasta ", "moverse a ", "ir hacia "];
    proof {
        assert(phrases@.map_values(|p: &str| p@) =~= movement_phrases());
    }
    match place_from_exec(&lower, &phrases, 0) {
        Some(t) => Some(string_of(&t, 0, t.len())),
        None => None,
    }
}

} // verus!
