//! Orderings of positions by a numeric key.

use vstd::prelude::*;

verus! {

/// `p` is one of the entries of `s`.
pub open spec fn occurs(s: Seq<usize>, p: int) -> bool {
    exists|j: int| 0 <= j < s.len() && s[j] == p
}

/// `ord` lists each of the positions `0..n` exactly once.
pub open spec fn is_arrangement(ord: Seq<usize>, n: nat) -> bool {
    &&& ord.len() == n
    &&& forall|j: int| 0 <= j < n ==> ord[j] < n
    &&& forall|a: int, b: int| 0 <= a < b < n ==> ord[a] != ord[b]
    &&& forall|p: int| 0 <= p < n ==> #[trigger] occurs(ord, p)
}

/// The positions of `keys`, smallest key first (equal keys in no fixed order).
pub fn positions_by_key(keys: &Vec<u64>) -> (ord: Vec<usize>)
    ensures
        is_arrangement(ord@, keys@.len()),
        forall|a: int, b: int| 0 <= a < b < ord@.len() ==> keys@[ord@[a] as int] <= keys@[ord@[b] as int],
{
    let n = keys.len();
    let mut ord: Vec<usize> = Vec::new();
    let mut i: usize = 0;
    while i < n
        invariant
            n == keys@.len(),
            i <= n,
            ord@.len() == i,
            forall|j: int| 0 <= j < i ==> ord@[j] == j,
        decreases n - i,
    {
        ord.push(i);
        i += 1;
    }
    assert forall|p: int| 0 <= p < n implies #[trigger] occurs(ord@, p) by {
        assert(ord@[p] == p);
    }
    let mut out: usize = 0;
    while out < n
        invariant
            n == keys@.len(),
            out <= n,
            ord@.len() == n,
            forall|j: int| 0 <= j < n ==> ord@[j] < n,
            forall|a: int, b: int| 0 <= a < b < n ==> ord@[a] != ord@[b],
            forall|p: int| 0 <= p < n ==> #[trigger] occurs(ord@, p),
            forall|a: int, b: int| 0 <= a < out && a < b < n ==> keys@[ord@[a] as int] <= keys@[ord@[b] as int],
        decreases n - out,
    {
        let mut best: usize = out;
        let mut j: usize = out + 1;
        while j < n
            invariant
                out < n,
                n == keys@.len(),
                ord@.len() == n,
                forall|x: int| 0 <= x < n ==> ord@[x] < n,
                out <= best < j <= n,
                forall|x: int| out <= x < j ==> keys@[ord@[best as int] as int] <= keys@[ord@[x] as int],
            decreases n - j,
        {
            if keys[ord[j]] < keys[ord[best]] {
                best = j;
            }
            j += 1;
        }
        let ghost before = ord@;
        let a = ord[out];
        let b = ord[best];
        ord.set(out, b);
        ord.set(best, a);
        proof {
            assert forall|p: int| 0 <= p < n implies #[trigger] occurs(ord@, p) by {
                assert(occurs(before, p));
                let x = choose|x: int| 0 <= x < before.len() && before[x] == p;
                if x == out as int {
                    assert(ord@[best as int] == p);
                } else if x == best as int {
                    assert(ord@[out as int] == p);
                } else {
                    assert(ord@[x] == p);
                }
            }
        }
        out += 1;
    }
    ord
}

/// Mapping a sequence with one more element at the end.
pub proof fn lemma_map_push<A, B>(s: Seq<A>, x: A, f: spec_fn(A) -> B)
    ensures
        s.push(x).map_values(f) == s.map_values(f).push(f(x)),
{
    assert(s.push(x).map_values(f) =~= s.map_values(f).push(f(x)));
}

/// Mapping a sequence with one element replaced.
pub proof fn lemma_map_update<A, B>(s: Seq<A>, i: int, x: A, f: spec_fn(A) -> B)
    requires
        0 <= i < s.len(),
    ensures
        s.update(i, x).map_values(f) == s.map_values(f).update(i, f(x)),
{
    assert(s.update(i, x).map_values(f) =~= s.map_values(f).update(i, f(x)));
}

/// A prefix one longer.
pub proof fn lemma_take_push<A>(s: Seq<A>, i: int)
    requires
        0 <= i < s.len(),
    ensures
        s.take(i + 1) == s.take(i).push(s[i]),
{
    assert(s.take(i + 1) =~= s.take(i).push(s[i]));
}

} // verus!
