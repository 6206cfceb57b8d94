//! Concatenating the sequences that a function gives for each element of a
//! sequence, and the facts about it that the rest of the library builds on.

use vstd::prelude::*;

verus! {

/// The concatenation of `f(s[0])`, `f(s[1])`, ... in this order.
pub open spec fn flat_map<A, B>(s: Seq<A>, f: spec_fn(A) -> Seq<B>) -> Seq<B>
    decreases s.len(),
{
    if s.len() == 0 {
        Seq::empty()
    } else {
        flat_map(s.drop_last(), f) + f(s.last())
    }
}

/// One more element at the end adds its part at the end.
pub proof fn lemma_flat_map_push<A, B>(s: Seq<A>, x: A, f: spec_fn(A) -> Seq<B>)
    ensures
        flat_map(s.push(x), f) == flat_map(s, f) + f(x),
{
    assert(s.push(x).drop_last() == s);
}

/// Extending the prefix of length `k` by the element at `k`.
pub proof fn lemma_flat_map_take<A, B>(s: Seq<A>, k: int, f: spec_fn(A) -> Seq<B>)
    requires
        0 <= k < s.len(),
    ensures
        flat_map(s.take(k + 1), f) == flat_map(s.take(k), f) + f(s[k]),
{
    assert(s.take(k + 1) == s.take(k).push(s[k]));
    lemma_flat_map_push(s.take(k), s[k], f);
}

/// The parts of a concatenation come out side by side.
pub proof fn lemma_flat_map_concat<A, B>(a: Seq<A>, b: Seq<A>, f: spec_fn(A) -> Seq<B>)
    ensures
        flat_map(a + b, f) == flat_map(a, f) + flat_map(b, f),
    decreases b.len(),
{
    if b.len() == 0 {
        assert(a + b == a);
    } else {
        lemma_flat_map_concat(a, b.drop_last(), f);
        assert((a + b).drop_last() == a + b.drop_last());
        assert((a + b).last() == b.last());
    }
}

/// Two functions that agree on every element give the same result.
pub proof fn lemma_flat_map_agree<A, B>(s: Seq<A>, f: spec_fn(A) -> Seq<B>, g: spec_fn(A) -> Seq<B>)
    requires
        forall|i: int| 0 <= i < s.len() ==> #[trigger] f(s[i]) == g(s[i]),
    ensures
        flat_map(s, f) == flat_map(s, g),
    decreases s.len(),
{
    if s.len() > 0 {
        let t = s.drop_last();
        assert forall|i: int| 0 <= i < t.len() implies #[trigger] f(t[i]) == g(t[i]) by {
            assert(t[i] == s[i]);
        }
        lemma_flat_map_agree(t, f, g);
        assert(f(s[s.len() - 1]) == g(s[s.len() - 1]));
    }
}

/// Where every element gives nothing, the whole is empty.
pub proof fn lemma_flat_map_empty<A, B>(s: Seq<A>, f: spec_fn(A) -> Seq<B>)
    requires
        forall|i: int| 0 <= i < s.len() ==> (#[trigger] f(s[i])).len() == 0,
    ensures
        flat_map(s, f) == Seq::<B>::empty(),
    decreases s.len(),
{
    if s.len() > 0 {
        let t = s.drop_last();
        assert forall|i: int| 0 <= i < t.len() implies (#[trigger] f(t[i])).len() == 0 by {
            assert(t[i] == s[i]);
        }
        lemma_flat_map_empty(t, f);
        assert(f(s[s.len() - 1]).len() == 0);
        assert(flat_map(s, f) =~= Seq::<B>::empty());
    }
}

/// What the result holds comes from the part of one element.
pub proof fn lemma_flat_map_member<A, B>(s: Seq<A>, f: spec_fn(A) -> Seq<B>, y: B) -> (i: int)
    requires
        flat_map(s, f).contains(y),
    ensures
        0 <= i < s.len(),
        f(s[i]).contains(y),
    decreases s.len(),
{
    if s.len() == 0 {
        0
    } else {
        let front = flat_map(s.drop_last(), f);
        let back = f(s.last());
        let k = choose|k: int| 0 <= k < (front + back).len() && (front + back)[k] == y;
        if k < front.len() {
            assert(front[k] == y);
            lemma_flat_map_member(s.drop_last(), f, y)
        } else {
            assert(back[k - front.len()] == y);
            s.len() - 1
        }
    }
}

/// What the part of one element holds, the result holds.
pub proof fn lemma_flat_map_holds<A, B>(s: Seq<A>, f: spec_fn(A) -> Seq<B>, i: int, y: B)
    requires
        0 <= i < s.len(),
        f(s[i]).contains(y),
    ensures
        flat_map(s, f).contains(y),
    decreases s.len(),
{
    let front = flat_map(s.drop_last(), f);
    let back = f(s.last());
    if i == s.len() - 1 {
        let k = choose|k: int| 0 <= k < back.len() && back[k] == y;
        assert((front + back)[front.len() + k] == y);
    } else {
        assert(s.drop_last()[i] == s[i]);
        lemma_flat_map_holds(s.drop_last(), f, i, y);
        let k = choose|k: int| 0 <= k < front.len() && front[k] == y;
        assert((front + back)[k] == y);
    }
}

} // verus!
