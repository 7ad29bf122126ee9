//! Sequences built element by element.
use vstd::prelude::*;

verus! {

/// The sequences that `f` gives for the elements of `s`, one after the other.
pub open spec fn flat_map<A, B>(s: Seq<A>, f: spec_fn(A) -> Seq<B>) -> Seq<B>
    decreases s.len(),
{
    if s.len() == 0 {
        seq![]
    } else {
        flat_map(s.drop_last(), f) + f(s.last())
    }
}

pub proof fn lemma_flat_map_step<A, B>(s: Seq<A>, f: spec_fn(A) -> Seq<B>, i: int)
    requires
        0 <= i < s.len(),
    ensures
        flat_map(s.take(i + 1), f) == flat_map(s.take(i), f) + f(s[i]),
{
    assert(s.take(i + 1).drop_last() =~= s.take(i));
}

pub proof fn lemma_flat_map_all<A, B>(s: Seq<A>, f: spec_fn(A) -> Seq<B>)
    ensures
        flat_map(s.take(s.len() as int), f) == flat_map(s, f),
{
    assert(s.take(s.len() as int) =~= s);
}

/// `flat_map` gives nothing where `f` gives nothing for every element.
pub proof fn lemma_flat_map_none<A, B>(s: Seq<A>, f: spec_fn(A) -> Seq<B>)
    requires
        forall|i: int| 0 <= i < s.len() ==> f(#[trigger] s[i]).len() == 0,
    ensures
        flat_map(s, f).len() == 0,
    decreases s.len(),
{
    if s.len() > 0 {
        assert forall|i: int| 0 <= i < s.drop_last().len() implies f(#[trigger] s.drop_last()[i]).len() == 0 by {
            assert(s.drop_last()[i] == s[i]);
        }
        lemma_flat_map_none(s.drop_last(), f);
    }
}

/// Every element of `flat_map(s, f)` comes from `f` on some element of `s`.
pub proof fn lemma_flat_map_from<A, B>(s: Seq<A>, f: spec_fn(A) -> Seq<B>, k: int)
    requires
        0 <= k < flat_map(s, f).len(),
    ensures
        exists|i: int| 0 <= i < s.len() && f(s[i]).contains(#[trigger] flat_map(s, f)[k]),
    decreases s.len(),
{
    let prev = flat_map(s.drop_last(), f);
    if k < prev.len() {
        lemma_flat_map_from(s.drop_last(), f, k);
        let i = choose|i: int| 0 <= i < s.drop_last().len() && f(s.drop_last()[i]).contains(#[trigger] prev[k]);
        assert(s.drop_last()[i] == s[i]);
        assert(flat_map(s, f)[k] == prev[k]);
    } else {
        let j = k - prev.len();
        assert(f(s.last())[j] == flat_map(s, f)[k]);
        assert(f(s[s.len() - 1]).contains(flat_map(s, f)[k]));
    }
}


pub proof fn lemma_flat_map_concat<A, B>(a: Seq<A>, b: Seq<A>, f: spec_fn(A) -> Seq<B>)
    ensures
        flat_map(a + b, f) == flat_map(a, f) + flat_map(b, f),
    decreases b.len(),
{
    if b.len() == 0 {
        assert(a + b =~= a);
        assert(flat_map(a, f) + flat_map(b, f) =~= flat_map(a, f));
    } else {
        assert((a + b).drop_last() =~= a + b.drop_last());
        lemma_flat_map_concat(a, b.drop_last(), f);
        assert(flat_map(a + b, f) =~= flat_map(a, f) + flat_map(b, f));
    }
}

pub proof fn lemma_flat_map_single<A, B>(x: A, f: spec_fn(A) -> Seq<B>)
    ensures
        flat_map(seq![x], f) == f(x),
{
    assert(seq![x].drop_last() =~= Seq::<A>::empty());
    assert(flat_map(Seq::<A>::empty(), f) + f(x) =~= f(x));
}

} // verus!
