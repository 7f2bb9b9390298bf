//! Facts about sequences that the laws of several modules rest on.

use vstd::prelude::*;

verus! {

/// Of two sequences without repeats, equally long, of which one holds every
/// item of the other, each holds every item of the other; and two that hold
/// the same items are equally long.
pub proof fn lemma_same_items<A>(a: Seq<A>, b: Seq<A>)
    requires
        a.no_duplicates(),
        b.no_duplicates(),
    ensures
        a.len() == b.len() && (forall|i: int| 0 <= i < a.len() ==> b.contains(#[trigger] a[i]))
            <==> (forall|x: A| a.contains(x) <==> b.contains(x)),
{
    a.unique_seq_to_set();
    b.unique_seq_to_set();
    if a.len() == b.len() && (forall|i: int| 0 <= i < a.len() ==> b.contains(#[trigger] a[i])) {
        assert(a.to_set().subset_of(b.to_set()));
        vstd::set_lib::lemma_subset_equality(a.to_set(), b.to_set());
        assert forall|x: A| a.contains(x) <==> b.contains(x) by {
            assert(a.to_set().contains(x) <==> b.to_set().contains(x));
        }
    }
    if forall|x: A| a.contains(x) <==> b.contains(x) {
        assert(a.to_set() =~= b.to_set());
        assert forall|i: int| 0 <= i < a.len() implies b.contains(#[trigger] a[i]) by {
            assert(a.contains(a[i]));
        }
    }
}

/// A filter keeps the items in their order.
pub proof fn lemma_filter_keeps_the_order<A>(s: Seq<A>, keep: spec_fn(A) -> bool, i: int, j: int)
    requires
        0 <= i < j < s.len(),
        keep(s[i]),
        keep(s[j]),
    ensures
        exists|p: int, q: int|
            0 <= p < q < s.filter(keep).len() && #[trigger] s.filter(keep)[p] == s[i]
                && #[trigger] s.filter(keep)[q] == s[j],
    decreases s.len(),
{
    reveal(Seq::filter);
    let front = s.drop_last();
    let kept = front.filter(keep);
    let all = s.filter(keep);
    if j < front.len() {
        lemma_filter_keeps_the_order(front, keep, i, j);
        let (p, q) = choose|p: int, q: int|
            0 <= p < q < kept.len() && #[trigger] kept[p] == front[i] && #[trigger] kept[q]
                == front[j];
        assert(all[p] == s[i] && all[q] == s[j]);
    } else {
        front.lemma_filter_contains(keep, i);
        let p = choose|p: int| 0 <= p < kept.len() && kept[p] == front[i];
        assert(all =~= kept.push(s[j]));
        assert(all[p] == s[i] && all[kept.len() as int] == s[j]);
    }
}

/// What a filter keeps is there, and what is there and is to be kept is kept.
pub proof fn lemma_filter_keeps_what_it_should<A>(s: Seq<A>, keep: spec_fn(A) -> bool, x: A)
    ensures
        s.filter(keep).contains(x) <==> s.contains(x) && keep(x),
{
    let kept = s.filter(keep);
    if kept.contains(x) {
        let k = choose|k: int| 0 <= k < kept.len() && kept[k] == x;
        s.lemma_filter_pred(keep, k);
        s.lemma_filter_contains_rev(keep, x);
    }
    if s.contains(x) && keep(x) {
        let i = choose|i: int| 0 <= i < s.len() && s[i] == x;
        s.lemma_filter_contains(keep, i);
    }
}

/// What is made of two sequences is what is made of either.
pub proof fn lemma_filter_map_of_two<A, B>(a: Seq<A>, b: Seq<A>, f: spec_fn(A) -> Option<B>)
    ensures
        (a + b).filter_map(f) == a.filter_map(f) + b.filter_map(f),
    decreases b.len(),
{
    reveal(Seq::filter_map);
    if b.len() == 0 {
        assert(a + b =~= a);
        assert((a + b).filter_map(f) =~= a.filter_map(f) + b.filter_map(f));
    } else {
        let front = b.drop_last();
        lemma_filter_map_of_two(a, front, f);
        assert((a + b).drop_last() =~= a + front);
        assert((a + b).last() == b.last());
        assert((a + b).filter_map(f) =~= a.filter_map(f) + b.filter_map(f));
    }
}

/// What is made of a sequence is what is made of its items.
pub proof fn lemma_filter_map_finds<A, B>(s: Seq<A>, f: spec_fn(A) -> Option<B>, x: B)
    ensures
        s.filter_map(f).contains(x) <==> exists|i: int|
            0 <= i < s.len() && f(#[trigger] s[i]) == Some(x),
{
    if s.filter_map(f).contains(x) {
        s.lemma_filter_map_contains(f, x);
        let t = choose|t: A| #[trigger] s.contains(t) && f(t) == Some(x);
        let i = choose|i: int| 0 <= i < s.len() && s[i] == t;
        assert(f(s[i]) == Some(x));
    }
    if exists|i: int| 0 <= i < s.len() && f(#[trigger] s[i]) == Some(x) {
        let i = choose|i: int| 0 <= i < s.len() && f(#[trigger] s[i]) == Some(x);
        lemma_filter_map_has(s, f, i);
        let k = choose|k: int|
            0 <= k < s.filter_map(f).len() && #[trigger] s.filter_map(f)[k] == f(s[i])->0;
        assert(s.filter_map(f)[k] == x);
    }
}

proof fn lemma_filter_map_has<A, B>(s: Seq<A>, f: spec_fn(A) -> Option<B>, i: int)
    requires
        0 <= i < s.len(),
        f(s[i]) is Some,
    ensures
        exists|k: int|
            0 <= k < s.filter_map(f).len() && #[trigger] s.filter_map(f)[k] == f(s[i])->0,
    decreases s.len(),
{
    reveal(Seq::filter_map);
    let front = s.drop_last();
    let made = s.filter_map(f);
    if i < front.len() {
        lemma_filter_map_has(front, f, i);
        let k = choose|k: int|
            0 <= k < front.filter_map(f).len() && #[trigger] front.filter_map(f)[k] == f(
                front[i],
            )->0;
        assert(made[k] == f(s[i])->0);
    } else {
        assert(made[made.len() - 1] == f(s[i])->0);
    }
}

/// What is made of items stands in their order.
pub proof fn lemma_filter_map_keeps_the_order<A, B>(
    s: Seq<A>,
    f: spec_fn(A) -> Option<B>,
    i: int,
    j: int,
)
    requires
        0 <= i < j < s.len(),
        f(s[i]) is Some,
        f(s[j]) is Some,
    ensures
        exists|p: int, q: int|
            0 <= p < q < s.filter_map(f).len() && #[trigger] s.filter_map(f)[p] == f(s[i])->0
                && #[trigger] s.filter_map(f)[q] == f(s[j])->0,
{
    let a = s.take(j);
    let b = s.skip(j);
    lemma_filter_map_of_two(a, b, f);
    assert(a + b =~= s);
    lemma_filter_map_has(a, f, i);
    lemma_filter_map_has(b, f, 0);
    let p = choose|p: int|
        0 <= p < a.filter_map(f).len() && #[trigger] a.filter_map(f)[p] == f(a[i])->0;
    let r = choose|r: int|
        0 <= r < b.filter_map(f).len() && #[trigger] b.filter_map(f)[r] == f(b[0])->0;
    let q = a.filter_map(f).len() + r;
    assert(s.filter_map(f)[p] == f(s[i])->0 && s.filter_map(f)[q] == f(s[j])->0);
}

} // verus!
