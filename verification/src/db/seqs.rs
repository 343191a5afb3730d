//! Facts about filtered sequences and about tables of pairs, as the favorite and follow
//! tables are.

use vstd::prelude::*;

verus! {

/// A filter that no element passes leaves nothing.
pub proof fn lemma_filter_none<A>(items: Seq<A>, pred: spec_fn(A) -> bool)
    requires
        forall|i: int| 0 <= i < items.len() ==> !pred(#[trigger] items[i]),
    ensures
        items.filter(pred) =~= Seq::<A>::empty(),
    decreases items.len(),
{
    reveal(Seq::filter);
    if items.len() > 0 {
        lemma_filter_none(items.drop_last(), pred);
    }
}

/// What a filter keeps: the elements that pass and no others, in the order they had. The
/// result tells for each element kept where it stood.
pub proof fn lemma_filter_kept<A>(items: Seq<A>, pred: spec_fn(A) -> bool) -> (from: Seq<int>)
    ensures
        items.filter(pred).len() <= items.len(),
        from.len() == items.filter(pred).len(),
        forall|i: int|
            0 <= i < from.len() ==> 0 <= #[trigger] from[i] < items.len() && items[from[i]]
                == items.filter(pred)[i] && pred(items[from[i]]),
        forall|i: int, j: int| 0 <= i < j < from.len() ==> #[trigger] from[i] < #[trigger] from[j],
        forall|a: int|
            0 <= a < items.len() && pred(#[trigger] items[a]) ==> exists|i: int|
                0 <= i < from.len() && #[trigger] from[i] == a,
    decreases items.len(),
{
    reveal(Seq::filter);
    if items.len() > 0 {
        let init = items.drop_last();
        let before = lemma_filter_kept(init, pred);
        if pred(items.last()) {
            let from = before.push(items.len() - 1);
            assert forall|a: int| 0 <= a < items.len() && pred(#[trigger] items[a]) implies exists|
                i: int,
            | 0 <= i < from.len() && #[trigger] from[i] == a by {
                if a < init.len() {
                    assert(pred(init[a]));
                    let i = choose|i: int| 0 <= i < before.len() && #[trigger] before[i] == a;
                    assert(from[i] == a);
                } else {
                    assert(from[from.len() - 1] == a);
                }
            }
            from
        } else {
            assert forall|a: int| 0 <= a < items.len() && pred(#[trigger] items[a]) implies exists|
                i: int,
            | 0 <= i < before.len() && #[trigger] before[i] == a by {
                assert(pred(init[a]));
            }
            before
        }
    } else {
        Seq::empty()
    }
}

/// The test whether a pair of the favorite table names `article`.
pub open spec fn names_article(article: i32) -> spec_fn((i32, i32)) -> bool {
    |f: (i32, i32)| f.1 == article
}

/// How many of the pairs in `favorites` name `article`.
pub open spec fn count_for(favorites: Seq<(i32, i32)>, article: i32) -> nat {
    favorites.filter(names_article(article)).len()
}

/// The test whether a pair of the favorite table names another article than `article`.
pub open spec fn not_for(article: i32) -> spec_fn((i32, i32)) -> bool {
    |f: (i32, i32)| f.1 != article
}

/// The pairs `pairs` without `pair`.
pub open spec fn without_pair(pairs: Seq<(i32, i32)>, pair: (i32, i32)) -> Seq<(i32, i32)> {
    if pairs.contains(pair) {
        pairs.remove(pairs.index_of(pair))
    } else {
        pairs
    }
}

/// Position of `pair` in `pairs`.
pub fn pair_index(pairs: &Vec<(i32, i32)>, pair: (i32, i32)) -> (r: Option<usize>)
    ensures
        r is Some <==> pairs@.contains(pair),
        r matches Some(i) ==> i < pairs.len() && pairs@[i as int] == pair,
{
    let mut i: usize = 0;
    while i < pairs.len()
        invariant
            i <= pairs.len(),
            forall|k: int| 0 <= k < i ==> pairs@[k] != pair,
        decreases pairs.len() - i,
    {
        if pairs[i].0 == pair.0 && pairs[i].1 == pair.1 {
            return Some(i);
        }
        i += 1;
    }
    None
}

/// Adding a pair raises the count of its article by one and no other.
pub proof fn lemma_count_push(pairs: Seq<(i32, i32)>, pair: (i32, i32), article: i32)
    ensures
        count_for(pairs.push(pair), article) == count_for(pairs, article) + (if pair.1
            == article {
            1nat
        } else {
            0nat
        }),
{
    assert(pairs.push(pair).drop_last() =~= pairs);
    reveal(Seq::filter);
}

/// Taking the pair at `i` away lowers the count of its article by one and no other.
pub proof fn lemma_count_remove(pairs: Seq<(i32, i32)>, i: int, article: i32)
    requires
        0 <= i < pairs.len(),
    ensures
        count_for(pairs.remove(i), article) == count_for(pairs, article) - (if pairs[i].1
            == article {
            1nat
        } else {
            0nat
        }),
{
    let pred = names_article(article);
    let head = pairs.take(i);
    let one = seq![pairs[i]];
    let tail = pairs.skip(i + 1);
    assert(pairs =~= head + one + tail);
    assert(pairs.remove(i) =~= head + tail);
    Seq::filter_distributes_over_add(head + one, tail, pred);
    Seq::filter_distributes_over_add(head, one, pred);
    Seq::filter_distributes_over_add(head, tail, pred);
    assert(one.filter(pred).len() == (if pairs[i].1 == article { 1nat } else { 0nat })) by {
        assert(one.drop_last() =~= Seq::<(i32, i32)>::empty());
        reveal(Seq::filter);
        assert(one.drop_last().filter(pred) =~= Seq::<(i32, i32)>::empty());
    }
}

/// Dropping the pairs of one article leaves the counts of the others as they were.
pub proof fn lemma_count_after_drop(pairs: Seq<(i32, i32)>, dropped: i32, article: i32)
    requires
        article != dropped,
    ensures
        count_for(pairs.filter(not_for(dropped)), article) == count_for(pairs, article),
    decreases pairs.len(),
{
    reveal(Seq::filter);
    if pairs.len() > 0 {
        let init = pairs.drop_last();
        let last = pairs.last();
        lemma_count_after_drop(init, dropped, article);
        if last.1 != dropped {
            lemma_count_push(init.filter(not_for(dropped)), last, article);
        }
        lemma_count_push(init, last, article);
        assert(init.push(last) =~= pairs);
    }
}

/// What is left of a list without duplicates when one pair is taken away.
pub proof fn lemma_without_pair(pairs: Seq<(i32, i32)>, pair: (i32, i32))
    requires
        pairs.no_duplicates(),
    ensures
        without_pair(pairs, pair).no_duplicates(),
        !without_pair(pairs, pair).contains(pair),
        forall|q: (i32, i32)|
            q != pair ==> without_pair(pairs, pair).contains(q) == pairs.contains(q),
        forall|k: int|
            0 <= k < without_pair(pairs, pair).len() ==> pairs.contains(
                #[trigger] without_pair(pairs, pair)[k],
            ),
{
    if pairs.contains(pair) {
        let i = pairs.index_of(pair);
        let rest = pairs.remove(i);
        assert forall|k: int| 0 <= k < rest.len() implies #[trigger] rest[k] == pairs[if k < i {
            k
        } else {
            k + 1
        }] by {}
        assert forall|q: (i32, i32)| q != pair implies rest.contains(q) == pairs.contains(q) by {
            if pairs.contains(q) {
                let j = pairs.index_of(q);
                assert(j != i);
                let k = if j < i { j } else { j - 1 };
                assert(rest[k] == q);
            }
            if rest.contains(q) {
                let k = rest.index_of(q);
                assert(pairs[if k < i { k } else { k + 1 }] == q);
            }
        }
        assert(!rest.contains(pair)) by {
            if rest.contains(pair) {
                let k = rest.index_of(pair);
                assert(pairs[if k < i { k } else { k + 1 }] == pair);
            }
        }
    }
}

} // verus!
