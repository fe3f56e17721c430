//! Facts about sequences that several modules use.

use vstd::prelude::*;

verus! {

/// Filtering one element more either keeps that element or leaves it out.
pub proof fn lemma_filter_step<A>(items: Seq<A>, pred: spec_fn(A) -> bool, i: int)
    requires
        0 <= i < items.len(),
    ensures
        items.take(i + 1).filter(pred) == if pred(items[i]) {
            items.take(i).filter(pred).push(items[i])
        } else {
            items.take(i).filter(pred)
        },
{
    reveal(Seq::filter);
    assert(items.take(i + 1).drop_last() =~= items.take(i));
}

/// Filtering nothing gives nothing, and the whole of a sequence is its longest prefix.
pub proof fn lemma_filter_ends<A>(items: Seq<A>, pred: spec_fn(A) -> bool)
    ensures
        items.take(0).filter(pred) =~= Seq::<A>::empty(),
        items.take(items.len() as int) =~= items,
{
    reveal(Seq::filter);
}

/// What is left of a prefix stays ahead of what is left of the rest.
pub proof fn lemma_filter_grows<A>(items: Seq<A>, pred: spec_fn(A) -> bool, m: int, n: int)
    requires
        0 <= m <= n <= items.len(),
    ensures
        items.take(m).filter(pred).len() <= items.take(n).filter(pred).len(),
        forall|k: int|
            0 <= k < items.take(m).filter(pred).len() ==> #[trigger] items.take(m).filter(pred)[k]
                == items.take(n).filter(pred)[k],
    decreases n,
{
    if m < n {
        lemma_filter_grows(items, pred, m, n - 1);
        lemma_filter_step(items, pred, n - 1);
    }
}

/// Elements of a filtered sequence come from the sequence and satisfy the predicate.
pub proof fn lemma_filter_members<A>(items: Seq<A>, pred: spec_fn(A) -> bool)
    ensures
        forall|k: int|
            0 <= k < items.filter(pred).len() ==> pred(#[trigger] items.filter(pred)[k])
                && items.contains(items.filter(pred)[k]),
        forall|i: int|
            0 <= i < items.len() && pred(#[trigger] items[i]) ==> items.filter(pred).contains(
                items[i],
            ),
    decreases items.len(),
{
    reveal(Seq::filter);
    if items.len() > 0 {
        let rest = items.drop_last();
        lemma_filter_members(rest, pred);
        let all = items.filter(pred);
        let part = rest.filter(pred);
        assert forall|k: int| 0 <= k < all.len() implies pred(#[trigger] all[k]) && items.contains(
            all[k],
        ) by {
            if k < part.len() {
                assert(part[k] == all[k]);
                let j = choose|j: int| 0 <= j < rest.len() && rest[j] == part[k];
                assert(items[j] == all[k]);
            } else {
                assert(items[items.len() - 1] == all[k]);
            }
        }
        assert forall|i: int| 0 <= i < items.len() && pred(#[trigger] items[i]) implies all.contains(
            items[i],
        ) by {
            if i < rest.len() {
                assert(rest[i] == items[i]);
                assert(part.contains(rest[i]));
                let j = choose|j: int| 0 <= j < part.len() && part[j] == rest[i];
                assert(all[j] == items[i]);
            } else {
                assert(all[all.len() - 1] == items[i]);
            }
        }
    }
}

/// Two predicates that agree on a sequence filter it alike.
pub proof fn lemma_filter_agree<A>(items: Seq<A>, p: spec_fn(A) -> bool, q: spec_fn(A) -> bool)
    requires
        forall|i: int| 0 <= i < items.len() ==> p(#[trigger] items[i]) == q(items[i]),
    ensures
        items.filter(p) == items.filter(q),
    decreases items.len(),
{
    reveal(Seq::filter);
    if items.len() > 0 {
        assert(items.last() == items[items.len() - 1]);
        lemma_filter_agree(items.drop_last(), p, q);
    }
}

/// A predicate that holds throughout filters nothing out.
pub proof fn lemma_filter_all<A>(items: Seq<A>, pred: spec_fn(A) -> bool)
    requires
        forall|i: int| 0 <= i < items.len() ==> pred(#[trigger] items[i]),
    ensures
        items.filter(pred) =~= items,
    decreases items.len(),
{
    reveal(Seq::filter);
    if items.len() > 0 {
        assert(items.last() == items[items.len() - 1]);
        lemma_filter_all(items.drop_last(), pred);
    }
}

/// Filtering twice is filtering by both predicates at once.
pub proof fn lemma_filter_filter<A>(items: Seq<A>, p: spec_fn(A) -> bool, q: spec_fn(A) -> bool)
    ensures
        items.filter(p).filter(q) == items.filter(|item: A| p(item) && q(item)),
    decreases items.len(),
{
    reveal(Seq::filter);
    if items.len() > 0 {
        lemma_filter_filter(items.drop_last(), p, q);
        let inner = items.drop_last().filter(p);
        if p(items.last()) {
            assert(inner.push(items.last()).drop_last() =~= inner);
        }
    }
}

/// A sequence without duplicates whose elements all occur in another is no longer than it.
pub proof fn lemma_distinct_no_longer<A>(part: Seq<A>, whole: Seq<A>)
    requires
        part.no_duplicates(),
        forall|i: int| 0 <= i < part.len() ==> whole.contains(#[trigger] part[i]),
    ensures
        part.len() <= whole.len(),
{
    part.unique_seq_to_set();
    whole.lemma_cardinality_of_set();
    vstd::seq_lib::seq_to_set_is_finite(whole);
    assert(part.to_set().subset_of(whole.to_set()));
    vstd::set_lib::lemma_len_subset(part.to_set(), whole.to_set());
}

/// What a filter keeps and what the opposite filter keeps make up the whole.
pub proof fn lemma_filter_split<A>(
    items: Seq<A>,
    kept: spec_fn(A) -> bool,
    dropped: spec_fn(A) -> bool,
)
    requires
        forall|item: A| #[trigger] kept(item) == !dropped(item),
    ensures
        items.filter(kept).len() + items.filter(dropped).len() == items.len(),
    decreases items.len(),
{
    reveal(Seq::filter);
    if items.len() > 0 {
        lemma_filter_split(items.drop_last(), kept, dropped);
    }
}

/// The sum of a quantity over a sequence.
pub open spec fn total<A>(items: Seq<A>, amount: spec_fn(A) -> nat) -> nat
    decreases items.len(),
{
    if items.len() == 0 {
        0
    } else {
        total(items.drop_last(), amount) + amount(items.last())
    }
}

/// One element more adds its own amount.
pub proof fn lemma_total_push<A>(items: Seq<A>, item: A, amount: spec_fn(A) -> nat)
    ensures
        total(items.push(item), amount) == total(items, amount) + amount(item),
{
    assert(items.push(item).drop_last() =~= items);
}

/// Removing an element takes its own amount away.
pub proof fn lemma_total_remove<A>(items: Seq<A>, i: int, amount: spec_fn(A) -> nat)
    requires
        0 <= i < items.len(),
    ensures
        total(items, amount) == total(items.remove(i), amount) + amount(items[i]),
    decreases items.len(),
{
    let rest = items.drop_last();
    if i == items.len() - 1 {
        assert(items.remove(i) =~= rest);
    } else {
        lemma_total_remove(rest, i, amount);
        assert(items.remove(i).drop_last() =~= rest.remove(i));
        assert(items.remove(i).last() == items.last());
    }
}

/// No element comes before one that stands ahead of it.
pub open spec fn in_order<A>(items: Seq<A>, before: spec_fn(A, A) -> bool) -> bool {
    forall|i: int, j: int|
        0 <= i < j < items.len() ==> !before(#[trigger] items[j], #[trigger] items[i])
}

/// The relation orders: nothing comes before itself, and what comes before something
/// comes before all that follows it.
pub open spec fn orders<A>(before: spec_fn(A, A) -> bool) -> bool {
    &&& forall|a: A| !(#[trigger] before(a, a))
    &&& forall|a: A, b: A, c: A|
        #[trigger] before(a, b) && #[trigger] before(b, c) ==> before(a, c)
}

/// An element put ahead of the first one that it comes before keeps the order.
pub proof fn lemma_insert_in_order<A>(
    items: Seq<A>,
    at: int,
    item: A,
    before: spec_fn(A, A) -> bool,
)
    requires
        orders(before),
        in_order(items, before),
        0 <= at <= items.len(),
        forall|i: int| 0 <= i < at ==> !before(item, #[trigger] items[i]),
        at < items.len() ==> before(item, items[at]),
    ensures
        in_order(items.insert(at, item), before),
{
    let all = items.insert(at, item);
    assert forall|i: int, j: int| 0 <= i < j < all.len() implies !before(
        #[trigger] all[j],
        #[trigger] all[i],
    ) by {
        let a = if i < at {
            items[i]
        } else if i == at {
            item
        } else {
            items[i - 1]
        };
        let b = if j < at {
            items[j]
        } else if j == at {
            item
        } else {
            items[j - 1]
        };
        assert(all[i] == a && all[j] == b);
        if i == at {
            if before(b, item) {
                assert(before(item, items[at]));
                assert(before(b, items[at]));
                if j - 1 > at {
                    assert(!before(items[j - 1], items[at]));
                }
            }
        } else if j != at {
            let k = if i < at {
                i
            } else {
                i - 1
            };
            let l = if j < at {
                j
            } else {
                j - 1
            };
            assert(!before(items[l], items[k]));
        }
    }
}

/// The list has the positions below `n` that are picked, each of them once.
pub open spec fn is_listing(listed: Seq<usize>, n: nat, pick: spec_fn(usize) -> bool) -> bool {
    &&& forall|k: int| 0 <= k < listed.len() ==> (#[trigger] listed[k]) < n && pick(listed[k])
    &&& listed.no_duplicates()
    &&& forall|i: usize| i < n && #[trigger] pick(i) ==> listed.contains(i)
}

/// A list with the next position put in somewhere has all that are picked so far.
pub proof fn lemma_listing_grows(
    listed: Seq<usize>,
    at: int,
    i: usize,
    pick: spec_fn(usize) -> bool,
)
    requires
        is_listing(listed, i as nat, pick),
        pick(i),
        0 <= at <= listed.len(),
    ensures
        is_listing(listed.insert(at, i), (i + 1) as nat, pick),
{
    let all = listed.insert(at, i);
    assert(all[at] == i);
    assert forall|k: int| 0 <= k < all.len() implies (#[trigger] all[k]) < i + 1 && pick(all[k]) by {
        if k < at {
            assert(all[k] == listed[k]);
        } else if k > at {
            assert(all[k] == listed[k - 1]);
        }
    }
    assert forall|k: int, l: int| 0 <= k < all.len() && 0 <= l < all.len() && k != l implies all[k]
        != all[l] by {
        let a = if k < at { k } else { k - 1 };
        let b = if l < at { l } else { l - 1 };
        if k != at {
            assert(all[k] == listed[a] && listed[a] < i);
        }
        if l != at {
            assert(all[l] == listed[b] && listed[b] < i);
        }
    }
    assert forall|j: usize| j < i + 1 && #[trigger] pick(j) implies all.contains(j) by {
        if j < i {
            let k = choose|k: int| 0 <= k < listed.len() && listed[k] == j;
            if k < at {
                assert(all[k] == j);
            } else {
                assert(all[k + 1] == j);
            }
        }
    }
}

/// Orders the positions of some numbers: the smallest number comes first.
pub fn order_numbers(numbers: &Vec<i64>) -> (r: Vec<usize>)
    ensures
        is_listing(r@, numbers@.len(), |i: usize| true),
        in_order(r@, |a: usize, b: usize| numbers@[a as int] < numbers@[b as int]),
{
    let ghost pick = |i: usize| true;
    let ghost before = |a: usize, b: usize| numbers@[a as int] < numbers@[b as int];
    assert(orders(before));
    let mut listed: Vec<usize> = Vec::new();
    let mut i: usize = 0;
    while i < numbers.len()
        invariant
            i <= numbers@.len(),
            pick == (|i: usize| true),
            before == (|a: usize, b: usize| numbers@[a as int] < numbers@[b as int]),
            orders(before),
            in_order(listed@, before),
            is_listing(listed@, i as nat, pick),
        decreases numbers@.len() - i,
    {
        let mut at: usize = 0;
        while at < listed.len() && !(numbers[i] < numbers[listed[at]])
            invariant
                at <= listed@.len(),
                i < numbers@.len(),
                before == (|a: usize, b: usize| numbers@[a as int] < numbers@[b as int]),
                is_listing(listed@, i as nat, pick),
                forall|k: int| 0 <= k < at ==> !before(i, #[trigger] listed@[k]),
            decreases listed@.len() - at,
        {
            assert(!before(i, listed@[at as int]));
            at += 1;
        }
        proof {
            if at < listed@.len() {
                assert(before(i, listed@[at as int]));
            }
            assert(pick(i));
            lemma_insert_in_order(listed@, at as int, i, before);
            lemma_listing_grows(listed@, at as int, i, pick);
        }
        listed.insert(at, i);
        i += 1;
    }
    listed
}

} // verus!
