//! Stable sorting by an integer key.

use vstd::prelude::*;

verus! {

/// The items with a given key, in their order.
pub open spec fn with_key<T>(items: Seq<(i64, T)>, key: i64) -> Seq<(i64, T)> {
    items.filter(|item: (i64, T)| item.0 == key)
}

/// The keys never decrease.
pub open spec fn ascending<T>(items: Seq<(i64, T)>) -> bool {
    forall|i: int, j: int|
        0 <= i <= j < items.len() ==> (#[trigger] items[i]).0 <= (#[trigger] items[j]).0
}

/// The two sequences hold, for each key, the same items in the same order.
pub open spec fn same_by_key<T>(a: Seq<(i64, T)>, b: Seq<(i64, T)>) -> bool {
    forall|key: i64| #[trigger] with_key(a, key) == with_key(b, key)
}

/// `sorted` is `items` in ascending key order, items of equal key in the order
/// in which they were.
pub open spec fn is_stable_sort<T>(items: Seq<(i64, T)>, sorted: Seq<(i64, T)>) -> bool {
    ascending(sorted) && same_by_key(items, sorted)
}

/// No item of a sequence has the key, so none is selected.
pub proof fn lemma_no_such_key<T>(items: Seq<(i64, T)>, key: i64)
    requires
        forall|i: int| 0 <= i < items.len() ==> (#[trigger] items[i]).0 != key,
    ensures
        with_key(items, key) == Seq::<(i64, T)>::empty(),
    decreases items.len(),
{
    reveal(Seq::filter);
    if items.len() > 0 {
        lemma_no_such_key(items.drop_last(), key);
    }
}

/// The items of a key in a concatenation are those of its parts.
pub proof fn lemma_with_key_add<T>(a: Seq<(i64, T)>, b: Seq<(i64, T)>, key: i64)
    ensures
        with_key(a + b, key) == with_key(a, key) + with_key(b, key),
{
    Seq::filter_distributes_over_add(a, b, |item: (i64, T)| item.0 == key);
}

/// One more item is among those of its key.
pub proof fn lemma_with_key_push<T>(items: Seq<(i64, T)>, item: (i64, T), key: i64)
    ensures
        with_key(items.push(item), key) == if item.0 == key {
            with_key(items, key).push(item)
        } else {
            with_key(items, key)
        },
{
    reveal(Seq::filter);
    assert(items.push(item).drop_last() =~= items);
}

/// An item is among those of its key.
proof fn lemma_selected<T>(items: Seq<(i64, T)>, i: int)
    requires
        0 <= i < items.len(),
    ensures
        with_key(items, items[i].0).len() > 0,
{
    let key = items[i].0;
    items.lemma_filter_contains(|item: (i64, T)| item.0 == key, i);
    assert(with_key(items, key).contains(items[i]));
}

/// Inserting an item before all items of its key puts it first among them and
/// leaves the other keys alone.
proof fn lemma_insert<T>(items: Seq<(i64, T)>, at: int, item: (i64, T), key: i64)
    requires
        0 <= at <= items.len(),
        forall|i: int| 0 <= i < at ==> (#[trigger] items[i]).0 < item.0,
    ensures
        with_key(items.insert(at, item), key) == if item.0 == key {
            seq![item] + with_key(items, key)
        } else {
            with_key(items, key)
        },
{
    let before = items.take(at);
    let after = items.skip(at);
    assert(items.insert(at, item) =~= before.push(item) + after);
    assert(items =~= before + after);
    lemma_with_key_add(before.push(item), after, key);
    lemma_with_key_add(before, after, key);
    lemma_with_key_push(before, item, key);
    if item.0 == key {
        lemma_no_such_key(before, key);
        assert(Seq::<(i64, T)>::empty().push(item) =~= seq![item]);
        assert(with_key(items, key) =~= with_key(after, key));
    }
}

/// Sorts by key; items of equal key keep their order.
pub fn stable_sort<T>(items: Vec<(i64, T)>) -> (sorted: Vec<(i64, T)>)
    ensures
        is_stable_sort(items@, sorted@),
        sorted@.to_multiset() == items@.to_multiset(),
        sorted@.len() == items@.len(),
{
    let ghost all = items@;
    let mut rest: Vec<(i64, T)> = items;
    let mut sorted: Vec<(i64, T)> = Vec::new();
    proof {
        assert(all.skip(all.len() as int) =~= Seq::<(i64, T)>::empty());
        assert(all.take(all.len() as int) =~= all);
    }
    while rest.len() > 0
        invariant
            rest@.len() <= all.len(),
            rest@ == all.take(rest@.len() as int),
            ascending(sorted@),
            forall|key: i64| #[trigger]
                with_key(all.skip(rest@.len() as int), key) == with_key(sorted@, key),
            sorted@.to_multiset() == all.skip(rest@.len() as int).to_multiset(),
            sorted@.len() + rest@.len() == all.len(),
        decreases rest@.len(),
    {
        let ghost n: int = rest@.len() as int;
        let ghost done = sorted@;
        let (key, value) = rest.pop().unwrap();
        let ghost item = (key, value);
        let mut at: usize = 0;
        while at < sorted.len() && sorted[at].0 < key
            invariant
                at <= sorted@.len(),
                sorted@ == done,
                forall|i: int| 0 <= i < at ==> (#[trigger] sorted@[i]).0 < key,
            decreases sorted@.len() - at,
        {
            at = at + 1;
        }
        sorted.insert(at, (key, value));
        proof {
            assert(item == all[n - 1]);
            assert(all.skip(n - 1) =~= seq![item] + all.skip(n));
            assert(rest@ =~= all.take(n - 1));
            assert forall|k: i64| #[trigger]
                with_key(all.skip(n - 1), k) == with_key(sorted@, k) by {
                lemma_insert(done, at as int, item, k);
                lemma_with_key_add(seq![item], all.skip(n), k);
                lemma_with_key_push(Seq::<(i64, T)>::empty(), item, k);
                lemma_no_such_key(Seq::<(i64, T)>::empty(), k);
                assert(Seq::<(i64, T)>::empty().push(item) =~= seq![item]);
                assert(with_key(all.skip(n), k) == with_key(done, k));
                assert(Seq::<(i64, T)>::empty() + with_key(done, k) =~= with_key(done, k));
            }
            vstd::seq_lib::lemma_multiset_commutative(seq![item], all.skip(n));
            vstd::seq_lib::lemma_multiset_commutative(done.take(at as int).push(item), done.skip(at as int));
            vstd::seq_lib::lemma_multiset_commutative(done.take(at as int), done.skip(at as int));
            assert(sorted@ =~= done.take(at as int).push(item) + done.skip(at as int));
            assert(done =~= done.take(at as int) + done.skip(at as int));
            assert(done.take(at as int).push(item) =~= done.take(at as int) + seq![item]);
            vstd::seq_lib::lemma_multiset_commutative(done.take(at as int), seq![item]);
            assert(sorted@.to_multiset() =~= all.skip(n - 1).to_multiset());
        }
    }
    assert(all.skip(0) =~= all);
    sorted
}

/// There is one stable sort of a sequence: the order of the result is fixed by
/// the input.
pub proof fn law_stable_sort_is_unique<T>(
    items: Seq<(i64, T)>,
    a: Seq<(i64, T)>,
    b: Seq<(i64, T)>,
)
    requires
        is_stable_sort(items, a),
        is_stable_sort(items, b),
    ensures
        a == b,
{
    assert forall|key: i64| #[trigger] with_key(a, key) == with_key(b, key) by {
        assert(with_key(items, key) == with_key(a, key));
        assert(with_key(items, key) == with_key(b, key));
    }
    lemma_ascending_unique(a, b);
}

/// Ascending sequences that agree key by key are equal.
pub proof fn lemma_ascending_unique<T>(a: Seq<(i64, T)>, b: Seq<(i64, T)>)
    requires
        ascending(a),
        ascending(b),
        same_by_key(a, b),
    ensures
        a == b,
    decreases a.len(),
{
    if a.len() == 0 {
        if b.len() > 0 {
            lemma_selected(b, 0);
            lemma_no_such_key(a, b[0].0);
            assert(with_key(a, b[0].0) == with_key(b, b[0].0));
        }
        assert(a =~= b);
    } else if b.len() == 0 {
        lemma_selected(a, 0);
        lemma_no_such_key(b, a[0].0);
        assert(with_key(a, a[0].0) == with_key(b, a[0].0));
    } else {
        let x = a.last();
        let y = b.last();
        let a0 = a.drop_last();
        let b0 = b.drop_last();
        assert(a0.push(x) =~= a);
        assert(b0.push(y) =~= b);
        if x.0 < y.0 {
            lemma_selected(b, b.len() - 1);
            lemma_no_such_key(a, y.0);
            assert(with_key(a, y.0) == with_key(b, y.0));
        }
        if y.0 < x.0 {
            lemma_selected(a, a.len() - 1);
            lemma_no_such_key(b, x.0);
            assert(with_key(a, x.0) == with_key(b, x.0));
        }
        assert forall|key: i64| #[trigger] with_key(a0, key) == with_key(b0, key) by {
            lemma_with_key_push(a0, x, key);
            lemma_with_key_push(b0, y, key);
            assert(with_key(a, key) == with_key(b, key));
            if key == x.0 {
                assert(with_key(a0, key) =~= with_key(a, key).drop_last());
                assert(with_key(b0, key) =~= with_key(b, key).drop_last());
            }
        }
        lemma_with_key_push(a0, x, x.0);
        lemma_with_key_push(b0, y, x.0);
        assert(with_key(a, x.0) == with_key(b, x.0));
        assert(x == with_key(a, x.0).last());
        assert(y == with_key(b, x.0).last());
        lemma_ascending_unique(a0, b0);
        assert(a =~= b);
    }
}

/// A stable sort has as many items as the sequence.
pub proof fn lemma_stable_sort_length<T>(items: Seq<(i64, T)>, sorted: Seq<(i64, T)>)
    requires
        is_stable_sort(items, sorted),
    ensures
        items.len() == sorted.len(),
{
    lemma_same_by_key_length(items, sorted);
}

/// Sequences that agree key by key have the same length.
proof fn lemma_same_by_key_length<T>(a: Seq<(i64, T)>, b: Seq<(i64, T)>)
    requires
        same_by_key(a, b),
    ensures
        a.len() == b.len(),
    decreases a.len(),
{
    if a.len() == 0 {
        if b.len() > 0 {
            lemma_selected(b, 0);
            lemma_no_such_key(a, b[0].0);
            assert(with_key(a, b[0].0) == with_key(b, b[0].0));
        }
    } else {
        let x = a.last();
        let a0 = a.drop_last();
        assert(a =~= a0.push(x));
        lemma_with_key_push(a0, x, x.0);
        assert(with_key(a, x.0) == with_key(b, x.0));
        let j = last_with_key(b, x.0);
        let (front, back) = (b.take(j), b.skip(j + 1));
        let b0 = front + back;
        assert(b =~= front.push(b[j]) + back);
        assert forall|key: i64| #[trigger] with_key(a0, key) == with_key(b0, key) by {
            lemma_with_key_push(a0, x, key);
            lemma_with_key_add(front.push(b[j]), back, key);
            lemma_with_key_add(front, back, key);
            lemma_with_key_push(front, b[j], key);
            assert(with_key(a, key) == with_key(b, key));
            if key == x.0 {
                lemma_no_such_key(back, key);
                assert(with_key(a0, key) =~= with_key(a, key).drop_last());
                assert(with_key(b0, key) =~= with_key(b, key).drop_last());
            }
        }
        lemma_same_by_key_length(a0, b0);
    }
}

/// The place of the last item of a key.
proof fn last_with_key<T>(items: Seq<(i64, T)>, key: i64) -> (j: int)
    requires
        with_key(items, key).len() > 0,
    ensures
        0 <= j < items.len(),
        items[j].0 == key,
        forall|i: int| j < i < items.len() ==> (#[trigger] items[i]).0 != key,
    decreases items.len(),
{
    if items.len() == 0 {
        lemma_no_such_key(items, key);
        0
    } else {
        let x = items.last();
        let rest = items.drop_last();
        assert(items =~= rest.push(x));
        if x.0 == key {
            items.len() - 1
        } else {
            lemma_with_key_push(rest, x, key);
            let j = last_with_key(rest, key);
            assert forall|i: int| j < i < items.len() implies (#[trigger] items[i]).0 != key by {
                if i < rest.len() {
                    assert(rest[i].0 != key);
                }
            }
            j
        }
    }
}

/// Where no two items share a key, the order in which they are given does not
/// matter.
pub proof fn law_order_of_distinct_keys_does_not_matter<T>(
    a: Seq<(i64, T)>,
    b: Seq<(i64, T)>,
    x: Seq<(i64, T)>,
    y: Seq<(i64, T)>,
)
    requires
        a.to_multiset() == b.to_multiset(),
        forall|i: int, j: int|
            0 <= i < j < a.len() ==> (#[trigger] a[i]).0 != (#[trigger] a[j]).0,
        is_stable_sort(a, x),
        is_stable_sort(b, y),
    ensures
        x == y,
{
    assert forall|key: i64| #[trigger] with_key(x, key) == with_key(y, key) by {
        lemma_same_single(a, b, key);
        assert(with_key(a, key) == with_key(x, key));
        assert(with_key(b, key) == with_key(y, key));
    }
    lemma_ascending_unique(x, y);
}

/// Items with distinct keys are selected by key alike from any order of them.
proof fn lemma_same_single<T>(a: Seq<(i64, T)>, b: Seq<(i64, T)>, key: i64)
    requires
        a.to_multiset() == b.to_multiset(),
        forall|i: int, j: int|
            0 <= i < j < a.len() ==> (#[trigger] a[i]).0 != (#[trigger] a[j]).0,
    ensures
        with_key(a, key) == with_key(b, key),
    decreases a.len(),
{
    broadcast use vstd::seq_lib::group_to_multiset_ensures;

    if a.len() == 0 {
        assert(b.len() == 0) by {
            vstd::seq_lib::to_multiset_len(a);
            vstd::seq_lib::to_multiset_len(b);
        }
        assert(a =~= b);
    } else {
        let x = a.last();
        let a0 = a.drop_last();
        assert(a =~= a0.push(x));
        assert(b.to_multiset().contains(x));
        assert(b.contains(x));
        let j = choose|j: int| 0 <= j < b.len() && b[j] == x;
        let b0 = b.remove(j);
        assert(b0.to_multiset() =~= b.to_multiset().remove(x));
        assert(a0.to_multiset() =~= a.to_multiset().remove(x)) by {
            assert(a.to_multiset() =~= a0.to_multiset().insert(x));
        }
        lemma_same_single(a0, b0, key);
        lemma_with_key_push(a0, x, key);
        let (front, back) = (b.take(j), b.skip(j + 1));
        assert(b =~= front.push(x) + back);
        assert(b0 =~= front + back);
        lemma_with_key_add(front.push(x), back, key);
        lemma_with_key_add(front, back, key);
        lemma_with_key_push(front, x, key);
        if x.0 == key {
            assert forall|i: int| 0 <= i < a0.len() implies (#[trigger] a0[i]).0 != key by {
                assert(a[i].0 != a[a.len() - 1].0);
            }
            lemma_no_such_key(a0, key);
            assert(with_key(front, key) =~= Seq::empty() && with_key(back, key) =~= Seq::empty()) by {
                assert((with_key(front, key) + with_key(back, key)).len() == 0);
            }
            assert(with_key(b, key) =~= with_key(a, key));
        }
    }
}

/// A stable sort holds the items that were there and no others.
pub proof fn law_stable_sort_keeps_the_items<T>(
    items: Seq<(i64, T)>,
    sorted: Seq<(i64, T)>,
    item: (i64, T),
)
    requires
        is_stable_sort(items, sorted),
    ensures
        items.contains(item) <==> sorted.contains(item),
{
    lemma_item_of_its_key(items, item);
    lemma_item_of_its_key(sorted, item);
}

/// An item is there exactly when it is among those of its key.
proof fn lemma_item_of_its_key<T>(items: Seq<(i64, T)>, item: (i64, T))
    ensures
        items.contains(item) <==> with_key(items, item.0).contains(item),
{
    let has_key = |other: (i64, T)| other.0 == item.0;
    if items.contains(item) {
        let i = choose|i: int| 0 <= i < items.len() && items[i] == item;
        items.lemma_filter_contains(has_key, i);
    }
    if with_key(items, item.0).contains(item) {
        items.lemma_filter_contains_rev(has_key, item);
    }
}

} // verus!
