//! Looking a key up in a sequence, first match first.

use vstd::prelude::*;

verus! {

/// Index of the first element of `keys` that equals `key`; `keys.len()` where
/// no element does.
pub open spec fn first_index<K>(keys: Seq<K>, key: K) -> int
    decreases keys.len(),
{
    if keys.len() == 0 {
        0
    } else if keys[0] == key {
        0
    } else {
        1 + first_index(keys.drop_first(), key)
    }
}

/// `first_index` stays within the sequence, points at a match where it points
/// at anything, and passes over no match on its way.
pub proof fn lemma_first_index<K>(keys: Seq<K>, key: K)
    ensures
        0 <= first_index(keys, key) <= keys.len(),
        first_index(keys, key) < keys.len() ==> keys[first_index(keys, key)] == key,
        forall|j: int| 0 <= j < first_index(keys, key) ==> keys[j] != key,
        first_index(keys, key) == keys.len() <==> !keys.contains(key),
    decreases keys.len(),
{
    if keys.len() == 0 {
    } else if keys[0] == key {
    } else {
        let rest = keys.drop_first();
        lemma_first_index(rest, key);
        let r = first_index(rest, key);
        assert forall|j: int| 0 <= j < 1 + r implies keys[j] != key by {
            if j > 0 {
                assert(keys[j] == rest[j - 1]);
            }
        }
        if r < rest.len() {
            assert(keys[1 + r] == rest[r]);
        }
        if keys.contains(key) {
            let w = choose|w: int| 0 <= w < keys.len() && keys[w] == key;
            assert(rest[w - 1] == key);
        }
        if rest.contains(key) {
            let w = choose|w: int| 0 <= w < rest.len() && rest[w] == key;
            assert(keys[w + 1] == key);
        }
    }
}

/// An index that holds the first match, or the length where nothing matches,
/// is what `first_index` gives.
pub proof fn lemma_first_index_unique<K>(keys: Seq<K>, key: K, i: int)
    requires
        0 <= i <= keys.len(),
        forall|j: int| 0 <= j < i ==> keys[j] != key,
        i < keys.len() ==> keys[i] == key,
    ensures
        first_index(keys, key) == i,
{
    lemma_first_index(keys, key);
    let r = first_index(keys, key);
    if r < i {
        assert(keys[r] == key);
    } else if r > i {
        assert(keys[i] == key);
    }
}

/// Index of the first element of `items` that passes `pred`; `items.len()`
/// where none does.
pub open spec fn first_where<A>(items: Seq<A>, pred: spec_fn(A) -> bool) -> int
    decreases items.len(),
{
    if items.len() == 0 {
        0
    } else if pred(items[0]) {
        0
    } else {
        1 + first_where(items.drop_first(), pred)
    }
}

/// `first_where` stays within the sequence, points at an element that
/// passes where it points at anything, and passes over none on its way.
pub proof fn lemma_first_where<A>(items: Seq<A>, pred: spec_fn(A) -> bool)
    ensures
        0 <= first_where(items, pred) <= items.len(),
        first_where(items, pred) < items.len() ==> pred(items[first_where(items, pred)]),
        forall|j: int| 0 <= j < first_where(items, pred) ==> !pred(items[j]),
    decreases items.len(),
{
    if items.len() == 0 {
    } else if pred(items[0]) {
    } else {
        let rest = items.drop_first();
        lemma_first_where(rest, pred);
        let r = first_where(rest, pred);
        assert forall|j: int| 0 <= j < 1 + r implies !pred(items[j]) by {
            if j > 0 {
                assert(items[j] == rest[j - 1]);
            }
        }
        if r < rest.len() {
            assert(items[1 + r] == rest[r]);
        }
    }
}

/// An index that holds the first element that passes, or the length where
/// none passes, is what `first_where` gives.
pub proof fn lemma_first_where_unique<A>(items: Seq<A>, pred: spec_fn(A) -> bool, i: int)
    requires
        0 <= i <= items.len(),
        forall|j: int| 0 <= j < i ==> !pred(items[j]),
        i < items.len() ==> pred(items[i]),
    ensures
        first_where(items, pred) == i,
{
    lemma_first_where(items, pred);
    let r = first_where(items, pred);
    if r < i {
        assert(pred(items[r]));
    } else if r > i {
        assert(pred(items[i]));
    }
}

/// A key that occurs in a sequence is found at the same place when the
/// sequence grows at its end.
pub proof fn lemma_first_index_push<K>(keys: Seq<K>, key: K, added: K)
    requires
        first_index(keys, key) < keys.len(),
    ensures
        first_index(keys.push(added), key) == first_index(keys, key),
{
    lemma_first_index(keys, key);
    let i = first_index(keys, key);
    let longer = keys.push(added);
    assert forall|j: int| 0 <= j < i implies longer[j] != key by {
        assert(longer[j] == keys[j]);
    }
    assert(longer[i] == keys[i]);
    lemma_first_index_unique(longer, key, i);
}

/// The indices of the elements of `items` that pass `pred`, in rising
/// order.
pub open spec fn indices_where<A>(items: Seq<A>, pred: spec_fn(A) -> bool) -> Seq<usize>
    decreases items.len(),
{
    if items.len() == 0 {
        Seq::empty()
    } else {
        let front = indices_where(items.drop_last(), pred);
        if pred(items.last()) {
            front.push((items.len() - 1) as usize)
        } else {
            front
        }
    }
}

/// Filtering one element more either appends that element or changes
/// nothing.
pub proof fn lemma_filter_next<A>(s: Seq<A>, pred: spec_fn(A) -> bool, k: int)
    requires
        0 <= k < s.len(),
    ensures
        s.take(k + 1).filter(pred) == if pred(s[k]) {
            s.take(k).filter(pred).push(s[k])
        } else {
            s.take(k).filter(pred)
        },
{
    reveal_with_fuel(Seq::filter, 2);
    assert(s.take(k + 1).drop_last() == s.take(k));
}

/// Filtering a sequence without duplicates leaves none, and makes it no
/// longer.
pub proof fn lemma_filter_no_duplicates<A>(s: Seq<A>, pred: spec_fn(A) -> bool)
    requires
        s.no_duplicates(),
    ensures
        s.filter(pred).no_duplicates(),
        s.filter(pred).len() <= s.len(),
    decreases s.len(),
{
    reveal_with_fuel(Seq::filter, 2);
    if s.len() > 0 {
        let front = s.drop_last();
        lemma_filter_no_duplicates(front, pred);
        let kept = front.filter(pred);
        if pred(s.last()) {
            assert forall|a: int, b: int|
                0 <= a < kept.len() + 1 && 0 <= b < kept.len() + 1 && a != b implies kept.push(
                s.last(),
            )[a] != kept.push(s.last())[b] by {
                if a < kept.len() {
                    assert(kept.contains(kept[a]));
                    front.lemma_filter_contains_rev(pred, kept[a]);
                    let w = choose|w: int| 0 <= w < front.len() && front[w] == kept[a];
                    assert(s[w] == kept[a]);
                }
                if b < kept.len() {
                    assert(kept.contains(kept[b]));
                    front.lemma_filter_contains_rev(pred, kept[b]);
                    let w = choose|w: int| 0 <= w < front.len() && front[w] == kept[b];
                    assert(s[w] == kept[b]);
                }
            }
        }
    }
}

/// Filtering a sequence all of whose elements pass leaves it as it is.
pub proof fn lemma_filter_keeps_all<A>(s: Seq<A>, pred: spec_fn(A) -> bool)
    requires
        forall|i: int| 0 <= i < s.len() ==> pred(#[trigger] s[i]),
    ensures
        s.filter(pred) == s,
    decreases s.len(),
{
    reveal_with_fuel(Seq::filter, 2);
    if s.len() > 0 {
        let front = s.drop_last();
        assert forall|i: int| 0 <= i < front.len() implies pred(#[trigger] front[i]) by {
            assert(front[i] == s[i]);
        }
        lemma_filter_keeps_all(front, pred);
        assert(pred(s[s.len() - 1]));
        assert(front.push(s.last()) == s);
    }
}

/// The views of the names in a list.
pub open spec fn names(list: Seq<String>) -> Seq<Seq<char>> {
    list.map_values(|name: String| name@)
}

/// A test on names, applied to a name through its view.
pub open spec fn by_view(pred: spec_fn(Seq<char>) -> bool) -> spec_fn(String) -> bool {
    |name: String| pred(name@)
}

/// Filtering names and taking their views can be done in either order.
pub proof fn lemma_names_filter(list: Seq<String>, pred: spec_fn(Seq<char>) -> bool)
    ensures
        names(list.filter(by_view(pred))) == names(list).filter(pred),
    decreases list.len(),
{
    reveal_with_fuel(Seq::filter, 2);
    if list.len() == 0 {
        assert(names(list.filter(by_view(pred))) == names(list).filter(pred));
    } else {
        let front = list.drop_last();
        lemma_names_filter(front, pred);
        assert(names(list).drop_last() == names(front));
        assert(names(list).last() == list.last()@);
        if pred(list.last()@) {
            assert(names(front.filter(by_view(pred)).push(list.last())) == names(
                front.filter(by_view(pred)),
            ).push(list.last()@));
        }
    }
}

} // verus!
