//! Order keys: the integers by which sibling records are sorted.
//!
//! A scope is a sequence of order keys, one per sibling. The keys of a scope
//! are pairwise distinct and kept in ascending order; they need not be
//! contiguous.

use vstd::prelude::*;

verus! {

/// The keys stand in strictly ascending order.
pub open spec fn ascending(keys: Seq<i64>) -> bool {
    forall|i: int, j: int| 0 <= i < j < keys.len() ==> keys[i] < keys[j]
}

/// No key occurs twice.
pub open spec fn distinct(keys: Seq<i64>) -> bool {
    forall|i: int, j: int| 0 <= i < keys.len() && 0 <= j < keys.len() && i != j ==> keys[i] != keys[j]
}

/// `key` is at least as large as every key of the scope.
pub open spec fn is_upper_bound(keys: Seq<i64>, key: int) -> bool {
    forall|i: int| 0 <= i < keys.len() ==> keys[i] <= key
}

/// The key a new record gets: one more than the largest key of the scope, or
/// 1 in an empty scope. For ascending keys the last one is the largest.
pub open spec fn next_key(keys: Seq<i64>) -> int {
    if keys.len() == 0 {
        1
    } else {
        keys.last() + 1
    }
}

/// `p` is the position of the largest key of the scope that is below `key`.
pub open spec fn is_closest_below(keys: Seq<i64>, key: i64, p: int) -> bool {
    &&& 0 <= p < keys.len()
    &&& keys[p] < key
    &&& forall|q: int| 0 <= q < keys.len() && keys[q] < key ==> keys[q] <= keys[p]
}

/// `p` is the position of the smallest key of the scope that is above `key`.
pub open spec fn is_closest_above(keys: Seq<i64>, key: i64, p: int) -> bool {
    &&& 0 <= p < keys.len()
    &&& keys[p] > key
    &&& forall|q: int| 0 <= q < keys.len() && keys[q] > key ==> keys[q] >= keys[p]
}

/// The position of the immediate lower neighbour of `key`, if there is one.
pub open spec fn closest_below(keys: Seq<i64>, key: i64) -> Option<int> {
    if exists|p: int| is_closest_below(keys, key, p) {
        Some(choose|p: int| is_closest_below(keys, key, p))
    } else {
        None
    }
}

/// The position of the immediate higher neighbour of `key`, if there is one.
pub open spec fn closest_above(keys: Seq<i64>, key: i64) -> Option<int> {
    if exists|p: int| is_closest_above(keys, key, p) {
        Some(choose|p: int| is_closest_above(keys, key, p))
    } else {
        None
    }
}

/// Ascending keys are pairwise distinct.
pub proof fn lemma_ascending_distinct(keys: Seq<i64>)
    requires
        ascending(keys),
    ensures
        distinct(keys),
{
    assert forall|i: int, j: int|
        0 <= i < keys.len() && 0 <= j < keys.len() && i != j implies keys[i] != keys[j] by {
        if i < j {
            assert(keys[i] < keys[j]);
        } else {
            assert(keys[j] < keys[i]);
        }
    }
}

/// In an ascending scope the last key is the largest, so `next_key` is above
/// every key in use.
pub proof fn lemma_next_key_is_fresh(keys: Seq<i64>)
    requires
        ascending(keys),
    ensures
        is_upper_bound(keys, next_key(keys) - 1),
        keys.len() > 0 ==> exists|i: int| 0 <= i < keys.len() && keys[i] == next_key(keys) - 1,
{
    if keys.len() > 0 {
        let last = keys.len() - 1;
        assert(keys[last] == next_key(keys) - 1);
        assert forall|i: int| 0 <= i < keys.len() implies keys[i] <= next_key(keys) - 1 by {
            if i < last {
                assert(keys[i] < keys[last]);
            }
        }
    }
}

/// Among distinct keys the immediate lower neighbour is unique.
pub proof fn lemma_closest_below_unique(keys: Seq<i64>, key: i64, p: int)
    requires
        distinct(keys),
        is_closest_below(keys, key, p),
    ensures
        closest_below(keys, key) == Some(p),
{
    let c = choose|c: int| is_closest_below(keys, key, c);
    assert(is_closest_below(keys, key, c));
    assert(keys[c] <= keys[p]);
    assert(keys[p] <= keys[c]);
}

/// Among distinct keys the immediate higher neighbour is unique.
pub proof fn lemma_closest_above_unique(keys: Seq<i64>, key: i64, p: int)
    requires
        distinct(keys),
        is_closest_above(keys, key, p),
    ensures
        closest_above(keys, key) == Some(p),
{
    let c = choose|c: int| is_closest_above(keys, key, c);
    assert(is_closest_above(keys, key, c));
    assert(keys[c] >= keys[p]);
    assert(keys[p] >= keys[c]);
}

/// In an ascending scope the immediate lower neighbour of the key at
/// position `p` sits at `p - 1`, and the first key has none.
pub proof fn lemma_neighbour_below_in_ascending(keys: Seq<i64>, p: int)
    requires
        ascending(keys),
        0 <= p < keys.len(),
    ensures
        p > 0 ==> closest_below(keys, keys[p]) == Some(p - 1),
        p == 0 ==> closest_below(keys, keys[p]) is None,
{
    lemma_ascending_distinct(keys);
    if p > 0 {
        assert forall|q: int| 0 <= q < keys.len() && #[trigger] keys[q] < keys[p] implies keys[q] <= keys[p - 1] by {
            if q > p {
                assert(keys[p] < keys[q]);
            } else if q < p - 1 {
                assert(keys[q] < keys[p - 1]);
            }
        }
        assert(keys[p - 1] < keys[p]);
        assert(is_closest_below(keys, keys[p], p - 1));
        lemma_closest_below_unique(keys, keys[p], p - 1);
    } else {
        assert forall|c: int| !is_closest_below(keys, keys[p], c) by {
            if 0 < c < keys.len() {
                assert(keys[p] < keys[c]);
            }
        }
    }
}

/// In an ascending scope the immediate higher neighbour of the key at
/// position `p` sits at `p + 1`, and the last key has none.
pub proof fn lemma_neighbour_above_in_ascending(keys: Seq<i64>, p: int)
    requires
        ascending(keys),
        0 <= p < keys.len(),
    ensures
        p + 1 < keys.len() ==> closest_above(keys, keys[p]) == Some(p + 1),
        p + 1 == keys.len() ==> closest_above(keys, keys[p]) is None,
{
    lemma_ascending_distinct(keys);
    if p + 1 < keys.len() {
        assert forall|q: int| 0 <= q < keys.len() && #[trigger] keys[q] > keys[p] implies keys[q] >= keys[p + 1] by {
            if q < p {
                assert(keys[q] < keys[p]);
            } else if q > p + 1 {
                assert(keys[p + 1] < keys[q]);
            }
        }
        assert(keys[p] < keys[p + 1]);
        assert(is_closest_above(keys, keys[p], p + 1));
        lemma_closest_above_unique(keys, keys[p], p + 1);
    } else {
        assert forall|c: int| !is_closest_above(keys, keys[p], c) by {
            if 0 <= c < p {
                assert(keys[c] < keys[p]);
            }
        }
    }
}

/// `key` is the key that a new record gets in the scope: one more than the
/// largest key in use, or 1 in an empty scope.
pub open spec fn is_next_key(keys: Seq<i64>, key: int) -> bool {
    &&& is_upper_bound(keys, key - 1)
    &&& keys.len() == 0 ==> key == 1
    &&& keys.len() > 0 ==> exists|i: int| 0 <= i < keys.len() && keys[i] == key - 1
}

/// In an ascending scope `next_key` is the key that a new record gets.
pub proof fn lemma_next_key_in_ascending(keys: Seq<i64>)
    requires
        ascending(keys),
    ensures
        is_next_key(keys, next_key(keys)),
        forall|key: int| is_next_key(keys, key) ==> key == next_key(keys),
{
    lemma_next_key_is_fresh(keys);
    assert forall|key: int| is_next_key(keys, key) implies key == next_key(keys) by {
        if keys.len() > 0 {
            let i = choose|i: int| 0 <= i < keys.len() && keys[i] == key - 1;
            let last = keys.len() - 1;
            assert(keys[last] <= key - 1);
            assert(keys[i] <= next_key(keys) - 1);
        }
    }
}

/// The key for a new record in the scope: one more than the largest key in
/// use, or 1 in an empty scope; `None` where that leaves the range of order
/// keys.
pub fn next_order_key(keys: &Vec<i64>) -> (next: Option<i64>)
    ensures
        match next {
            Some(key) => is_next_key(keys@, key as int),
            None => exists|i: int| 0 <= i < keys.len() && keys[i] == i64::MAX,
        },
{
    if keys.len() == 0 {
        return Some(1);
    }
    let mut largest: i64 = keys[0];
    let mut at: usize = 0;
    let mut k: usize = 1;
    while k < keys.len()
        invariant
            1 <= k <= keys.len(),
            at < k,
            keys[at as int] == largest,
            forall|i: int| 0 <= i < k ==> keys[i] <= largest,
        decreases keys.len() - k,
    {
        if keys[k] > largest {
            largest = keys[k];
            at = k;
        }
        k += 1;
    }
    if largest < i64::MAX {
        assert(keys[at as int] == largest + 1 - 1);
        Some(largest + 1)
    } else {
        None
    }
}

/// Finds the immediate lower neighbour of `key`: the position of the largest
/// key of the scope that is below `key`.
pub fn position_below(keys: &Vec<i64>, key: i64) -> (found: Option<usize>)
    ensures
        match found {
            Some(p) => is_closest_below(keys@, key, p as int),
            None => forall|q: int| 0 <= q < keys.len() ==> keys[q] >= key,
        },
{
    let mut best: Option<usize> = None;
    let mut k: usize = 0;
    while k < keys.len()
        invariant
            k <= keys.len(),
            match best {
                Some(p) => {
                    &&& p < k
                    &&& keys[p as int] < key
                    &&& forall|q: int| 0 <= q < k && keys[q] < key ==> keys[q] <= keys[p as int]
                },
                None => forall|q: int| 0 <= q < k ==> keys[q] >= key,
            },
        decreases keys.len() - k,
    {
        if keys[k] < key {
            let better: bool = match best {
                Some(p) => keys[p] < keys[k],
                None => true,
            };
            if better {
                best = Some(k);
            }
        }
        k += 1;
    }
    best
}

/// Finds the immediate higher neighbour of `key`: the position of the
/// smallest key of the scope that is above `key`.
pub fn position_above(keys: &Vec<i64>, key: i64) -> (found: Option<usize>)
    ensures
        match found {
            Some(p) => is_closest_above(keys@, key, p as int),
            None => forall|q: int| 0 <= q < keys.len() ==> keys[q] <= key,
        },
{
    let mut best: Option<usize> = None;
    let mut k: usize = 0;
    while k < keys.len()
        invariant
            k <= keys.len(),
            match best {
                Some(p) => {
                    &&& p < k
                    &&& keys[p as int] > key
                    &&& forall|q: int| 0 <= q < k && keys[q] > key ==> keys[q] >= keys[p as int]
                },
                None => forall|q: int| 0 <= q < k ==> keys[q] <= key,
            },
        decreases keys.len() - k,
    {
        if keys[k] > key {
            let better: bool = match best {
                Some(p) => keys[p] > keys[k],
                None => true,
            };
            if better {
                best = Some(k);
            }
        }
        k += 1;
    }
    best
}

} // verus!
