//! What holds of the ordered store whatever is done with it.

use vstd::prelude::*;
use crate::db::keys::{
    distinct, lemma_ascending_distinct, lemma_neighbour_above_in_ascending,
    lemma_neighbour_below_in_ascending, lemma_next_key_is_fresh,
};
use crate::db::models::{ItemRecord, Priority, Timestamp};
use crate::db::ops::{key_after_move, lemma_list_above_held, lemma_list_below_held, snapshot_of};
use crate::db::store::{
    lemma_item_added_wf, lemma_item_place, lemma_item_place_valid, lemma_item_removed_wf,
    lemma_list_pos, lemma_list_pos_valid, lemma_same_rows_wf, lemma_with_items_at_wf,
    lemma_with_list_wf, lemma_with_lists_swapped_wf, StoreView,
};

verus! {

/// No two siblings share an order key: not two lists, and not two items of
/// one list. Every operation of the store keeps its invariant, so this holds
/// at all times.
pub proof fn lemma_sibling_keys_distinct(v: StoreView)
    requires
        v.wf(),
    ensures
        distinct(v.list_keys()),
        forall|p: int| 0 <= p < v.scopes.len() ==> distinct((#[trigger] v.scopes[p]).item_keys()),
{
    lemma_ascending_distinct(v.list_keys());
    assert forall|p: int| 0 <= p < v.scopes.len() implies distinct(
        (#[trigger] v.scopes[p]).item_keys(),
    ) by {
        assert(v.scopes[p].wf());
        lemma_ascending_distinct(v.scopes[p].item_keys());
    }
}

/// Moving the first list up, or the last list down, succeeds and changes
/// nothing: not the store, and not the key that the list's record carries.
pub proof fn lemma_list_move_at_boundary(v: StoreView, p: int)
    requires
        v.wf(),
        0 <= p < v.scopes.len(),
    ensures
        ({
            let list = v.scopes[p].list;
            &&& p == 0 ==> {
                &&& !v.list_move_up_fails(list.id, list.ordering)
                &&& v.list_moved_up(list.id, list.ordering) == v
                &&& key_after_move(v.list_below(list.ordering), list.ordering) == list.ordering
            }
            &&& p == v.scopes.len() - 1 ==> {
                &&& !v.list_move_down_fails(list.id, list.ordering)
                &&& v.list_moved_down(list.id, list.ordering) == v
                &&& key_after_move(v.list_above(list.ordering), list.ordering) == list.ordering
            }
        }),
{
    let keys = v.list_keys();
    assert(keys[p] == v.scopes[p].list.ordering);
    lemma_neighbour_below_in_ascending(keys, p);
    lemma_neighbour_above_in_ascending(keys, p);
}

/// Moving a list that is not the first up and then down again puts every
/// list back where it was, with the order key it had: the list itself and
/// its two neighbours as well. Both moves succeed, and the list's record
/// carries its old key again.
pub proof fn lemma_list_up_then_down(v: StoreView, p: int)
    requires
        v.wf(),
        0 < p < v.scopes.len(),
    ensures
        ({
            let list = v.scopes[p].list;
            let up = v.list_moved_up(list.id, list.ordering);
            let key_up = key_after_move(v.list_below(list.ordering), list.ordering);
            let down = up.list_moved_down(list.id, key_up);
            &&& !v.list_move_up_fails(list.id, list.ordering)
            &&& key_up == v.scopes[p - 1].list.ordering
            &&& up.wf()
            &&& !up.list_move_down_fails(list.id, key_up)
            &&& down.scopes == v.scopes
            &&& key_after_move(up.list_above(key_up), key_up) == list.ordering
        }),
{
    let list = v.scopes[p].list;
    let other = v.scopes[p - 1].list;
    let keys = v.list_keys();
    assert(keys[p] == list.ordering);
    assert(keys[p - 1] == other.ordering);
    lemma_neighbour_below_in_ascending(keys, p);
    lemma_list_pos(v, p);
    lemma_list_pos(v, p - 1);
    assert(v.list_below(list.ordering) == Some((other.id, other.ordering)));
    let up = v.list_moved_up(list.id, list.ordering);
    assert(up == v.with_lists_swapped(other.id, list.id));
    lemma_with_lists_swapped_wf(v, other.id, list.id);
    assert(up.scopes[p - 1].list.id == list.id);
    assert(up.scopes[p].list.id == other.id);
    lemma_list_pos(up, p);
    lemma_list_pos(up, p - 1);
    let key_up = other.ordering;
    assert(up.list_keys()[p - 1] == key_up);
    lemma_neighbour_above_in_ascending(up.list_keys(), p - 1);
    assert(up.list_above(key_up) == Some((other.id, list.ordering)));
    let down = up.list_moved_down(list.id, key_up);
    assert(down == up.with_lists_swapped(other.id, list.id));
    assert(down.scopes =~= v.scopes);
}

/// Moving a list that is not the last down and then up again puts every list
/// back where it was, with the order key it had.
pub proof fn lemma_list_down_then_up(v: StoreView, p: int)
    requires
        v.wf(),
        0 <= p < v.scopes.len() - 1,
    ensures
        ({
            let list = v.scopes[p].list;
            let down = v.list_moved_down(list.id, list.ordering);
            let key_down = key_after_move(v.list_above(list.ordering), list.ordering);
            let up = down.list_moved_up(list.id, key_down);
            &&& !v.list_move_down_fails(list.id, list.ordering)
            &&& key_down == v.scopes[p + 1].list.ordering
            &&& down.wf()
            &&& !down.list_move_up_fails(list.id, key_down)
            &&& up.scopes == v.scopes
            &&& key_after_move(down.list_below(key_down), key_down) == list.ordering
        }),
{
    let list = v.scopes[p].list;
    let other = v.scopes[p + 1].list;
    let keys = v.list_keys();
    assert(keys[p] == list.ordering);
    assert(keys[p + 1] == other.ordering);
    lemma_neighbour_above_in_ascending(keys, p);
    lemma_list_pos(v, p);
    lemma_list_pos(v, p + 1);
    assert(v.list_above(list.ordering) == Some((other.id, other.ordering)));
    let down = v.list_moved_down(list.id, list.ordering);
    assert(down == v.with_lists_swapped(other.id, list.id));
    lemma_with_lists_swapped_wf(v, other.id, list.id);
    assert(down.scopes[p + 1].list.id == list.id);
    assert(down.scopes[p].list.id == other.id);
    lemma_list_pos(down, p);
    lemma_list_pos(down, p + 1);
    let key_down = other.ordering;
    assert(down.list_keys()[p + 1] == key_down);
    lemma_neighbour_below_in_ascending(down.list_keys(), p + 1);
    assert(down.list_below(key_down) == Some((other.id, list.ordering)));
    let up = down.list_moved_up(list.id, key_down);
    assert(up == down.with_lists_swapped(other.id, list.id));
    assert(up.scopes =~= v.scopes);
}

/// Moving a list that is not the first up exchanges it with the list before
/// it and touches no other list: the two trade order keys, every other list
/// keeps its place and its key, and every list keeps its items.
pub proof fn lemma_list_up_swaps_neighbours(v: StoreView, p: int)
    requires
        v.wf(),
        0 < p < v.scopes.len(),
    ensures
        ({
            let list = v.scopes[p].list;
            let up = v.list_moved_up(list.id, list.ordering);
            &&& up.scopes.len() == v.scopes.len()
            &&& up.list_keys() == v.list_keys()
            &&& up.scopes[p - 1].list.id == list.id
            &&& up.scopes[p - 1].items == v.scopes[p].items
            &&& up.scopes[p].list.id == v.scopes[p - 1].list.id
            &&& up.scopes[p].items == v.scopes[p - 1].items
            &&& forall|q: int|
                0 <= q < v.scopes.len() && q != p && q != p - 1 ==> #[trigger] up.scopes[q]
                    == v.scopes[q]
        }),
{
    let list = v.scopes[p].list;
    let other = v.scopes[p - 1].list;
    let keys = v.list_keys();
    assert(keys[p] == list.ordering);
    lemma_neighbour_below_in_ascending(keys, p);
    lemma_list_pos(v, p);
    lemma_list_pos(v, p - 1);
    lemma_with_lists_swapped_wf(v, other.id, list.id);
}

/// Moving the first item of a list up, or the last one down, succeeds and
/// changes nothing.
pub proof fn lemma_item_move_at_boundary(v: StoreView, p: int, k: int)
    requires
        v.wf(),
        v.is_place(p, k),
    ensures
        ({
            let item = v.item_at(p, k);
            &&& k == 0 ==> {
                &&& !v.item_move_up_fails(item.list_id, item.id, item.ordering)
                &&& v.item_moved_up(item.list_id, item.id, item.ordering) == v
                &&& key_after_move(v.item_below(item.list_id, item.ordering), item.ordering)
                    == item.ordering
            }
            &&& k == v.scopes[p].items.len() - 1 ==> {
                &&& !v.item_move_down_fails(item.list_id, item.id, item.ordering)
                &&& v.item_moved_down(item.list_id, item.id, item.ordering) == v
                &&& key_after_move(v.item_above(item.list_id, item.ordering), item.ordering)
                    == item.ordering
            }
        }),
{
    let item = v.item_at(p, k);
    assert(v.scopes[p].wf());
    assert(v.scopes[p].items[k].list_id == v.scopes[p].list.id);
    lemma_list_pos(v, p);
    let keys = v.scopes[p].item_keys();
    assert(keys[k] == item.ordering);
    lemma_neighbour_below_in_ascending(keys, k);
    lemma_neighbour_above_in_ascending(keys, k);
}

/// The store after the items at the places `k` and `l` of the scope `p`
/// exchanged their order keys keeps the invariant, and the items stand where
/// the other stood.
pub proof fn lemma_items_swapped(v: StoreView, p: int, k: int, l: int)
    requires
        v.wf(),
        v.is_place(p, k),
        v.is_place(p, l),
    ensures
        ({
            let a = v.item_at(p, k);
            let b = v.item_at(p, l);
            let w = v.with_items_swapped(a.id, b.id);
            &&& v.are_siblings(a.id, b.id)
            &&& w.wf()
            &&& w.scopes.len() == v.scopes.len()
            &&& w.scopes[p].list == v.scopes[p].list
            &&& w.scopes[p].items == v.scopes[p].items.update(
                k,
                ItemRecord { ordering: a.ordering, ..b },
            ).update(l, ItemRecord { ordering: b.ordering, ..a })
            &&& forall|q: int| 0 <= q < v.scopes.len() && q != p ==> #[trigger] w.scopes[q] == v.scopes[q]
        }),
{
    let a = v.item_at(p, k);
    let b = v.item_at(p, l);
    lemma_item_place(v, p, k);
    lemma_item_place(v, p, l);
    let w = v.with_items_swapped(a.id, b.id);
    let old_items = v.scopes[p].items;
    let items = old_items.update(k, ItemRecord { ordering: a.ordering, ..b }).update(
        l,
        ItemRecord { ordering: b.ordering, ..a },
    );
    assert(w.scopes == v.with_items_at(p, items).scopes);
    assert(v.scopes[p].wf());
    assert(Seq::new(items.len(), |i: int| items[i].ordering) =~= v.scopes[p].item_keys());
    let from = |i: int| if i == k { l } else if i == l { k } else { i };
    assert forall|i: int| 0 <= i < items.len() implies (#[trigger] items[i]).id == old_items[from(
        i,
    )].id && items[i].list_id == v.scopes[p].list.id by {
        assert(old_items[from(i)].list_id == v.scopes[p].list.id);
    }
    lemma_with_items_at_wf(v, w, p, items, from);
}

/// Moving an item that is not the first of its list up and then down again
/// puts every item of the list back where it was, with the order key it had.
/// Both moves succeed, and the item's record carries its old key again.
pub proof fn lemma_item_up_then_down(v: StoreView, p: int, k: int)
    requires
        v.wf(),
        v.is_place(p, k),
        0 < k,
    ensures
        ({
            let item = v.item_at(p, k);
            let up = v.item_moved_up(item.list_id, item.id, item.ordering);
            let key_up = key_after_move(v.item_below(item.list_id, item.ordering), item.ordering);
            let down = up.item_moved_down(item.list_id, item.id, key_up);
            &&& !v.item_move_up_fails(item.list_id, item.id, item.ordering)
            &&& key_up == v.item_at(p, k - 1).ordering
            &&& up.wf()
            &&& !up.item_move_down_fails(item.list_id, item.id, key_up)
            &&& down.scopes == v.scopes
            &&& key_after_move(up.item_above(item.list_id, key_up), key_up) == item.ordering
        }),
{
    let item = v.item_at(p, k);
    let other = v.item_at(p, k - 1);
    assert(v.scopes[p].wf());
    assert(v.scopes[p].items[k].list_id == v.scopes[p].list.id);
    lemma_list_pos(v, p);
    let keys = v.scopes[p].item_keys();
    assert(keys[k] == item.ordering);
    assert(keys[k - 1] == other.ordering);
    lemma_neighbour_below_in_ascending(keys, k);
    assert(v.item_below(item.list_id, item.ordering) == Some((other.id, other.ordering)));
    lemma_items_swapped(v, p, k - 1, k);
    let up = v.item_moved_up(item.list_id, item.id, item.ordering);
    assert(up == v.with_items_swapped(other.id, item.id));
    assert(up.scopes[p].list.id == item.list_id);
    lemma_list_pos(up, p);
    assert(up.is_place(p, k) && up.is_place(p, k - 1));
    assert(up.item_at(p, k - 1).id == item.id);
    assert(up.item_at(p, k).id == other.id);
    let up_keys = up.scopes[p].item_keys();
    assert(up_keys =~= keys);
    assert(up.scopes[p].wf());
    lemma_neighbour_above_in_ascending(up_keys, k - 1);
    assert(up.item_above(item.list_id, other.ordering) == Some((other.id, item.ordering)));
    lemma_items_swapped(up, p, k, k - 1);
    let down = up.item_moved_down(item.list_id, item.id, other.ordering);
    assert(down == up.with_items_swapped(other.id, item.id));
    assert(down.scopes[p].items =~= v.scopes[p].items);
    assert(down.scopes =~= v.scopes);
}

/// Deleting a list deletes every item that belonged to it: afterwards the
/// store holds no such list, the list has no items, and no item names it.
/// Every other list is still there with the items it had.
pub proof fn lemma_delete_list_cascades(v: StoreView, id: i64)
    requires
        v.wf(),
        v.has_list(id),
    ensures
        ({
            let w = v.without_list(id);
            &&& w.wf()
            &&& !w.has_list(id)
            &&& w.items_of(id) == Seq::<ItemRecord>::empty()
            &&& forall|p: int, k: int| w.is_place(p, k) ==> (#[trigger] w.item_at(p, k)).list_id != id
            &&& forall|other: i64| other != id ==> #[trigger] w.has_list(other) == v.has_list(other)
            &&& forall|other: i64| other != id ==> #[trigger] w.items_of(other) == v.items_of(other)
        }),
{
    let w = v.without_list(id);
    let t = v.list_pos(id);
    lemma_list_pos_valid(v, id);
    crate::db::store::lemma_without_list_wf(v, id);
    assert forall|p: int| 0 <= p < w.scopes.len() implies #[trigger] w.scopes[p] == v.scopes[if p < t {
        p
    } else {
        p + 1
    }] && w.scopes[p].list.id != id by {
        let p0 = if p < t { p } else { p + 1 };
        assert(v.scopes[p0].list.id != v.scopes[t].list.id);
    }
    assert forall|p: int, k: int| w.is_place(p, k) implies (#[trigger] w.item_at(p, k)).list_id
        != id by {
        assert(w.scopes[p].wf());
        assert(w.scopes[p].items[k].list_id == w.scopes[p].list.id);
    }
    assert forall|other: i64| other != id implies #[trigger] w.has_list(other) == v.has_list(other)
        && w.items_of(other) == v.items_of(other) by {
        if v.has_list(other) {
            let q = v.list_pos(other);
            lemma_list_pos_valid(v, other);
            let q1 = if q < t { q } else { q - 1 };
            assert(w.scopes[q1] == v.scopes[q]);
            lemma_list_pos(w, q1);
        }
        if w.has_list(other) {
            let q1 = w.list_pos(other);
            lemma_list_pos_valid(w, other);
            let q = if q1 < t { q1 } else { q1 + 1 };
            assert(w.scopes[q1] == v.scopes[q]);
            lemma_list_pos(v, q);
        }
    }
    assert forall|other: i64| other != id implies #[trigger] w.items_of(other) == v.items_of(
        other,
    ) by {
        assert(w.has_list(other) == v.has_list(other));
    }
}

/// Creating a list keeps the invariant of the store.
pub proof fn lemma_created_list_wf(v: StoreView, name: Seq<char>, now: Timestamp)
    requires
        v.wf(),
        !v.create_list_fails(),
    ensures
        v.with_created_list(name, now).wf(),
{
    lemma_next_key_is_fresh(v.list_keys());
    lemma_with_list_wf(v, name, v.next_list_key() as i64, now);
}

/// Creating an item keeps the invariant of the store.
pub proof fn lemma_created_item_wf(
    v: StoreView,
    list_id: i64,
    name: Seq<char>,
    priority: Option<Priority>,
    due_date: Option<Timestamp>,
    now: Timestamp,
)
    requires
        v.wf(),
        v.create_item_error(list_id) is None,
    ensures
        v.with_item(v.created_item(list_id, name, priority, due_date, now)).wf(),
{
    let item = v.created_item(list_id, name, priority, due_date, now);
    let w = v.with_item(item);
    lemma_list_pos_valid(v, list_id);
    assert(v.scope_of(list_id).wf());
    lemma_next_key_is_fresh(v.scope_of(list_id).item_keys());
    assert(!v.has_item(item.id)) by {
        if v.has_item(item.id) {
            lemma_item_place_valid(v, item.id);
            let c = v.item_place(item.id);
            assert(v.item_at(c.0, c.1).id < v.next_item_id);
        }
    }
    lemma_item_added_wf(v, w, item);
}

/// Putting another record in the place of an item keeps the invariant of the
/// store where the record has the item's identity, list and order key.
pub proof fn lemma_item_replaced_wf(v: StoreView, id: i64, item: ItemRecord)
    requires
        v.wf(),
        v.has_item(id) ==> item.id == id && item.list_id == v.item(id).list_id && item.ordering
            == v.item(id).ordering,
    ensures
        v.with_item_replaced(id, item).wf(),
{
    if v.has_item(id) {
        lemma_item_place_valid(v, id);
        let (p, k) = v.item_place(id);
        let items = v.scopes[p].items.update(k, item);
        let w = v.with_items_at(p, items);
        assert(v.scopes[p].wf());
        assert(Seq::new(items.len(), |l: int| items[l].ordering) =~= v.scopes[p].item_keys());
        assert forall|l: int| 0 <= l < items.len() implies (#[trigger] items[l]).id
            == v.scopes[p].items[l].id && items[l].list_id == v.scopes[p].list.id by {
            assert(v.scopes[p].items[l].list_id == v.scopes[p].list.id);
        }
        lemma_with_items_at_wf(v, w, p, items, |l: int| l);
    }
}

/// Deleting an item keeps the invariant of the store.
pub proof fn lemma_without_item_wf(v: StoreView, id: i64)
    requires
        v.wf(),
    ensures
        v.without_item(id).wf(),
{
    let w = v.without_item(id);
    if v.has_item(id) {
        lemma_item_place_valid(v, id);
        let (p, k) = v.item_place(id);
        lemma_item_removed_wf(v, w, p, k);
    } else {
        lemma_same_rows_wf(v, w);
    }
}

/// Exchanging the order keys of two items of one list keeps the invariant
/// of the store.
pub proof fn lemma_with_items_swapped_wf(v: StoreView, a: i64, b: i64)
    requires
        v.wf(),
        v.are_siblings(a, b),
    ensures
        v.with_items_swapped(a, b).wf(),
{
    lemma_item_place_valid(v, a);
    lemma_item_place_valid(v, b);
    let (p, k) = v.item_place(a);
    let l = v.item_place(b).1;
    lemma_items_swapped(v, p, k, l);
}

/// A move of a list keeps the invariant of the store, whether it goes up or
/// down and whether or not the list has a neighbour there.
pub proof fn lemma_list_moved_wf(v: StoreView, id: i64, key: i64)
    requires
        v.wf(),
    ensures
        v.list_moved_up(id, key).wf(),
        v.list_moved_down(id, key).wf(),
{
    if v.list_below(key) is Some && v.has_list(id) {
        lemma_list_below_held(v, key);
        lemma_with_lists_swapped_wf(v, v.list_below(key).unwrap().0, id);
    }
    if v.list_above(key) is Some && v.has_list(id) {
        lemma_list_above_held(v, key);
        lemma_with_lists_swapped_wf(v, v.list_above(key).unwrap().0, id);
    }
}

/// A move of an item keeps the invariant of the store, whether it goes up or
/// down and whether or not the item has a neighbour there.
pub proof fn lemma_item_moved_wf(v: StoreView, list_id: i64, id: i64, key: i64)
    requires
        v.wf(),
    ensures
        v.item_moved_up(list_id, id, key).wf(),
        v.item_moved_down(list_id, id, key).wf(),
{
    match v.item_below(list_id, key) {
        Some((below, _)) => {
            if v.are_siblings(below, id) {
                lemma_with_items_swapped_wf(v, below, id);
            }
        },
        None => {},
    }
    match v.item_above(list_id, key) {
        Some((above, _)) => {
            if v.are_siblings(above, id) {
                lemma_with_items_swapped_wf(v, above, id);
            }
        },
        None => {},
    }
}

/// The snapshot of a store shows the lists in ascending order of their order
/// keys, and the items of each list in ascending order of theirs.
pub proof fn lemma_snapshot_in_key_order(v: StoreView)
    requires
        v.wf(),
    ensures
        forall|p: int, q: int|
            0 <= p < q < snapshot_of(v).len() ==> (#[trigger] snapshot_of(v)[p]).list.ordering < (
            #[trigger] snapshot_of(v)[q]).list.ordering,
        forall|p: int, k: int, l: int|
            0 <= p < snapshot_of(v).len() && 0 <= k < l < snapshot_of(v)[p].items.len() ==> (
            #[trigger] snapshot_of(v)[p].items[k]).ordering < (
            #[trigger] snapshot_of(v)[p].items[l]).ordering,
{
    let s = snapshot_of(v);
    assert forall|p: int, q: int| 0 <= p < q < s.len() implies (#[trigger] s[p]).list.ordering < (
    #[trigger] s[q]).list.ordering by {
        assert(v.list_keys()[p] < v.list_keys()[q]);
    }
    assert forall|p: int, k: int, l: int|
        0 <= p < s.len() && 0 <= k < l < s[p].items.len() implies (#[trigger] s[p].items[k]).ordering
        < (#[trigger] s[p].items[l]).ordering by {
        assert(v.scopes[p].wf());
        assert(v.scopes[p].item_keys()[k] < v.scopes[p].item_keys()[l]);
    }
}

} // verus!
