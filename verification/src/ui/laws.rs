//! How the cursors answer to what is done with lists and items, while the
//! snapshot holds what the store holds.

use vstd::prelude::*;
use crate::db::keys::{lemma_neighbour_above_in_ascending, lemma_neighbour_below_in_ascending};
use crate::db::laws::{
    lemma_created_item_wf, lemma_items_swapped, lemma_list_move_at_boundary,
    lemma_list_up_swaps_neighbours, lemma_without_item_wf,
};
use crate::db::models::{ItemRecord, ListRecord, ListSnapshot, Timestamp};
use crate::db::store::{lemma_item_place, lemma_list_pos, lemma_list_pos_valid, StoreView};
use crate::ui::components::lists::ListsSnapshot;

verus! {

/// A new item goes to the end of its list and takes the cursor: after it was
/// created and the cursor sent to the last item, the snapshot holds the old
/// items and the new one behind them, and the cursor selects the new one.
/// Its order key is 1 in a list that was empty, else one more than that of
/// the item that was last.
pub proof fn lemma_created_item_is_selected(
    list: ListSnapshot,
    store: StoreView,
    name: Seq<char>,
    now: Timestamp,
)
    requires
        store.wf(),
        list.in_sync(store),
        store.create_item_error(list.list.id) is None,
        list.items.len() < usize::MAX,
    ensures
        ({
            let item = store.created_item(list.list.id, name, None, None, now);
            let after_store = list.store_after_create(store, name, now);
            let after = list.refreshed(after_store).fitted().moved_to(Some(usize::MAX));
            &&& after.items == list.items.push(item)
            &&& after.state.selected == Some(list.items.len() as usize)
            &&& after.selected_item() == Some(item)
            &&& item.name == name
            &&& item.ordering == (if list.items.len() == 0 {
                1
            } else {
                list.items.last().ordering + 1
            })
            &&& after.in_sync(after_store)
        }),
{
    let id = list.list.id;
    let p = store.list_pos(id);
    lemma_list_pos_valid(store, id);
    let item = store.created_item(id, name, None, None, now);
    let after_store = store.with_item(item);
    lemma_created_item_wf(store, id, name, None, None, now);
    assert(after_store.scopes[p].list.id == id);
    lemma_list_pos(after_store, p);
    assert(after_store.items_of(id) == list.items.push(item));
    let keys = store.scope_of(id).item_keys();
    if list.items.len() > 0 {
        assert(keys.last() == list.items.last().ordering);
    }
}

/// The cursor follows an item that moves up: where the selected item is not
/// the first, it changes places and order keys with the item before it, every
/// other item stays as it was, and the cursor selects the same item one place
/// earlier.
pub proof fn lemma_cursor_follows_item_up(list: ListSnapshot, store: StoreView, j: usize)
    requires
        store.wf(),
        list.in_sync(store),
        list.state.selected == Some(j),
        0 < j < list.items.len(),
    ensures
        ({
            let after_store = list.store_after_move_up(store);
            let after = list.after_move_up(store);
            &&& !list.move_up_fails(store)
            &&& after.state.selected == Some((j - 1) as usize)
            &&& after.items == list.items.update(
                j - 1,
                ItemRecord { ordering: list.items[j - 1].ordering, ..list.items[j as int] },
            ).update(
                j as int,
                ItemRecord { ordering: list.items[j as int].ordering, ..list.items[j - 1] },
            )
            &&& after.selected_item().unwrap().id == list.items[j as int].id
            &&& after.in_sync(after_store)
        }),
{
    let id = list.list.id;
    let p = store.list_pos(id);
    lemma_list_pos_valid(store, id);
    let item = list.items[j as int];
    let other = list.items[j - 1];
    assert(store.scopes[p].wf());
    assert(store.scopes[p].items[j as int].list_id == id);
    let keys = store.scopes[p].item_keys();
    assert(keys[j as int] == item.ordering);
    assert(keys[j - 1] == other.ordering);
    lemma_neighbour_below_in_ascending(keys, j as int);
    assert(store.item_below(id, item.ordering) == Some((other.id, other.ordering)));
    lemma_items_swapped(store, p, j - 1, j as int);
    let after_store = store.with_items_swapped(other.id, item.id);
    assert(after_store.scopes[p].list.id == id);
    lemma_list_pos(after_store, p);
    assert(after_store.items_of(id) == after_store.scopes[p].items);
}

/// The cursor follows an item that moves down: where the selected item is
/// not the last, it changes places and order keys with the item after it,
/// every other item stays as it was, and the cursor selects the same item one
/// place later.
pub proof fn lemma_cursor_follows_item_down(list: ListSnapshot, store: StoreView, j: usize)
    requires
        store.wf(),
        list.in_sync(store),
        list.state.selected == Some(j),
        j + 1 < list.items.len() <= usize::MAX,
    ensures
        ({
            let after_store = list.store_after_move_down(store);
            let after = list.after_move_down(store);
            &&& !list.move_down_fails(store)
            &&& after.state.selected == Some((j + 1) as usize)
            &&& after.items == list.items.update(
                j + 1,
                ItemRecord { ordering: list.items[j + 1].ordering, ..list.items[j as int] },
            ).update(
                j as int,
                ItemRecord { ordering: list.items[j as int].ordering, ..list.items[j + 1] },
            )
            &&& after.selected_item().unwrap().id == list.items[j as int].id
            &&& after.in_sync(after_store)
        }),
{
    let id = list.list.id;
    let p = store.list_pos(id);
    lemma_list_pos_valid(store, id);
    let item = list.items[j as int];
    let other = list.items[j + 1];
    assert(store.scopes[p].wf());
    assert(store.scopes[p].items[j as int].list_id == id);
    let keys = store.scopes[p].item_keys();
    assert(keys[j as int] == item.ordering);
    assert(keys[j + 1] == other.ordering);
    lemma_neighbour_above_in_ascending(keys, j as int);
    assert(store.item_above(id, item.ordering) == Some((other.id, other.ordering)));
    lemma_items_swapped(store, p, j + 1, j as int);
    let after_store = store.with_items_swapped(other.id, item.id);
    assert(after_store.scopes[p].list.id == id);
    lemma_list_pos(after_store, p);
    assert(after_store.items_of(id) == after_store.scopes[p].items);
    assert(after_store.scopes[p].items =~= list.items.update(
        j + 1,
        ItemRecord { ordering: other.ordering, ..item },
    ).update(j as int, ItemRecord { ordering: item.ordering, ..other }));
}

/// A move at the end of the list leaves the cursor where it is: moving the
/// first item up, or the last item down, changes neither the store nor the
/// snapshot.
pub proof fn lemma_cursor_stays_at_boundary(list: ListSnapshot, store: StoreView, j: usize)
    requires
        store.wf(),
        list.in_sync(store),
        list.state.selected == Some(j),
        j < list.items.len(),
    ensures
        j == 0 ==> {
            &&& !list.move_up_fails(store)
            &&& list.store_after_move_up(store) == store
            &&& list.after_move_up(store) == list
        },
        j == list.items.len() - 1 ==> {
            &&& !list.move_down_fails(store)
            &&& list.store_after_move_down(store) == store
            &&& list.after_move_down(store) == list
        },
{
    let id = list.list.id;
    let p = store.list_pos(id);
    lemma_list_pos_valid(store, id);
    assert(store.scopes[p].wf());
    assert(store.scopes[p].items[j as int].list_id == id);
    let keys = store.scopes[p].item_keys();
    assert(keys[j as int] == list.items[j as int].ordering);
    lemma_neighbour_below_in_ascending(keys, j as int);
    lemma_neighbour_above_in_ascending(keys, j as int);
    assert(list.refreshed(store) == list);
}

/// After the selected item was deleted the other items are all there, in
/// their order, and the cursor is repaired: it selects nothing where no item
/// is left, the last item where the deleted one was the last, and else stays
/// on its position, where the item that followed now stands.
pub proof fn lemma_cursor_after_item_delete(list: ListSnapshot, store: StoreView, j: usize)
    requires
        store.wf(),
        list.in_sync(store),
        list.state.selected == Some(j),
        j < list.items.len(),
    ensures
        ({
            let after_store = list.store_after_delete(store);
            let after = list.refreshed(after_store).fitted();
            &&& after.items == list.items.remove(j as int)
            &&& after.state.selected == (if list.items.len() == 1 {
                None
            } else if j == list.items.len() - 1 {
                Some((j - 1) as usize)
            } else {
                Some(j)
            })
            &&& j + 1 < list.items.len() ==> after.selected_item() == Some(list.items[j + 1])
            &&& after.in_sync(after_store)
        }),
{
    let id = list.list.id;
    let p = store.list_pos(id);
    lemma_list_pos_valid(store, id);
    let item = list.items[j as int];
    assert(store.is_place(p, j as int));
    lemma_item_place(store, p, j as int);
    let after_store = store.without_item(item.id);
    lemma_without_item_wf(store, item.id);
    assert(after_store.scopes[p].list.id == id);
    lemma_list_pos(after_store, p);
    assert(after_store.items_of(id) == list.items.remove(j as int));
}

impl ListsSnapshot {
    /// The snapshot shows the lists that the store holds, in their order.
    pub open spec fn in_sync(self, store: StoreView) -> bool {
        &&& self.lists.len() == store.scopes.len()
        &&& forall|p: int|
            0 <= p < self.lists.len() ==> (#[trigger] self.lists[p]).list == store.scopes[p].list
    }

    /// The snapshot holds what the store holds: the same lists in the same
    /// order, each with the same items.
    pub open spec fn mirrors(self, store: StoreView) -> bool {
        &&& self.lists.len() == store.scopes.len()
        &&& forall|p: int|
            0 <= p < self.lists.len() ==> (#[trigger] self.lists[p]).list == store.scopes[p].list
                && self.lists[p].items == store.scopes[p].items
    }

    /// No item is selected in any list.
    pub open spec fn no_item_selected(self) -> bool {
        forall|p: int| 0 <= p < self.lists.len() ==> (#[trigger] self.lists[p]).state.selected is None
    }
}

/// A new list goes to the end of the lists and takes the cursor: after it
/// was created and the cursor sent to the last list, the snapshot shows the
/// old lists and the new one behind them, without items, and the cursor
/// selects the new one. Its order key is 1 where there was no list, else one
/// more than that of the list that was last.
pub proof fn lemma_created_list_is_selected(
    lists: ListsSnapshot,
    store: StoreView,
    name: Seq<char>,
    now: Timestamp,
)
    requires
        store.wf(),
        !store.create_list_fails(),
        store.scopes.len() < usize::MAX,
    ensures
        ({
            let after_store = store.with_created_list(name, now);
            let after = lists.reloaded(after_store).moved_to(Some(usize::MAX));
            let list = after.selected_list().unwrap();
            &&& after.in_sync(after_store)
            &&& after.lists.len() == store.scopes.len() + 1
            &&& after.state.selected == Some(store.scopes.len() as usize)
            &&& list.list.name == name
            &&& list.list.ordering == (if store.scopes.len() == 0 {
                1
            } else {
                store.scopes.last().list.ordering + 1
            })
            &&& list.items.len() == 0
            &&& after.no_item_selected()
        }),
{
    let keys = store.list_keys();
    if store.scopes.len() > 0 {
        assert(keys.last() == store.scopes.last().list.ordering);
    }
}

/// The cursor follows a list that moves up: where the selected list is not
/// the first, it changes places and order keys with the list before it, each
/// keeps its items, every other list stays as it was, and the cursor selects
/// the same list one place earlier. No item is selected afterwards.
pub proof fn lemma_cursor_follows_list_up(lists: ListsSnapshot, store: StoreView, i: usize)
    requires
        store.wf(),
        lists.in_sync(store),
        lists.state.selected == Some(i),
        0 < i < lists.lists.len(),
    ensures
        ({
            let after_store = lists.store_after_move_up(store);
            let after = lists.after_move_up(store);
            &&& !lists.move_up_fails(store)
            &&& after.in_sync(after_store)
            &&& after.state.selected == Some((i - 1) as usize)
            &&& after.lists.len() == lists.lists.len()
            &&& after.selected_list().unwrap().list == (ListRecord {
                ordering: lists.lists[i - 1].list.ordering,
                ..lists.lists[i as int].list
            })
            &&& after.selected_list().unwrap().items == store.scopes[i as int].items
            &&& after.lists[i as int].list == (ListRecord {
                ordering: lists.lists[i as int].list.ordering,
                ..lists.lists[i - 1].list
            })
            &&& after.lists[i as int].items == store.scopes[i - 1].items
            &&& forall|q: int|
                0 <= q < lists.lists.len() && q != i && q != i - 1 ==> (#[trigger] after.lists[q]).list
                    == lists.lists[q].list
            &&& after.no_item_selected()
        }),
{
    assert(lists.lists[i as int].list == store.scopes[i as int].list);
    assert(lists.lists[i - 1].list == store.scopes[i - 1].list);
    lemma_list_up_swaps_neighbours(store, i as int);
    let list = store.scopes[i as int].list;
    let up = store.list_moved_up(list.id, list.ordering);
    assert(up.list_keys()[i - 1] == store.list_keys()[i - 1]);
    assert(up.list_keys()[i as int] == store.list_keys()[i as int]);
    lemma_list_pos(store, i as int);
    lemma_list_pos(store, i - 1);
    crate::db::keys::lemma_neighbour_below_in_ascending(store.list_keys(), i as int);
    assert(store.list_keys()[i as int] == list.ordering);
    assert forall|q: int|
        0 <= q < lists.lists.len() && q != i && q != i - 1 implies (#[trigger] lists.after_move_up(
        store,
    ).lists[q]).list == lists.lists[q].list by {
        assert(up.scopes[q] == store.scopes[q]);
    }
}

/// A move of the first list up, or of the last list down, changes nothing
/// in the store, and the cursor stays where it is.
pub proof fn lemma_list_cursor_stays_at_boundary(lists: ListsSnapshot, store: StoreView, i: usize)
    requires
        store.wf(),
        lists.in_sync(store),
        lists.state.selected == Some(i),
        i < lists.lists.len(),
    ensures
        i == 0 ==> {
            &&& !lists.move_up_fails(store)
            &&& lists.store_after_move_up(store) == store
            &&& lists.after_move_up(store).state == lists.state
        },
        i == lists.lists.len() - 1 ==> {
            &&& !lists.move_down_fails(store)
            &&& lists.store_after_move_down(store) == store
            &&& lists.after_move_down(store).state == lists.state
        },
{
    assert(lists.lists[i as int].list == store.scopes[i as int].list);
    lemma_list_move_at_boundary(store, i as int);
}

/// After the selected list was deleted the other lists are all there, in
/// their order, and the cursor is repaired: it selects nothing where no list
/// is left, the last list where the deleted one was the last, and else stays
/// on its position, where the list that followed now stands. No item is
/// selected afterwards.
pub proof fn lemma_cursor_after_list_delete(lists: ListsSnapshot, store: StoreView, i: usize)
    requires
        store.wf(),
        lists.in_sync(store),
        lists.state.selected == Some(i),
        i < lists.lists.len(),
    ensures
        ({
            let after_store = lists.store_after_delete(store);
            let after = lists.reloaded(after_store);
            &&& after.in_sync(after_store)
            &&& after_store.scopes == store.scopes.remove(i as int)
            &&& after.lists.len() == lists.lists.len() - 1
            &&& after.state.selected == (if lists.lists.len() == 1 {
                None
            } else if i == lists.lists.len() - 1 {
                Some((i - 1) as usize)
            } else {
                Some(i)
            })
            &&& i + 1 < lists.lists.len() ==> after.selected_list().unwrap().list == lists.lists[i
                + 1].list
            &&& after.no_item_selected()
        }),
{
    assert(lists.lists[i as int].list == store.scopes[i as int].list);
    lemma_list_pos(store, i as int);
    if i + 1 < lists.lists.len() {
        assert(lists.lists[i + 1].list == store.scopes[i + 1].list);
    }
}

/// Where the snapshot holds what the store holds, each of its lists is in
/// step with the store by itself, and so are the lists as a whole: what is
/// said of a list or of the lists that are in step holds of them.
pub proof fn lemma_mirrored_lists_in_sync(lists: ListsSnapshot, store: StoreView, p: int)
    requires
        store.wf(),
        lists.mirrors(store),
        0 <= p < lists.lists.len(),
    ensures
        lists.in_sync(store),
        lists.lists[p].in_sync(store),
{
    lemma_list_pos(store, p);
}

/// A snapshot that was taken from the store holds what the store holds.
pub proof fn lemma_reloaded_mirrors(lists: ListsSnapshot, store: StoreView)
    ensures
        lists.reloaded(store).mirrors(store),
{
}

} // verus!
