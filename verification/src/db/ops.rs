//! What can be done with lists and items: each operation changes the store
//! and keeps the caller's record in step with it.

use vstd::prelude::*;
use crate::db::keys::lemma_next_key_is_fresh;
use crate::db::models::{
    item_records, list_records, list_snapshots, ui_item_records, ItemRecord, ListRecord,
    ListSnapshot, NewTodoItem, NewTodoList, Priority, Timestamp, TodoItem, TodoList, UIItem,
    UIList,
};
use crate::db::store::{Store, StoreError, StoreView};
use crate::ui::list_state::ListState;

verus! {

impl StoreView {
    /// Creating a list fails: no order key or no identity is left.
    pub open spec fn create_list_fails(self) -> bool {
        self.next_list_key() > i64::MAX || self.next_list_id == i64::MAX
    }

    /// The store after a list named `name` was created at `now`.
    pub open spec fn with_created_list(self, name: Seq<char>, now: Timestamp) -> StoreView {
        self.with_list(name, self.next_list_key() as i64, now)
    }

    /// Why creating an item in the list `list_id` fails, if it does.
    pub open spec fn create_item_error(self, list_id: i64) -> Option<StoreError> {
        if self.next_item_key(list_id) > i64::MAX {
            Some(StoreError::Exhausted)
        } else if !self.has_list(list_id) {
            Some(StoreError::NotFound)
        } else if self.next_item_id == i64::MAX {
            Some(StoreError::Exhausted)
        } else {
            None
        }
    }

    /// The record of the item that `new_item` creates at `now`.
    pub open spec fn created_item(
        self,
        list_id: i64,
        name: Seq<char>,
        priority: Option<Priority>,
        due_date: Option<Timestamp>,
        now: Timestamp,
    ) -> ItemRecord {
        self.new_item(list_id, name, priority, due_date, self.next_item_key(list_id) as i64, now)
    }

    /// Moving the list `id`, whose record carries the order key `key`, up
    /// fails: it has a lower neighbour, but the store does not hold the list.
    pub open spec fn list_move_up_fails(self, id: i64, key: i64) -> bool {
        self.list_below(key) is Some && !self.has_list(id)
    }

    /// The store after the list `id`, whose record carries the order key
    /// `key`, moved up: it exchanged order keys with its lower neighbour, or
    /// nothing changed where it has none.
    pub open spec fn list_moved_up(self, id: i64, key: i64) -> StoreView {
        match self.list_below(key) {
            Some((below, _)) => if self.has_list(id) {
                self.with_lists_swapped(below, id)
            } else {
                self
            },
            None => self,
        }
    }

    /// Moving the list `id`, whose record carries the order key `key`, down
    /// fails: it has a higher neighbour, but the store does not hold the list.
    pub open spec fn list_move_down_fails(self, id: i64, key: i64) -> bool {
        self.list_above(key) is Some && !self.has_list(id)
    }

    /// The store after the list `id`, whose record carries the order key
    /// `key`, moved down.
    pub open spec fn list_moved_down(self, id: i64, key: i64) -> StoreView {
        match self.list_above(key) {
            Some((above, _)) => if self.has_list(id) {
                self.with_lists_swapped(above, id)
            } else {
                self
            },
            None => self,
        }
    }

    /// Moving the item `id` of the list `list_id`, whose record carries the
    /// order key `key`, up fails: it has a lower neighbour in that list, but
    /// the store does not hold the item there.
    pub open spec fn item_move_up_fails(self, list_id: i64, id: i64, key: i64) -> bool {
        match self.item_below(list_id, key) {
            Some((below, _)) => !self.are_siblings(below, id),
            None => false,
        }
    }

    /// The store after the item `id` of the list `list_id`, whose record
    /// carries the order key `key`, moved up.
    pub open spec fn item_moved_up(self, list_id: i64, id: i64, key: i64) -> StoreView {
        match self.item_below(list_id, key) {
            Some((below, _)) => if self.are_siblings(below, id) {
                self.with_items_swapped(below, id)
            } else {
                self
            },
            None => self,
        }
    }

    /// Moving the item `id` of the list `list_id`, whose record carries the
    /// order key `key`, down fails.
    pub open spec fn item_move_down_fails(self, list_id: i64, id: i64, key: i64) -> bool {
        match self.item_above(list_id, key) {
            Some((above, _)) => !self.are_siblings(above, id),
            None => false,
        }
    }

    /// The store after the item `id` of the list `list_id`, whose record
    /// carries the order key `key`, moved down.
    pub open spec fn item_moved_down(self, list_id: i64, id: i64, key: i64) -> StoreView {
        match self.item_above(list_id, key) {
            Some((above, _)) => if self.are_siblings(above, id) {
                self.with_items_swapped(above, id)
            } else {
                self
            },
            None => self,
        }
    }
}

/// The order key that a record carries after a move: that of the neighbour
/// it changed places with, or its own where it had none.
pub open spec fn key_after_move(neighbour: Option<(i64, i64)>, key: i64) -> i64 {
    match neighbour {
        Some((_, other)) => other,
        None => key,
    }
}

impl TodoList {
    /// Creates a list named as `new_list` says, last in the order of lists:
    /// its order key is one more than the largest in use, or 1 where there is
    /// no list yet.
    pub fn create(store: &mut Store, new_list: NewTodoList, now: Timestamp) -> (res: Result<
        TodoList,
        StoreError,
    >)
        requires
            old(store).wf(),
        ensures
            final(store).wf(),
            old(store)@.create_list_fails() ==> res == Err::<TodoList, StoreError>(
                StoreError::Exhausted,
            ) && final(store)@ == old(store)@,
            !old(store)@.create_list_fails() ==> {
                &&& res matches Ok(list)
                &&& list@ == old(store)@.new_list(
                    new_list.name@,
                    old(store)@.next_list_key() as i64,
                    now,
                )
                &&& final(store)@ == old(store)@.with_created_list(new_list.name@, now)
            },
    {
        let next_ordering = match store.next_list_ordering() {
            Some(key) => key,
            None => {
                return Err(StoreError::Exhausted);
            },
        };
        proof {
            lemma_next_key_is_fresh(store@.list_keys());
        }
        store.insert_list(new_list.name, next_ordering, now)
    }

    /// All lists, in ascending order of their order keys.
    pub fn get_all(store: &Store) -> (lists: Vec<TodoList>)
        ensures
            list_records(lists@) == store@.lists(),
    {
        store.all_lists()
    }

    /// The list with the identity `id`, if there is one.
    pub fn get_by_id(store: &Store, id: i64) -> (found: Option<TodoList>)
        requires
            store.wf(),
        ensures
            found is Some <==> store@.has_list(id),
            found matches Some(list) ==> list@ == store@.scope_of(id).list,
    {
        store.list_by_id(id)
    }

    /// The items of this list, in ascending order of their order keys.
    pub fn get_all_items(&self, store: &Store) -> (items: Vec<TodoItem>)
        requires
            store.wf(),
        ensures
            item_records(items@) == store@.items_of(self.id),
    {
        store.items_of_list(self.id)
    }

    /// Renames the list, in the store and in this record, and sets the
    /// modification time of both to `now`.
    pub fn update_name(&mut self, store: &mut Store, new_name: String, now: Timestamp)
        requires
            old(store).wf(),
        ensures
            final(store).wf(),
            final(store)@ == old(store)@.with_list_renamed(old(self).id, new_name@, now),
            final(self)@ == (ListRecord { name: new_name@, updated_at: now, ..old(self)@ }),
    {
        store.rename_list(self.id, new_name.clone(), now);
        self.name = new_name;
        self.updated_at = now;
    }

    /// Deletes the list and every item that belongs to it.
    pub fn delete(self, store: &mut Store)
        requires
            old(store).wf(),
        ensures
            final(store).wf(),
            final(store)@ == old(store)@.without_list(self.id),
    {
        store.delete_list(self.id);
    }

    /// Moves the list one place up: it exchanges order keys with the list
    /// that has the next lower key, and this record takes the new key. The
    /// first list stays where it is.
    pub fn move_up(&mut self, store: &mut Store) -> (res: Result<(), StoreError>)
        requires
            old(store).wf(),
        ensures
            final(store).wf(),
            old(store)@.list_move_up_fails(old(self).id, old(self).ordering) ==> {
                &&& res == Err::<(), StoreError>(StoreError::NotFound)
                &&& final(store)@ == old(store)@
                &&& final(self)@ == old(self)@
            },
            !old(store)@.list_move_up_fails(old(self).id, old(self).ordering) ==> {
                &&& res is Ok
                &&& final(store)@ == old(store)@.list_moved_up(old(self).id, old(self).ordering)
                &&& final(self)@ == (ListRecord {
                    ordering: key_after_move(
                        old(store)@.list_below(old(self).ordering),
                        old(self).ordering,
                    ),
                    ..old(self)@
                })
            },
    {
        let prev_list = store.list_before(self.ordering);
        if let Some((prev_id, prev_ordering)) = prev_list {
            proof {
                lemma_list_below_held(store@, self.ordering);
            }
            match store.swap_list_orderings(prev_id, self.id) {
                Ok(()) => {},
                Err(e) => {
                    return Err(e);
                },
            }
            self.ordering = prev_ordering;
        }
        Ok(())
    }

    /// Moves the list one place down: it exchanges order keys with the list
    /// that has the next higher key, and this record takes the new key. The
    /// last list stays where it is.
    pub fn move_down(&mut self, store: &mut Store) -> (res: Result<(), StoreError>)
        requires
            old(store).wf(),
        ensures
            final(store).wf(),
            old(store)@.list_move_down_fails(old(self).id, old(self).ordering) ==> {
                &&& res == Err::<(), StoreError>(StoreError::NotFound)
                &&& final(store)@ == old(store)@
                &&& final(self)@ == old(self)@
            },
            !old(store)@.list_move_down_fails(old(self).id, old(self).ordering) ==> {
                &&& res is Ok
                &&& final(store)@ == old(store)@.list_moved_down(old(self).id, old(self).ordering)
                &&& final(self)@ == (ListRecord {
                    ordering: key_after_move(
                        old(store)@.list_above(old(self).ordering),
                        old(self).ordering,
                    ),
                    ..old(self)@
                })
            },
    {
        let next_list = store.list_after(self.ordering);
        if let Some((next_id, next_ordering)) = next_list {
            proof {
                lemma_list_above_held(store@, self.ordering);
            }
            match store.swap_list_orderings(next_id, self.id) {
                Ok(()) => {},
                Err(e) => {
                    return Err(e);
                },
            }
            self.ordering = next_ordering;
        }
        Ok(())
    }
}

/// The lower neighbour that the store names for a key is a list it holds.
pub proof fn lemma_list_below_held(v: StoreView, key: i64)
    requires
        v.list_below(key) is Some,
    ensures
        v.has_list(v.list_below(key).unwrap().0),
{
    let keys = v.list_keys();
    let p = choose|p: int| crate::db::keys::is_closest_below(keys, key, p);
    assert(crate::db::keys::is_closest_below(keys, key, p));
    assert(v.scopes[p].list.id == v.list_below(key).unwrap().0);
}

/// The higher neighbour that the store names for a key is a list it holds.
pub proof fn lemma_list_above_held(v: StoreView, key: i64)
    requires
        v.list_above(key) is Some,
    ensures
        v.has_list(v.list_above(key).unwrap().0),
{
    let keys = v.list_keys();
    let p = choose|p: int| crate::db::keys::is_closest_above(keys, key, p);
    assert(crate::db::keys::is_closest_above(keys, key, p));
    assert(v.scopes[p].list.id == v.list_above(key).unwrap().0);
}

/// The lower neighbour that the store names for a list has a lower key.
pub proof fn lemma_list_below_is_lower(v: StoreView, key: i64)
    requires
        v.list_below(key) is Some,
    ensures
        v.list_below(key).unwrap().1 < key,
{
    let keys = v.list_keys();
    let p = choose|p: int| crate::db::keys::is_closest_below(keys, key, p);
    assert(crate::db::keys::is_closest_below(keys, key, p));
}

/// The higher neighbour that the store names for a list has a higher key.
pub proof fn lemma_list_above_is_higher(v: StoreView, key: i64)
    requires
        v.list_above(key) is Some,
    ensures
        v.list_above(key).unwrap().1 > key,
{
    let keys = v.list_keys();
    let p = choose|p: int| crate::db::keys::is_closest_above(keys, key, p);
    assert(crate::db::keys::is_closest_above(keys, key, p));
}

/// The lower neighbour that the store names for an item has a lower key.
pub proof fn lemma_item_below_is_lower(v: StoreView, list_id: i64, key: i64)
    requires
        v.item_below(list_id, key) is Some,
    ensures
        v.item_below(list_id, key).unwrap().1 < key,
{
    let keys = v.scope_of(list_id).item_keys();
    let k = choose|k: int| crate::db::keys::is_closest_below(keys, key, k);
    assert(crate::db::keys::is_closest_below(keys, key, k));
}

/// The higher neighbour that the store names for an item has a higher key.
pub proof fn lemma_item_above_is_higher(v: StoreView, list_id: i64, key: i64)
    requires
        v.item_above(list_id, key) is Some,
    ensures
        v.item_above(list_id, key).unwrap().1 > key,
{
    let keys = v.scope_of(list_id).item_keys();
    let k = choose|k: int| crate::db::keys::is_closest_above(keys, key, k);
    assert(crate::db::keys::is_closest_above(keys, key, k));
}

impl TodoItem {
    /// Creates an item as `new_item` says, last in its list: its order key
    /// is one more than the largest in use in that list, or 1 where the list
    /// has no item yet. The item is not done.
    pub fn create(store: &mut Store, new_item: NewTodoItem, now: Timestamp) -> (res: Result<
        TodoItem,
        StoreError,
    >)
        requires
            old(store).wf(),
        ensures
            final(store).wf(),
            match old(store)@.create_item_error(new_item.list_id) {
                Some(e) => res == Err::<TodoItem, StoreError>(e) && final(store)@ == old(store)@,
                None => {
                    &&& res matches Ok(item)
                    &&& item@ == old(store)@.created_item(
                        new_item.list_id,
                        new_item.name@,
                        new_item.priority,
                        new_item.due_date,
                        now,
                    )
                    &&& final(store)@ == old(store)@.with_item(item@)
                },
            },
    {
        let next_ordering = match store.next_item_ordering(new_item.list_id) {
            Some(key) => key,
            None => {
                return Err(StoreError::Exhausted);
            },
        };
        proof {
            if store@.has_list(new_item.list_id) {
                crate::db::store::lemma_list_pos_valid(store@, new_item.list_id);
                assert(store@.scope_of(new_item.list_id).wf());
                lemma_next_key_is_fresh(store@.scope_of(new_item.list_id).item_keys());
            }
        }
        store.insert_item(new_item, next_ordering, now)
    }

    /// The items of the list `list_id`, in ascending order of their order
    /// keys.
    pub fn get_by_list_id(store: &Store, list_id: i64) -> (items: Vec<TodoItem>)
        requires
            store.wf(),
        ensures
            item_records(items@) == store@.items_of(list_id),
    {
        store.items_of_list(list_id)
    }

    /// The item with the identity `id`, if there is one.
    pub fn get_by_id(store: &Store, id: i64) -> (found: Option<TodoItem>)
        requires
            store.wf(),
        ensures
            found is Some <==> store@.has_item(id),
            found matches Some(item) ==> item@ == store@.item(id),
    {
        store.item_by_id(id)
    }

    /// Renames the item, in the store and in this record, and sets the
    /// modification time of both to `now`.
    pub fn update_name(&mut self, store: &mut Store, new_name: String, now: Timestamp)
        requires
            old(store).wf(),
        ensures
            final(store).wf(),
            final(store)@ == old(store)@.with_item_renamed(old(self).id, new_name@, now),
            final(self)@ == (ItemRecord { name: new_name@, updated_at: now, ..old(self)@ }),
    {
        store.rename_item(self.id, new_name.clone(), now);
        self.name = new_name;
        self.updated_at = now;
    }

    /// Marks a done item as not done and the other way round, in the store
    /// and in this record.
    pub fn toggle_done(&mut self, store: &mut Store, now: Timestamp)
        requires
            old(store).wf(),
        ensures
            final(store).wf(),
            final(store)@ == old(store)@.with_item_done(old(self).id, !old(self).is_done, now),
            final(self)@ == (ItemRecord { is_done: !old(self).is_done, updated_at: now, ..old(self)@ }),
    {
        let new_status = !self.is_done;
        store.set_item_done(self.id, new_status, now);
        self.is_done = new_status;
        self.updated_at = now;
    }

    /// Gives the item the priority `new_priority`, in the store and in this
    /// record.
    pub fn update_priority(&mut self, store: &mut Store, new_priority: Priority, now: Timestamp)
        requires
            old(store).wf(),
        ensures
            final(store).wf(),
            final(store)@ == old(store)@.with_item_priority(old(self).id, new_priority, now),
            final(self)@ == (ItemRecord {
                priority: Some(new_priority),
                updated_at: now,
                ..old(self)@
            }),
    {
        store.set_item_priority(self.id, new_priority, now);
        self.priority = Some(new_priority);
        self.updated_at = now;
    }

    /// Gives the item the due date `new_due_date`, in the store and in this
    /// record.
    pub fn update_due_date(&mut self, store: &mut Store, new_due_date: Timestamp, now: Timestamp)
        requires
            old(store).wf(),
        ensures
            final(store).wf(),
            final(store)@ == old(store)@.with_item_due_date(old(self).id, new_due_date, now),
            final(self)@ == (ItemRecord {
                due_date: Some(new_due_date),
                updated_at: now,
                ..old(self)@
            }),
    {
        store.set_item_due_date(self.id, new_due_date, now);
        self.due_date = Some(new_due_date);
        self.updated_at = now;
    }

    /// Deletes the item.
    pub fn delete(self, store: &mut Store)
        requires
            old(store).wf(),
        ensures
            final(store).wf(),
            final(store)@ == old(store)@.without_item(self.id),
    {
        store.delete_item(self.id);
    }

    /// Moves the item one place up in its list: it exchanges order keys with
    /// the item of the same list that has the next lower key, and this record
    /// takes the new key. The first item stays where it is.
    pub fn move_up(&mut self, store: &mut Store) -> (res: Result<(), StoreError>)
        requires
            old(store).wf(),
        ensures
            final(store).wf(),
            old(store)@.item_move_up_fails(old(self).list_id, old(self).id, old(self).ordering) ==> {
                &&& res == Err::<(), StoreError>(StoreError::NotFound)
                &&& final(store)@ == old(store)@
                &&& final(self)@ == old(self)@
            },
            !old(store)@.item_move_up_fails(old(self).list_id, old(self).id, old(self).ordering)
                ==> {
                &&& res is Ok
                &&& final(store)@ == old(store)@.item_moved_up(
                    old(self).list_id,
                    old(self).id,
                    old(self).ordering,
                )
                &&& final(self)@ == (ItemRecord {
                    ordering: key_after_move(
                        old(store)@.item_below(old(self).list_id, old(self).ordering),
                        old(self).ordering,
                    ),
                    ..old(self)@
                })
            },
    {
        let prev_item = store.item_before(self.list_id, self.ordering);
        if let Some((prev_id, prev_ordering)) = prev_item {
            match store.swap_item_orderings(prev_id, self.id) {
                Ok(()) => {},
                Err(e) => {
                    return Err(e);
                },
            }
            self.ordering = prev_ordering;
        }
        Ok(())
    }

    /// Moves the item one place down in its list: it exchanges order keys
    /// with the item of the same list that has the next higher key, and this
    /// record takes the new key. The last item stays where it is.
    pub fn move_down(&mut self, store: &mut Store) -> (res: Result<(), StoreError>)
        requires
            old(store).wf(),
        ensures
            final(store).wf(),
            old(store)@.item_move_down_fails(old(self).list_id, old(self).id, old(self).ordering)
                ==> {
                &&& res == Err::<(), StoreError>(StoreError::NotFound)
                &&& final(store)@ == old(store)@
                &&& final(self)@ == old(self)@
            },
            !old(store)@.item_move_down_fails(old(self).list_id, old(self).id, old(self).ordering)
                ==> {
                &&& res is Ok
                &&& final(store)@ == old(store)@.item_moved_down(
                    old(self).list_id,
                    old(self).id,
                    old(self).ordering,
                )
                &&& final(self)@ == (ItemRecord {
                    ordering: key_after_move(
                        old(store)@.item_above(old(self).list_id, old(self).ordering),
                        old(self).ordering,
                    ),
                    ..old(self)@
                })
            },
    {
        let next_item = store.item_after(self.list_id, self.ordering);
        if let Some((next_id, next_ordering)) = next_item {
            match store.swap_item_orderings(next_id, self.id) {
                Ok(()) => {},
                Err(e) => {
                    return Err(e);
                },
            }
            self.ordering = next_ordering;
        }
        Ok(())
    }
}

/// The snapshot items that stand for `items`, each with the selection state
/// `state`.
fn ui_items(items: Vec<TodoItem>, state: ListState) -> (out: Vec<UIItem>)
    ensures
        ui_item_records(out@) == item_records(items@),
        forall|k: int| 0 <= k < out.len() ==> (#[trigger] out@[k]).state == state,
{
    let mut out: Vec<UIItem> = Vec::new();
    let mut k: usize = 0;
    while k < items.len()
        invariant
            k <= items.len(),
            out.len() == k,
            forall|j: int| 0 <= j < k ==> out@[j]@ == items@[j]@,
            forall|j: int| 0 <= j < k ==> (#[trigger] out@[j]).state == state,
        decreases items.len() - k,
    {
        out.push(UIItem { item: items[k].clone(), state });
        k += 1;
    }
    assert(ui_item_records(out@) =~= item_records(items@));
    out
}

/// The snapshot of a whole store: every list in ascending order of order
/// keys, each with its items in ascending order, nothing selected.
pub open spec fn snapshot_of(v: StoreView) -> Seq<ListSnapshot> {
    Seq::new(
        v.scopes.len(),
        |p: int|
            ListSnapshot {
                list: v.scopes[p].list,
                state: ListState { offset: 0, selected: None },
                items: v.scopes[p].items,
            },
    )
}

impl UIList {
    /// The snapshot of the whole store: every list in ascending order of
    /// order keys, each with its items in ascending order, nothing selected.
    pub fn get_all(store: &Store) -> (lists: Vec<UIList>)
        requires
            store.wf(),
        ensures
            list_snapshots(lists@) == snapshot_of(store@),
            forall|p: int, k: int|
                0 <= p < lists.len() && 0 <= k < lists@[p].items.len() ==> (#[trigger] lists@[p].items@[k]).state
                    == (ListState { offset: 0, selected: None }),
    {
        let lists = TodoList::get_all(store);
        assert(lists.len() == store@.scopes.len()) by {
            assert(list_records(lists@).len() == store@.lists().len());
        }
        let mut ui_lists: Vec<UIList> = Vec::new();
        let mut p: usize = 0;
        while p < lists.len()
            invariant
                p <= lists.len(),
                lists.len() == store@.scopes.len(),
                store.wf(),
                list_records(lists@) == store@.lists(),
                ui_lists.len() == p,
                forall|q: int|
                    0 <= q < p ==> (#[trigger] ui_lists@[q])@.list == store@.scopes[q].list
                        && ui_lists@[q]@.items == store@.scopes[q].items,
                forall|q: int|
                    0 <= q < p ==> (#[trigger] ui_lists@[q]).item_state == (ListState {
                        offset: 0,
                        selected: None,
                    }),
                forall|q: int, k: int|
                    0 <= q < p && 0 <= k < ui_lists@[q].items.len() ==> (
                    #[trigger] ui_lists@[q].items@[k]).state == (ListState {
                        offset: 0,
                        selected: None,
                    }),
            decreases lists.len() - p,
        {
            proof {
                assert(list_records(lists@)[p as int] == lists@[p as int]@);
                assert(store@.lists()[p as int] == store@.scopes[p as int].list);
                crate::db::store::lemma_list_pos(store@, p as int);
            }
            let list = lists[p].clone();
            let items = ui_items(TodoItem::get_by_list_id(store, list.id), ListState::default());
            ui_lists.push(UIList { list, item_state: ListState::default(), items });
            p += 1;
        }
        assert(list_snapshots(ui_lists@) =~= snapshot_of(store@));
        ui_lists
    }

    /// Takes the items of this list from the store again. The selection
    /// stays as it was, also where it no longer fits the items.
    pub fn update_items(&mut self, store: &Store)
        requires
            store.wf(),
        ensures
            final(self)@ == (ListSnapshot {
                items: store@.items_of(old(self).list.id),
                ..old(self)@
            }),
            forall|k: int|
                0 <= k < final(self).items.len() ==> (#[trigger] final(self).items@[k]).state
                    == old(self).item_state,
    {
        let items = ui_items(TodoItem::get_by_list_id(store, self.list.id), self.item_state);
        self.items = items;
    }
}

} // verus!
