//! The ordered store: every list with its items, each scope sorted by order
//! key, and a journal of the changes that still have to be made durable.
//!
//! Each operation is one statement against the store. It either takes
//! effect as a whole or leaves the store as it was.

use vstd::prelude::*;
use crate::db::keys::{
    ascending, closest_above, closest_below, is_upper_bound, lemma_ascending_distinct,
    lemma_closest_above_unique, lemma_closest_below_unique, lemma_next_key_in_ascending, next_key,
    next_order_key, position_above, position_below,
};
use crate::db::models::{
    clone_items, item_records, list_records, ItemRecord, ListRecord, NewTodoItem, Priority,
    Timestamp, TodoItem, TodoList,
};

verus! {

/// Why the store refused a statement.
#[derive(Debug, Clone, Copy, PartialEq, Eq, Structural)]
pub enum StoreError {
    /// No record has the identity that the statement names.
    NotFound,
    /// No fresh identity is left to give to a new record.
    Exhausted,
    /// The order key is not above every key already used in the scope.
    KeyTaken,
    /// Another record already has the identity.
    IdTaken,
}

/// One change to make durable, in the order in which the store made it.
#[derive(Debug)]
pub enum Write {
    InsertList(TodoList),
    RenameList { id: i64, name: String, updated_at: Timestamp },
    SetListOrdering { id: i64, ordering: i64 },
    DeleteList { id: i64 },
    InsertItem(TodoItem),
    RenameItem { id: i64, name: String, updated_at: Timestamp },
    SetItemDone { id: i64, is_done: bool, updated_at: Timestamp },
    SetItemPriority { id: i64, priority: Priority, updated_at: Timestamp },
    SetItemDueDate { id: i64, due_date: Timestamp, updated_at: Timestamp },
    SetItemOrdering { id: i64, ordering: i64 },
    DeleteItem { id: i64 },
}

/// What a [`Write`] stands for in contracts.
pub enum WriteRecord {
    InsertList(ListRecord),
    RenameList { id: i64, name: Seq<char>, updated_at: Timestamp },
    SetListOrdering { id: i64, ordering: i64 },
    DeleteList { id: i64 },
    InsertItem(ItemRecord),
    RenameItem { id: i64, name: Seq<char>, updated_at: Timestamp },
    SetItemDone { id: i64, is_done: bool, updated_at: Timestamp },
    SetItemPriority { id: i64, priority: Priority, updated_at: Timestamp },
    SetItemDueDate { id: i64, due_date: Timestamp, updated_at: Timestamp },
    SetItemOrdering { id: i64, ordering: i64 },
    DeleteItem { id: i64 },
}

impl View for Write {
    type V = WriteRecord;

    open spec fn view(&self) -> WriteRecord {
        match *self {
            Write::InsertList(list) => WriteRecord::InsertList(list@),
            Write::RenameList { id, name, updated_at } => WriteRecord::RenameList {
                id,
                name: name@,
                updated_at,
            },
            Write::SetListOrdering { id, ordering } => WriteRecord::SetListOrdering { id, ordering },
            Write::DeleteList { id } => WriteRecord::DeleteList { id },
            Write::InsertItem(item) => WriteRecord::InsertItem(item@),
            Write::RenameItem { id, name, updated_at } => WriteRecord::RenameItem {
                id,
                name: name@,
                updated_at,
            },
            Write::SetItemDone { id, is_done, updated_at } => WriteRecord::SetItemDone {
                id,
                is_done,
                updated_at,
            },
            Write::SetItemPriority { id, priority, updated_at } => WriteRecord::SetItemPriority {
                id,
                priority,
                updated_at,
            },
            Write::SetItemDueDate { id, due_date, updated_at } => WriteRecord::SetItemDueDate {
                id,
                due_date,
                updated_at,
            },
            Write::SetItemOrdering { id, ordering } => WriteRecord::SetItemOrdering { id, ordering },
            Write::DeleteItem { id } => WriteRecord::DeleteItem { id },
        }
    }
}

/// The views of a sequence of writes, in the same order.
pub open spec fn write_records(writes: Seq<Write>) -> Seq<WriteRecord> {
    writes.map_values(|w: Write| w@)
}

/// One list with the items that belong to it, in ascending order of their
/// order keys.
pub struct Scope {
    pub list: ListRecord,
    pub items: Seq<ItemRecord>,
}

impl Scope {
    /// The order keys of the items, in the order of the items.
    pub open spec fn item_keys(self) -> Seq<i64> {
        Seq::new(self.items.len(), |k: int| self.items[k].ordering)
    }

    /// The items are sorted by order key and all belong to the list.
    pub open spec fn wf(self) -> bool {
        &&& ascending(self.item_keys())
        &&& forall|k: int| 0 <= k < self.items.len() ==> (#[trigger] self.items[k]).list_id == self.list.id
    }

    /// The identity and order key of the item below `key`, if there is one.
    pub open spec fn item_below(self, key: i64) -> Option<(i64, i64)> {
        match closest_below(self.item_keys(), key) {
            Some(k) => Some((self.items[k].id, self.items[k].ordering)),
            None => None,
        }
    }

    /// The identity and order key of the item above `key`, if there is one.
    pub open spec fn item_above(self, key: i64) -> Option<(i64, i64)> {
        match closest_above(self.item_keys(), key) {
            Some(k) => Some((self.items[k].id, self.items[k].ordering)),
            None => None,
        }
    }
}

/// The store as contracts see it: its scopes in ascending order of the
/// lists' order keys, the identities it will hand out next, and the journal.
pub struct StoreView {
    pub scopes: Seq<Scope>,
    pub next_list_id: i64,
    pub next_item_id: i64,
    pub pending: Seq<WriteRecord>,
}

impl StoreView {
    /// The store that holds nothing and has changed nothing.
    pub open spec fn empty() -> StoreView {
        StoreView { scopes: Seq::empty(), next_list_id: 1, next_item_id: 1, pending: Seq::empty() }
    }

    /// The lists, in ascending order of their order keys.
    pub open spec fn lists(self) -> Seq<ListRecord> {
        Seq::new(self.scopes.len(), |p: int| self.scopes[p].list)
    }

    /// The order keys of the lists, in the order of the lists.
    pub open spec fn list_keys(self) -> Seq<i64> {
        Seq::new(self.scopes.len(), |p: int| self.scopes[p].list.ordering)
    }

    /// Some list has the identity `id`.
    pub open spec fn has_list(self, id: i64) -> bool {
        exists|p: int| 0 <= p < self.scopes.len() && (#[trigger] self.scopes[p]).list.id == id
    }

    /// The position of the list with identity `id`.
    pub open spec fn list_pos(self, id: i64) -> int {
        choose|p: int| 0 <= p < self.scopes.len() && (#[trigger] self.scopes[p]).list.id == id
    }

    /// The items of the list `list_id` in ascending order; none where no
    /// such list exists.
    pub open spec fn items_of(self, list_id: i64) -> Seq<ItemRecord> {
        if self.has_list(list_id) {
            self.scopes[self.list_pos(list_id)].items
        } else {
            Seq::empty()
        }
    }

    /// `(p, k)` is a place in the store: item `k` of scope `p`.
    pub open spec fn is_place(self, p: int, k: int) -> bool {
        0 <= p < self.scopes.len() && 0 <= k < self.scopes[p].items.len()
    }

    /// The item at the place `(p, k)`.
    pub open spec fn item_at(self, p: int, k: int) -> ItemRecord {
        self.scopes[p].items[k]
    }

    /// Some item has the identity `id`.
    pub open spec fn has_item(self, id: i64) -> bool {
        exists|p: int, k: int| self.is_place(p, k) && #[trigger] self.item_at(p, k).id == id
    }

    /// The place of the item with identity `id`.
    pub open spec fn item_place(self, id: i64) -> (int, int) {
        choose|place: (int, int)|
            self.is_place(place.0, place.1) && #[trigger] self.item_at(place.0, place.1).id == id
    }

    /// The item with identity `id`.
    pub open spec fn item(self, id: i64) -> ItemRecord {
        self.item_at(self.item_place(id).0, self.item_place(id).1)
    }

    /// No two lists share an identity, and every identity in use was handed
    /// out by the store.
    pub open spec fn list_ids_wf(self) -> bool {
        &&& forall|p: int, q: int|
            0 <= p < self.scopes.len() && 0 <= q < self.scopes.len() && p != q ==> (
            #[trigger] self.scopes[p]).list.id != (#[trigger] self.scopes[q]).list.id
        &&& forall|p: int|
            0 <= p < self.scopes.len() ==> (#[trigger] self.scopes[p]).list.id < self.next_list_id
    }

    /// No two items share an identity, and every identity in use was handed
    /// out by the store.
    pub open spec fn item_ids_wf(self) -> bool {
        &&& forall|p: int, k: int, q: int, l: int|
            self.is_place(p, k) && self.is_place(q, l) && (p != q || k != l) ==> (
            #[trigger] self.item_at(p, k)).id != (#[trigger] self.item_at(q, l)).id
        &&& forall|p: int, k: int|
            self.is_place(p, k) ==> (#[trigger] self.item_at(p, k)).id < self.next_item_id
    }

    /// The invariant of the store: within every scope the order keys ascend,
    /// so no two siblings share one; identities are unique; every item sits
    /// in the scope of the list it names.
    pub open spec fn wf(self) -> bool {
        &&& ascending(self.list_keys())
        &&& self.list_ids_wf()
        &&& forall|p: int| 0 <= p < self.scopes.len() ==> (#[trigger] self.scopes[p]).wf()
        &&& self.item_ids_wf()
    }

    /// The same store with one more entry in its journal.
    pub open spec fn logged(self, write: WriteRecord) -> StoreView {
        StoreView { pending: self.pending.push(write), ..self }
    }

    /// The same store with other scopes.
    pub open spec fn with_scopes(self, scopes: Seq<Scope>) -> StoreView {
        StoreView { scopes, ..self }
    }

    /// The key that the next new list gets.
    pub open spec fn next_list_key(self) -> int {
        next_key(self.list_keys())
    }

    /// The identity and order key of the list below `key`, if there is one.
    pub open spec fn list_below(self, key: i64) -> Option<(i64, i64)> {
        match closest_below(self.list_keys(), key) {
            Some(p) => Some((self.scopes[p].list.id, self.scopes[p].list.ordering)),
            None => None,
        }
    }

    /// The identity and order key of the list above `key`, if there is one.
    pub open spec fn list_above(self, key: i64) -> Option<(i64, i64)> {
        match closest_above(self.list_keys(), key) {
            Some(p) => Some((self.scopes[p].list.id, self.scopes[p].list.ordering)),
            None => None,
        }
    }

    /// The record of the list that an insertion creates.
    pub open spec fn new_list(self, name: Seq<char>, ordering: i64, now: Timestamp) -> ListRecord {
        ListRecord { id: self.next_list_id, name, ordering, created_at: now, updated_at: now }
    }

    /// Why an insertion of a list with the key `ordering` is refused, if it is.
    pub open spec fn insert_list_error(self, ordering: i64) -> Option<StoreError> {
        if self.next_list_id == i64::MAX {
            Some(StoreError::Exhausted)
        } else if !is_upper_bound(self.list_keys(), ordering - 1) {
            Some(StoreError::KeyTaken)
        } else {
            None
        }
    }

    /// The store after a list was inserted: the new list stands last, with
    /// no items.
    pub open spec fn with_list(self, name: Seq<char>, ordering: i64, now: Timestamp) -> StoreView {
        let list = self.new_list(name, ordering, now);
        StoreView {
            scopes: self.scopes.push(Scope { list, items: Seq::empty() }),
            next_list_id: (self.next_list_id + 1) as i64,
            next_item_id: self.next_item_id,
            pending: self.pending.push(WriteRecord::InsertList(list)),
        }
    }

    /// The store after the list `id` got the name `name`; only the journal
    /// grows where no such list exists.
    pub open spec fn with_list_renamed(self, id: i64, name: Seq<char>, now: Timestamp) -> StoreView {
        let write = WriteRecord::RenameList { id, name, updated_at: now };
        if self.has_list(id) {
            let p = self.list_pos(id);
            let list = ListRecord { name, updated_at: now, ..self.scopes[p].list };
            self.with_scopes(self.scopes.update(p, Scope { list, ..self.scopes[p] })).logged(write)
        } else {
            self.logged(write)
        }
    }

    /// The store after the list `id` was deleted, and all its items with it;
    /// only the journal grows where no such list exists.
    pub open spec fn without_list(self, id: i64) -> StoreView {
        let write = WriteRecord::DeleteList { id };
        if self.has_list(id) {
            self.with_scopes(self.scopes.remove(self.list_pos(id))).logged(write)
        } else {
            self.logged(write)
        }
    }

    /// The store after the lists `a` and `b`, both of which it holds,
    /// exchanged their order keys: each takes the other's place in the order,
    /// and its items go with it.
    pub open spec fn with_lists_swapped(self, a: i64, b: i64) -> StoreView {
        let p = self.list_pos(a);
        let q = self.list_pos(b);
        let key_a = self.scopes[p].list.ordering;
        let key_b = self.scopes[q].list.ordering;
        let moved_a = Scope { list: ListRecord { ordering: key_b, ..self.scopes[p].list }, ..self.scopes[p] };
        let moved_b = Scope { list: ListRecord { ordering: key_a, ..self.scopes[q].list }, ..self.scopes[q] };
        self.with_scopes(self.scopes.update(p, moved_b).update(q, moved_a)).logged(
            WriteRecord::SetListOrdering { id: a, ordering: key_b },
        ).logged(WriteRecord::SetListOrdering { id: b, ordering: key_a })
    }

    /// The scope of the list `list_id`, which the store holds.
    pub open spec fn scope_of(self, list_id: i64) -> Scope {
        self.scopes[self.list_pos(list_id)]
    }

    /// The key that the next new item of the list `list_id` gets.
    pub open spec fn next_item_key(self, list_id: i64) -> int {
        if self.has_list(list_id) {
            next_key(self.scope_of(list_id).item_keys())
        } else {
            1
        }
    }

    /// The identity and order key of the item of the list `list_id` below
    /// `key`, if there is one.
    pub open spec fn item_below(self, list_id: i64, key: i64) -> Option<(i64, i64)> {
        if self.has_list(list_id) {
            self.scope_of(list_id).item_below(key)
        } else {
            None
        }
    }

    /// The identity and order key of the item of the list `list_id` above
    /// `key`, if there is one.
    pub open spec fn item_above(self, list_id: i64, key: i64) -> Option<(i64, i64)> {
        if self.has_list(list_id) {
            self.scope_of(list_id).item_above(key)
        } else {
            None
        }
    }

    /// The record of the item that an insertion creates: not done yet.
    pub open spec fn new_item(
        self,
        list_id: i64,
        name: Seq<char>,
        priority: Option<Priority>,
        due_date: Option<Timestamp>,
        ordering: i64,
        now: Timestamp,
    ) -> ItemRecord {
        ItemRecord {
            id: self.next_item_id,
            list_id,
            name,
            is_done: false,
            priority,
            due_date,
            ordering,
            created_at: now,
            updated_at: now,
        }
    }

    /// Why an insertion of an item with the key `ordering` into the list
    /// `list_id` is refused, if it is.
    pub open spec fn insert_item_error(self, list_id: i64, ordering: i64) -> Option<StoreError> {
        if !self.has_list(list_id) {
            Some(StoreError::NotFound)
        } else if self.next_item_id == i64::MAX {
            Some(StoreError::Exhausted)
        } else if !is_upper_bound(self.scope_of(list_id).item_keys(), ordering - 1) {
            Some(StoreError::KeyTaken)
        } else {
            None
        }
    }

    /// The store with the scope at position `p` holding the items `items`.
    pub open spec fn with_items_at(self, p: int, items: Seq<ItemRecord>) -> StoreView {
        self.with_scopes(self.scopes.update(p, Scope { items, ..self.scopes[p] }))
    }

    /// The store after `item` was inserted: it stands last in its list.
    pub open spec fn with_item(self, item: ItemRecord) -> StoreView {
        let p = self.list_pos(item.list_id);
        StoreView {
            scopes: self.scopes.update(
                p,
                Scope { items: self.scopes[p].items.push(item), ..self.scopes[p] },
            ),
            next_list_id: self.next_list_id,
            next_item_id: (self.next_item_id + 1) as i64,
            pending: self.pending.push(WriteRecord::InsertItem(item)),
        }
    }

    /// The store with `item` in the place of the item `id`; the same store
    /// where it holds no such item.
    pub open spec fn with_item_replaced(self, id: i64, item: ItemRecord) -> StoreView {
        if self.has_item(id) {
            let (p, k) = self.item_place(id);
            self.with_items_at(p, self.scopes[p].items.update(k, item))
        } else {
            self
        }
    }

    /// The store after the item `id` got the name `name`.
    pub open spec fn with_item_renamed(self, id: i64, name: Seq<char>, now: Timestamp) -> StoreView {
        self.with_item_replaced(id, ItemRecord { name, updated_at: now, ..self.item(id) }).logged(
            WriteRecord::RenameItem { id, name, updated_at: now },
        )
    }

    /// The store after the completion flag of the item `id` was set.
    pub open spec fn with_item_done(self, id: i64, is_done: bool, now: Timestamp) -> StoreView {
        self.with_item_replaced(id, ItemRecord { is_done, updated_at: now, ..self.item(id) }).logged(
            WriteRecord::SetItemDone { id, is_done, updated_at: now },
        )
    }

    /// The store after the item `id` got the priority `priority`.
    pub open spec fn with_item_priority(self, id: i64, priority: Priority, now: Timestamp) -> StoreView {
        self.with_item_replaced(
            id,
            ItemRecord { priority: Some(priority), updated_at: now, ..self.item(id) },
        ).logged(WriteRecord::SetItemPriority { id, priority, updated_at: now })
    }

    /// The store after the item `id` got the due date `due_date`.
    pub open spec fn with_item_due_date(self, id: i64, due_date: Timestamp, now: Timestamp) -> StoreView {
        self.with_item_replaced(
            id,
            ItemRecord { due_date: Some(due_date), updated_at: now, ..self.item(id) },
        ).logged(WriteRecord::SetItemDueDate { id, due_date, updated_at: now })
    }

    /// The store after the item `id` was deleted; only the journal grows
    /// where no such item exists.
    pub open spec fn without_item(self, id: i64) -> StoreView {
        let write = WriteRecord::DeleteItem { id };
        if self.has_item(id) {
            let (p, k) = self.item_place(id);
            self.with_items_at(p, self.scopes[p].items.remove(k)).logged(write)
        } else {
            self.logged(write)
        }
    }

    /// The store holds the items `a` and `b`, and in the same list.
    pub open spec fn are_siblings(self, a: i64, b: i64) -> bool {
        &&& self.has_item(a)
        &&& self.has_item(b)
        &&& self.item_place(a).0 == self.item_place(b).0
    }

    /// The store after the sibling items `a` and `b` exchanged their order
    /// keys: each takes the other's place in the order of their list.
    pub open spec fn with_items_swapped(self, a: i64, b: i64) -> StoreView {
        let (p, k) = self.item_place(a);
        let l = self.item_place(b).1;
        let items = self.scopes[p].items;
        let moved_a = ItemRecord { ordering: items[l].ordering, ..items[k] };
        let moved_b = ItemRecord { ordering: items[k].ordering, ..items[l] };
        self.with_items_at(p, items.update(k, moved_b).update(l, moved_a)).logged(
            WriteRecord::SetItemOrdering { id: a, ordering: items[l].ordering },
        ).logged(WriteRecord::SetItemOrdering { id: b, ordering: items[k].ordering })
    }

    /// The store with an empty journal.
    pub open spec fn flushed(self) -> StoreView {
        StoreView { pending: Seq::empty(), ..self }
    }

    /// Why the store refuses to take `list` in as its last list, if it does.
    pub open spec fn restore_list_error(self, list: ListRecord) -> Option<StoreError> {
        if list.id == i64::MAX {
            Some(StoreError::Exhausted)
        } else if self.has_list(list.id) {
            Some(StoreError::IdTaken)
        } else if !is_upper_bound(self.list_keys(), list.ordering - 1) {
            Some(StoreError::KeyTaken)
        } else {
            None
        }
    }

    /// The store after it took `list` in as it is, with no items; the
    /// journal does not grow.
    pub open spec fn with_restored_list(self, list: ListRecord) -> StoreView {
        StoreView {
            scopes: self.scopes.push(Scope { list, items: Seq::empty() }),
            next_list_id: if self.next_list_id > list.id {
                self.next_list_id
            } else {
                (list.id + 1) as i64
            },
            ..self
        }
    }

    /// Why the store refuses to take `item` in as the last item of its list,
    /// if it does.
    pub open spec fn restore_item_error(self, item: ItemRecord) -> Option<StoreError> {
        if item.id == i64::MAX {
            Some(StoreError::Exhausted)
        } else if !self.has_list(item.list_id) {
            Some(StoreError::NotFound)
        } else if self.has_item(item.id) {
            Some(StoreError::IdTaken)
        } else if !is_upper_bound(self.scope_of(item.list_id).item_keys(), item.ordering - 1) {
            Some(StoreError::KeyTaken)
        } else {
            None
        }
    }

    /// The store after it took `item` in as it is; the journal does not grow.
    pub open spec fn with_restored_item(self, item: ItemRecord) -> StoreView {
        let p = self.list_pos(item.list_id);
        StoreView {
            scopes: self.scopes.update(
                p,
                Scope { items: self.scopes[p].items.push(item), ..self.scopes[p] },
            ),
            next_item_id: if self.next_item_id > item.id {
                self.next_item_id
            } else {
                (item.id + 1) as i64
            },
            ..self
        }
    }
}

/// Among lists with unique identities, the list at position `p` is the one
/// that `list_pos` finds for its identity.
pub proof fn lemma_list_pos(v: StoreView, p: int)
    requires
        v.list_ids_wf(),
        0 <= p < v.scopes.len(),
    ensures
        v.has_list(v.scopes[p].list.id),
        v.list_pos(v.scopes[p].list.id) == p,
{
    let id = v.scopes[p].list.id;
    let c = v.list_pos(id);
    assert(0 <= c < v.scopes.len() && v.scopes[c].list.id == id);
}

/// A list that the store holds stands at a valid position.
pub proof fn lemma_list_pos_valid(v: StoreView, id: i64)
    requires
        v.has_list(id),
    ensures
        0 <= v.list_pos(id) < v.scopes.len(),
        v.scopes[v.list_pos(id)].list.id == id,
{
}

/// Among items with unique identities, the item at the place `(p, k)` is the
/// one that `item_place` finds for its identity.
pub proof fn lemma_item_place(v: StoreView, p: int, k: int)
    requires
        v.item_ids_wf(),
        v.is_place(p, k),
    ensures
        v.has_item(v.item_at(p, k).id),
        v.item_place(v.item_at(p, k).id) == (p, k),
        v.item(v.item_at(p, k).id) == v.item_at(p, k),
{
    let id = v.item_at(p, k).id;
    assert(v.is_place((p, k).0, (p, k).1) && v.item_at((p, k).0, (p, k).1).id == id);
    let c = v.item_place(id);
    assert(v.is_place(c.0, c.1) && v.item_at(c.0, c.1).id == id);
    if c.0 != p || c.1 != k {
        assert(v.item_at(c.0, c.1).id != v.item_at(p, k).id);
    }
}

/// An item that the store holds sits at a valid place.
pub proof fn lemma_item_place_valid(v: StoreView, id: i64)
    requires
        v.has_item(id),
    ensures
        v.is_place(v.item_place(id).0, v.item_place(id).1),
        v.item(id).id == id,
{
    let (p, k) = choose|p: int, k: int| v.is_place(p, k) && #[trigger] v.item_at(p, k).id == id;
    assert(v.is_place((p, k).0, (p, k).1) && v.item_at((p, k).0, (p, k).1).id == id);
}

/// Giving one scope other items keeps the invariant where the new items
/// ascend by order key, belong to the scope's list, and each carries the
/// identity of a different item that the scope held before.
pub proof fn lemma_with_items_at_wf(
    v: StoreView,
    w: StoreView,
    p: int,
    items: Seq<ItemRecord>,
    from: spec_fn(int) -> int,
)
    requires
        v.wf(),
        0 <= p < v.scopes.len(),
        w.scopes == v.with_items_at(p, items).scopes,
        w.next_list_id == v.next_list_id,
        w.next_item_id == v.next_item_id,
        ascending(Seq::new(items.len(), |k: int| items[k].ordering)),
        forall|k: int| 0 <= k < items.len() ==> 0 <= #[trigger] from(k) < v.scopes[p].items.len(),
        forall|k: int, l: int| 0 <= k < l < items.len() ==> #[trigger] from(k) != #[trigger] from(l),
        forall|k: int|
            0 <= k < items.len() ==> (#[trigger] items[k]).id == v.scopes[p].items[from(k)].id
                && items[k].list_id == v.scopes[p].list.id,
    ensures
        w.wf(),
{
    assert(w.list_keys() =~= v.list_keys());
    assert forall|q: int| 0 <= q < w.scopes.len() implies (#[trigger] w.scopes[q]).list
        == v.scopes[q].list by {}
    assert forall|q: int| 0 <= q < w.scopes.len() implies (#[trigger] w.scopes[q]).wf() by {
        if q == p {
            assert(w.scopes[q].item_keys() =~= Seq::new(items.len(), |k: int| items[k].ordering));
        } else {
            assert(w.scopes[q] == v.scopes[q]);
        }
    }
    let back = |q: int, k: int| if q == p { from(k) } else { k };
    assert forall|q: int, k: int| w.is_place(q, k) implies v.is_place(q, back(q, k)) && (
    #[trigger] w.item_at(q, k)).id == v.item_at(q, back(q, k)).id by {
        if q == p {
            assert(w.scopes[p].items == items);
            assert(items[k].id == v.scopes[p].items[from(k)].id);
        } else {
            assert(w.scopes[q] == v.scopes[q]);
        }
    }
    assert forall|q: int, k: int, r: int, l: int|
        w.is_place(q, k) && w.is_place(r, l) && (q != r || k != l) implies (#[trigger] w.item_at(
        q,
        k,
    )).id != (#[trigger] w.item_at(r, l)).id by {
        assert(v.is_place(q, back(q, k)) && v.is_place(r, back(r, l)));
        if q == r && q == p {
            if k < l {
                assert(from(k) != from(l));
            } else {
                assert(from(l) != from(k));
            }
        }
        assert(v.item_at(q, back(q, k)).id != v.item_at(r, back(r, l)).id);
    }
    assert forall|q: int, k: int| w.is_place(q, k) implies (#[trigger] w.item_at(q, k)).id
        < w.next_item_id by {
        assert(v.is_place(q, back(q, k)));
        assert(v.item_at(q, back(q, k)).id < v.next_item_id);
    }
}

/// Adding an item with an unused identity below the next one to hand out, as
/// the last of its list and above every key of that list, keeps the
/// invariant.
pub proof fn lemma_item_added_wf(v: StoreView, w: StoreView, item: ItemRecord)
    requires
        v.wf(),
        v.has_list(item.list_id),
        !v.has_item(item.id),
        is_upper_bound(v.scope_of(item.list_id).item_keys(), item.ordering - 1),
        w.scopes == v.with_restored_item(item).scopes,
        w.next_list_id == v.next_list_id,
        w.next_item_id >= v.next_item_id,
        item.id < w.next_item_id,
    ensures
        w.wf(),
{
    let p = v.list_pos(item.list_id);
    let n = v.scopes[p].items.len() as int;
    assert(w.list_keys() =~= v.list_keys());
    assert forall|q: int| 0 <= q < w.scopes.len() implies (#[trigger] w.scopes[q]).list
        == v.scopes[q].list by {}
    assert forall|q: int| 0 <= q < w.scopes.len() implies (#[trigger] w.scopes[q]).wf() by {
        if q == p {
            assert(v.scopes[p].wf());
            let old_keys = v.scopes[p].item_keys();
            let new_keys = w.scopes[p].item_keys();
            assert forall|i: int, j: int| 0 <= i < j < new_keys.len() implies new_keys[i]
                < new_keys[j] by {
                if j < n {
                    assert(old_keys[i] < old_keys[j]);
                } else {
                    assert(old_keys[i] <= item.ordering - 1);
                }
            }
            assert forall|k: int| 0 <= k < w.scopes[p].items.len() implies (
            #[trigger] w.scopes[p].items[k]).list_id == w.scopes[p].list.id by {
                if k < n {
                    assert(w.scopes[p].items[k] == v.scopes[p].items[k]);
                }
            }
        } else {
            assert(w.scopes[q] == v.scopes[q]);
        }
    }
    assert forall|q: int, k: int| w.is_place(q, k) implies (#[trigger] w.item_at(q, k)).id
        < w.next_item_id && (if q == p && k == n {
        w.item_at(q, k) == item
    } else {
        v.is_place(q, k) && w.item_at(q, k) == v.item_at(q, k)
    }) by {
        if q == p {
            if k < n {
                assert(v.is_place(q, k));
                assert(v.item_at(q, k).id < v.next_item_id);
            }
        } else {
            assert(w.scopes[q] == v.scopes[q]);
            assert(v.is_place(q, k));
            assert(v.item_at(q, k).id < v.next_item_id);
        }
    }
    assert forall|q: int, k: int, r: int, l: int|
        w.is_place(q, k) && w.is_place(r, l) && (q != r || k != l) implies (#[trigger] w.item_at(
        q,
        k,
    )).id != (#[trigger] w.item_at(r, l)).id by {
        let fresh_a = q == p && k == n;
        let fresh_b = r == p && l == n;
        if fresh_a {
            assert(v.is_place(r, l) && w.item_at(r, l) == v.item_at(r, l));
        } else if fresh_b {
            assert(v.is_place(q, k) && w.item_at(q, k) == v.item_at(q, k));
        } else {
            assert(v.is_place(q, k) && v.is_place(r, l));
            assert(v.item_at(q, k).id != v.item_at(r, l).id);
        }
    }
}

/// Taking a list in as the last one keeps the invariant.
pub proof fn lemma_with_restored_list_wf(v: StoreView, list: ListRecord)
    requires
        v.wf(),
        v.restore_list_error(list) is None,
    ensures
        v.with_restored_list(list).wf(),
{
    let w = v.with_restored_list(list);
    let n = v.scopes.len() as int;
    assert forall|i: int, j: int| 0 <= i < j < w.list_keys().len() implies w.list_keys()[i]
        < w.list_keys()[j] by {
        if j < n {
            assert(v.list_keys()[i] < v.list_keys()[j]);
        } else {
            assert(v.list_keys()[i] <= list.ordering - 1);
        }
    }
    assert forall|p: int| 0 <= p < w.scopes.len() implies (#[trigger] w.scopes[p]).wf() by {
        if p < n {
            assert(w.scopes[p] == v.scopes[p]);
        }
    }
    assert forall|p: int, q: int|
        0 <= p < w.scopes.len() && 0 <= q < w.scopes.len() && p != q implies (
    #[trigger] w.scopes[p]).list.id != (#[trigger] w.scopes[q]).list.id by {
        if p < n {
            assert(w.scopes[p] == v.scopes[p]);
        }
        if q < n {
            assert(w.scopes[q] == v.scopes[q]);
        }
    }
    assert forall|p: int| 0 <= p < w.scopes.len() implies (#[trigger] w.scopes[p]).list.id
        < w.next_list_id by {
        if p < n {
            assert(w.scopes[p] == v.scopes[p]);
        }
    }
    assert forall|p: int, k: int, q: int, l: int|
        w.is_place(p, k) && w.is_place(q, l) && (p != q || k != l) implies (#[trigger] w.item_at(
        p,
        k,
    )).id != (#[trigger] w.item_at(q, l)).id by {
        assert(p < n && q < n);
        assert(v.is_place(p, k) && v.is_place(q, l));
        assert(v.item_at(p, k).id != v.item_at(q, l).id);
    }
    assert forall|p: int, k: int| w.is_place(p, k) implies (#[trigger] w.item_at(p, k)).id
        < w.next_item_id by {
        assert(p < n);
        assert(v.is_place(p, k));
        assert(v.item_at(p, k).id < v.next_item_id);
    }
}

#[derive(Debug)]
struct ListRow {
    list: TodoList,
    items: Vec<TodoItem>,
}

impl View for ListRow {
    type V = Scope;

    closed spec fn view(&self) -> Scope {
        Scope { list: self.list@, items: item_records(self.items@) }
    }
}

/// The ordered store.
#[derive(Debug)]
pub struct Store {
    rows: Vec<ListRow>,
    next_list_id: i64,
    next_item_id: i64,
    pending: Vec<Write>,
}

impl View for Store {
    type V = StoreView;

    closed spec fn view(&self) -> StoreView {
        StoreView {
            scopes: self.rows@.map_values(|r: ListRow| r@),
            next_list_id: self.next_list_id,
            next_item_id: self.next_item_id,
            pending: write_records(self.pending@),
        }
    }
}

impl Store {
    /// The invariant of the store; see [`StoreView::wf`].
    pub open spec fn wf(&self) -> bool {
        self@.wf()
    }

    /// An empty store.
    pub fn new() -> (store: Store)
        ensures
            store@ == StoreView::empty(),
            store.wf(),
    {
        let store = Store { rows: Vec::new(), next_list_id: 1, next_item_id: 1, pending: Vec::new() };
        assert(store@.scopes =~= Seq::empty());
        assert(store@.pending =~= Seq::empty());
        store
    }

    fn list_index(&self, id: i64) -> (found: Option<usize>)
        requires
            self.wf(),
        ensures
            match found {
                Some(p) => self@.has_list(id) && self@.list_pos(id) == p && p < self@.scopes.len(),
                None => !self@.has_list(id),
            },
    {
        let mut k: usize = 0;
        while k < self.rows.len()
            invariant
                k <= self.rows.len(),
                self.rows.len() == self@.scopes.len(),
                self.wf(),
                forall|q: int| 0 <= q < k ==> (#[trigger] self@.scopes[q]).list.id != id,
            decreases self.rows.len() - k,
        {
            if self.rows[k].list.id == id {
                proof {
                    assert(self@.scopes[k as int] == self.rows@[k as int]@);
                    lemma_list_pos(self@, k as int);
                }
                return Some(k);
            }
            assert(self@.scopes[k as int] == self.rows@[k as int]@);
            k += 1;
        }
        None
    }

    fn list_key_vec(&self) -> (keys: Vec<i64>)
        ensures
            keys@ == self@.list_keys(),
    {
        let mut keys: Vec<i64> = Vec::new();
        let mut k: usize = 0;
        while k < self.rows.len()
            invariant
                k <= self.rows.len(),
                self.rows.len() == self@.scopes.len(),
                keys.len() == k,
                forall|q: int| 0 <= q < k ==> keys@[q] == self@.scopes[q].list.ordering,
            decreases self.rows.len() - k,
        {
            assert(self@.scopes[k as int] == self.rows@[k as int]@);
            keys.push(self.rows[k].list.ordering);
            k += 1;
        }
        assert(keys@ =~= self@.list_keys());
        keys
    }

    /// The order key for the next new list: one more than the largest key in
    /// use, or 1 where there is no list; `None` where that is no `i64`.
    pub fn next_list_ordering(&self) -> (next: Option<i64>)
        requires
            self.wf(),
        ensures
            self@.next_list_key() <= i64::MAX ==> next == Some(self@.next_list_key() as i64),
            self@.next_list_key() > i64::MAX ==> next is None,
    {
        let keys = self.list_key_vec();
        proof {
            lemma_next_key_in_ascending(keys@);
        }
        next_order_key(&keys)
    }

    /// Inserts a list with the given name and order key; the store gives it
    /// its identity and sets both timestamps to `now`.
    pub fn insert_list(&mut self, name: String, ordering: i64, now: Timestamp) -> (res: Result<
        TodoList,
        StoreError,
    >)
        requires
            old(self).wf(),
        ensures
            final(self).wf(),
            match old(self)@.insert_list_error(ordering) {
                Some(e) => res == Err::<TodoList, StoreError>(e) && final(self)@ == old(self)@,
                None => {
                    &&& res matches Ok(list)
                    &&& list@ == old(self)@.new_list(name@, ordering, now)
                    &&& final(self)@ == old(self)@.with_list(name@, ordering, now)
                },
            },
    {
        if self.next_list_id == i64::MAX {
            return Err(StoreError::Exhausted);
        }
        let n = self.rows.len();
        proof {
            if n > 0 {
                assert(self@.scopes[n - 1] == self.rows@[n - 1]@);
            }
        }
        if n > 0 && self.rows[n - 1].list.ordering >= ordering {
            assert(self@.list_keys()[n - 1] > ordering - 1);
            return Err(StoreError::KeyTaken);
        }
        proof {
            assert forall|i: int| 0 <= i < self@.list_keys().len() implies self@.list_keys()[i]
                <= ordering - 1 by {
                if i < n - 1 {
                    assert(self@.list_keys()[i] < self@.list_keys()[n - 1]);
                }
            }
        }
        let list = TodoList {
            id: self.next_list_id,
            name,
            ordering,
            created_at: now,
            updated_at: now,
        };
        let ghost before = self@;
        self.rows.push(ListRow { list: list.clone(), items: Vec::new() });
        self.pending.push(Write::InsertList(list.clone()));
        self.next_list_id = self.next_list_id + 1;
        proof {
            let after = before.with_list(name@, ordering, now);
            assert(item_records(Seq::<TodoItem>::empty()) =~= Seq::<ItemRecord>::empty());
            assert(self@.scopes =~= after.scopes);
            assert(self@.pending =~= after.pending);
            lemma_with_list_wf(before, name@, ordering, now);
        }
        Ok(list)
    }

    /// All lists, in ascending order of their order keys.
    pub fn all_lists(&self) -> (lists: Vec<TodoList>)
        ensures
            list_records(lists@) == self@.lists(),
    {
        let mut lists: Vec<TodoList> = Vec::new();
        let mut k: usize = 0;
        while k < self.rows.len()
            invariant
                k <= self.rows.len(),
                self.rows.len() == self@.scopes.len(),
                lists.len() == k,
                forall|q: int| 0 <= q < k ==> lists@[q]@ == self@.scopes[q].list,
            decreases self.rows.len() - k,
        {
            assert(self@.scopes[k as int] == self.rows@[k as int]@);
            lists.push(self.rows[k].list.clone());
            k += 1;
        }
        assert(list_records(lists@) =~= self@.lists());
        lists
    }

    /// The list with the identity `id`, if the store holds one.
    pub fn list_by_id(&self, id: i64) -> (found: Option<TodoList>)
        requires
            self.wf(),
        ensures
            found is Some <==> self@.has_list(id),
            found matches Some(list) ==> list@ == self@.scopes[self@.list_pos(id)].list,
    {
        match self.list_index(id) {
            Some(p) => {
                assert(self@.scopes[p as int] == self.rows@[p as int]@);
                Some(self.rows[p].list.clone())
            },
            None => None,
        }
    }

    /// Gives the list `id` the name `name` and sets its modification time to
    /// `now`. Where the store holds no such list, nothing but the journal
    /// changes.
    pub fn rename_list(&mut self, id: i64, name: String, now: Timestamp)
        requires
            old(self).wf(),
        ensures
            final(self).wf(),
            final(self)@ == old(self)@.with_list_renamed(id, name@, now),
    {
        let ghost before = self@;
        let slot = self.list_index(id);
        self.pending.push(Write::RenameList { id, name: name.clone(), updated_at: now });
        match slot {
            Some(p) => {
                let ghost old_row = self.rows@[p as int];
                self.rows[p].list.name = name;
                self.rows[p].list.updated_at = now;
                proof {
                    let after = before.with_list_renamed(id, name@, now);
                    assert(before.scopes[p as int] == old_row@);
                    assert(self@.scopes =~= after.scopes);
                    assert(self@.pending =~= after.pending);
                    lemma_with_list_renamed_wf(before, id, name@, now);
                }
            },
            None => {
                proof {
                    let after = before.with_list_renamed(id, name@, now);
                    assert(self@.scopes =~= after.scopes);
                    assert(self@.pending =~= after.pending);
                    lemma_with_list_renamed_wf(before, id, name@, now);
                }
            },
        }
    }

    /// Deletes the list `id` and, with it, every item that belongs to it.
    /// Where the store holds no such list, nothing but the journal changes.
    pub fn delete_list(&mut self, id: i64)
        requires
            old(self).wf(),
        ensures
            final(self).wf(),
            final(self)@ == old(self)@.without_list(id),
    {
        let ghost before = self@;
        let slot = self.list_index(id);
        self.pending.push(Write::DeleteList { id });
        match slot {
            Some(p) => {
                let _ = self.rows.remove(p);
            },
            None => {},
        }
        proof {
            let after = before.without_list(id);
            assert(self@.scopes =~= after.scopes);
            assert(self@.pending =~= after.pending);
            lemma_without_list_wf(before, id);
        }
    }

    /// The identity and order key of the list with the largest order key
    /// below `key`.
    pub fn list_before(&self, key: i64) -> (found: Option<(i64, i64)>)
        requires
            self.wf(),
        ensures
            found == self@.list_below(key),
    {
        let keys = self.list_key_vec();
        match position_below(&keys, key) {
            Some(p) => {
                proof {
                    lemma_ascending_distinct(self@.list_keys());
                    lemma_closest_below_unique(self@.list_keys(), key, p as int);
                    assert(self@.scopes[p as int] == self.rows@[p as int]@);
                }
                Some((self.rows[p].list.id, self.rows[p].list.ordering))
            },
            None => {
                assert(closest_below(self@.list_keys(), key) is None);
                None
            },
        }
    }

    /// The identity and order key of the list with the smallest order key
    /// above `key`.
    pub fn list_after(&self, key: i64) -> (found: Option<(i64, i64)>)
        requires
            self.wf(),
        ensures
            found == self@.list_above(key),
    {
        let keys = self.list_key_vec();
        match position_above(&keys, key) {
            Some(p) => {
                proof {
                    lemma_ascending_distinct(self@.list_keys());
                    lemma_closest_above_unique(self@.list_keys(), key, p as int);
                    assert(self@.scopes[p as int] == self.rows@[p as int]@);
                }
                Some((self.rows[p].list.id, self.rows[p].list.ordering))
            },
            None => {
                assert(closest_above(self@.list_keys(), key) is None);
                None
            },
        }
    }

    /// Exchanges the order keys of the lists `a` and `b` in one step. Fails,
    /// and changes nothing, unless the store holds both.
    pub fn swap_list_orderings(&mut self, a: i64, b: i64) -> (res: Result<(), StoreError>)
        requires
            old(self).wf(),
        ensures
            final(self).wf(),
            old(self)@.has_list(a) && old(self)@.has_list(b) ==> res is Ok && final(self)@ == old(
                self,
            )@.with_lists_swapped(a, b),
            !(old(self)@.has_list(a) && old(self)@.has_list(b)) ==> res == Err::<(), StoreError>(
                StoreError::NotFound,
            ) && final(self)@ == old(self)@,
    {
        let ghost before = self@;
        let p = match self.list_index(a) {
            Some(p) => p,
            None => {
                return Err(StoreError::NotFound);
            },
        };
        let q = match self.list_index(b) {
            Some(q) => q,
            None => {
                return Err(StoreError::NotFound);
            },
        };
        let ghost row_p = self.rows@[p as int];
        let ghost row_q = self.rows@[q as int];
        let key_a = self.rows[p].list.ordering;
        let key_b = self.rows[q].list.ordering;
        self.rows[p].list.ordering = key_b;
        self.rows[q].list.ordering = key_a;
        if p != q {
            let (lo, hi) = if p < q { (p, q) } else { (q, p) };
            let upper = self.rows.remove(hi);
            let lower = self.rows.remove(lo);
            self.rows.insert(lo, upper);
            self.rows.insert(hi, lower);
        }
        self.pending.push(Write::SetListOrdering { id: a, ordering: key_b });
        self.pending.push(Write::SetListOrdering { id: b, ordering: key_a });
        proof {
            let after = before.with_lists_swapped(a, b);
            assert(before.scopes[p as int] == row_p@);
            assert(before.scopes[q as int] == row_q@);
            assert(self@.scopes =~= after.scopes);
            assert(self@.pending =~= after.pending);
            lemma_with_lists_swapped_wf(before, a, b);
        }
        Ok(())
    }
}

/// What the journal holds has no part in the invariant.
pub proof fn lemma_same_rows_wf(v: StoreView, w: StoreView)
    requires
        v.wf(),
        w.scopes == v.scopes,
        w.next_list_id == v.next_list_id,
        w.next_item_id == v.next_item_id,
    ensures
        w.wf(),
{
    assert(w.list_keys() =~= v.list_keys());
    assert forall|p: int, k: int, q: int, l: int|
        w.is_place(p, k) && w.is_place(q, l) && (p != q || k != l) implies (#[trigger] w.item_at(
        p,
        k,
    )).id != (#[trigger] w.item_at(q, l)).id by {
        assert(v.is_place(p, k) && v.is_place(q, l));
        assert(v.item_at(p, k).id != v.item_at(q, l).id);
    }
    assert forall|p: int, k: int| w.is_place(p, k) implies (#[trigger] w.item_at(p, k)).id
        < w.next_item_id by {
        assert(v.is_place(p, k));
        assert(v.item_at(p, k).id < v.next_item_id);
    }
}

/// Inserting a list above every key in use keeps the invariant.
pub proof fn lemma_with_list_wf(v: StoreView, name: Seq<char>, ordering: i64, now: Timestamp)
    requires
        v.wf(),
        v.insert_list_error(ordering) is None,
    ensures
        v.with_list(name, ordering, now).wf(),
{
    let w = v.with_list(name, ordering, now);
    let n = v.scopes.len() as int;
    assert forall|i: int, j: int| 0 <= i < j < w.list_keys().len() implies w.list_keys()[i]
        < w.list_keys()[j] by {
        if j < n {
            assert(v.list_keys()[i] < v.list_keys()[j]);
        } else {
            assert(v.list_keys()[i] <= ordering - 1);
        }
    }
    assert forall|p: int| 0 <= p < w.scopes.len() implies (#[trigger] w.scopes[p]).wf() by {
        if p < n {
            assert(w.scopes[p] == v.scopes[p]);
        }
    }
    assert forall|p: int, q: int|
        0 <= p < w.scopes.len() && 0 <= q < w.scopes.len() && p != q implies (
    #[trigger] w.scopes[p]).list.id != (#[trigger] w.scopes[q]).list.id by {
        if p < n {
            assert(w.scopes[p] == v.scopes[p]);
        }
        if q < n {
            assert(w.scopes[q] == v.scopes[q]);
        }
    }
    assert forall|p: int| 0 <= p < w.scopes.len() implies (#[trigger] w.scopes[p]).list.id
        < w.next_list_id by {
        if p < n {
            assert(w.scopes[p] == v.scopes[p]);
        }
    }
    assert forall|p: int, k: int| w.is_place(p, k) implies v.is_place(p, k) && w.item_at(p, k)
        == v.item_at(p, k) by {
        assert(p < n);
    }
}

/// Renaming a list keeps the invariant.
pub proof fn lemma_with_list_renamed_wf(v: StoreView, id: i64, name: Seq<char>, now: Timestamp)
    requires
        v.wf(),
    ensures
        v.with_list_renamed(id, name, now).wf(),
{
    let w = v.with_list_renamed(id, name, now);
    if v.has_list(id) {
        assert(w.list_keys() =~= v.list_keys());
        assert forall|p: int| 0 <= p < w.scopes.len() implies (#[trigger] w.scopes[p]).list.id
            == v.scopes[p].list.id && w.scopes[p].items == v.scopes[p].items by {}
        assert forall|p: int| 0 <= p < w.scopes.len() implies (#[trigger] w.scopes[p]).wf() by {
            assert(v.scopes[p].wf());
            assert(w.scopes[p].item_keys() =~= v.scopes[p].item_keys());
        }
        assert forall|p: int, k: int, q: int, l: int|
            w.is_place(p, k) && w.is_place(q, l) && (p != q || k != l) implies (
        #[trigger] w.item_at(p, k)).id != (#[trigger] w.item_at(q, l)).id by {
            assert(v.is_place(p, k) && v.is_place(q, l));
            assert(v.item_at(p, k).id != v.item_at(q, l).id);
        }
        assert forall|p: int, k: int| w.is_place(p, k) implies (#[trigger] w.item_at(p, k)).id
            < w.next_item_id by {
            assert(v.is_place(p, k));
            assert(v.item_at(p, k).id < v.next_item_id);
        }
    } else {
        lemma_same_rows_wf(v, w);
    }
}

/// Deleting a list keeps the invariant.
pub proof fn lemma_without_list_wf(v: StoreView, id: i64)
    requires
        v.wf(),
    ensures
        v.without_list(id).wf(),
{
    let w = v.without_list(id);
    if v.has_list(id) {
        let t = v.list_pos(id);
        assert forall|p: int| 0 <= p < w.scopes.len() implies #[trigger] w.scopes[p] == v.scopes[if p
            < t {
            p
        } else {
            p + 1
        }] by {}
        assert forall|i: int, j: int| 0 <= i < j < w.list_keys().len() implies w.list_keys()[i]
            < w.list_keys()[j] by {
            let i0 = if i < t { i } else { i + 1 };
            let j0 = if j < t { j } else { j + 1 };
            assert(v.list_keys()[i0] < v.list_keys()[j0]);
        }
        assert forall|p: int| 0 <= p < w.scopes.len() implies (#[trigger] w.scopes[p]).wf() by {
            let p0 = if p < t { p } else { p + 1 };
            assert(v.scopes[p0].wf());
        }
        assert forall|p: int, k: int| w.is_place(p, k) implies v.is_place(if p < t { p } else { p + 1 }, k)
            && w.item_at(p, k) == v.item_at(if p < t { p } else { p + 1 }, k) by {}
        assert(w.item_ids_wf()) by {
            assert forall|p: int, k: int, q: int, l: int|
                w.is_place(p, k) && w.is_place(q, l) && (p != q || k != l) implies (
            #[trigger] w.item_at(p, k)).id != (#[trigger] w.item_at(q, l)).id by {
                let p0 = if p < t { p } else { p + 1 };
                let q0 = if q < t { q } else { q + 1 };
                assert(v.is_place(p0, k) && v.is_place(q0, l));
                assert(v.item_at(p0, k).id != v.item_at(q0, l).id);
            }
            assert forall|p: int, k: int| w.is_place(p, k) implies (#[trigger] w.item_at(p, k)).id
                < w.next_item_id by {
                let p0 = if p < t { p } else { p + 1 };
                assert(v.is_place(p0, k));
                assert(v.item_at(p0, k).id < v.next_item_id);
            }
        }
        assert(w.list_ids_wf()) by {
            assert forall|p: int, q: int|
                0 <= p < w.scopes.len() && 0 <= q < w.scopes.len() && p != q implies (
            #[trigger] w.scopes[p]).list.id != (#[trigger] w.scopes[q]).list.id by {
                let p0 = if p < t { p } else { p + 1 };
                let q0 = if q < t { q } else { q + 1 };
                assert(v.scopes[p0].list.id != v.scopes[q0].list.id);
            }
            assert forall|p: int| 0 <= p < w.scopes.len() implies (#[trigger] w.scopes[p]).list.id
                < w.next_list_id by {
                let p0 = if p < t { p } else { p + 1 };
                assert(v.scopes[p0].list.id < v.next_list_id);
            }
        }
    } else {
        lemma_same_rows_wf(v, w);
    }
}

/// Exchanging the order keys of two lists keeps the invariant.
pub proof fn lemma_with_lists_swapped_wf(v: StoreView, a: i64, b: i64)
    requires
        v.wf(),
        v.has_list(a),
        v.has_list(b),
    ensures
        v.with_lists_swapped(a, b).wf(),
        v.with_lists_swapped(a, b).list_keys() == v.list_keys(),
{
    let w = v.with_lists_swapped(a, b);
    let s = v.list_pos(a);
    let t = v.list_pos(b);
    // Where each scope of the new store came from.
    let from = |p: int| if p == s { t } else if p == t { s } else { p };
    assert(w.list_keys() =~= v.list_keys());
    assert forall|p: int| 0 <= p < w.scopes.len() implies (#[trigger] w.scopes[p]).list.id
        == v.scopes[from(p)].list.id && w.scopes[p].items == v.scopes[from(p)].items by {}
    assert forall|p: int| 0 <= p < w.scopes.len() implies (#[trigger] w.scopes[p]).wf() by {
        assert(v.scopes[from(p)].wf());
        assert(w.scopes[p].item_keys() =~= v.scopes[from(p)].item_keys());
    }
    assert(w.list_ids_wf()) by {
        assert forall|p: int, q: int|
            0 <= p < w.scopes.len() && 0 <= q < w.scopes.len() && p != q implies (
        #[trigger] w.scopes[p]).list.id != (#[trigger] w.scopes[q]).list.id by {
            assert(v.scopes[from(p)].list.id != v.scopes[from(q)].list.id);
        }
        assert forall|p: int| 0 <= p < w.scopes.len() implies (#[trigger] w.scopes[p]).list.id
            < w.next_list_id by {
            assert(v.scopes[from(p)].list.id < v.next_list_id);
        }
    }
    assert(w.item_ids_wf()) by {
        assert forall|p: int, k: int, q: int, l: int|
            w.is_place(p, k) && w.is_place(q, l) && (p != q || k != l) implies (
        #[trigger] w.item_at(p, k)).id != (#[trigger] w.item_at(q, l)).id by {
            assert(v.is_place(from(p), k) && v.is_place(from(q), l));
            assert(v.item_at(from(p), k).id != v.item_at(from(q), l).id);
        }
        assert forall|p: int, k: int| w.is_place(p, k) implies (#[trigger] w.item_at(p, k)).id
            < w.next_item_id by {
            assert(v.is_place(from(p), k));
            assert(v.item_at(from(p), k).id < v.next_item_id);
        }
    }
}

impl Store {
    fn item_index(&self, id: i64) -> (found: Option<(usize, usize)>)
        requires
            self.wf(),
        ensures
            match found {
                Some((p, k)) => {
                    &&& self@.has_item(id)
                    &&& self@.item_place(id) == (p as int, k as int)
                    &&& self@.is_place(p as int, k as int)
                    &&& p < self.rows.len()
                    &&& k < self.rows[p as int].items.len()
                },
                None => !self@.has_item(id),
            },
    {
        let mut p: usize = 0;
        while p < self.rows.len()
            invariant
                p <= self.rows.len(),
                self.rows.len() == self@.scopes.len(),
                self.wf(),
                forall|q: int, l: int|
                    self@.is_place(q, l) && q < p ==> (#[trigger] self@.item_at(q, l)).id != id,
            decreases self.rows.len() - p,
        {
            assert(self@.scopes[p as int] == self.rows@[p as int]@);
            let mut k: usize = 0;
            while k < self.rows[p].items.len()
                invariant
                    p < self.rows.len(),
                    k <= self.rows[p as int].items.len(),
                    self.rows.len() == self@.scopes.len(),
                    self@.scopes[p as int] == self.rows@[p as int]@,
                    self.wf(),
                    forall|l: int| 0 <= l < k ==> (#[trigger] self@.item_at(p as int, l)).id != id,
                decreases self.rows[p as int].items.len() - k,
            {
                assert(self@.item_at(p as int, k as int) == self.rows@[p as int].items@[k as int]@);
                if self.rows[p].items[k].id == id {
                    proof {
                        lemma_item_place(self@, p as int, k as int);
                    }
                    return Some((p, k));
                }
                k += 1;
            }
            p += 1;
        }
        assert forall|q: int, l: int| self@.is_place(q, l) implies (#[trigger] self@.item_at(q, l)).id
            != id by {}
        None
    }

    fn item_key_vec(&self, p: usize) -> (keys: Vec<i64>)
        requires
            p < self@.scopes.len(),
        ensures
            keys@ == self@.scopes[p as int].item_keys(),
    {
        assert(self@.scopes[p as int] == self.rows@[p as int]@);
        let mut keys: Vec<i64> = Vec::new();
        let mut k: usize = 0;
        while k < self.rows[p].items.len()
            invariant
                p < self.rows.len(),
                k <= self.rows[p as int].items.len(),
                self@.scopes[p as int] == self.rows@[p as int]@,
                keys.len() == k,
                forall|l: int| 0 <= l < k ==> keys@[l] == self@.scopes[p as int].items[l].ordering,
            decreases self.rows[p as int].items.len() - k,
        {
            keys.push(self.rows[p].items[k].ordering);
            k += 1;
        }
        assert(keys@ =~= self@.scopes[p as int].item_keys());
        keys
    }

    /// The order key for the next new item of the list `list_id`: one more
    /// than the largest key in use there, or 1 where the list has no items or
    /// does not exist; `None` where that is no `i64`.
    pub fn next_item_ordering(&self, list_id: i64) -> (next: Option<i64>)
        requires
            self.wf(),
        ensures
            self@.next_item_key(list_id) <= i64::MAX ==> next == Some(
                self@.next_item_key(list_id) as i64,
            ),
            self@.next_item_key(list_id) > i64::MAX ==> next is None,
    {
        match self.list_index(list_id) {
            Some(p) => {
                let keys = self.item_key_vec(p);
                proof {
                    assert(self@.scopes[p as int].wf());
                    lemma_next_key_in_ascending(keys@);
                }
                next_order_key(&keys)
            },
            None => Some(1),
        }
    }

    /// Inserts an item with the given order key into the list that
    /// `new_item` names; the store gives it its identity, marks it not done
    /// and sets both timestamps to `now`.
    pub fn insert_item(&mut self, new_item: NewTodoItem, ordering: i64, now: Timestamp) -> (res:
        Result<TodoItem, StoreError>)
        requires
            old(self).wf(),
        ensures
            final(self).wf(),
            match old(self)@.insert_item_error(new_item.list_id, ordering) {
                Some(e) => res == Err::<TodoItem, StoreError>(e) && final(self)@ == old(self)@,
                None => {
                    &&& res matches Ok(item)
                    &&& item@ == old(self)@.new_item(
                        new_item.list_id,
                        new_item.name@,
                        new_item.priority,
                        new_item.due_date,
                        ordering,
                        now,
                    )
                    &&& final(self)@ == old(self)@.with_item(item@)
                },
            },
    {
        let ghost before = self@;
        let p = match self.list_index(new_item.list_id) {
            Some(p) => p,
            None => {
                return Err(StoreError::NotFound);
            },
        };
        if self.next_item_id == i64::MAX {
            return Err(StoreError::Exhausted);
        }
        assert(self@.scopes[p as int] == self.rows@[p as int]@);
        let n = self.rows[p].items.len();
        if n > 0 && self.rows[p].items[n - 1].ordering >= ordering {
            assert(before.scopes[p as int].item_keys()[n - 1] > ordering - 1);
            return Err(StoreError::KeyTaken);
        }
        proof {
            let keys = before.scopes[p as int].item_keys();
            assert(before.scopes[p as int].wf());
            assert forall|i: int| 0 <= i < keys.len() implies keys[i] <= ordering - 1 by {
                if i < n - 1 {
                    assert(keys[i] < keys[n - 1]);
                }
            }
        }
        let item = TodoItem {
            id: self.next_item_id,
            list_id: new_item.list_id,
            name: new_item.name,
            is_done: false,
            priority: new_item.priority,
            due_date: new_item.due_date,
            ordering,
            created_at: now,
            updated_at: now,
        };
        let ghost old_row = self.rows@[p as int];
        self.rows[p].items.push(item.clone());
        self.pending.push(Write::InsertItem(item.clone()));
        self.next_item_id = self.next_item_id + 1;
        proof {
            let after = before.with_item(item@);
            assert(self.rows@[p as int]@.items =~= old_row@.items.push(item@));
            assert(self@.scopes =~= after.scopes);
            assert(self@.pending =~= after.pending);
            assert(!before.has_item(item.id)) by {
                if before.has_item(item.id) {
                    lemma_item_place_valid(before, item.id);
                    let c = before.item_place(item.id);
                    assert(before.item_at(c.0, c.1).id < before.next_item_id);
                }
            }
            lemma_item_added_wf(before, self@, item@);
        }
        Ok(item)
    }

    /// The items of the list `list_id`, in ascending order of their order
    /// keys; none where the store holds no such list.
    pub fn items_of_list(&self, list_id: i64) -> (items: Vec<TodoItem>)
        requires
            self.wf(),
        ensures
            item_records(items@) == self@.items_of(list_id),
    {
        match self.list_index(list_id) {
            Some(p) => {
                assert(self@.scopes[p as int] == self.rows@[p as int]@);
                clone_items(&self.rows[p].items)
            },
            None => {
                let items: Vec<TodoItem> = Vec::new();
                assert(item_records(items@) =~= self@.items_of(list_id));
                items
            },
        }
    }

    /// The item with the identity `id`, if the store holds one.
    pub fn item_by_id(&self, id: i64) -> (found: Option<TodoItem>)
        requires
            self.wf(),
        ensures
            found is Some <==> self@.has_item(id),
            found matches Some(item) ==> item@ == self@.item(id),
    {
        match self.item_index(id) {
            Some((p, k)) => {
                assert(self@.scopes[p as int] == self.rows@[p as int]@);
                Some(self.rows[p].items[k].clone())
            },
            None => None,
        }
    }

    fn replace_item(&mut self, p: usize, k: usize, item: TodoItem)
        requires
            old(self).wf(),
            old(self)@.is_place(p as int, k as int),
            item.id == old(self)@.item_at(p as int, k as int).id,
            item.list_id == old(self)@.item_at(p as int, k as int).list_id,
            item.ordering == old(self)@.item_at(p as int, k as int).ordering,
        ensures
            final(self).wf(),
            final(self)@ == old(self)@.with_items_at(
                p as int,
                old(self)@.scopes[p as int].items.update(k as int, item@),
            ),
    {
        let ghost before = self@;
        let ghost old_row = self.rows@[p as int];
        assert(before.scopes[p as int] == old_row@);
        self.rows[p].items[k] = item;
        proof {
            let items = before.scopes[p as int].items.update(k as int, item@);
            let after = before.with_items_at(p as int, items);
            assert(self.rows@[p as int]@.items =~= items);
            assert(self@.scopes =~= after.scopes);
            assert(self@.pending =~= after.pending);
            assert(before.scopes[p as int].wf());
            assert(Seq::new(items.len(), |l: int| items[l].ordering)
                =~= before.scopes[p as int].item_keys());
            assert forall|l: int| 0 <= l < items.len() implies (#[trigger] items[l]).id
                == before.scopes[p as int].items[l].id && items[l].list_id
                == before.scopes[p as int].list.id by {
                assert(before.scopes[p as int].items[l].list_id == before.scopes[p as int].list.id);
            }
            lemma_with_items_at_wf(before, self@, p as int, items, |l: int| l);
        }
    }

    fn log(&mut self, write: Write)
        requires
            old(self).wf(),
        ensures
            final(self).wf(),
            final(self)@ == old(self)@.logged(write@),
    {
        let ghost before = self@;
        self.pending.push(write);
        proof {
            assert(self@.pending =~= before.logged(write@).pending);
            lemma_same_rows_wf(before, self@);
        }
    }

    /// Gives the item `id` the name `name` and sets its modification time to
    /// `now`. Where the store holds no such item, nothing but the journal
    /// changes.
    pub fn rename_item(&mut self, id: i64, name: String, now: Timestamp)
        requires
            old(self).wf(),
        ensures
            final(self).wf(),
            final(self)@ == old(self)@.with_item_renamed(id, name@, now),
    {
        if let Some((p, k)) = self.item_index(id) {
            assert(self@.scopes[p as int] == self.rows@[p as int]@);
            let mut item = self.rows[p].items[k].clone();
            item.name = name.clone();
            item.updated_at = now;
            self.replace_item(p, k, item);
        }
        self.log(Write::RenameItem { id, name, updated_at: now });
    }

    /// Sets the completion flag of the item `id` to `is_done` and its
    /// modification time to `now`. Where the store holds no such item,
    /// nothing but the journal changes.
    pub fn set_item_done(&mut self, id: i64, is_done: bool, now: Timestamp)
        requires
            old(self).wf(),
        ensures
            final(self).wf(),
            final(self)@ == old(self)@.with_item_done(id, is_done, now),
    {
        if let Some((p, k)) = self.item_index(id) {
            assert(self@.scopes[p as int] == self.rows@[p as int]@);
            let mut item = self.rows[p].items[k].clone();
            item.is_done = is_done;
            item.updated_at = now;
            self.replace_item(p, k, item);
        }
        self.log(Write::SetItemDone { id, is_done, updated_at: now });
    }

    /// Gives the item `id` the priority `priority` and sets its modification
    /// time to `now`. Where the store holds no such item, nothing but the
    /// journal changes.
    pub fn set_item_priority(&mut self, id: i64, priority: Priority, now: Timestamp)
        requires
            old(self).wf(),
        ensures
            final(self).wf(),
            final(self)@ == old(self)@.with_item_priority(id, priority, now),
    {
        if let Some((p, k)) = self.item_index(id) {
            assert(self@.scopes[p as int] == self.rows@[p as int]@);
            let mut item = self.rows[p].items[k].clone();
            item.priority = Some(priority);
            item.updated_at = now;
            self.replace_item(p, k, item);
        }
        self.log(Write::SetItemPriority { id, priority, updated_at: now });
    }

    /// Gives the item `id` the due date `due_date` and sets its modification
    /// time to `now`. Where the store holds no such item, nothing but the
    /// journal changes.
    pub fn set_item_due_date(&mut self, id: i64, due_date: Timestamp, now: Timestamp)
        requires
            old(self).wf(),
        ensures
            final(self).wf(),
            final(self)@ == old(self)@.with_item_due_date(id, due_date, now),
    {
        if let Some((p, k)) = self.item_index(id) {
            assert(self@.scopes[p as int] == self.rows@[p as int]@);
            let mut item = self.rows[p].items[k].clone();
            item.due_date = Some(due_date);
            item.updated_at = now;
            self.replace_item(p, k, item);
        }
        self.log(Write::SetItemDueDate { id, due_date, updated_at: now });
    }

    /// Deletes the item `id`. Where the store holds no such item, nothing but
    /// the journal changes.
    pub fn delete_item(&mut self, id: i64)
        requires
            old(self).wf(),
        ensures
            final(self).wf(),
            final(self)@ == old(self)@.without_item(id),
    {
        let ghost before = self@;
        if let Some((p, k)) = self.item_index(id) {
            let ghost old_row = self.rows@[p as int];
            assert(before.scopes[p as int] == old_row@);
            let _ = self.rows[p].items.remove(k);
            proof {
                let items = before.scopes[p as int].items.remove(k as int);
                let after = before.with_items_at(p as int, items);
                assert(self.rows@[p as int]@.items =~= items);
                assert(self@.scopes =~= after.scopes);
                assert(self@.pending =~= after.pending);
                lemma_item_removed_wf(before, self@, p as int, k as int);
            }
        }
        self.log(Write::DeleteItem { id });
    }

    /// The identity and order key of the item of the list `list_id` with the
    /// largest order key below `key`.
    pub fn item_before(&self, list_id: i64, key: i64) -> (found: Option<(i64, i64)>)
        requires
            self.wf(),
        ensures
            found == self@.item_below(list_id, key),
    {
        let p = match self.list_index(list_id) {
            Some(p) => p,
            None => {
                return None;
            },
        };
        let keys = self.item_key_vec(p);
        assert(self@.scopes[p as int] == self.rows@[p as int]@);
        assert(self@.scopes[p as int].wf());
        match position_below(&keys, key) {
            Some(k) => {
                proof {
                    lemma_ascending_distinct(keys@);
                    lemma_closest_below_unique(keys@, key, k as int);
                }
                Some((self.rows[p].items[k].id, self.rows[p].items[k].ordering))
            },
            None => {
                assert(closest_below(keys@, key) is None);
                None
            },
        }
    }

    /// The identity and order key of the item of the list `list_id` with the
    /// smallest order key above `key`.
    pub fn item_after(&self, list_id: i64, key: i64) -> (found: Option<(i64, i64)>)
        requires
            self.wf(),
        ensures
            found == self@.item_above(list_id, key),
    {
        let p = match self.list_index(list_id) {
            Some(p) => p,
            None => {
                return None;
            },
        };
        let keys = self.item_key_vec(p);
        assert(self@.scopes[p as int] == self.rows@[p as int]@);
        assert(self@.scopes[p as int].wf());
        match position_above(&keys, key) {
            Some(k) => {
                proof {
                    lemma_ascending_distinct(keys@);
                    lemma_closest_above_unique(keys@, key, k as int);
                }
                Some((self.rows[p].items[k].id, self.rows[p].items[k].ordering))
            },
            None => {
                assert(closest_above(keys@, key) is None);
                None
            },
        }
    }

    /// Exchanges the order keys of the items `a` and `b` in one step. Fails,
    /// and changes nothing, unless the store holds both in one list.
    pub fn swap_item_orderings(&mut self, a: i64, b: i64) -> (res: Result<(), StoreError>)
        requires
            old(self).wf(),
        ensures
            final(self).wf(),
            old(self)@.are_siblings(a, b) ==> res is Ok && final(self)@ == old(
                self,
            )@.with_items_swapped(a, b),
            !old(self)@.are_siblings(a, b) ==> res == Err::<(), StoreError>(StoreError::NotFound)
                && final(self)@ == old(self)@,
    {
        let ghost before = self@;
        let (p, k) = match self.item_index(a) {
            Some(place) => place,
            None => {
                return Err(StoreError::NotFound);
            },
        };
        let (q, l) = match self.item_index(b) {
            Some(place) => place,
            None => {
                return Err(StoreError::NotFound);
            },
        };
        if p != q {
            return Err(StoreError::NotFound);
        }
        let ghost old_row = self.rows@[p as int];
        assert(before.scopes[p as int] == old_row@);
        let mut moved_a = self.rows[p].items[k].clone();
        let mut moved_b = self.rows[p].items[l].clone();
        let key_a = moved_a.ordering;
        let key_b = moved_b.ordering;
        moved_a.ordering = key_b;
        moved_b.ordering = key_a;
        self.rows[p].items[k] = moved_b;
        self.rows[p].items[l] = moved_a;
        proof {
            let old_items = before.scopes[p as int].items;
            let items = old_items.update(k as int, moved_b@).update(l as int, moved_a@);
            let after = before.with_items_at(p as int, items);
            assert(self.rows@[p as int]@.items =~= items);
            assert(self@.scopes =~= after.scopes);
            assert(self@.pending =~= after.pending);
            assert(before.scopes[p as int].wf());
            assert(Seq::new(items.len(), |i: int| items[i].ordering)
                =~= before.scopes[p as int].item_keys());
            let from = |i: int|
                if i == k as int {
                    l as int
                } else if i == l as int {
                    k as int
                } else {
                    i
                };
            assert forall|i: int| 0 <= i < items.len() implies (#[trigger] items[i]).id
                == old_items[from(i)].id && items[i].list_id == before.scopes[p as int].list.id by {
                assert(old_items[from(i)].list_id == before.scopes[p as int].list.id);
            }
            lemma_with_items_at_wf(before, self@, p as int, items, from);
        }
        self.log(Write::SetItemOrdering { id: a, ordering: key_b });
        self.log(Write::SetItemOrdering { id: b, ordering: key_a });
        Ok(())
    }

    /// Hands out the journal: the changes made since it was last handed out,
    /// oldest first. The store's journal is empty afterwards.
    pub fn take_pending(&mut self) -> (writes: Vec<Write>)
        requires
            old(self).wf(),
        ensures
            final(self).wf(),
            write_records(writes@) == old(self)@.pending,
            final(self)@ == old(self)@.flushed(),
    {
        let ghost before = self@;
        let mut writes: Vec<Write> = Vec::new();
        core::mem::swap(&mut self.pending, &mut writes);
        proof {
            assert(self@.pending =~= before.flushed().pending);
            lemma_same_rows_wf(before, self@);
        }
        writes
    }

    /// Takes in a list that was made durable earlier, as the last list, with
    /// no items. The journal does not grow.
    pub fn restore_list(&mut self, list: TodoList) -> (res: Result<(), StoreError>)
        requires
            old(self).wf(),
        ensures
            final(self).wf(),
            match old(self)@.restore_list_error(list@) {
                Some(e) => res == Err::<(), StoreError>(e) && final(self)@ == old(self)@,
                None => res is Ok && final(self)@ == old(self)@.with_restored_list(list@),
            },
    {
        let ghost before = self@;
        if list.id == i64::MAX {
            return Err(StoreError::Exhausted);
        }
        if self.list_index(list.id).is_some() {
            return Err(StoreError::IdTaken);
        }
        let n = self.rows.len();
        proof {
            if n > 0 {
                assert(self@.scopes[n - 1] == self.rows@[n - 1]@);
            }
        }
        if n > 0 && self.rows[n - 1].list.ordering >= list.ordering {
            assert(self@.list_keys()[n - 1] > list.ordering - 1);
            return Err(StoreError::KeyTaken);
        }
        proof {
            assert forall|i: int| 0 <= i < before.list_keys().len() implies before.list_keys()[i]
                <= list.ordering - 1 by {
                if i < n - 1 {
                    assert(before.list_keys()[i] < before.list_keys()[n - 1]);
                }
            }
        }
        if self.next_list_id <= list.id {
            self.next_list_id = list.id + 1;
        }
        self.rows.push(ListRow { list, items: Vec::new() });
        proof {
            let after = before.with_restored_list(list@);
            assert(item_records(Seq::<TodoItem>::empty()) =~= Seq::<ItemRecord>::empty());
            assert(self@.scopes =~= after.scopes);
            assert(self@.pending =~= after.pending);
            lemma_with_restored_list_wf(before, list@);
        }
        Ok(())
    }

    /// Takes in an item that was made durable earlier, as the last item of
    /// the list it names. The journal does not grow.
    pub fn restore_item(&mut self, item: TodoItem) -> (res: Result<(), StoreError>)
        requires
            old(self).wf(),
        ensures
            final(self).wf(),
            match old(self)@.restore_item_error(item@) {
                Some(e) => res == Err::<(), StoreError>(e) && final(self)@ == old(self)@,
                None => res is Ok && final(self)@ == old(self)@.with_restored_item(item@),
            },
    {
        let ghost before = self@;
        if item.id == i64::MAX {
            return Err(StoreError::Exhausted);
        }
        let p = match self.list_index(item.list_id) {
            Some(p) => p,
            None => {
                return Err(StoreError::NotFound);
            },
        };
        if self.item_index(item.id).is_some() {
            return Err(StoreError::IdTaken);
        }
        assert(self@.scopes[p as int] == self.rows@[p as int]@);
        let n = self.rows[p].items.len();
        if n > 0 && self.rows[p].items[n - 1].ordering >= item.ordering {
            assert(before.scopes[p as int].item_keys()[n - 1] > item.ordering - 1);
            return Err(StoreError::KeyTaken);
        }
        proof {
            let keys = before.scopes[p as int].item_keys();
            assert(before.scopes[p as int].wf());
            assert forall|i: int| 0 <= i < keys.len() implies keys[i] <= item.ordering - 1 by {
                if i < n - 1 {
                    assert(keys[i] < keys[n - 1]);
                }
            }
        }
        if self.next_item_id <= item.id {
            self.next_item_id = item.id + 1;
        }
        let ghost old_row = self.rows@[p as int];
        let ghost rec = item@;
        self.rows[p].items.push(item);
        proof {
            let after = before.with_restored_item(rec);
            assert(self.rows@[p as int]@.items =~= old_row@.items.push(rec));
            assert(self@.scopes =~= after.scopes);
            assert(self@.pending =~= after.pending);
            lemma_item_added_wf(before, self@, rec);
        }
        Ok(())
    }
}

/// Removing one item keeps the invariant.
pub proof fn lemma_item_removed_wf(v: StoreView, w: StoreView, p: int, k: int)
    requires
        v.wf(),
        v.is_place(p, k),
        w.scopes == v.with_items_at(p, v.scopes[p].items.remove(k)).scopes,
        w.next_list_id == v.next_list_id,
        w.next_item_id == v.next_item_id,
    ensures
        w.wf(),
{
    let old_items = v.scopes[p].items;
    let items = old_items.remove(k);
    let from = |i: int| if i < k { i } else { i + 1 };
    assert(v.scopes[p].wf());
    let old_keys = v.scopes[p].item_keys();
    let keys = Seq::new(items.len(), |i: int| items[i].ordering);
    assert forall|i: int, j: int| 0 <= i < j < keys.len() implies keys[i] < keys[j] by {
        assert(old_keys[from(i)] < old_keys[from(j)]);
    }
    assert forall|i: int| 0 <= i < items.len() implies (#[trigger] items[i]).id == old_items[from(
        i,
    )].id && items[i].list_id == v.scopes[p].list.id by {
        assert(old_items[from(i)].list_id == v.scopes[p].list.id);
    }
    lemma_with_items_at_wf(v, w, p, items, from);
}

} // verus!
