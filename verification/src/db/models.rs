//! The records of the to-do manager and their mathematical views.

use vstd::prelude::*;
use crate::ui::list_state::ListState;

verus! {

/// A point in time: whole seconds since the Unix epoch and the nanoseconds
/// into that second.
#[derive(Debug, Clone, Copy, PartialEq, Eq, Structural)]
pub struct Timestamp {
    pub secs: i64,
    pub nanos: u32,
}

/// How urgent an item is.
#[derive(Debug, Clone, Copy, PartialEq, Eq, Structural)]
pub enum Priority {
    High,
    Medium,
    Low,
}

/// A list of to-do items, as the store keeps it.
#[derive(Debug)]
pub struct TodoList {
    pub id: i64,
    pub name: String,
    pub ordering: i64,
    pub created_at: Timestamp,
    pub updated_at: Timestamp,
}

/// What a [`TodoList`] stands for in contracts.
pub struct ListRecord {
    pub id: i64,
    pub name: Seq<char>,
    pub ordering: i64,
    pub created_at: Timestamp,
    pub updated_at: Timestamp,
}

impl View for TodoList {
    type V = ListRecord;

    open spec fn view(&self) -> ListRecord {
        ListRecord {
            id: self.id,
            name: self.name@,
            ordering: self.ordering,
            created_at: self.created_at,
            updated_at: self.updated_at,
        }
    }
}

impl Clone for TodoList {
    fn clone(&self) -> (copy: Self)
        ensures
            copy@ == self@,
    {
        TodoList {
            id: self.id,
            name: self.name.clone(),
            ordering: self.ordering,
            created_at: self.created_at,
            updated_at: self.updated_at,
        }
    }
}

/// A to-do item, as the store keeps it.
#[derive(Debug)]
pub struct TodoItem {
    pub id: i64,
    pub list_id: i64,
    pub name: String,
    pub is_done: bool,
    pub priority: Option<Priority>,
    pub due_date: Option<Timestamp>,
    pub ordering: i64,
    pub created_at: Timestamp,
    pub updated_at: Timestamp,
}

/// What a [`TodoItem`] stands for in contracts.
pub struct ItemRecord {
    pub id: i64,
    pub list_id: i64,
    pub name: Seq<char>,
    pub is_done: bool,
    pub priority: Option<Priority>,
    pub due_date: Option<Timestamp>,
    pub ordering: i64,
    pub created_at: Timestamp,
    pub updated_at: Timestamp,
}

impl View for TodoItem {
    type V = ItemRecord;

    open spec fn view(&self) -> ItemRecord {
        ItemRecord {
            id: self.id,
            list_id: self.list_id,
            name: self.name@,
            is_done: self.is_done,
            priority: self.priority,
            due_date: self.due_date,
            ordering: self.ordering,
            created_at: self.created_at,
            updated_at: self.updated_at,
        }
    }
}

impl Clone for TodoItem {
    fn clone(&self) -> (copy: Self)
        ensures
            copy@ == self@,
    {
        TodoItem {
            id: self.id,
            list_id: self.list_id,
            name: self.name.clone(),
            is_done: self.is_done,
            priority: self.priority,
            due_date: self.due_date,
            ordering: self.ordering,
            created_at: self.created_at,
            updated_at: self.updated_at,
        }
    }
}

/// What is needed to create a list: the store adds identity, order key and
/// timestamps.
#[derive(Debug)]
pub struct NewTodoList {
    pub name: String,
}

/// What is needed to create an item in the list `list_id`.
#[derive(Debug)]
pub struct NewTodoItem {
    pub list_id: i64,
    pub name: String,
    pub priority: Option<Priority>,
    pub due_date: Option<Timestamp>,
}

/// The views of a sequence of lists, in the same order.
pub open spec fn list_records(lists: Seq<TodoList>) -> Seq<ListRecord> {
    lists.map_values(|l: TodoList| l@)
}

/// The views of a sequence of items, in the same order.
pub open spec fn item_records(items: Seq<TodoItem>) -> Seq<ItemRecord> {
    items.map_values(|i: TodoItem| i@)
}

/// Copies a vector of items.
pub fn clone_items(items: &Vec<TodoItem>) -> (copy: Vec<TodoItem>)
    ensures
        item_records(copy@) == item_records(items@),
{
    let mut copy: Vec<TodoItem> = Vec::new();
    let mut k: usize = 0;
    while k < items.len()
        invariant
            k <= items.len(),
            copy.len() == k,
            forall|j: int| 0 <= j < k ==> copy@[j]@ == items@[j]@,
        decreases items.len() - k,
    {
        copy.push(items[k].clone());
        k += 1;
    }
    assert(item_records(copy@) =~= item_records(items@));
    copy
}

/// An item as the snapshot holds it.
#[derive(Debug)]
pub struct UIItem {
    pub item: TodoItem,
    pub state: ListState,
}

impl View for UIItem {
    type V = ItemRecord;

    open spec fn view(&self) -> ItemRecord {
        self.item@
    }
}

impl Clone for UIItem {
    fn clone(&self) -> (copy: Self)
        ensures
            copy@ == self@,
            copy.state == self.state,
    {
        UIItem { item: self.item.clone(), state: self.state }
    }
}

/// The views of a sequence of snapshot items, in the same order.
pub open spec fn ui_item_records(items: Seq<UIItem>) -> Seq<ItemRecord> {
    items.map_values(|i: UIItem| i@)
}

/// A list as the snapshot holds it: the list, its items in ascending order
/// of their order keys, and the selection among them.
#[derive(Debug)]
pub struct UIList {
    pub list: TodoList,
    pub item_state: ListState,
    pub items: Vec<UIItem>,
}

/// What a [`UIList`] stands for in contracts.
pub struct ListSnapshot {
    pub list: ListRecord,
    pub state: ListState,
    pub items: Seq<ItemRecord>,
}

impl ListSnapshot {
    /// The cursor selects nothing or one of the items.
    pub open spec fn wf(self) -> bool {
        self.state.fits(self.items.len())
    }

    /// The same snapshot with another selection.
    pub open spec fn with_state(self, state: ListState) -> ListSnapshot {
        ListSnapshot { state, ..self }
    }

    /// The same snapshot with other items.
    pub open spec fn with_items(self, items: Seq<ItemRecord>) -> ListSnapshot {
        ListSnapshot { items, ..self }
    }

    /// The same snapshot with the selection brought back into the items.
    pub open spec fn fitted(self) -> ListSnapshot {
        self.with_state(self.state.fitted(self.items.len()))
    }

    /// The selected item, where one is selected.
    pub open spec fn selected_item(self) -> Option<ItemRecord> {
        match self.state.selected {
            Some(j) if j < self.items.len() => Some(self.items[j as int]),
            _ => None,
        }
    }
}

impl View for UIList {
    type V = ListSnapshot;

    open spec fn view(&self) -> ListSnapshot {
        ListSnapshot {
            list: self.list@,
            state: self.item_state,
            items: ui_item_records(self.items@),
        }
    }
}

/// The views of a sequence of snapshot lists, in the same order.
pub open spec fn list_snapshots(lists: Seq<UIList>) -> Seq<ListSnapshot> {
    lists.map_values(|l: UIList| l@)
}

impl UIList {
    /// The cursor selects nothing or one of the items.
    pub open spec fn wf(&self) -> bool {
        self@.wf()
    }
}

impl Clone for UIList {
    fn clone(&self) -> (copy: Self)
        ensures
            copy@ == self@,
    {
        let mut items: Vec<UIItem> = Vec::new();
        let mut k: usize = 0;
        while k < self.items.len()
            invariant
                k <= self.items.len(),
                items.len() == k,
                forall|j: int| 0 <= j < k ==> items@[j]@ == self.items@[j]@,
            decreases self.items.len() - k,
        {
            items.push(self.items[k].clone());
            k += 1;
        }
        assert(ui_item_records(items@) =~= ui_item_records(self.items@));
        UIList { list: self.list.clone(), item_state: self.item_state, items }
    }
}

} // verus!
