//! The lists of the store: moving the cursor among them and acting on the
//! list under it.

use vstd::prelude::*;
use crate::db::models::{list_snapshots, ListSnapshot, NewTodoList, Timestamp, TodoList, UIList};
use crate::db::ops::{lemma_list_above_is_higher, lemma_list_below_is_lower, snapshot_of};
use crate::db::store::{Store, StoreError, StoreView};
use crate::ui::list_state::ListState;

verus! {

/// What a [`ListsComponent`] stands for in contracts.
pub struct ListsSnapshot {
    pub lists: Seq<ListSnapshot>,
    pub state: ListState,
}

impl ListsSnapshot {
    /// The cursor selects nothing or one of the lists, and the cursor of
    /// every list selects nothing or one of its items.
    pub open spec fn wf(self) -> bool {
        &&& self.state.fits(self.lists.len())
        &&& forall|p: int| 0 <= p < self.lists.len() ==> (#[trigger] self.lists[p]).wf()
    }

    /// The selected list, where one is selected.
    pub open spec fn selected_list(self) -> Option<ListSnapshot> {
        match self.state.selected {
            Some(i) if i < self.lists.len() => Some(self.lists[i as int]),
            _ => None,
        }
    }

    /// The same snapshot with another selection.
    pub open spec fn with_state(self, state: ListState) -> ListsSnapshot {
        ListsSnapshot { state, ..self }
    }

    /// The same snapshot with the selection brought back into the lists.
    pub open spec fn fitted(self) -> ListsSnapshot {
        self.with_state(self.state.fitted(self.lists.len()))
    }

    /// The snapshot after the cursor moved to `index` and was brought back
    /// into the lists. No list changes, and no cursor among items.
    pub open spec fn moved_to(self, index: Option<usize>) -> ListsSnapshot {
        self.with_state(self.state.with_selected(index)).fitted()
    }

    /// The snapshot with every list and item taken from the store again, no
    /// item selected, and the cursor brought back into the lists.
    pub open spec fn reloaded(self, store: StoreView) -> ListsSnapshot {
        ListsSnapshot { lists: snapshot_of(store), state: self.state }.fitted()
    }

    /// The snapshot with the selected list replaced by `list`.
    pub open spec fn with_selected_list(self, list: ListSnapshot) -> ListsSnapshot {
        match self.selected_list() {
            Some(_) => ListsSnapshot {
                lists: self.lists.update(self.state.selected.unwrap() as int, list),
                ..self
            },
            None => self,
        }
    }

    /// The store after the selected list was renamed.
    pub open spec fn store_after_rename(self, store: StoreView, name: Seq<char>, now: Timestamp) -> StoreView {
        match self.selected_list() {
            Some(selected) => store.with_list_renamed(selected.list.id, name, now),
            None => store,
        }
    }

    /// The store after the selected list was deleted.
    pub open spec fn store_after_delete(self, store: StoreView) -> StoreView {
        match self.selected_list() {
            Some(selected) => store.without_list(selected.list.id),
            None => store,
        }
    }

    /// Moving the selected list up fails.
    pub open spec fn move_up_fails(self, store: StoreView) -> bool {
        match self.selected_list() {
            Some(selected) => store.list_move_up_fails(selected.list.id, selected.list.ordering),
            None => false,
        }
    }

    /// The store after the selected list moved up.
    pub open spec fn store_after_move_up(self, store: StoreView) -> StoreView {
        match self.selected_list() {
            Some(selected) => store.list_moved_up(selected.list.id, selected.list.ordering),
            None => store,
        }
    }

    /// The snapshot after the selected list moved up: everything is taken
    /// from the store again, and the cursor went with the list where it
    /// moved.
    pub open spec fn after_move_up(self, store: StoreView) -> ListsSnapshot {
        match self.selected_list() {
            Some(selected) => {
                let i = self.state.selected.unwrap();
                let fresh = ListsSnapshot {
                    lists: snapshot_of(self.store_after_move_up(store)),
                    state: self.state,
                };
                if store.list_below(selected.list.ordering) is Some && i > 0 {
                    fresh.moved_to(Some((i - 1) as usize))
                } else {
                    fresh.fitted()
                }
            },
            None => self,
        }
    }

    /// Moving the selected list down fails.
    pub open spec fn move_down_fails(self, store: StoreView) -> bool {
        match self.selected_list() {
            Some(selected) => store.list_move_down_fails(selected.list.id, selected.list.ordering),
            None => false,
        }
    }

    /// The store after the selected list moved down.
    pub open spec fn store_after_move_down(self, store: StoreView) -> StoreView {
        match self.selected_list() {
            Some(selected) => store.list_moved_down(selected.list.id, selected.list.ordering),
            None => store,
        }
    }

    /// The snapshot after the selected list moved down.
    pub open spec fn after_move_down(self, store: StoreView) -> ListsSnapshot {
        match self.selected_list() {
            Some(selected) => {
                let i = self.state.selected.unwrap();
                let fresh = ListsSnapshot {
                    lists: snapshot_of(self.store_after_move_down(store)),
                    state: self.state,
                };
                if store.list_above(selected.list.ordering) is Some && i + 1 < fresh.lists.len() {
                    fresh.moved_to(Some((i + 1) as usize))
                } else {
                    fresh.fitted()
                }
            },
            None => self,
        }
    }
}

/// In the snapshot of a store nothing is selected, so every cursor is valid.
pub proof fn lemma_snapshot_of_wf(v: StoreView, state: ListState)
    ensures
        (ListsSnapshot { lists: snapshot_of(v), state }).fitted().wf(),
        snapshot_of(v).len() == v.scopes.len(),
{
}

/// The lists of the snapshot, each with its items, and the cursor among the
/// lists.
#[derive(Debug)]
pub struct ListsComponent {
    pub lists: Vec<UIList>,
    pub list_state: ListState,
}

impl View for ListsComponent {
    type V = ListsSnapshot;

    open spec fn view(&self) -> ListsSnapshot {
        ListsSnapshot { lists: list_snapshots(self.lists@), state: self.list_state }
    }
}

impl ListsComponent {
    /// Every cursor of the component selects nothing or something that is
    /// there.
    pub open spec fn wf(&self) -> bool {
        self@.wf()
    }

    /// A component without lists.
    pub fn new() -> (component: ListsComponent)
        ensures
            component@ == (ListsSnapshot {
                lists: Seq::empty(),
                state: ListState { offset: 0, selected: None },
            }),
            component.wf(),
    {
        let component = ListsComponent { lists: Vec::new(), list_state: ListState::new() };
        assert(component@.lists =~= Seq::empty());
        component
    }

    /// Whether every cursor of the component selects nothing or something
    /// that is there.
    pub fn cursors_fit(&self) -> (ok: bool)
        ensures
            ok == self.wf(),
    {
        let fits = match self.list_state.selected() {
            Some(i) => i < self.lists.len(),
            None => true,
        };
        if !fits {
            return false;
        }
        let mut p: usize = 0;
        while p < self.lists.len()
            invariant
                p <= self.lists.len(),
                forall|q: int| 0 <= q < p ==> (#[trigger] self@.lists[q]).wf(),
            decreases self.lists.len() - p,
        {
            assert(self@.lists[p as int] == self.lists@[p as int]@);
            let inside = match self.lists[p].item_state.selected() {
                Some(j) => j < self.lists[p].items.len(),
                None => true,
            };
            if !inside {
                return false;
            }
            p += 1;
        }
        true
    }

    /// Takes every list and item from the store again. No item is selected
    /// afterwards; the cursor among the lists stays, brought back into the
    /// lists where it was past their end.
    pub fn load_lists(&mut self, store: &Store)
        requires
            store.wf(),
        ensures
            final(self)@ == old(self)@.reloaded(store@),
            final(self).wf(),
    {
        self.lists = UIList::get_all(store);
        self.list_state.fit(self.lists.len());
        proof {
            lemma_snapshot_of_wf(store@, old(self).list_state);
        }
    }

    /// Moves the cursor to the next list, or to the first where nothing is
    /// selected; it stays on the last list.
    pub fn select_next(&mut self)
        requires
            old(self).wf(),
        ensures
            final(self)@ == old(self)@.moved_to(Some(old(self)@.state.next_index())),
            final(self).wf(),
    {
        self.list_state.select_next();
        self.list_state.fit(self.lists.len());
    }

    /// Moves the cursor to the previous list, or to the last where nothing is
    /// selected; it stays on the first list.
    pub fn select_previous(&mut self)
        requires
            old(self).wf(),
        ensures
            final(self)@ == old(self)@.moved_to(Some(old(self)@.state.previous_index())),
            final(self).wf(),
    {
        self.list_state.select_previous();
        self.list_state.fit(self.lists.len());
    }

    /// Moves the cursor to the first list.
    pub fn select_first(&mut self)
        requires
            old(self).wf(),
        ensures
            final(self)@ == old(self)@.moved_to(Some(0usize)),
            final(self).wf(),
    {
        self.list_state.select_first();
        self.list_state.fit(self.lists.len());
    }

    /// Moves the cursor to the last list.
    pub fn select_last(&mut self)
        requires
            old(self).wf(),
        ensures
            final(self)@ == old(self)@.moved_to(Some(usize::MAX)),
            final(self).wf(),
    {
        self.list_state.select_last();
        self.list_state.fit(self.lists.len());
    }

    /// The position of the selected list, where one is selected.
    pub fn selected_index(&self) -> (index: Option<usize>)
        ensures
            match index {
                Some(i) => self@.state.selected == Some(i) && i < self.lists.len(),
                None => self@.selected_list() is None,
            },
            index is Some <==> self@.selected_list() is Some,
    {
        match self.list_state.selected() {
            Some(i) => if i < self.lists.len() {
                Some(i)
            } else {
                None
            },
            None => None,
        }
    }

    /// The selected list, where one is selected.
    pub fn get_selected_list(&self) -> (selected: Option<&UIList>)
        ensures
            match selected {
                Some(list) => self@.selected_list() == Some(list@),
                None => self@.selected_list() is None,
            },
    {
        match self.selected_index() {
            Some(i) => Some(&self.lists[i]),
            None => None,
        }
    }

    /// Creates a list named `name` at the end of the lists and takes
    /// everything from the store again. The cursor stays where it was.
    pub fn create_list(lists_component: &mut ListsComponent, name: String, store: &mut Store, now: Timestamp) -> (res:
        Result<(), StoreError>)
        requires
            old(lists_component).wf(),
            old(store).wf(),
        ensures
            final(store).wf(),
            final(lists_component).wf(),
            old(store)@.create_list_fails() ==> {
                &&& res == Err::<(), StoreError>(StoreError::Exhausted)
                &&& final(store)@ == old(store)@
                &&& final(lists_component)@ == old(lists_component)@
            },
            !old(store)@.create_list_fails() ==> {
                &&& res is Ok
                &&& final(store)@ == old(store)@.with_created_list(name@, now)
                &&& final(lists_component)@ == old(lists_component)@.reloaded(final(store)@)
            },
    {
        let new_list = NewTodoList { name };
        match TodoList::create(store, new_list, now) {
            Ok(_) => {},
            Err(e) => {
                return Err(e);
            },
        }
        lists_component.load_lists(store);
        Ok(())
    }

    /// Gives the selected list the name `name` and takes everything from the
    /// store again. Nothing happens where nothing is selected.
    pub fn update_list(lists_component: &mut ListsComponent, name: String, store: &mut Store, now: Timestamp)
        requires
            old(lists_component).wf(),
            old(store).wf(),
        ensures
            final(store).wf(),
            final(lists_component).wf(),
            final(store)@ == old(lists_component)@.store_after_rename(old(store)@, name@, now),
            final(lists_component)@ == if old(lists_component)@.selected_list() is Some {
                old(lists_component)@.reloaded(final(store)@)
            } else {
                old(lists_component)@
            },
    {
        if let Some(i) = lists_component.selected_index() {
            let mut list = lists_component.lists[i].list.clone();
            list.update_name(store, name, now);
            lists_component.load_lists(store);
        }
    }

    /// Deletes the selected list with all its items and takes everything
    /// from the store again. The cursor stays on its position, so that it
    /// selects the list that followed; it moves to the last list where the
    /// deleted one was the last, and selects nothing where no list is left.
    /// No item is selected afterwards.
    pub fn delete_selected_list_static(lists_component: &mut ListsComponent, store: &mut Store)
        requires
            old(lists_component).wf(),
            old(store).wf(),
        ensures
            final(store).wf(),
            final(lists_component).wf(),
            final(store)@ == old(lists_component)@.store_after_delete(old(store)@),
            final(lists_component)@ == if old(lists_component)@.selected_list() is Some {
                old(lists_component)@.reloaded(final(store)@)
            } else {
                old(lists_component)@
            },
    {
        if let Some(i) = lists_component.selected_index() {
            let list = lists_component.lists[i].list.clone();
            list.delete(store);
            lists_component.load_lists(store);
        }
    }

    /// Moves the selected list one place up and takes everything from the
    /// store again. The cursor goes with the list; where the list was the
    /// first, nothing moves.
    pub fn move_selected_list_up(lists_component: &mut ListsComponent, store: &mut Store) -> (res:
        Result<(), StoreError>)
        requires
            old(lists_component).wf(),
            old(store).wf(),
        ensures
            final(store).wf(),
            final(lists_component).wf(),
            old(lists_component)@.move_up_fails(old(store)@) ==> {
                &&& res == Err::<(), StoreError>(StoreError::NotFound)
                &&& final(store)@ == old(store)@
                &&& final(lists_component)@ == old(lists_component)@
            },
            !old(lists_component)@.move_up_fails(old(store)@) ==> {
                &&& res is Ok
                &&& final(store)@ == old(lists_component)@.store_after_move_up(old(store)@)
                &&& final(lists_component)@ == old(lists_component)@.after_move_up(old(store)@)
            },
    {
        if let Some(i) = lists_component.selected_index() {
            let mut list = lists_component.lists[i].list.clone();
            let key = list.ordering;
            match list.move_up(store) {
                Ok(()) => {},
                Err(e) => {
                    return Err(e);
                },
            }
            lists_component.lists = UIList::get_all(store);
            if list.ordering != key && i > 0 {
                lists_component.list_state.select(Some(i - 1));
            }
            lists_component.list_state.fit(lists_component.lists.len());
            proof {
                if old(store)@.list_below(key) is Some {
                    lemma_list_below_is_lower(old(store)@, key);
                }
                lemma_snapshot_of_wf(store@, lists_component.list_state);
            }
        }
        Ok(())
    }

    /// Moves the selected list one place down and takes everything from the
    /// store again. The cursor goes with the list; where the list was the
    /// last, nothing moves.
    pub fn move_selected_list_down(lists_component: &mut ListsComponent, store: &mut Store) -> (res:
        Result<(), StoreError>)
        requires
            old(lists_component).wf(),
            old(store).wf(),
        ensures
            final(store).wf(),
            final(lists_component).wf(),
            old(lists_component)@.move_down_fails(old(store)@) ==> {
                &&& res == Err::<(), StoreError>(StoreError::NotFound)
                &&& final(store)@ == old(store)@
                &&& final(lists_component)@ == old(lists_component)@
            },
            !old(lists_component)@.move_down_fails(old(store)@) ==> {
                &&& res is Ok
                &&& final(store)@ == old(lists_component)@.store_after_move_down(old(store)@)
                &&& final(lists_component)@ == old(lists_component)@.after_move_down(old(store)@)
            },
    {
        if let Some(i) = lists_component.selected_index() {
            let mut list = lists_component.lists[i].list.clone();
            let key = list.ordering;
            match list.move_down(store) {
                Ok(()) => {},
                Err(e) => {
                    return Err(e);
                },
            }
            lists_component.lists = UIList::get_all(store);
            if list.ordering != key && i < usize::MAX && i + 1 < lists_component.lists.len() {
                lists_component.list_state.select(Some(i + 1));
            }
            lists_component.list_state.fit(lists_component.lists.len());
            proof {
                if old(store)@.list_above(key) is Some {
                    lemma_list_above_is_higher(old(store)@, key);
                }
                lemma_snapshot_of_wf(store@, lists_component.list_state);
            }
        }
        Ok(())
    }
}

} // verus!
