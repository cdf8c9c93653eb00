//! What holds of the application whatever the user does.

use vstd::prelude::*;
use crate::app::state::{is_legal, AppView, CurrentScreen, Intent};
use crate::db::laws::{
    lemma_created_item_wf, lemma_created_list_wf, lemma_item_moved_wf, lemma_item_replaced_wf,
    lemma_list_moved_wf, lemma_without_item_wf,
};
use crate::db::models::{ItemRecord, ListSnapshot, Timestamp};
use crate::db::store::{
    lemma_same_rows_wf, lemma_with_list_renamed_wf, lemma_without_list_wf, StoreView,
};
use crate::ui::components::lists::{lemma_snapshot_of_wf, ListsSnapshot};

verus! {

/// The state after the intents of `intents`, each with its time, one after
/// the other.
pub open spec fn after_all(v: AppView, intents: Seq<(Intent, Timestamp)>) -> AppView
    decreases intents.len(),
{
    if intents.len() == 0 {
        v
    } else {
        after_all(v, intents.drop_last()).after(intents.last().0, intents.last().1)
    }
}

/// Another store and another selected list that are both valid make a valid
/// state, on whatever screen.
proof fn lemma_replaced_wf(v: AppView, store: StoreView, fresh: ListSnapshot)
    requires
        v.lists.wf(),
        store.wf(),
        fresh.wf(),
    ensures
        v.with_store(store).with_selected(fresh).wf(),
        v.with_store(store).with_selected(fresh).back_to(CurrentScreen::Main).wf(),
{
}

/// Another valid store and the snapshot taken from it make a valid state,
/// on whatever screen and wherever the cursor among the lists goes.
proof fn lemma_reloaded_wf(v: AppView, store: StoreView, lists: ListsSnapshot)
    requires
        store.wf(),
        lists.lists == crate::db::ops::snapshot_of(store),
        lists.state.fits(lists.lists.len()),
    ensures
        v.with_store(store).with_lists(lists).wf(),
        v.with_store(store).with_lists(lists).back_to(CurrentScreen::Main).wf(),
{
}

/// Moving a cursor keeps the state valid.
proof fn lemma_cursor_intent_wf(v: AppView, intent: Intent, now: Timestamp)
    requires
        v.wf(),
        match intent {
            Intent::NextList | Intent::PreviousList | Intent::FirstList | Intent::LastList
            | Intent::NextItem | Intent::PreviousItem | Intent::FirstItem | Intent::LastItem
            | Intent::DeselectItem => true,
            _ => false,
        },
    ensures
        v.after_legal(intent, now).wf(),
{
    match v.lists.selected_list() {
        Some(list) => {
            assert(list.wf());
        },
        None => {},
    }
}

/// Marking the selected item keeps the state valid.
proof fn lemma_toggle_wf(v: AppView, now: Timestamp)
    requires
        v.wf(),
    ensures
        v.after_legal(Intent::ToggleItem, now).wf(),
{
    match v.lists.selected_list() {
        Some(list) => {
            assert(list.wf());
            match list.selected_item() {
                Some(item) => {
                    let done = ItemRecord {
                        is_done: !item.is_done,
                        updated_at: now,
                        ..v.store.item(item.id)
                    };
                    if v.store.has_item(item.id) {
                        crate::db::store::lemma_item_place_valid(v.store, item.id);
                    }
                    lemma_item_replaced_wf(v.store, item.id, done);
                    lemma_same_rows_wf(
                        v.store.with_item_replaced(item.id, done),
                        list.store_after_toggle(v.store, now),
                    );
                },
                None => {},
            }
            lemma_replaced_wf(v, list.store_after_toggle(v.store, now), list.after_toggle(now));
        },
        None => {},
    }
}

/// Renaming the selected item keeps the store valid.
proof fn lemma_rename_item_wf(list: ListSnapshot, store: StoreView, name: Seq<char>, now: Timestamp)
    requires
        store.wf(),
    ensures
        list.store_after_rename(store, name, now).wf(),
{
    match list.selected_item() {
        Some(item) => {
            let renamed = ItemRecord { name, updated_at: now, ..store.item(item.id) };
            if store.has_item(item.id) {
                crate::db::store::lemma_item_place_valid(store, item.id);
            }
            lemma_item_replaced_wf(store, item.id, renamed);
            lemma_same_rows_wf(
                store.with_item_replaced(item.id, renamed),
                list.store_after_rename(store, name, now),
            );
        },
        None => {},
    }
}

/// Deleting the selected item keeps the state valid.
proof fn lemma_delete_item_wf(v: AppView, now: Timestamp)
    requires
        v.wf(),
    ensures
        v.after_legal(Intent::DeleteItem, now).wf(),
{
    match v.lists.selected_list() {
        Some(list) => {
            match list.selected_item() {
                Some(item) => {
                    lemma_without_item_wf(v.store, item.id);
                },
                None => {},
            }
            let store = list.store_after_delete(v.store);
            lemma_replaced_wf(v, store, list.refreshed(store).fitted());
        },
        None => {},
    }
}

/// Moving the selected item keeps the state valid.
proof fn lemma_move_item_wf(v: AppView, now: Timestamp)
    requires
        v.wf(),
    ensures
        v.after_legal(Intent::MoveItemUp, now).wf(),
        v.after_legal(Intent::MoveItemDown, now).wf(),
{
    match v.lists.selected_list() {
        Some(list) => {
            assert(list.wf());
            match list.selected_item() {
                Some(item) => {
                    lemma_item_moved_wf(v.store, item.list_id, item.id, item.ordering);
                },
                None => {},
            }
            lemma_replaced_wf(v, list.store_after_move_up(v.store), list.after_move_up(v.store));
            lemma_replaced_wf(
                v,
                list.store_after_move_down(v.store),
                list.after_move_down(v.store),
            );
        },
        None => {},
    }
}

/// Deleting the selected list keeps the state valid.
proof fn lemma_delete_list_wf(v: AppView, now: Timestamp)
    requires
        v.wf(),
    ensures
        v.after_legal(Intent::DeleteList, now).wf(),
{
    match v.lists.selected_list() {
        Some(list) => {
            lemma_without_list_wf(v.store, list.list.id);
            let store = v.lists.store_after_delete(v.store);
            lemma_snapshot_of_wf(store, v.lists.state);
            lemma_reloaded_wf(v, store, v.lists.reloaded(store));
        },
        None => {},
    }
}

/// Moving the selected list keeps the state valid.
proof fn lemma_move_list_wf(v: AppView, now: Timestamp)
    requires
        v.wf(),
    ensures
        v.after_legal(Intent::MoveListUp, now).wf(),
        v.after_legal(Intent::MoveListDown, now).wf(),
{
    match v.lists.selected_list() {
        Some(list) => {
            lemma_list_moved_wf(v.store, list.list.id, list.list.ordering);
            let up = v.lists.store_after_move_up(v.store);
            let down = v.lists.store_after_move_down(v.store);
            lemma_snapshot_of_wf(up, v.lists.state);
            lemma_snapshot_of_wf(down, v.lists.state);
            lemma_reloaded_wf(v, up, v.lists.after_move_up(v.store));
            lemma_reloaded_wf(v, down, v.lists.after_move_down(v.store));
        },
        None => {},
    }
}

/// Confirming the name of a list keeps the state valid.
proof fn lemma_list_commit_wf(v: AppView, now: Timestamp)
    requires
        v.wf(),
    ensures
        v.after_list_commit(now).wf(),
{
    let name = v.input.text;
    if v.input.is_blank() {
    } else if v.input.is_modifying {
        match v.lists.selected_list() {
            Some(list) => {
                lemma_with_list_renamed_wf(v.store, list.list.id, name, now);
                let store = v.lists.store_after_rename(v.store, name, now);
                lemma_snapshot_of_wf(store, v.lists.state);
                lemma_reloaded_wf(v, store, v.lists.reloaded(store));
            },
            None => {},
        }
    } else if !v.store.create_list_fails() {
        lemma_created_list_wf(v.store, name, now);
        let store = v.store.with_created_list(name, now);
        lemma_snapshot_of_wf(store, v.lists.state);
        lemma_reloaded_wf(v, store, v.lists.reloaded(store).moved_to(Some(usize::MAX)));
    }
}

/// Confirming the name of an item keeps the state valid.
proof fn lemma_item_commit_wf(v: AppView, now: Timestamp)
    requires
        v.wf(),
    ensures
        v.after_item_commit(now).wf(),
{
    let name = v.input.text;
    match v.lists.selected_list() {
        Some(list) => {
            assert(list.wf());
            if v.input.is_blank() {
            } else if v.input.is_modifying {
                lemma_rename_item_wf(list, v.store, name, now);
                let store = list.store_after_rename(v.store, name, now);
                let fresh = if list.state.selected is Some {
                    list.refreshed(store).fitted()
                } else {
                    list
                };
                lemma_replaced_wf(v, store, fresh);
            } else if v.store.create_item_error(list.list.id) is None {
                lemma_created_item_wf(v.store, list.list.id, name, None, None, now);
                let store = list.store_after_create(v.store, name, now);
                lemma_replaced_wf(
                    v,
                    store,
                    list.refreshed(store).fitted().moved_to(Some(usize::MAX)),
                );
            }
        },
        None => {},
    }
}

/// An intent that touches neither store nor snapshot keeps the state valid.
proof fn lemma_plain_intent_wf(v: AppView, intent: Intent, now: Timestamp)
    requires
        v.wf(),
        match intent {
            Intent::Ignore | Intent::Quit | Intent::EnterAddList | Intent::EnterModifyList
            | Intent::EnterAddItem | Intent::EnterModifyItem | Intent::EnterChangeDb
            | Intent::EnterAddDb | Intent::CopyItems | Intent::Edit(_) | Intent::Cancel
            | Intent::PreviousDb | Intent::NextDb | Intent::SwitchDb | Intent::SetDefaultDb => true,
            _ => false,
        },
    ensures
        v.after_legal(intent, now).wf(),
{
}

/// One intent keeps the state valid: afterwards every cursor still selects
/// nothing or something that is there, and the store keeps its invariant.
pub proof fn lemma_after_wf(v: AppView, intent: Intent, now: Timestamp)
    requires
        v.wf(),
    ensures
        v.after(intent, now).wf(),
{
    if is_legal(v.screen, intent) {
        match intent {
            Intent::NextList | Intent::PreviousList | Intent::FirstList | Intent::LastList
            | Intent::NextItem | Intent::PreviousItem | Intent::FirstItem | Intent::LastItem
            | Intent::DeselectItem => lemma_cursor_intent_wf(
                v,
                intent,
                now,
            ),
            Intent::ToggleItem => lemma_toggle_wf(v, now),
            Intent::DeleteItem => lemma_delete_item_wf(v, now),
            Intent::MoveItemUp | Intent::MoveItemDown => lemma_move_item_wf(v, now),
            Intent::DeleteList => lemma_delete_list_wf(v, now),
            Intent::MoveListUp | Intent::MoveListDown => lemma_move_list_wf(v, now),
            Intent::Commit => {
                lemma_list_commit_wf(v, now);
                lemma_item_commit_wf(v, now);
            },
            _ => lemma_plain_intent_wf(v, intent, now),
        }
    }
}

/// After any sequence of intents every cursor selects nothing or something
/// that is there, and the store keeps its invariant: no creation, deletion
/// or move leaves a cursor past the end of what it points into, and none
/// gives two siblings the same order key.
pub proof fn lemma_state_valid_after_any_sequence(v: AppView, intents: Seq<(Intent, Timestamp)>)
    requires
        v.wf(),
    ensures
        after_all(v, intents).wf(),
    decreases intents.len(),
{
    if intents.len() > 0 {
        lemma_state_valid_after_any_sequence(v, intents.drop_last());
        lemma_after_wf(after_all(v, intents.drop_last()), intents.last().0, intents.last().1);
    }
}

/// An intent that the active screen does not take changes nothing, and
/// leaves nothing to do: while a name is typed, nothing is browsed, deleted,
/// marked, moved or copied.
pub proof fn lemma_illegal_intent_ignored(v: AppView, intent: Intent, now: Timestamp)
    requires
        !is_legal(v.screen, intent),
    ensures
        v.after(intent, now) == v,
        v.action(intent) == crate::app::state::ActionView::Nothing,
{
}

/// Confirming a blank name changes nothing and leaves nothing to do: the
/// screen stays, and so does what was typed.
pub proof fn lemma_blank_commit_ignored(v: AppView, now: Timestamp)
    requires
        v.input.is_blank(),
    ensures
        v.after(Intent::Commit, now) == v,
        v.action(Intent::Commit) == crate::app::state::ActionView::Nothing,
{
}

/// Giving the typing up changes nothing but the screen and the text: the
/// screen that was active before returns, nothing is typed any more, and
/// store and snapshot are as they were.
pub proof fn lemma_cancel_discards(v: AppView, now: Timestamp)
    requires
        v.screen != CurrentScreen::Main,
        v.screen != CurrentScreen::ChangeDB,
    ensures
        v.after(Intent::Cancel, now) == v.back_to(v.screen_before()),
        v.after(Intent::Cancel, now).store == v.store,
        v.after(Intent::Cancel, now).lists == v.lists,
{
}

/// The store `w` differs from the store `v` at most in the items of the
/// scope `i` and in the journal.
pub open spec fn same_but_items_of(v: StoreView, w: StoreView, i: int) -> bool {
    &&& w.scopes.len() == v.scopes.len()
    &&& forall|q: int| 0 <= q < v.scopes.len() && q != i ==> #[trigger] w.scopes[q] == v.scopes[q]
    &&& 0 <= i < v.scopes.len() ==> w.scopes[i].list == v.scopes[i].list
}

/// Where the snapshot mirrors the store, the selected list stands in the
/// store where the cursor says, and so does the selected item.
proof fn lemma_selected_place(v: AppView)
    requires
        v.wf(),
        v.lists.mirrors(v.store),
        v.lists.selected_list() is Some,
    ensures
        ({
            let i = v.lists.state.selected.unwrap() as int;
            let list = v.lists.selected_list().unwrap();
            &&& 0 <= i < v.store.scopes.len()
            &&& list.list == v.store.scopes[i].list
            &&& list.items == v.store.scopes[i].items
            &&& v.store.has_list(list.list.id)
            &&& v.store.list_pos(list.list.id) == i
            &&& match list.selected_item() {
                Some(item) => {
                    let j = list.state.selected.unwrap() as int;
                    &&& v.store.has_item(item.id)
                    &&& v.store.item_place(item.id) == (i, j)
                    &&& v.store.item(item.id) == item
                    &&& item.list_id == list.list.id
                },
                None => true,
            }
        }),
{
    let i = v.lists.state.selected.unwrap() as int;
    let list = v.lists.selected_list().unwrap();
    assert(v.lists.lists[i].list == v.store.scopes[i].list);
    crate::db::store::lemma_list_pos(v.store, i);
    match list.selected_item() {
        Some(item) => {
            let j = list.state.selected.unwrap() as int;
            assert(v.store.is_place(i, j));
            crate::db::store::lemma_item_place(v.store, i, j);
            assert(v.store.scopes[i].wf());
            assert(v.store.scopes[i].items[j].list_id == v.store.scopes[i].list.id);
        },
        None => {},
    }
}

/// Where another store differs from the old one in the items of the
/// selected list at most, and the selected list is replaced by one that
/// holds those items, the snapshot mirrors the other store.
proof fn lemma_selected_replaced_mirrors(v: AppView, store: StoreView, fresh: ListSnapshot)
    requires
        v.lists.mirrors(v.store),
        v.lists.selected_list() is Some,
        same_but_items_of(v.store, store, v.lists.state.selected.unwrap() as int),
        fresh.list == v.lists.selected_list().unwrap().list,
        fresh.items == store.scopes[v.lists.state.selected.unwrap() as int].items,
    ensures
        v.with_store(store).with_selected(fresh).lists.mirrors(store),
{
    let i = v.lists.state.selected.unwrap() as int;
    let after = v.with_store(store).with_selected(fresh).lists;
    assert(v.lists.lists[i].list == v.store.scopes[i].list);
    assert forall|p: int| 0 <= p < after.lists.len() implies (#[trigger] after.lists[p]).list
        == store.scopes[p].list && after.lists[p].items == store.scopes[p].items by {
        if p != i {
            assert(after.lists[p] == v.lists.lists[p]);
            assert(store.scopes[p] == v.store.scopes[p]);
        }
    }
}

/// A store that keeps its invariant and holds the selected list where it
/// stood hands out, as the items of that list, the items of that scope.
proof fn lemma_refreshed_items(v: AppView, store: StoreView)
    requires
        v.wf(),
        v.lists.mirrors(v.store),
        v.lists.selected_list() is Some,
        store.wf(),
        same_but_items_of(v.store, store, v.lists.state.selected.unwrap() as int),
    ensures
        v.lists.selected_list().unwrap().refreshed(store).items == store.scopes[
            v.lists.state.selected.unwrap() as int
        ].items,
{
    let i = v.lists.state.selected.unwrap() as int;
    lemma_selected_place(v);
    crate::db::store::lemma_list_pos(store, i);
}

/// Moving a cursor keeps the snapshot in step with the store.
proof fn lemma_cursor_intent_mirrors(v: AppView, intent: Intent, now: Timestamp)
    requires
        v.lists.mirrors(v.store),
        match intent {
            Intent::NextList | Intent::PreviousList | Intent::FirstList | Intent::LastList
            | Intent::NextItem | Intent::PreviousItem | Intent::FirstItem | Intent::LastItem
            | Intent::DeselectItem => true,
            _ => false,
        },
    ensures
        v.after_legal(intent, now).lists.mirrors(v.after_legal(intent, now).store),
{
    let after = v.after_legal(intent, now);
    assert forall|p: int| 0 <= p < after.lists.lists.len() implies (#[trigger] after.lists.lists[p]).list
        == v.store.scopes[p].list && after.lists.lists[p].items == v.store.scopes[p].items by {
        assert(v.lists.lists[p].list == v.store.scopes[p].list);
    }
}

/// Marking the selected item keeps the snapshot in step with the store.
proof fn lemma_toggle_mirrors(v: AppView, now: Timestamp)
    requires
        v.wf(),
        v.lists.mirrors(v.store),
    ensures
        v.after_legal(Intent::ToggleItem, now).lists.mirrors(
            v.after_legal(Intent::ToggleItem, now).store,
        ),
{
    match v.lists.selected_list() {
        Some(list) => {
            lemma_selected_place(v);
            let i = v.lists.state.selected.unwrap() as int;
            let store = list.store_after_toggle(v.store, now);
            assert(list.after_toggle(now).items =~= store.scopes[i].items);
            lemma_selected_replaced_mirrors(v, store, list.after_toggle(now));
        },
        None => {},
    }
}

/// Deleting the selected item keeps the snapshot in step with the store.
proof fn lemma_delete_item_mirrors(v: AppView, now: Timestamp)
    requires
        v.wf(),
        v.lists.mirrors(v.store),
    ensures
        v.after_legal(Intent::DeleteItem, now).lists.mirrors(
            v.after_legal(Intent::DeleteItem, now).store,
        ),
{
    match v.lists.selected_list() {
        Some(list) => {
            if list.state.selected is Some {
                lemma_selected_place(v);
                assert(list.wf());
                let item = list.selected_item().unwrap();
                let store = list.store_after_delete(v.store);
                lemma_without_item_wf(v.store, item.id);
                lemma_refreshed_items(v, store);
                lemma_selected_replaced_mirrors(v, store, list.refreshed(store).fitted());
            }
        },
        None => {},
    }
}

/// Moving the selected item keeps the snapshot in step with the store.
proof fn lemma_move_item_mirrors(v: AppView, now: Timestamp)
    requires
        v.wf(),
        v.lists.mirrors(v.store),
    ensures
        v.after_legal(Intent::MoveItemUp, now).lists.mirrors(
            v.after_legal(Intent::MoveItemUp, now).store,
        ),
        v.after_legal(Intent::MoveItemDown, now).lists.mirrors(
            v.after_legal(Intent::MoveItemDown, now).store,
        ),
{
    match v.lists.selected_list() {
        Some(list) => {
            lemma_selected_place(v);
            match list.selected_item() {
                Some(item) => {
                    lemma_item_moved_wf(v.store, item.list_id, item.id, item.ordering);
                    let up = list.store_after_move_up(v.store);
                    let down = list.store_after_move_down(v.store);
                    lemma_refreshed_items(v, up);
                    lemma_refreshed_items(v, down);
                    lemma_selected_replaced_mirrors(v, up, list.after_move_up(v.store));
                    lemma_selected_replaced_mirrors(v, down, list.after_move_down(v.store));
                },
                None => {
                    lemma_selected_replaced_mirrors(v, v.store, list);
                },
            }
        },
        None => {},
    }
}

/// Confirming the name of an item keeps the snapshot in step with the store.
proof fn lemma_item_commit_mirrors(v: AppView, now: Timestamp)
    requires
        v.wf(),
        v.lists.mirrors(v.store),
    ensures
        v.after_item_commit(now).lists.mirrors(v.after_item_commit(now).store),
{
    let name = v.input.text;
    match v.lists.selected_list() {
        Some(list) => {
            lemma_selected_place(v);
            if v.input.is_blank() {
            } else if v.input.is_modifying {
                lemma_rename_item_wf(list, v.store, name, now);
                let store = list.store_after_rename(v.store, name, now);
                let fresh = if list.state.selected is Some {
                    list.refreshed(store).fitted()
                } else {
                    list
                };
                assert(list.wf());
                lemma_refreshed_items(v, store);
                lemma_selected_replaced_mirrors(v, store, fresh);
            } else if v.store.create_item_error(list.list.id) is None {
                lemma_created_item_wf(v.store, list.list.id, name, None, None, now);
                let store = list.store_after_create(v.store, name, now);
                lemma_refreshed_items(v, store);
                lemma_selected_replaced_mirrors(
                    v,
                    store,
                    list.refreshed(store).fitted().moved_to(Some(usize::MAX)),
                );
            }
        },
        None => {},
    }
}

/// An intent that takes the whole snapshot from the store again, or touches
/// neither, keeps the snapshot in step with the store.
proof fn lemma_other_intent_mirrors(v: AppView, intent: Intent, now: Timestamp)
    requires
        v.lists.mirrors(v.store),
        match intent {
            Intent::NextList | Intent::PreviousList | Intent::FirstList | Intent::LastList
            | Intent::NextItem | Intent::PreviousItem | Intent::FirstItem | Intent::LastItem
            | Intent::DeselectItem | Intent::ToggleItem | Intent::DeleteItem | Intent::MoveItemUp
            | Intent::MoveItemDown => false,
            Intent::Commit => v.screen != CurrentScreen::AddItem && v.screen
                != CurrentScreen::ModifyItem,
            _ => true,
        },
    ensures
        v.after_legal(intent, now).lists.mirrors(v.after_legal(intent, now).store),
{
}

/// One intent keeps the snapshot in step with the store: where the snapshot
/// holds what the store holds, it does so afterwards. What is said of the
/// cursors of a snapshot that is in step therefore holds after every intent.
pub proof fn lemma_in_step_after(v: AppView, intent: Intent, now: Timestamp)
    requires
        v.wf(),
        v.lists.mirrors(v.store),
    ensures
        v.after(intent, now).lists.mirrors(v.after(intent, now).store),
{
    if is_legal(v.screen, intent) {
        match intent {
            Intent::NextList | Intent::PreviousList | Intent::FirstList | Intent::LastList
            | Intent::NextItem | Intent::PreviousItem | Intent::FirstItem | Intent::LastItem
            | Intent::DeselectItem => lemma_cursor_intent_mirrors(v, intent, now),
            Intent::ToggleItem => lemma_toggle_mirrors(v, now),
            Intent::DeleteItem => lemma_delete_item_mirrors(v, now),
            Intent::MoveItemUp | Intent::MoveItemDown => lemma_move_item_mirrors(v, now),
            Intent::Commit => {
                if v.screen == CurrentScreen::AddItem || v.screen == CurrentScreen::ModifyItem {
                    lemma_item_commit_mirrors(v, now);
                } else {
                    lemma_other_intent_mirrors(v, intent, now);
                }
            },
            _ => lemma_other_intent_mirrors(v, intent, now),
        }
    }
}

/// After any sequence of intents the snapshot holds what the store holds, and
/// every cursor selects nothing or something that is there, where this was
/// so at the start.
pub proof fn lemma_in_step_after_any_sequence(v: AppView, intents: Seq<(Intent, Timestamp)>)
    requires
        v.wf(),
        v.lists.mirrors(v.store),
    ensures
        after_all(v, intents).wf(),
        after_all(v, intents).lists.mirrors(after_all(v, intents).store),
    decreases intents.len(),
{
    if intents.len() > 0 {
        lemma_in_step_after_any_sequence(v, intents.drop_last());
        let before = after_all(v, intents.drop_last());
        lemma_after_wf(before, intents.last().0, intents.last().1);
        lemma_in_step_after(before, intents.last().0, intents.last().1);
    }
}

} // verus!
