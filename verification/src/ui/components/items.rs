//! The items of the selected list: moving the cursor among them and acting
//! on the item under it.

use vstd::prelude::*;
use vstd::string::StringExecFns;
use crate::db::models::{ItemRecord, ListSnapshot, NewTodoItem, Timestamp, TodoItem, UIList};
use crate::db::ops::{lemma_item_above_is_higher, lemma_item_below_is_lower};
use crate::db::store::{Store, StoreError, StoreView};

verus! {

/// The text that lists every item on a line of its own, each after "- ".
pub open spec fn bulleted(items: Seq<ItemRecord>) -> Seq<char>
    decreases items.len(),
{
    if items.len() == 0 {
        Seq::empty()
    } else if items.len() == 1 {
        "- "@ + items[0].name
    } else {
        bulleted(items.drop_last()) + "\n"@ + "- "@ + items.last().name
    }
}

impl ListSnapshot {
    /// The snapshot with its items taken from the store again.
    pub open spec fn refreshed(self, store: StoreView) -> ListSnapshot {
        self.with_items(store.items_of(self.list.id))
    }

    /// The snapshot holds what the store holds for its list.
    pub open spec fn in_sync(self, store: StoreView) -> bool {
        store.has_list(self.list.id) && self.items == store.items_of(self.list.id)
    }

    /// The snapshot after the cursor moved to `index` and was brought back
    /// into the items.
    pub open spec fn moved_to(self, index: Option<usize>) -> ListSnapshot {
        self.with_state(self.state.with_selected(index)).fitted()
    }

    /// The store after the selected item was marked done or not done.
    pub open spec fn store_after_toggle(self, store: StoreView, now: Timestamp) -> StoreView {
        match self.selected_item() {
            Some(item) => store.with_item_done(item.id, !item.is_done, now),
            None => store,
        }
    }

    /// The snapshot after the selected item was marked done or not done.
    pub open spec fn after_toggle(self, now: Timestamp) -> ListSnapshot {
        match self.selected_item() {
            Some(item) => self.with_items(
                self.items.update(
                    self.state.selected.unwrap() as int,
                    ItemRecord { is_done: !item.is_done, updated_at: now, ..item },
                ),
            ),
            None => self,
        }
    }

    /// The store after an item named `name` was created in this list.
    pub open spec fn store_after_create(self, store: StoreView, name: Seq<char>, now: Timestamp) -> StoreView {
        store.with_item(store.created_item(self.list.id, name, None, None, now))
    }

    /// The store after the selected item was renamed.
    pub open spec fn store_after_rename(self, store: StoreView, name: Seq<char>, now: Timestamp) -> StoreView {
        match self.selected_item() {
            Some(item) => store.with_item_renamed(item.id, name, now),
            None => store,
        }
    }

    /// The store after the selected item was deleted.
    pub open spec fn store_after_delete(self, store: StoreView) -> StoreView {
        match self.selected_item() {
            Some(item) => store.without_item(item.id),
            None => store,
        }
    }

    /// Moving the selected item up fails.
    pub open spec fn move_up_fails(self, store: StoreView) -> bool {
        match self.selected_item() {
            Some(item) => store.item_move_up_fails(item.list_id, item.id, item.ordering),
            None => false,
        }
    }

    /// The store after the selected item moved up.
    pub open spec fn store_after_move_up(self, store: StoreView) -> StoreView {
        match self.selected_item() {
            Some(item) => store.item_moved_up(item.list_id, item.id, item.ordering),
            None => store,
        }
    }

    /// The snapshot after the selected item moved up: the items are those of
    /// the store, and the cursor went with the item where it moved.
    pub open spec fn after_move_up(self, store: StoreView) -> ListSnapshot {
        match self.selected_item() {
            Some(item) => {
                let j = self.state.selected.unwrap();
                let fresh = self.refreshed(self.store_after_move_up(store));
                if store.item_below(item.list_id, item.ordering) is Some && j > 0 {
                    fresh.moved_to(Some((j - 1) as usize))
                } else {
                    fresh.fitted()
                }
            },
            None => self,
        }
    }

    /// Moving the selected item down fails.
    pub open spec fn move_down_fails(self, store: StoreView) -> bool {
        match self.selected_item() {
            Some(item) => store.item_move_down_fails(item.list_id, item.id, item.ordering),
            None => false,
        }
    }

    /// The store after the selected item moved down.
    pub open spec fn store_after_move_down(self, store: StoreView) -> StoreView {
        match self.selected_item() {
            Some(item) => store.item_moved_down(item.list_id, item.id, item.ordering),
            None => store,
        }
    }

    /// The snapshot after the selected item moved down: the items are those
    /// of the store, and the cursor went with the item where it moved.
    pub open spec fn after_move_down(self, store: StoreView) -> ListSnapshot {
        match self.selected_item() {
            Some(item) => {
                let j = self.state.selected.unwrap();
                let fresh = self.refreshed(self.store_after_move_down(store));
                if store.item_above(item.list_id, item.ordering) is Some && j + 1 < fresh.items.len() {
                    fresh.moved_to(Some((j + 1) as usize))
                } else {
                    fresh.fitted()
                }
            },
            None => self,
        }
    }
}

/// The operations on the items of one list of the snapshot.
pub struct ItemsComponent;

impl ItemsComponent {
    /// Moves the cursor to the next item, or to the first where nothing is
    /// selected; it stays on the last item. Nothing happens in a list
    /// without items.
    pub fn select_next_item(ui_list: &mut UIList)
        ensures
            final(ui_list)@ == old(ui_list)@.moved_to(Some(old(ui_list)@.state.next_index())),
            final(ui_list).wf(),
    {
        ui_list.item_state.select_next();
        ui_list.item_state.fit(ui_list.items.len());
    }

    /// Moves the cursor to the previous item, or to the last where nothing is
    /// selected; it stays on the first item.
    pub fn select_previous_item(ui_list: &mut UIList)
        ensures
            final(ui_list)@ == old(ui_list)@.moved_to(Some(old(ui_list)@.state.previous_index())),
            final(ui_list).wf(),
    {
        ui_list.item_state.select_previous();
        ui_list.item_state.fit(ui_list.items.len());
    }

    /// Takes the cursor off the items.
    pub fn remove_item_selection(ui_list: &mut UIList)
        ensures
            final(ui_list)@ == old(ui_list)@.moved_to(None),
            final(ui_list)@.state.selected is None,
            final(ui_list).wf(),
    {
        ui_list.item_state.select(None);
        ui_list.item_state.fit(ui_list.items.len());
    }

    /// Moves the cursor to the first item.
    pub fn select_first_item(ui_list: &mut UIList)
        ensures
            final(ui_list)@ == old(ui_list)@.moved_to(Some(0usize)),
            final(ui_list).wf(),
    {
        ui_list.item_state.select_first();
        ui_list.item_state.fit(ui_list.items.len());
    }

    /// Moves the cursor to the last item.
    pub fn select_last_item(ui_list: &mut UIList)
        ensures
            final(ui_list)@ == old(ui_list)@.moved_to(Some(usize::MAX)),
            final(ui_list).wf(),
    {
        ui_list.item_state.select_last();
        ui_list.item_state.fit(ui_list.items.len());
    }

    /// All items of the list as text, one line each, ready to be copied.
    pub fn format_all_items(ui_list: &UIList) -> (text: String)
        ensures
            text@ == bulleted(ui_list@.items),
    {
        let mut text = String::new();
        let mut k: usize = 0;
        while k < ui_list.items.len()
            invariant
                k <= ui_list.items.len(),
                text@ == bulleted(ui_list@.items.take(k as int)),
            decreases ui_list.items.len() - k,
        {
            let ghost before = text@;
            if k > 0 {
                text.append("\n");
            }
            text.append("- ");
            text.append(ui_list.items[k].item.name.as_str());
            proof {
                let items = ui_list@.items;
                let upto = items.take(k as int + 1);
                assert(upto.drop_last() =~= items.take(k as int));
                assert(upto.last().name == ui_list.items@[k as int].item.name@);
                if k == 0 {
                    assert(before =~= Seq::<char>::empty());
                    assert(text@ =~= "- "@ + upto[0].name);
                } else {
                    assert(text@ =~= bulleted(upto.drop_last()) + "\n"@ + "- "@ + upto.last().name);
                }
            }
            k += 1;
        }
        assert(ui_list@.items.take(k as int) =~= ui_list@.items);
        text
    }

    /// Marks the selected item done, or not done where it was done, in the
    /// store and in the snapshot. Nothing happens where nothing is selected.
    pub fn toggle_item_done(ui_list: &mut UIList, store: &mut Store, now: Timestamp)
        requires
            old(ui_list).wf(),
            old(store).wf(),
        ensures
            final(store).wf(),
            final(ui_list).wf(),
            final(store)@ == old(ui_list)@.store_after_toggle(old(store)@, now),
            final(ui_list)@ == old(ui_list)@.after_toggle(now),
    {
        if let Some(j) = ui_list.item_state.selected() {
            ui_list.items[j].item.toggle_done(store, now);
            assert(ui_list@.items =~= old(ui_list)@.after_toggle(now).items);
        }
    }

    /// Creates an item named `name` at the end of the list and takes the
    /// items from the store again. The cursor stays where it was.
    pub fn create_item(ui_list: &mut UIList, name: String, store: &mut Store, now: Timestamp) -> (res:
        Result<(), StoreError>)
        requires
            old(ui_list).wf(),
            old(store).wf(),
        ensures
            final(store).wf(),
            final(ui_list).wf(),
            match old(store)@.create_item_error(old(ui_list).list.id) {
                Some(e) => {
                    &&& res == Err::<(), StoreError>(e)
                    &&& final(store)@ == old(store)@
                    &&& final(ui_list)@ == old(ui_list)@
                },
                None => {
                    &&& res is Ok
                    &&& final(store)@ == old(ui_list)@.store_after_create(old(store)@, name@, now)
                    &&& final(ui_list)@ == old(ui_list)@.refreshed(final(store)@).fitted()
                },
            },
    {
        let new_item = NewTodoItem { name, list_id: ui_list.list.id, priority: None, due_date: None };
        match TodoItem::create(store, new_item, now) {
            Ok(_) => {},
            Err(e) => {
                return Err(e);
            },
        }
        ui_list.update_items(store);
        ui_list.item_state.fit(ui_list.items.len());
        Ok(())
    }

    /// Gives the selected item the name `name` and takes the items from the
    /// store again. Nothing happens where nothing is selected.
    pub fn update_item(ui_list: &mut UIList, name: String, store: &mut Store, now: Timestamp)
        requires
            old(ui_list).wf(),
            old(store).wf(),
        ensures
            final(store).wf(),
            final(ui_list).wf(),
            final(store)@ == old(ui_list)@.store_after_rename(old(store)@, name@, now),
            final(ui_list)@ == if old(ui_list)@.state.selected is Some {
                old(ui_list)@.refreshed(final(store)@).fitted()
            } else {
                old(ui_list)@
            },
    {
        if let Some(j) = ui_list.item_state.selected() {
            let mut item = ui_list.items[j].item.clone();
            item.update_name(store, name, now);
            ui_list.update_items(store);
            ui_list.item_state.fit(ui_list.items.len());
        }
    }

    /// Deletes the selected item and takes the items from the store again.
    /// The cursor stays on its position, so that it selects the item that
    /// followed; it moves to the last item where the deleted one was the
    /// last, and selects nothing where no item is left.
    pub fn delete_selected_item(ui_list: &mut UIList, store: &mut Store)
        requires
            old(ui_list).wf(),
            old(store).wf(),
        ensures
            final(store).wf(),
            final(ui_list).wf(),
            final(store)@ == old(ui_list)@.store_after_delete(old(store)@),
            final(ui_list)@ == if old(ui_list)@.state.selected is Some {
                old(ui_list)@.refreshed(final(store)@).fitted()
            } else {
                old(ui_list)@
            },
    {
        if let Some(j) = ui_list.item_state.selected() {
            let item = ui_list.items[j].item.clone();
            item.delete(store);
            ui_list.update_items(store);
            ui_list.item_state.fit(ui_list.items.len());
        }
    }

    /// Moves the selected item one place up and takes the items from the
    /// store again. The cursor goes with the item; where the item was the
    /// first, nothing moves.
    pub fn move_selected_item_up(ui_list: &mut UIList, store: &mut Store) -> (res: Result<
        (),
        StoreError,
    >)
        requires
            old(ui_list).wf(),
            old(store).wf(),
        ensures
            final(store).wf(),
            final(ui_list).wf(),
            old(ui_list)@.move_up_fails(old(store)@) ==> {
                &&& res == Err::<(), StoreError>(StoreError::NotFound)
                &&& final(store)@ == old(store)@
                &&& final(ui_list)@ == old(ui_list)@
            },
            !old(ui_list)@.move_up_fails(old(store)@) ==> {
                &&& res is Ok
                &&& final(store)@ == old(ui_list)@.store_after_move_up(old(store)@)
                &&& final(ui_list)@ == old(ui_list)@.after_move_up(old(store)@)
            },
    {
        if let Some(j) = ui_list.item_state.selected() {
            let mut item = ui_list.items[j].item.clone();
            let key = item.ordering;
            match item.move_up(store) {
                Ok(()) => {},
                Err(e) => {
                    return Err(e);
                },
            }
            ui_list.update_items(store);
            if item.ordering != key && j > 0 {
                ui_list.item_state.select(Some(j - 1));
            }
            ui_list.item_state.fit(ui_list.items.len());
            proof {
                let below = old(store)@.item_below(item.list_id, key);
                if below is Some {
                    lemma_item_below_is_lower(old(store)@, item.list_id, key);
                }
            }
        }
        Ok(())
    }

    /// Moves the selected item one place down and takes the items from the
    /// store again. The cursor goes with the item; where the item was the
    /// last, nothing moves.
    pub fn move_selected_item_down(ui_list: &mut UIList, store: &mut Store) -> (res: Result<
        (),
        StoreError,
    >)
        requires
            old(ui_list).wf(),
            old(store).wf(),
        ensures
            final(store).wf(),
            final(ui_list).wf(),
            old(ui_list)@.move_down_fails(old(store)@) ==> {
                &&& res == Err::<(), StoreError>(StoreError::NotFound)
                &&& final(store)@ == old(store)@
                &&& final(ui_list)@ == old(ui_list)@
            },
            !old(ui_list)@.move_down_fails(old(store)@) ==> {
                &&& res is Ok
                &&& final(store)@ == old(ui_list)@.store_after_move_down(old(store)@)
                &&& final(ui_list)@ == old(ui_list)@.after_move_down(old(store)@)
            },
    {
        if let Some(j) = ui_list.item_state.selected() {
            let mut item = ui_list.items[j].item.clone();
            let key = item.ordering;
            let len = ui_list.items.len();
            assert(j < len);
            match item.move_down(store) {
                Ok(()) => {},
                Err(e) => {
                    return Err(e);
                },
            }
            ui_list.update_items(store);
            if item.ordering != key && j + 1 < ui_list.items.len() {
                ui_list.item_state.select(Some(j + 1));
            }
            ui_list.item_state.fit(ui_list.items.len());
            proof {
                let above = old(store)@.item_above(item.list_id, key);
                if above is Some {
                    lemma_item_above_is_higher(old(store)@, item.list_id, key);
                }
            }
        }
        Ok(())
    }
}

/// The lines that `textwrap::wrap` breaks a text into for a given width, with
/// the options that a width alone stands for.
pub uninterp spec fn wrapped_lines(text: Seq<char>, width: usize) -> Seq<Seq<char>>;

/// The views of a sequence of lines, in the same order.
pub open spec fn line_views(lines: Seq<String>) -> Seq<Seq<char>> {
    lines.map_values(|l: String| l@)
}

/// Calls `textwrap::wrap` on the text with the width as its only option and
/// copies each line it hands out. The lines depend on the text and the width
/// alone.
#[verifier::external_body]
fn wrap_text(text: &str, width: usize) -> (lines: Vec<String>)
    ensures
        line_views(lines@) == wrapped_lines(text@, width),
{
    textwrap::wrap(text, width).into_iter().map(|line| line.into_owned()).collect()
}

/// The columns that the frame, the padding and the mark of the selected item
/// take from the width of the items' area.
pub const ITEM_MARGIN: u16 = 9;

/// The width left for the text of an item in an area `area_width` columns
/// wide.
pub open spec fn available_width(area_width: u16) -> usize {
    if area_width > ITEM_MARGIN {
        (area_width - ITEM_MARGIN) as usize
    } else {
        0
    }
}

/// The lines of an item's name in an area `area_width` columns wide: broken
/// to the width that is left, or the name as it is where no width is left.
pub open spec fn name_lines(name: Seq<char>, area_width: u16) -> Seq<Seq<char>> {
    if available_width(area_width) > 0 {
        wrapped_lines(name, available_width(area_width))
    } else {
        seq![name]
    }
}

/// One item as the screen shows it.
#[derive(Debug)]
pub struct RenderedItem {
    /// The name of the item, line by line.
    pub lines: Vec<String>,
    /// Whether the item is struck through: it is done.
    pub crossed_out: bool,
}

impl RenderedItem {
    /// This is how `item` looks in an area `area_width` columns wide.
    pub open spec fn shows(&self, item: ItemRecord, area_width: u16) -> bool {
        &&& line_views(self.lines@) == name_lines(item.name, area_width)
        &&& self.crossed_out == item.is_done
    }
}

impl ItemsComponent {
    /// What to show of the selected list in an area `area_width` columns
    /// wide: every item with its name broken into lines that fit, and done
    /// items struck through. `None` where no list is selected: the area
    /// stays empty.
    pub fn render(selected_list: Option<&UIList>, area_width: u16) -> (shown: Option<Vec<RenderedItem>>)
        ensures
            selected_list is None <==> shown is None,
            match (selected_list, shown) {
                (Some(ui_list), Some(rows)) => {
                    &&& rows.len() == ui_list@.items.len()
                    &&& forall|k: int|
                        0 <= k < rows.len() ==> (#[trigger] rows@[k]).shows(
                            ui_list@.items[k],
                            area_width,
                        )
                },
                _ => true,
            },
    {
        let ui_list = match selected_list {
            Some(ui_list) => ui_list,
            None => {
                return None;
            },
        };
        let width: usize = area_width.saturating_sub(ITEM_MARGIN) as usize;
        let mut rows: Vec<RenderedItem> = Vec::new();
        let mut k: usize = 0;
        while k < ui_list.items.len()
            invariant
                k <= ui_list.items.len(),
                rows.len() == k,
                width == available_width(area_width),
                forall|j: int|
                    0 <= j < k ==> (#[trigger] rows@[j]).shows(ui_list@.items[j], area_width),
            decreases ui_list.items.len() - k,
        {
            let item = &ui_list.items[k].item;
            assert(ui_list@.items[k as int] == item@);
            let lines = if width > 0 {
                wrap_text(item.name.as_str(), width)
            } else {
                let mut whole: Vec<String> = Vec::new();
                whole.push(item.name.clone());
                assert(line_views(whole@) =~= seq![item.name@]);
                whole
            };
            rows.push(RenderedItem { lines, crossed_out: item.is_done });
            k += 1;
        }
        Some(rows)
    }
}

} // verus!
