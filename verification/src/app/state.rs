//! The state of the application and the intents that change it.
//!
//! Every intent is judged against the screen that is active: one that the
//! screen does not take leaves the state as it is.

use vstd::prelude::*;
use crate::db::config::{Config, ConfigView, DBConfig, DbRecord};
use crate::db::models::{ListSnapshot, Timestamp};
use crate::db::store::{Store, StoreError, StoreView};
use crate::ui::components::input_states::{InputState, InputView};
use crate::ui::components::items::{bulleted, ItemsComponent};
use crate::ui::components::lists::{ListsComponent, ListsSnapshot};
use crate::ui::list_state::ListState;

verus! {

/// The screen that is active.
#[derive(Debug, Clone, Copy, PartialEq, Eq, Structural)]
pub enum CurrentScreen {
    /// Browsing lists and items.
    Main,
    /// Typing the name of a new list.
    AddList,
    /// Typing a new name for the selected list.
    ModifyList,
    /// Typing the name of a new item.
    AddItem,
    /// Typing a new name for the selected item.
    ModifyItem,
    /// Choosing a database.
    ChangeDB,
    /// Typing the name of a new database.
    AddDB,
}

/// A change to the text being typed.
#[derive(Debug, Clone, Copy, PartialEq, Eq, Structural)]
pub enum Edit {
    Type(char),
    Backspace,
    Delete,
    Left,
    Right,
    Start,
    End,
}

/// What the user wants done.
#[derive(Debug, Clone, Copy, PartialEq, Eq, Structural)]
pub enum Intent {
    Ignore,
    Quit,
    NextList,
    PreviousList,
    FirstList,
    LastList,
    NextItem,
    PreviousItem,
    FirstItem,
    LastItem,
    DeselectItem,
    EnterAddList,
    EnterModifyList,
    EnterAddItem,
    EnterModifyItem,
    EnterChangeDb,
    EnterAddDb,
    DeleteList,
    DeleteItem,
    ToggleItem,
    MoveListUp,
    MoveListDown,
    MoveItemUp,
    MoveItemDown,
    CopyItems,
    Edit(Edit),
    Commit,
    Cancel,
    PreviousDb,
    NextDb,
    SwitchDb,
    SetDefaultDb,
}

/// An operation that the store can refuse.
#[derive(Debug, Clone, Copy, PartialEq, Eq, Structural)]
pub enum Failure {
    CreateList,
    CreateItem,
    MoveListUp,
    MoveListDown,
    MoveItemUp,
    MoveItemDown,
}

/// What is left to do outside the application's state once an intent was
/// handled.
#[derive(Debug)]
pub enum Action {
    /// Nothing.
    Nothing,
    /// Put the text on the clipboard.
    Copy(String),
    /// Open the database at this position of the configuration and hand its
    /// store to [`App::switch_to_db`].
    OpenDb(usize),
    /// Create a database of this name and hand it to [`App::database_added`].
    CreateDb(String),
    /// Make the configuration durable: its default database changed.
    SaveConfig,
    /// Tell the user that the operation failed, and why.
    Report(Failure, StoreError),
}

/// What an [`Action`] stands for in contracts.
pub enum ActionView {
    Nothing,
    Copy(Seq<char>),
    OpenDb(usize),
    CreateDb(Seq<char>),
    SaveConfig,
    Report(Failure, StoreError),
}

impl View for Action {
    type V = ActionView;

    open spec fn view(&self) -> ActionView {
        match *self {
            Action::Nothing => ActionView::Nothing,
            Action::Copy(text) => ActionView::Copy(text@),
            Action::OpenDb(i) => ActionView::OpenDb(i),
            Action::CreateDb(name) => ActionView::CreateDb(name@),
            Action::SaveConfig => ActionView::SaveConfig,
            Action::Report(failure, error) => ActionView::Report(failure, error),
        }
    }
}

/// The screen `screen` takes the intent `intent`.
pub open spec fn is_legal(screen: CurrentScreen, intent: Intent) -> bool {
    match intent {
        Intent::Ignore => true,
        Intent::Edit(_) | Intent::Commit => screen != CurrentScreen::Main && screen
            != CurrentScreen::ChangeDB,
        Intent::Cancel => screen != CurrentScreen::Main,
        Intent::PreviousDb | Intent::NextDb | Intent::SwitchDb | Intent::SetDefaultDb
        | Intent::EnterAddDb => screen
            == CurrentScreen::ChangeDB,
        _ => screen == CurrentScreen::Main,
    }
}

/// The application.
#[derive(Debug)]
pub struct App {
    pub current_screen: CurrentScreen,
    pub lists_component: ListsComponent,
    pub input_state: InputState,
    pub store: Store,
    pub config: Config,
    pub current_db_config: DBConfig,
    pub selected_db_index: usize,
    pub exit: bool,
}

/// What an [`App`] stands for in contracts.
pub struct AppView {
    pub screen: CurrentScreen,
    pub lists: ListsSnapshot,
    pub input: InputView,
    pub store: StoreView,
    pub config: ConfigView,
    pub current_db: DbRecord,
    pub db_index: usize,
    pub exit: bool,
}

impl View for App {
    type V = AppView;

    open spec fn view(&self) -> AppView {
        AppView {
            screen: self.current_screen,
            lists: self.lists_component@,
            input: self.input_state@,
            store: self.store@,
            config: self.config@,
            current_db: self.current_db_config@,
            db_index: self.selected_db_index,
            exit: self.exit,
        }
    }
}

impl InputView {
    /// The input after one change to the text.
    pub open spec fn after_edit(self, edit: Edit) -> InputView {
        match edit {
            Edit::Type(c) => self.with_char(c),
            Edit::Backspace => self.without_char_before(),
            Edit::Delete => self.without_char_after(),
            Edit::Left => self.cursor_left(),
            Edit::Right => self.cursor_right(),
            Edit::Start => self.edited(self.text, 0),
            Edit::End => self.edited(self.text, self.text.len() as int),
        }
    }

    /// The input that starts a change of the name `name`.
    pub open spec fn seeded(name: Seq<char>) -> InputView {
        InputView { text: name, cursor: name.len() as usize, is_modifying: true }
    }
}

impl AppView {
    /// Every cursor selects nothing or something that is there, and the
    /// store keeps its invariant.
    pub open spec fn wf(self) -> bool {
        &&& self.lists.wf()
        &&& self.store.wf()
    }

    /// The same state on another screen.
    pub open spec fn on_screen(self, screen: CurrentScreen) -> AppView {
        AppView { screen, ..self }
    }

    /// The same state with other input.
    pub open spec fn with_input(self, input: InputView) -> AppView {
        AppView { input, ..self }
    }

    /// The same state with another snapshot.
    pub open spec fn with_lists(self, lists: ListsSnapshot) -> AppView {
        AppView { lists, ..self }
    }

    /// The same state with another store.
    pub open spec fn with_store(self, store: StoreView) -> AppView {
        AppView { store, ..self }
    }

    /// The same state with `list` in the place of the selected list.
    pub open spec fn with_selected(self, list: ListSnapshot) -> AppView {
        self.with_lists(self.lists.with_selected_list(list))
    }

    /// The state on the screen `screen` with nothing typed.
    pub open spec fn back_to(self, screen: CurrentScreen) -> AppView {
        self.on_screen(screen).with_input(InputView::empty())
    }

    /// The screen that was active before the current one was entered.
    pub open spec fn screen_before(self) -> CurrentScreen {
        match self.screen {
            CurrentScreen::AddDB => CurrentScreen::ChangeDB,
            _ => CurrentScreen::Main,
        }
    }

    /// The state after an intent that moves the cursor among the items of
    /// the selected list to `index`.
    pub open spec fn item_cursor_at(self, index: spec_fn(ListSnapshot) -> Option<usize>) -> AppView {
        match self.lists.selected_list() {
            Some(list) => self.with_selected(list.moved_to(index(list))),
            None => self,
        }
    }

    /// The state after a confirmed name for a list: a blank name changes
    /// nothing; otherwise the selected list is renamed, or a new list is
    /// created and selected, and the main screen returns.
    pub open spec fn after_list_commit(self, now: Timestamp) -> AppView {
        if self.input.is_blank() {
            self
        } else if self.input.is_modifying {
            let store = self.lists.store_after_rename(self.store, self.input.text, now);
            let lists = if self.lists.selected_list() is Some {
                self.lists.reloaded(store)
            } else {
                self.lists
            };
            self.with_store(store).with_lists(lists).back_to(CurrentScreen::Main)
        } else if self.store.create_list_fails() {
            self
        } else {
            let store = self.store.with_created_list(self.input.text, now);
            self.with_store(store).with_lists(
                self.lists.reloaded(store).moved_to(Some(usize::MAX)),
            ).back_to(CurrentScreen::Main)
        }
    }

    /// The state after a confirmed name for an item: a blank name changes
    /// nothing, nor does any name where no list is selected; otherwise the
    /// selected item is renamed, or a new item is created and selected, and
    /// the main screen returns.
    pub open spec fn after_item_commit(self, now: Timestamp) -> AppView {
        match self.lists.selected_list() {
            Some(list) if !self.input.is_blank() => {
                if self.input.is_modifying {
                    let store = list.store_after_rename(self.store, self.input.text, now);
                    let fresh = if list.state.selected is Some {
                        list.refreshed(store).fitted()
                    } else {
                        list
                    };
                    self.with_store(store).with_selected(fresh).back_to(CurrentScreen::Main)
                } else if self.store.create_item_error(list.list.id) is Some {
                    self
                } else {
                    let store = list.store_after_create(self.store, self.input.text, now);
                    self.with_store(store).with_selected(
                        list.refreshed(store).fitted().moved_to(Some(usize::MAX)),
                    ).back_to(CurrentScreen::Main)
                }
            },
            _ => self,
        }
    }

    /// The state after a confirmed text.
    pub open spec fn after_commit(self, now: Timestamp) -> AppView {
        match self.screen {
            CurrentScreen::AddList | CurrentScreen::ModifyList => self.after_list_commit(now),
            CurrentScreen::AddItem | CurrentScreen::ModifyItem => self.after_item_commit(now),
            _ => self,
        }
    }

    /// What is left to do after a confirmed text.
    pub open spec fn commit_action(self) -> ActionView {
        if self.input.is_blank() {
            ActionView::Nothing
        } else {
            match self.screen {
                CurrentScreen::AddList | CurrentScreen::ModifyList => if !self.input.is_modifying
                    && self.store.create_list_fails() {
                    ActionView::Report(Failure::CreateList, StoreError::Exhausted)
                } else {
                    ActionView::Nothing
                },
                CurrentScreen::AddItem | CurrentScreen::ModifyItem => match self.lists.selected_list() {
                    Some(list) => match self.store.create_item_error(list.list.id) {
                        Some(e) if !self.input.is_modifying => ActionView::Report(
                            Failure::CreateItem,
                            e,
                        ),
                        _ => ActionView::Nothing,
                    },
                    None => ActionView::Nothing,
                },
                CurrentScreen::AddDB => ActionView::CreateDb(self.input.text),
                _ => ActionView::Nothing,
            }
        }
    }

    /// The state after the intent `intent`, which the active screen takes.
    pub open spec fn after_legal(self, intent: Intent, now: Timestamp) -> AppView {
        match intent {
            Intent::Ignore => self,
            Intent::Quit => AppView { exit: true, ..self },
            Intent::NextList => self.with_lists(
                self.lists.moved_to(Some(self.lists.state.next_index())),
            ),
            Intent::PreviousList => self.with_lists(
                self.lists.moved_to(Some(self.lists.state.previous_index())),
            ),
            Intent::FirstList => self.with_lists(self.lists.moved_to(Some(0usize))),
            Intent::LastList => self.with_lists(self.lists.moved_to(Some(usize::MAX))),
            Intent::NextItem => self.item_cursor_at(|l: ListSnapshot| Some(l.state.next_index())),
            Intent::PreviousItem => self.item_cursor_at(
                |l: ListSnapshot| Some(l.state.previous_index()),
            ),
            Intent::FirstItem => self.item_cursor_at(|l: ListSnapshot| Some(0usize)),
            Intent::LastItem => self.item_cursor_at(|l: ListSnapshot| Some(usize::MAX)),
            Intent::DeselectItem => self.item_cursor_at(|l: ListSnapshot| None::<usize>),
            Intent::EnterAddList => self.back_to(CurrentScreen::AddList),
            Intent::EnterAddItem => self.back_to(CurrentScreen::AddItem),
            Intent::EnterModifyList => match self.lists.selected_list() {
                Some(list) => self.on_screen(CurrentScreen::ModifyList).with_input(
                    InputView::seeded(list.list.name),
                ),
                None => self,
            },
            Intent::EnterModifyItem => match self.lists.selected_list() {
                Some(list) => match list.selected_item() {
                    Some(item) => self.on_screen(CurrentScreen::ModifyItem).with_input(
                        InputView::seeded(item.name),
                    ),
                    None => self,
                },
                None => self,
            },
            Intent::EnterChangeDb => self.on_screen(CurrentScreen::ChangeDB),
            Intent::EnterAddDb => self.back_to(CurrentScreen::AddDB),
            Intent::DeleteList => {
                let store = self.lists.store_after_delete(self.store);
                if self.lists.selected_list() is Some {
                    self.with_store(store).with_lists(self.lists.reloaded(store))
                } else {
                    self
                }
            },
            Intent::DeleteItem => match self.lists.selected_list() {
                Some(list) if list.state.selected is Some => {
                    let store = list.store_after_delete(self.store);
                    self.with_store(store).with_selected(list.refreshed(store).fitted())
                },
                _ => self,
            },
            Intent::ToggleItem => match self.lists.selected_list() {
                Some(list) => self.with_store(list.store_after_toggle(self.store, now)).with_selected(
                    list.after_toggle(now),
                ),
                None => self,
            },
            Intent::MoveListUp => if self.lists.move_up_fails(self.store) {
                self
            } else {
                self.with_store(self.lists.store_after_move_up(self.store)).with_lists(
                    self.lists.after_move_up(self.store),
                )
            },
            Intent::MoveListDown => if self.lists.move_down_fails(self.store) {
                self
            } else {
                self.with_store(self.lists.store_after_move_down(self.store)).with_lists(
                    self.lists.after_move_down(self.store),
                )
            },
            Intent::MoveItemUp => match self.lists.selected_list() {
                Some(list) if !list.move_up_fails(self.store) => self.with_store(
                    list.store_after_move_up(self.store),
                ).with_selected(list.after_move_up(self.store)),
                _ => self,
            },
            Intent::MoveItemDown => match self.lists.selected_list() {
                Some(list) if !list.move_down_fails(self.store) => self.with_store(
                    list.store_after_move_down(self.store),
                ).with_selected(list.after_move_down(self.store)),
                _ => self,
            },
            Intent::CopyItems => self,
            Intent::Edit(edit) => self.with_input(self.input.after_edit(edit)),
            Intent::Commit => self.after_commit(now),
            Intent::Cancel => if self.screen == CurrentScreen::ChangeDB {
                self.on_screen(CurrentScreen::Main)
            } else {
                self.back_to(self.screen_before())
            },
            Intent::PreviousDb => AppView {
                db_index: if self.db_index > 0 {
                    (self.db_index - 1) as usize
                } else {
                    self.db_index
                },
                ..self
            },
            Intent::NextDb => AppView {
                db_index: if self.db_index + 1 < self.config.dbs.len() {
                    (self.db_index + 1) as usize
                } else {
                    self.db_index
                },
                ..self
            },
            Intent::SwitchDb => self,
            Intent::SetDefaultDb => if self.db_index < self.config.dbs.len() {
                AppView {
                    config: ConfigView {
                        default: self.config.dbs[self.db_index as int].name,
                        ..self.config
                    },
                    ..self
                }
            } else {
                self
            },
        }
    }

    /// What is left to do after the intent `intent`, which the active screen
    /// takes.
    pub open spec fn legal_action(self, intent: Intent) -> ActionView {
        match intent {
            Intent::MoveListUp => if self.lists.move_up_fails(self.store) {
                ActionView::Report(Failure::MoveListUp, StoreError::NotFound)
            } else {
                ActionView::Nothing
            },
            Intent::MoveListDown => if self.lists.move_down_fails(self.store) {
                ActionView::Report(Failure::MoveListDown, StoreError::NotFound)
            } else {
                ActionView::Nothing
            },
            Intent::MoveItemUp => match self.lists.selected_list() {
                Some(list) if list.move_up_fails(self.store) => ActionView::Report(
                    Failure::MoveItemUp,
                    StoreError::NotFound,
                ),
                _ => ActionView::Nothing,
            },
            Intent::MoveItemDown => match self.lists.selected_list() {
                Some(list) if list.move_down_fails(self.store) => ActionView::Report(
                    Failure::MoveItemDown,
                    StoreError::NotFound,
                ),
                _ => ActionView::Nothing,
            },
            Intent::CopyItems => match self.lists.selected_list() {
                Some(list) => ActionView::Copy(bulleted(list.items)),
                None => ActionView::Nothing,
            },
            Intent::Commit => self.commit_action(),
            Intent::SwitchDb => if self.db_index < self.config.dbs.len() {
                ActionView::OpenDb(self.db_index)
            } else {
                ActionView::Nothing
            },
            Intent::SetDefaultDb => if self.db_index < self.config.dbs.len() {
                ActionView::SaveConfig
            } else {
                ActionView::Nothing
            },
            _ => ActionView::Nothing,
        }
    }

    /// The state after the intent `intent`: nothing changes where the active
    /// screen does not take it.
    pub open spec fn after(self, intent: Intent, now: Timestamp) -> AppView {
        if is_legal(self.screen, intent) {
            self.after_legal(intent, now)
        } else {
            self
        }
    }

    /// What is left to do after the intent `intent`: nothing where the
    /// active screen does not take it.
    pub open spec fn action(self, intent: Intent) -> ActionView {
        if is_legal(self.screen, intent) {
            self.legal_action(intent)
        } else {
            ActionView::Nothing
        }
    }
}

/// Whether the screen `screen` takes the intent `intent`.
pub fn legal(screen: CurrentScreen, intent: Intent) -> (yes: bool)
    ensures
        yes == is_legal(screen, intent),
{
    match intent {
        Intent::Ignore => true,
        Intent::Edit(_) | Intent::Commit => screen != CurrentScreen::Main && screen
            != CurrentScreen::ChangeDB,
        Intent::Cancel => screen != CurrentScreen::Main,
        Intent::PreviousDb | Intent::NextDb | Intent::SwitchDb | Intent::SetDefaultDb
        | Intent::EnterAddDb => screen
            == CurrentScreen::ChangeDB,
        _ => screen == CurrentScreen::Main,
    }
}

impl App {
    /// See [`AppView::wf`].
    pub open spec fn wf(&self) -> bool {
        self@.wf()
    }

    /// The application on its main screen, showing what `store` holds, with
    /// nothing selected and nothing typed.
    pub fn new(store: Store, config: Config, current_db_config: DBConfig) -> (app: App)
        requires
            store.wf(),
        ensures
            app.wf(),
            app@.current_db == current_db_config@,
            app@.db_index == 0,
            app@.screen == CurrentScreen::Main,
            app@.lists == (ListsSnapshot {
                lists: Seq::empty(),
                state: ListState { offset: 0, selected: None },
            }).reloaded(store@),
            app@.input == InputView::empty(),
            app@.store == store@,
            app@.config == config@,
            !app@.exit,
    {
        let mut lists_component = ListsComponent::new();
        lists_component.load_lists(&store);
        App {
            current_screen: CurrentScreen::Main,
            lists_component,
            input_state: InputState::new(),
            store,
            config,
            current_db_config,
            selected_db_index: 0,
            exit: false,
        }
    }

    /// Continues with the database `db`, whose store is `store`: the main
    /// screen shows what it holds, with nothing typed.
    pub fn switch_to_db(&mut self, db: DBConfig, store: Store)
        requires
            old(self).wf(),
            store.wf(),
        ensures
            final(self).wf(),
            final(self)@ == (AppView { current_db: db@, ..old(self)@ }).with_store(store@).with_lists(
                old(self)@.lists.reloaded(store@),
            ).back_to(CurrentScreen::Main),
    {
        self.lists_component.load_lists(&store);
        self.store = store;
        self.current_db_config = db;
        self.current_screen = CurrentScreen::Main;
        self.input_state.clear();
    }

    /// Takes note of a database that was created: it is the last one of the
    /// configuration, and the screen for choosing a database returns with
    /// nothing typed.
    pub fn database_added(&mut self, db: DBConfig)
        requires
            old(self).wf(),
        ensures
            final(self).wf(),
            final(self)@ == (AppView {
                config: ConfigView { dbs: old(self)@.config.dbs.push(db@), ..old(self)@.config },
                ..old(self)@
            }).back_to(CurrentScreen::ChangeDB),
    {
        self.config.dbs.push(db);
        self.current_screen = CurrentScreen::ChangeDB;
        self.input_state.clear();
        assert(self@.config.dbs =~= old(self)@.config.dbs.push(db@));
    }

    fn edit(&mut self, edit: Edit)
        ensures
            final(self)@ == old(self)@.with_input(old(self)@.input.after_edit(edit)),
    {
        match edit {
            Edit::Type(c) => self.input_state.add_char(c),
            Edit::Backspace => self.input_state.remove_char_before_cursor(),
            Edit::Delete => self.input_state.delete_char_after_cursor(),
            Edit::Left => self.input_state.move_cursor_left(),
            Edit::Right => self.input_state.move_cursor_right(),
            Edit::Start => self.input_state.move_cursor_to_start(),
            Edit::End => self.input_state.move_cursor_to_end(),
        }
    }

    fn commit_list(&mut self, now: Timestamp) -> (action: Action)
        requires
            old(self).wf(),
            old(self)@.screen == CurrentScreen::AddList || old(self)@.screen
                == CurrentScreen::ModifyList,
        ensures
            final(self).wf(),
            final(self)@ == old(self)@.after_list_commit(now),
            action@ == old(self)@.commit_action(),
    {
        if self.input_state.is_blank() {
            return Action::Nothing;
        }
        let list_name = self.input_state.current_input.clone();
        if self.input_state.is_modifying {
            ListsComponent::update_list(&mut self.lists_component, list_name, &mut self.store, now);
            self.current_screen = CurrentScreen::Main;
            self.input_state.clear();
            Action::Nothing
        } else {
            match ListsComponent::create_list(
                &mut self.lists_component,
                list_name,
                &mut self.store,
                now,
            ) {
                Err(e) => Action::Report(Failure::CreateList, e),
                Ok(()) => {
                    self.lists_component.select_last();
                    self.current_screen = CurrentScreen::Main;
                    self.input_state.clear();
                    Action::Nothing
                },
            }
        }
    }

    fn commit_item(&mut self, now: Timestamp) -> (action: Action)
        requires
            old(self).wf(),
            old(self)@.screen == CurrentScreen::AddItem || old(self)@.screen
                == CurrentScreen::ModifyItem,
        ensures
            final(self).wf(),
            final(self)@ == old(self)@.after_item_commit(now),
            action@ == old(self)@.commit_action(),
    {
        if self.input_state.is_blank() {
            return Action::Nothing;
        }
        let i = match self.lists_component.selected_index() {
            Some(i) => i,
            None => {
                return Action::Nothing;
            },
        };
        let item_name = self.input_state.current_input.clone();
        let ghost list = self.lists_component.lists@[i as int]@;
        assert(self@.lists.lists[i as int] == list);
        if self.input_state.is_modifying {
            ItemsComponent::update_item(
                &mut self.lists_component.lists[i],
                item_name,
                &mut self.store,
                now,
            );
            self.current_screen = CurrentScreen::Main;
            self.input_state.clear();
            proof {
                assert(self@.lists.lists =~= old(self)@.lists.lists.update(
                    i as int,
                    self.lists_component.lists@[i as int]@,
                ));
            }
            Action::Nothing
        } else {
            match ItemsComponent::create_item(
                &mut self.lists_component.lists[i],
                item_name,
                &mut self.store,
                now,
            ) {
                Err(e) => {
                    proof {
                        assert(self@.lists.lists =~= old(self)@.lists.lists);
                    }
                    Action::Report(Failure::CreateItem, e)
                },
                Ok(()) => {
                    ItemsComponent::select_last_item(&mut self.lists_component.lists[i]);
                    self.current_screen = CurrentScreen::Main;
                    self.input_state.clear();
                    proof {
                        assert(self@.lists.lists =~= old(self)@.lists.lists.update(
                            i as int,
                            self.lists_component.lists@[i as int]@,
                        ));
                    }
                    Action::Nothing
                },
            }
        }
    }

    fn commit(&mut self, now: Timestamp) -> (action: Action)
        requires
            old(self).wf(),
            is_legal(old(self)@.screen, Intent::Commit),
        ensures
            final(self).wf(),
            final(self)@ == old(self)@.after_commit(now),
            action@ == old(self)@.commit_action(),
    {
        match self.current_screen {
            CurrentScreen::AddList | CurrentScreen::ModifyList => self.commit_list(now),
            CurrentScreen::AddItem | CurrentScreen::ModifyItem => self.commit_item(now),
            CurrentScreen::AddDB => {
                if self.input_state.is_blank() {
                    Action::Nothing
                } else {
                    Action::CreateDb(self.input_state.current_input.clone())
                }
            },
            _ => Action::Nothing,
        }
    }

    fn item_intent(&mut self, intent: Intent, now: Timestamp) -> (action: Action)
        requires
            old(self).wf(),
            old(self)@.screen == CurrentScreen::Main,
            is_item_intent(intent),
        ensures
            final(self).wf(),
            final(self)@ == old(self)@.after_legal(intent, now),
            action@ == old(self)@.legal_action(intent),
    {
        let i = match self.lists_component.selected_index() {
            Some(i) => i,
            None => {
                return Action::Nothing;
            },
        };
        let ghost list = self.lists_component.lists@[i as int]@;
        assert(self@.lists.lists[i as int] == list);
        assert(list.wf());
        let mut action = Action::Nothing;
        match intent {
            Intent::NextItem => ItemsComponent::select_next_item(&mut self.lists_component.lists[i]),
            Intent::PreviousItem => ItemsComponent::select_previous_item(
                &mut self.lists_component.lists[i],
            ),
            Intent::FirstItem => ItemsComponent::select_first_item(
                &mut self.lists_component.lists[i],
            ),
            Intent::LastItem => ItemsComponent::select_last_item(&mut self.lists_component.lists[i]),
            Intent::DeselectItem => ItemsComponent::remove_item_selection(
                &mut self.lists_component.lists[i],
            ),
            Intent::EnterModifyItem => {
                if let Some(j) = self.lists_component.lists[i].item_state.selected() {
                    assert(self.lists_component.lists@[i as int]@.items[j as int]
                        == self.lists_component.lists@[i as int].items@[j as int]@);
                    self.input_state.seed(
                        self.lists_component.lists[i].items[j].item.name.as_str(),
                        true,
                    );
                    self.current_screen = CurrentScreen::ModifyItem;
                }
            },
            Intent::DeleteItem => ItemsComponent::delete_selected_item(
                &mut self.lists_component.lists[i],
                &mut self.store,
            ),
            Intent::ToggleItem => ItemsComponent::toggle_item_done(
                &mut self.lists_component.lists[i],
                &mut self.store,
                now,
            ),
            Intent::MoveItemUp => {
                if let Err(e) = ItemsComponent::move_selected_item_up(
                    &mut self.lists_component.lists[i],
                    &mut self.store,
                ) {
                    action = Action::Report(Failure::MoveItemUp, e);
                }
            },
            Intent::MoveItemDown => {
                if let Err(e) = ItemsComponent::move_selected_item_down(
                    &mut self.lists_component.lists[i],
                    &mut self.store,
                ) {
                    action = Action::Report(Failure::MoveItemDown, e);
                }
            },
            Intent::CopyItems => {
                action = Action::Copy(ItemsComponent::format_all_items(&self.lists_component.lists[i]));
            },
            _ => {},
        }
        proof {
            assert(self@.lists.lists =~= old(self)@.lists.lists.update(
                i as int,
                self.lists_component.lists@[i as int]@,
            ));
            if self.lists_component.lists@[i as int]@ == list {
                assert(self@.lists.lists =~= old(self)@.lists.lists);
            }
        }
        action
    }

    /// Does what the user wants done, if the active screen takes the intent,
    /// and says what is left to do outside the state.
    pub fn perform(&mut self, intent: Intent, now: Timestamp) -> (action: Action)
        requires
            old(self).wf(),
        ensures
            final(self).wf(),
            final(self)@ == old(self)@.after(intent, now),
            action@ == old(self)@.action(intent),
    {
        if !legal(self.current_screen, intent) {
            return Action::Nothing;
        }
        match intent {
            Intent::Ignore => Action::Nothing,
            Intent::Quit => {
                self.exit = true;
                Action::Nothing
            },
            Intent::NextList => {
                self.lists_component.select_next();
                Action::Nothing
            },
            Intent::PreviousList => {
                self.lists_component.select_previous();
                Action::Nothing
            },
            Intent::FirstList => {
                self.lists_component.select_first();
                Action::Nothing
            },
            Intent::LastList => {
                self.lists_component.select_last();
                Action::Nothing
            },
            Intent::NextItem | Intent::PreviousItem | Intent::FirstItem | Intent::LastItem
            | Intent::DeselectItem | Intent::EnterModifyItem | Intent::DeleteItem
            | Intent::ToggleItem | Intent::MoveItemUp | Intent::MoveItemDown
            | Intent::CopyItems => self.item_intent(
                intent,
                now,
            ),
            Intent::EnterAddList => {
                self.current_screen = CurrentScreen::AddList;
                self.input_state.clear();
                Action::Nothing
            },
            Intent::EnterAddItem => {
                self.current_screen = CurrentScreen::AddItem;
                self.input_state.clear();
                Action::Nothing
            },
            Intent::EnterModifyList => {
                if let Some(i) = self.lists_component.selected_index() {
                    self.input_state.seed(self.lists_component.lists[i].list.name.as_str(), true);
                    self.current_screen = CurrentScreen::ModifyList;
                }
                Action::Nothing
            },
            Intent::EnterChangeDb => {
                self.current_screen = CurrentScreen::ChangeDB;
                Action::Nothing
            },
            Intent::EnterAddDb => {
                self.current_screen = CurrentScreen::AddDB;
                self.input_state.clear();
                Action::Nothing
            },
            Intent::DeleteList => {
                ListsComponent::delete_selected_list_static(
                    &mut self.lists_component,
                    &mut self.store,
                );
                Action::Nothing
            },
            Intent::MoveListUp => {
                match ListsComponent::move_selected_list_up(
                    &mut self.lists_component,
                    &mut self.store,
                ) {
                    Ok(()) => Action::Nothing,
                    Err(e) => Action::Report(Failure::MoveListUp, e),
                }
            },
            Intent::MoveListDown => {
                match ListsComponent::move_selected_list_down(
                    &mut self.lists_component,
                    &mut self.store,
                ) {
                    Ok(()) => Action::Nothing,
                    Err(e) => Action::Report(Failure::MoveListDown, e),
                }
            },
            Intent::Edit(edit) => {
                self.edit(edit);
                Action::Nothing
            },
            Intent::Commit => self.commit(now),
            Intent::Cancel => {
                if self.current_screen == CurrentScreen::ChangeDB {
                    self.current_screen = CurrentScreen::Main;
                } else {
                    self.current_screen = match self.current_screen {
                        CurrentScreen::AddDB => CurrentScreen::ChangeDB,
                        _ => CurrentScreen::Main,
                    };
                    self.input_state.clear();
                }
                Action::Nothing
            },
            Intent::PreviousDb => {
                if self.selected_db_index > 0 {
                    self.selected_db_index = self.selected_db_index - 1;
                }
                Action::Nothing
            },
            Intent::NextDb => {
                let len = self.config.dbs.len();
                if self.selected_db_index < len && self.selected_db_index + 1 < len {
                    self.selected_db_index = self.selected_db_index + 1;
                }
                Action::Nothing
            },
            Intent::SwitchDb => {
                if self.selected_db_index < self.config.dbs.len() {
                    Action::OpenDb(self.selected_db_index)
                } else {
                    Action::Nothing
                }
            },
            Intent::SetDefaultDb => {
                let i = self.selected_db_index;
                if i < self.config.dbs.len() {
                    self.config.default = self.config.dbs[i].name.clone();
                    assert(self@.config.dbs[i as int] == self.config.dbs@[i as int]@);
                    Action::SaveConfig
                } else {
                    Action::Nothing
                }
            },
        }
    }
}

/// The intent acts on the selected list: on its items or on the cursor among
/// them.
pub open spec fn is_item_intent(intent: Intent) -> bool {
    match intent {
        Intent::NextItem | Intent::PreviousItem | Intent::FirstItem | Intent::LastItem
        | Intent::DeselectItem | Intent::EnterModifyItem | Intent::DeleteItem
        | Intent::ToggleItem | Intent::MoveItemUp | Intent::MoveItemDown | Intent::CopyItems => true,
        _ => false,
    }
}

} // verus!
