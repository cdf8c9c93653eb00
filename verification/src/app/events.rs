//! The keys and what each of them means on each screen.
//!
//! Every key press is read against the active screen. A key that the screen
//! gives no meaning is ignored.

use vstd::prelude::*;
use crate::app::state::{Action, ActionView, App, AppView, CurrentScreen, Edit, Intent};
use crate::db::models::Timestamp;

verus! {

/// The key that was pressed.
#[derive(Debug, Clone, Copy, PartialEq, Eq, Structural)]
pub enum KeyCode {
    Char(char),
    Enter,
    Esc,
    Backspace,
    Delete,
    Left,
    Right,
    Up,
    Down,
    /// Any other key.
    Other,
}

/// What was held down with the key.
#[derive(Debug, Clone, Copy, PartialEq, Eq, Structural)]
pub enum KeyModifiers {
    /// Nothing.
    Plain,
    Shift,
    Alt,
    Control,
    /// Anything else, and any combination.
    Other,
}

/// One key press.
#[derive(Debug, Clone, Copy, PartialEq, Eq, Structural)]
pub struct KeyEvent {
    pub code: KeyCode,
    pub modifiers: KeyModifiers,
}

/// What a key means on the main screen.
pub open spec fn main_screen_intent(key: KeyEvent) -> Intent {
    match (key.code, key.modifiers) {
        (KeyCode::Char('q'), KeyModifiers::Plain) => Intent::Quit,
        (KeyCode::Char('s'), KeyModifiers::Plain) => Intent::NextList,
        (KeyCode::Char('w'), KeyModifiers::Plain) => Intent::PreviousList,
        (KeyCode::Char('A'), KeyModifiers::Shift) => Intent::EnterAddList,
        (KeyCode::Char('a'), KeyModifiers::Plain) => Intent::EnterAddItem,
        (KeyCode::Char('C'), KeyModifiers::Shift) => Intent::EnterChangeDb,
        (KeyCode::Char('M'), KeyModifiers::Shift) => Intent::EnterModifyList,
        (KeyCode::Char('m'), KeyModifiers::Plain) => Intent::EnterModifyItem,
        (KeyCode::Char('D'), KeyModifiers::Shift) => Intent::DeleteList,
        (KeyCode::Char('d'), KeyModifiers::Plain) => Intent::DeleteItem,
        (KeyCode::Enter, KeyModifiers::Plain) => Intent::ToggleItem,
        (KeyCode::Char('s'), KeyModifiers::Alt) => Intent::MoveListDown,
        (KeyCode::Char('w'), KeyModifiers::Alt) => Intent::MoveListUp,
        (KeyCode::Up, KeyModifiers::Alt) => Intent::MoveItemUp,
        (KeyCode::Down, KeyModifiers::Alt) => Intent::MoveItemDown,
        (KeyCode::Down, KeyModifiers::Plain) => Intent::NextItem,
        (KeyCode::Up, KeyModifiers::Plain) => Intent::PreviousItem,
        (KeyCode::Left, KeyModifiers::Plain) => Intent::DeselectItem,
        (KeyCode::Right, KeyModifiers::Plain) => Intent::FirstItem,
        (KeyCode::Char('c'), KeyModifiers::Plain) => Intent::CopyItems,
        (KeyCode::Char('T'), KeyModifiers::Shift) => Intent::FirstList,
        (KeyCode::Char('B'), KeyModifiers::Shift) => Intent::LastList,
        (KeyCode::Char('t'), KeyModifiers::Plain) => Intent::FirstItem,
        (KeyCode::Char('b'), KeyModifiers::Plain) => Intent::LastItem,
        _ => Intent::Ignore,
    }
}

/// What a key means while text is typed.
pub open spec fn editing_intent(key: KeyEvent) -> Intent {
    match (key.code, key.modifiers) {
        (KeyCode::Esc, KeyModifiers::Plain) => Intent::Cancel,
        (KeyCode::Backspace, KeyModifiers::Plain) => Intent::Edit(Edit::Backspace),
        (KeyCode::Delete, KeyModifiers::Plain) => Intent::Edit(Edit::Delete),
        (KeyCode::Char(value), KeyModifiers::Plain) => Intent::Edit(Edit::Type(value)),
        (KeyCode::Left, KeyModifiers::Plain) => Intent::Edit(Edit::Left),
        (KeyCode::Right, KeyModifiers::Plain) => Intent::Edit(Edit::Right),
        (KeyCode::Char('a'), KeyModifiers::Control) => Intent::Edit(Edit::Start),
        (KeyCode::Char('e'), KeyModifiers::Control) => Intent::Edit(Edit::End),
        (KeyCode::Enter, KeyModifiers::Plain) => Intent::Commit,
        _ => Intent::Ignore,
    }
}

/// What a key means on the screen for choosing a database, whatever is held
/// down with it.
pub open spec fn change_db_intent(key: KeyEvent) -> Intent {
    match key.code {
        KeyCode::Esc => Intent::Cancel,
        KeyCode::Up => Intent::PreviousDb,
        KeyCode::Down => Intent::NextDb,
        KeyCode::Enter => Intent::SwitchDb,
        KeyCode::Char('A') => Intent::EnterAddDb,
        KeyCode::Char('S') => Intent::SetDefaultDb,
        _ => Intent::Ignore,
    }
}

/// What a key means on the screen `screen`.
pub open spec fn intent_on(screen: CurrentScreen, key: KeyEvent) -> Intent {
    match screen {
        CurrentScreen::Main => main_screen_intent(key),
        CurrentScreen::ChangeDB => change_db_intent(key),
        _ => editing_intent(key),
    }
}

/// The main screen is active.
pub open spec fn is_main(screen: CurrentScreen) -> bool {
    screen == CurrentScreen::Main
}

/// The name of a list is being typed.
pub open spec fn names_list(screen: CurrentScreen) -> bool {
    screen == CurrentScreen::AddList || screen == CurrentScreen::ModifyList
}

/// The name of an item is being typed.
pub open spec fn names_item(screen: CurrentScreen) -> bool {
    screen == CurrentScreen::AddItem || screen == CurrentScreen::ModifyItem
}

impl AppView {
    /// The state after a key that means `intent` reached a handler: the
    /// handler acts only where its own screen is active.
    pub open spec fn after_key_on(self, active: bool, intent: Intent, now: Timestamp) -> AppView {
        if active {
            self.after(intent, now)
        } else {
            self
        }
    }

    /// What is left to do after a key that means `intent` reached a handler.
    pub open spec fn action_on(self, active: bool, intent: Intent) -> ActionView {
        if active {
            self.action(intent)
        } else {
            ActionView::Nothing
        }
    }
}

/// Reads key presses and has the application act on them.
pub struct EventHandler;

impl EventHandler {
    /// What `key` means on the main screen.
    pub fn main_screen_key(key: KeyEvent) -> (intent: Intent)
        ensures
            intent == main_screen_intent(key),
    {
        match (key.code, key.modifiers) {
            (KeyCode::Char('q'), KeyModifiers::Plain) => Intent::Quit,
            (KeyCode::Char('s'), KeyModifiers::Plain) => Intent::NextList,
            (KeyCode::Char('w'), KeyModifiers::Plain) => Intent::PreviousList,
            (KeyCode::Char('A'), KeyModifiers::Shift) => Intent::EnterAddList,
            (KeyCode::Char('a'), KeyModifiers::Plain) => Intent::EnterAddItem,
            (KeyCode::Char('C'), KeyModifiers::Shift) => Intent::EnterChangeDb,
            (KeyCode::Char('M'), KeyModifiers::Shift) => Intent::EnterModifyList,
            (KeyCode::Char('m'), KeyModifiers::Plain) => Intent::EnterModifyItem,
            (KeyCode::Char('D'), KeyModifiers::Shift) => Intent::DeleteList,
            (KeyCode::Char('d'), KeyModifiers::Plain) => Intent::DeleteItem,
            (KeyCode::Enter, KeyModifiers::Plain) => Intent::ToggleItem,
            (KeyCode::Char('s'), KeyModifiers::Alt) => Intent::MoveListDown,
            (KeyCode::Char('w'), KeyModifiers::Alt) => Intent::MoveListUp,
            (KeyCode::Up, KeyModifiers::Alt) => Intent::MoveItemUp,
            (KeyCode::Down, KeyModifiers::Alt) => Intent::MoveItemDown,
            (KeyCode::Down, KeyModifiers::Plain) => Intent::NextItem,
            (KeyCode::Up, KeyModifiers::Plain) => Intent::PreviousItem,
            (KeyCode::Left, KeyModifiers::Plain) => Intent::DeselectItem,
            (KeyCode::Right, KeyModifiers::Plain) => Intent::FirstItem,
            (KeyCode::Char('c'), KeyModifiers::Plain) => Intent::CopyItems,
            (KeyCode::Char('T'), KeyModifiers::Shift) => Intent::FirstList,
            (KeyCode::Char('B'), KeyModifiers::Shift) => Intent::LastList,
            (KeyCode::Char('t'), KeyModifiers::Plain) => Intent::FirstItem,
            (KeyCode::Char('b'), KeyModifiers::Plain) => Intent::LastItem,
            _ => Intent::Ignore,
        }
    }

    /// What `key` means while text is typed.
    pub fn editing_key(key: KeyEvent) -> (intent: Intent)
        ensures
            intent == editing_intent(key),
    {
        match (key.code, key.modifiers) {
            (KeyCode::Esc, KeyModifiers::Plain) => Intent::Cancel,
            (KeyCode::Backspace, KeyModifiers::Plain) => Intent::Edit(Edit::Backspace),
            (KeyCode::Delete, KeyModifiers::Plain) => Intent::Edit(Edit::Delete),
            (KeyCode::Char(value), KeyModifiers::Plain) => Intent::Edit(Edit::Type(value)),
            (KeyCode::Left, KeyModifiers::Plain) => Intent::Edit(Edit::Left),
            (KeyCode::Right, KeyModifiers::Plain) => Intent::Edit(Edit::Right),
            (KeyCode::Char('a'), KeyModifiers::Control) => Intent::Edit(Edit::Start),
            (KeyCode::Char('e'), KeyModifiers::Control) => Intent::Edit(Edit::End),
            (KeyCode::Enter, KeyModifiers::Plain) => Intent::Commit,
            _ => Intent::Ignore,
        }
    }

    /// What `key` means on the screen for choosing a database.
    pub fn change_db_key(key: KeyEvent) -> (intent: Intent)
        ensures
            intent == change_db_intent(key),
    {
        match key.code {
            KeyCode::Esc => Intent::Cancel,
            KeyCode::Up => Intent::PreviousDb,
            KeyCode::Down => Intent::NextDb,
            KeyCode::Enter => Intent::SwitchDb,
            KeyCode::Char('A') => Intent::EnterAddDb,
            KeyCode::Char('S') => Intent::SetDefaultDb,
            _ => Intent::Ignore,
        }
    }

    /// Acts on a key pressed on the main screen. On any other screen the
    /// key changes nothing.
    pub fn handle_main_screen_key(app: &mut App, key: KeyEvent, now: Timestamp) -> (action: Action)
        requires
            old(app).wf(),
        ensures
            final(app).wf(),
            final(app)@ == old(app)@.after_key_on(is_main(old(app)@.screen), main_screen_intent(key), now),
            action@ == old(app)@.action_on(is_main(old(app)@.screen), main_screen_intent(key)),
    {
        match app.current_screen {
            CurrentScreen::Main => app.perform(Self::main_screen_key(key), now),
            _ => Action::Nothing,
        }
    }

    /// Acts on a key pressed while the name of a list is typed: it edits the
    /// text, gives the typing up, or confirms the name. A blank name is not
    /// taken: confirming it changes nothing. On any other screen the key
    /// changes nothing.
    pub fn handle_add_or_modify_list_screen_key(app: &mut App, key: KeyEvent, now: Timestamp) -> (action:
        Action)
        requires
            old(app).wf(),
        ensures
            final(app).wf(),
            final(app)@ == old(app)@.after_key_on(names_list(old(app)@.screen), editing_intent(key), now),
            action@ == old(app)@.action_on(names_list(old(app)@.screen), editing_intent(key)),
    {
        match app.current_screen {
            CurrentScreen::AddList | CurrentScreen::ModifyList => app.perform(
                Self::editing_key(key),
                now,
            ),
            _ => Action::Nothing,
        }
    }

    /// Acts on a key pressed while the name of an item is typed: it edits
    /// the text, gives the typing up, or confirms the name. A blank name is
    /// not taken: confirming it changes nothing. On any other screen the key
    /// changes nothing.
    pub fn handle_add_or_modify_item_screen_key(app: &mut App, key: KeyEvent, now: Timestamp) -> (action:
        Action)
        requires
            old(app).wf(),
        ensures
            final(app).wf(),
            final(app)@ == old(app)@.after_key_on(names_item(old(app)@.screen), editing_intent(key), now),
            action@ == old(app)@.action_on(names_item(old(app)@.screen), editing_intent(key)),
    {
        match app.current_screen {
            CurrentScreen::AddItem | CurrentScreen::ModifyItem => app.perform(
                Self::editing_key(key),
                now,
            ),
            _ => Action::Nothing,
        }
    }

    /// Acts on a key pressed on the screen for choosing a database. On any
    /// other screen the key changes nothing.
    pub fn handle_change_db_screen_key(app: &mut App, key: KeyEvent, now: Timestamp) -> (action: Action)
        requires
            old(app).wf(),
        ensures
            final(app).wf(),
            final(app)@ == old(app)@.after_key_on(
                old(app)@.screen == CurrentScreen::ChangeDB,
                change_db_intent(key),
                now,
            ),
            action@ == old(app)@.action_on(
                old(app)@.screen == CurrentScreen::ChangeDB,
                change_db_intent(key),
            ),
    {
        match app.current_screen {
            CurrentScreen::ChangeDB => app.perform(Self::change_db_key(key), now),
            _ => Action::Nothing,
        }
    }

    /// Acts on a key pressed while the name of a database is typed. On any
    /// other screen the key changes nothing.
    pub fn handle_add_db_screen_key(app: &mut App, key: KeyEvent, now: Timestamp) -> (action: Action)
        requires
            old(app).wf(),
        ensures
            final(app).wf(),
            final(app)@ == old(app)@.after_key_on(
                old(app)@.screen == CurrentScreen::AddDB,
                editing_intent(key),
                now,
            ),
            action@ == old(app)@.action_on(old(app)@.screen == CurrentScreen::AddDB, editing_intent(key)),
    {
        match app.current_screen {
            CurrentScreen::AddDB => app.perform(Self::editing_key(key), now),
            _ => Action::Nothing,
        }
    }

    /// Acts on a key press at the time `now`, read against the active screen.
    pub fn handle_key(app: &mut App, key: KeyEvent, now: Timestamp) -> (action: Action)
        requires
            old(app).wf(),
        ensures
            final(app).wf(),
            final(app)@ == old(app)@.after(intent_on(old(app)@.screen, key), now),
            action@ == old(app)@.action(intent_on(old(app)@.screen, key)),
    {
        match app.current_screen {
            CurrentScreen::Main => Self::handle_main_screen_key(app, key, now),
            CurrentScreen::AddList | CurrentScreen::ModifyList => {
                Self::handle_add_or_modify_list_screen_key(app, key, now)
            },
            CurrentScreen::AddItem | CurrentScreen::ModifyItem => {
                Self::handle_add_or_modify_item_screen_key(app, key, now)
            },
            CurrentScreen::ChangeDB => Self::handle_change_db_screen_key(app, key, now),
            CurrentScreen::AddDB => Self::handle_add_db_screen_key(app, key, now),
        }
    }
}

} // verus!
