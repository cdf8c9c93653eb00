use judo::app::events::{EventHandler, KeyCode, KeyEvent, KeyModifiers};
use judo::app::state::{Action, App, CurrentScreen, Edit, Failure, Intent};
use judo::db::config::{Config, DBConfig};
use judo::db::models::{NewTodoItem, NewTodoList, Timestamp, TodoItem, TodoList, UIList};
use judo::db::store::{Store, StoreError};
use judo::text::is_blank;
use judo::ui::components::input_states::InputState;
use judo::ui::components::items::ItemsComponent;
use judo::ui::components::lists::ListsComponent;
use judo::ui::list_state::ListState;

fn now() -> Timestamp {
    Timestamp { secs: 42, nanos: 7 }
}

fn key(code: KeyCode) -> KeyEvent {
    KeyEvent { code, modifiers: KeyModifiers::Plain }
}

fn ch(c: char) -> KeyEvent {
    key(KeyCode::Char(c))
}

fn with(c: char, modifiers: KeyModifiers) -> KeyEvent {
    KeyEvent { code: KeyCode::Char(c), modifiers }
}

fn press(app: &mut App, k: KeyEvent) -> Action {
    EventHandler::handle_key(app, k, now())
}

fn type_text(app: &mut App, text: &str) {
    for c in text.chars() {
        press(app, ch(c));
    }
}

fn db() -> DBConfig {
    DBConfig { name: "main".to_string(), connection_str: "sqlite:main.db".to_string() }
}

/// An application over a store with the lists named, each with the items
/// named for it.
fn app_with(lists: &[(&str, &[&str])]) -> App {
    let mut store = Store::new();
    for (name, items) in lists {
        let list =
            TodoList::create(&mut store, NewTodoList { name: name.to_string() }, now()).unwrap();
        for item in items.iter() {
            let new_item = NewTodoItem {
                list_id: list.id,
                name: item.to_string(),
                priority: None,
                due_date: None,
            };
            TodoItem::create(&mut store, new_item, now()).unwrap();
        }
    }
    store.take_pending();
    let config = Config { default: "main".to_string(), dbs: vec![db()] };
    App::new(store, config, db())
}

fn selected_list(app: &App) -> &UIList {
    app.lists_component.get_selected_list().unwrap()
}

fn item_names(list: &UIList) -> Vec<String> {
    list.items.iter().map(|i| i.item.name.clone()).collect()
}

fn item_cursor(app: &App) -> Option<usize> {
    selected_list(app).item_state.selected()
}

fn cursors_are_valid(app: &App) -> bool {
    let lists = &app.lists_component;
    let lists_ok = match lists.list_state.selected() {
        Some(i) => i < lists.lists.len(),
        None => true,
    };
    lists_ok
        && lists.lists.iter().all(|l| match l.item_state.selected() {
            Some(j) => j < l.items.len(),
            None => true,
        })
}

// ===== The selection of an entry =====

#[test]
fn list_state_moves_without_knowing_the_list() {
    let mut state = ListState::default();
    assert_eq!(state.selected(), None);
    state.select_next();
    assert_eq!(state.selected(), Some(0));
    state.select_next();
    assert_eq!(state.selected(), Some(1));
    state.select_previous();
    state.select_previous();
    state.select_previous();
    assert_eq!(state.selected(), Some(0));
    state.select_last();
    assert_eq!(state.selected(), Some(usize::MAX));
    state.select_next();
    assert_eq!(state.selected(), Some(usize::MAX));
    state.select_first();
    assert_eq!(state.selected(), Some(0));
    let mut fresh = ListState::new();
    fresh.select_previous();
    assert_eq!(fresh.selected(), Some(usize::MAX));
}

#[test]
fn selecting_nothing_resets_the_offset() {
    let mut state = ListState { offset: 4, selected: Some(6) };
    state.select(Some(2));
    assert_eq!(state.offset(), 4);
    state.select(None);
    assert_eq!(state, ListState { offset: 0, selected: None });
}

#[test]
fn fit_brings_the_selection_into_the_list() {
    let mut state = ListState { offset: 1, selected: Some(9) };
    state.fit(3);
    assert_eq!(state, ListState { offset: 1, selected: Some(2) });
    state.fit(3);
    assert_eq!(state.selected(), Some(2));
    state.fit(0);
    assert_eq!(state, ListState { offset: 0, selected: None });
    let mut none = ListState::new();
    none.fit(5);
    assert_eq!(none.selected(), None);
}

// ===== Cursor among items =====

#[test]
fn item_cursor_is_clamped_at_both_ends() {
    let mut app = app_with(&[("l", &["a", "b", "c"])]);
    press(&mut app, ch('s'));
    assert_eq!(item_cursor(&app), None);
    press(&mut app, key(KeyCode::Down));
    assert_eq!(item_cursor(&app), Some(0));
    press(&mut app, key(KeyCode::Down));
    press(&mut app, key(KeyCode::Down));
    assert_eq!(item_cursor(&app), Some(2));
    press(&mut app, key(KeyCode::Down));
    assert_eq!(item_cursor(&app), Some(2));
    press(&mut app, key(KeyCode::Up));
    assert_eq!(item_cursor(&app), Some(1));
    press(&mut app, ch('t'));
    assert_eq!(item_cursor(&app), Some(0));
    press(&mut app, key(KeyCode::Up));
    assert_eq!(item_cursor(&app), Some(0));
    press(&mut app, ch('b'));
    assert_eq!(item_cursor(&app), Some(2));
    press(&mut app, key(KeyCode::Left));
    assert_eq!(item_cursor(&app), None);
    press(&mut app, key(KeyCode::Up));
    assert_eq!(item_cursor(&app), Some(2));
    press(&mut app, key(KeyCode::Right));
    assert_eq!(item_cursor(&app), Some(0));
}

#[test]
fn item_cursor_stays_off_an_empty_list() {
    let mut app = app_with(&[("empty", &[])]);
    press(&mut app, ch('s'));
    for code in [KeyCode::Down, KeyCode::Up, KeyCode::Right, KeyCode::Left] {
        press(&mut app, key(code));
        assert_eq!(item_cursor(&app), None);
    }
    press(&mut app, ch('b'));
    assert_eq!(item_cursor(&app), None);
    let mut list = UIList::get_all(&app.store).remove(0);
    ItemsComponent::select_last_item(&mut list);
    assert_eq!(list.item_state.selected(), None);
}

#[test]
fn item_keys_do_nothing_without_a_selected_list() {
    let mut app = app_with(&[("l", &["a"])]);
    for k in [key(KeyCode::Down), ch('d'), key(KeyCode::Enter), ch('m'), ch('c')] {
        assert!(matches!(press(&mut app, k), Action::Nothing));
    }
    assert_eq!(app.lists_component.list_state.selected(), None);
    assert_eq!(app.lists_component.lists[0].item_state.selected(), None);
    assert_eq!(app.lists_component.lists[0].items.len(), 1);
    assert_eq!(app.current_screen, CurrentScreen::Main);
    assert_eq!(app.store.take_pending().len(), 0);
}

// ===== Cursor among lists =====

#[test]
fn list_cursor_is_clamped_at_both_ends() {
    let mut app = app_with(&[("a", &[]), ("b", &[]), ("c", &[])]);
    let cursor = |app: &App| app.lists_component.list_state.selected();
    assert_eq!(cursor(&app), None);
    press(&mut app, ch('s'));
    assert_eq!(cursor(&app), Some(0));
    press(&mut app, ch('w'));
    assert_eq!(cursor(&app), Some(0));
    press(&mut app, ch('s'));
    press(&mut app, ch('s'));
    press(&mut app, ch('s'));
    assert_eq!(cursor(&app), Some(2));
    press(&mut app, with('T', KeyModifiers::Shift));
    assert_eq!(cursor(&app), Some(0));
    press(&mut app, with('B', KeyModifiers::Shift));
    assert_eq!(cursor(&app), Some(2));
}

#[test]
fn list_navigation_leaves_the_item_cursors_alone() {
    let mut app = app_with(&[("a", &["a1", "a2"]), ("b", &["b1"])]);
    press(&mut app, ch('s'));
    press(&mut app, key(KeyCode::Down));
    press(&mut app, key(KeyCode::Down));
    press(&mut app, ch('s'));
    assert_eq!(item_cursor(&app), None);
    press(&mut app, ch('w'));
    assert_eq!(item_cursor(&app), Some(1));
}

#[test]
fn list_cursor_stays_off_when_there_is_no_list() {
    let mut app = app_with(&[]);
    let mut lists = ListsComponent::new();
    lists.select_next();
    assert_eq!(lists.list_state.selected(), None);
    press(&mut app, ch('s'));
    press(&mut app, with('B', KeyModifiers::Shift));
    assert_eq!(app.lists_component.list_state.selected(), None);
    assert!(app.lists_component.get_selected_list().is_none());
}

// ===== Creating from the screen =====

#[test]
fn created_item_has_key_one_and_is_selected() {
    let mut app = app_with(&[("l", &[])]);
    press(&mut app, ch('s'));
    press(&mut app, ch('a'));
    assert_eq!(app.current_screen, CurrentScreen::AddItem);
    type_text(&mut app, "X");
    assert!(matches!(press(&mut app, key(KeyCode::Enter)), Action::Nothing));
    assert_eq!(app.current_screen, CurrentScreen::Main);
    assert_eq!(app.input_state.get_text(), "");
    let list = selected_list(&app);
    assert_eq!(list.items.len(), 1);
    assert_eq!(list.items[0].item.name, "X");
    assert_eq!(list.items[0].item.ordering, 1);
    assert_eq!(list.items[0].item.created_at, now());
    assert_eq!(list.item_state.selected(), Some(0));
    assert_eq!(TodoItem::get_by_list_id(&app.store, list.list.id).len(), 1);
}

#[test]
fn created_list_has_key_one_and_is_selected() {
    let mut app = app_with(&[]);
    press(&mut app, with('A', KeyModifiers::Shift));
    assert_eq!(app.current_screen, CurrentScreen::AddList);
    type_text(&mut app, "X");
    press(&mut app, key(KeyCode::Enter));
    assert_eq!(app.current_screen, CurrentScreen::Main);
    assert_eq!(app.lists_component.lists.len(), 1);
    assert_eq!(app.lists_component.list_state.selected(), Some(0));
    assert_eq!(selected_list(&app).list.name, "X");
    assert_eq!(selected_list(&app).list.ordering, 1);
}

#[test]
fn created_records_go_last_and_take_the_cursor() {
    let mut app = app_with(&[("a", &["1", "2"]), ("b", &[])]);
    press(&mut app, ch('s'));
    press(&mut app, key(KeyCode::Down));
    press(&mut app, ch('a'));
    type_text(&mut app, "3");
    press(&mut app, key(KeyCode::Enter));
    assert_eq!(item_names(selected_list(&app)), vec!["1", "2", "3"]);
    assert_eq!(item_cursor(&app), Some(2));
    assert_eq!(selected_list(&app).items[2].item.ordering, 3);

    press(&mut app, with('A', KeyModifiers::Shift));
    type_text(&mut app, "c");
    press(&mut app, key(KeyCode::Enter));
    assert_eq!(app.lists_component.list_state.selected(), Some(2));
    assert_eq!(selected_list(&app).list.name, "c");
    assert_eq!(selected_list(&app).list.ordering, 3);
}

// ===== Moving from the screen =====

#[test]
fn cursor_follows_the_item_that_moves_up() {
    let mut app = app_with(&[("l", &["one", "two", "three"])]);
    press(&mut app, ch('s'));
    press(&mut app, key(KeyCode::Down));
    press(&mut app, key(KeyCode::Down));
    let up = KeyEvent { code: KeyCode::Up, modifiers: KeyModifiers::Alt };
    assert!(matches!(press(&mut app, up), Action::Nothing));
    let list = selected_list(&app);
    let keys: Vec<(String, i64)> =
        list.items.iter().map(|i| (i.item.name.clone(), i.item.ordering)).collect();
    assert_eq!(
        keys,
        vec![("two".to_string(), 1), ("one".to_string(), 2), ("three".to_string(), 3)]
    );
    assert_eq!(list.item_state.selected(), Some(0));
    assert_eq!(list.items[0].item.name, "two");
}

#[test]
fn cursor_follows_the_item_that_moves_down() {
    let mut app = app_with(&[("l", &["one", "two", "three"])]);
    press(&mut app, ch('s'));
    press(&mut app, key(KeyCode::Down));
    let down = KeyEvent { code: KeyCode::Down, modifiers: KeyModifiers::Alt };
    press(&mut app, down);
    assert_eq!(item_names(selected_list(&app)), vec!["two", "one", "three"]);
    assert_eq!(item_cursor(&app), Some(1));
    press(&mut app, down);
    assert_eq!(item_names(selected_list(&app)), vec!["two", "three", "one"]);
    assert_eq!(item_cursor(&app), Some(2));
    press(&mut app, down);
    assert_eq!(item_names(selected_list(&app)), vec!["two", "three", "one"]);
    assert_eq!(item_cursor(&app), Some(2));
}

#[test]
fn first_item_does_not_move_up() {
    let mut app = app_with(&[("l", &["one", "two"])]);
    press(&mut app, ch('s'));
    press(&mut app, key(KeyCode::Down));
    let up = KeyEvent { code: KeyCode::Up, modifiers: KeyModifiers::Alt };
    assert!(matches!(press(&mut app, up), Action::Nothing));
    assert_eq!(item_names(selected_list(&app)), vec!["one", "two"]);
    assert_eq!(item_cursor(&app), Some(0));
    assert_eq!(app.store.take_pending().len(), 0);
}

#[test]
fn cursor_follows_the_list_that_moves() {
    let mut app = app_with(&[("a", &["a1"]), ("b", &["b1", "b2"]), ("c", &[])]);
    press(&mut app, ch('s'));
    press(&mut app, ch('s'));
    press(&mut app, with('w', KeyModifiers::Alt));
    let names: Vec<&str> =
        app.lists_component.lists.iter().map(|l| l.list.name.as_str()).collect();
    assert_eq!(names, vec!["b", "a", "c"]);
    assert_eq!(app.lists_component.list_state.selected(), Some(0));
    assert_eq!(item_names(selected_list(&app)), vec!["b1", "b2"]);
    assert_eq!(selected_list(&app).list.ordering, 1);
    press(&mut app, with('w', KeyModifiers::Alt));
    assert_eq!(app.lists_component.list_state.selected(), Some(0));
    press(&mut app, with('s', KeyModifiers::Alt));
    press(&mut app, with('s', KeyModifiers::Alt));
    press(&mut app, with('s', KeyModifiers::Alt));
    let names: Vec<&str> =
        app.lists_component.lists.iter().map(|l| l.list.name.as_str()).collect();
    assert_eq!(names, vec!["a", "c", "b"]);
    assert_eq!(app.lists_component.list_state.selected(), Some(2));
}

#[test]
fn stale_snapshot_is_reported_not_acted_on() {
    let mut app = app_with(&[("l", &["one", "two"])]);
    press(&mut app, ch('s'));
    press(&mut app, key(KeyCode::Down));
    press(&mut app, key(KeyCode::Down));
    // The item goes away behind the back of the snapshot.
    let two = selected_list(&app).items[1].item.id;
    app.store.delete_item(two);
    app.store.take_pending();
    let up = KeyEvent { code: KeyCode::Up, modifiers: KeyModifiers::Alt };
    let action = press(&mut app, up);
    assert!(matches!(action, Action::Report(Failure::MoveItemUp, StoreError::NotFound)));
    assert_eq!(item_names(selected_list(&app)), vec!["one", "two"]);
    assert_eq!(item_cursor(&app), Some(1));
    assert_eq!(app.store.take_pending().len(), 0);
}

// ===== Deleting from the screen =====

#[test]
fn cursor_stays_on_zero_when_the_first_of_two_is_deleted() {
    let mut app = app_with(&[("l", &["first", "second"])]);
    press(&mut app, ch('s'));
    press(&mut app, key(KeyCode::Down));
    assert_eq!(item_cursor(&app), Some(0));
    press(&mut app, ch('d'));
    assert_eq!(item_names(selected_list(&app)), vec!["second"]);
    assert_eq!(item_cursor(&app), Some(0));
}

#[test]
fn cursor_moves_back_when_the_last_item_is_deleted() {
    let mut app = app_with(&[("l", &["a", "b", "c"])]);
    press(&mut app, ch('s'));
    press(&mut app, ch('b'));
    press(&mut app, ch('d'));
    assert_eq!(item_names(selected_list(&app)), vec!["a", "b"]);
    assert_eq!(item_cursor(&app), Some(1));
    press(&mut app, ch('d'));
    press(&mut app, ch('d'));
    assert_eq!(selected_list(&app).items.len(), 0);
    assert_eq!(item_cursor(&app), None);
    press(&mut app, ch('d'));
    assert_eq!(item_cursor(&app), None);
}

#[test]
fn cursor_stays_in_the_middle_when_a_middle_item_is_deleted() {
    let mut app = app_with(&[("l", &["a", "b", "c"])]);
    press(&mut app, ch('s'));
    press(&mut app, key(KeyCode::Down));
    press(&mut app, key(KeyCode::Down));
    press(&mut app, ch('d'));
    assert_eq!(item_names(selected_list(&app)), vec!["a", "c"]);
    assert_eq!(item_cursor(&app), Some(1));
}

#[test]
fn deleting_a_list_repairs_the_list_cursor() {
    let mut app = app_with(&[("a", &["a1"]), ("b", &["b1"]), ("c", &[])]);
    press(&mut app, with('B', KeyModifiers::Shift));
    press(&mut app, with('D', KeyModifiers::Shift));
    assert_eq!(app.lists_component.lists.len(), 2);
    assert_eq!(app.lists_component.list_state.selected(), Some(1));
    assert_eq!(selected_list(&app).list.name, "b");
    press(&mut app, with('T', KeyModifiers::Shift));
    press(&mut app, key(KeyCode::Down));
    let doomed = selected_list(&app).list.id;
    press(&mut app, with('D', KeyModifiers::Shift));
    assert_eq!(app.lists_component.list_state.selected(), Some(0));
    assert_eq!(selected_list(&app).list.name, "b");
    assert_eq!(item_cursor(&app), None);
    assert_eq!(TodoItem::get_by_list_id(&app.store, doomed).len(), 0);
    press(&mut app, with('D', KeyModifiers::Shift));
    assert_eq!(app.lists_component.lists.len(), 0);
    assert_eq!(app.lists_component.list_state.selected(), None);
    press(&mut app, with('D', KeyModifiers::Shift));
    assert_eq!(app.lists_component.list_state.selected(), None);
}

// ===== Marking =====

#[test]
fn enter_marks_the_selected_item() {
    let mut app = app_with(&[("l", &["a", "b"])]);
    press(&mut app, ch('s'));
    press(&mut app, key(KeyCode::Enter));
    assert!(selected_list(&app).items.iter().all(|i| !i.item.is_done));
    press(&mut app, ch('b'));
    press(&mut app, key(KeyCode::Enter));
    let list = selected_list(&app);
    assert!(!list.items[0].item.is_done);
    assert!(list.items[1].item.is_done);
    assert_eq!(list.items[1].item.updated_at, now());
    assert!(TodoItem::get_by_id(&app.store, list.items[1].item.id).unwrap().is_done);
    press(&mut app, key(KeyCode::Enter));
    assert!(!selected_list(&app).items[1].item.is_done);
}

// ===== Editing screens =====

#[test]
fn blank_item_name_is_not_taken() {
    let mut app = app_with(&[("l", &["a"])]);
    press(&mut app, ch('s'));
    press(&mut app, ch('a'));
    type_text(&mut app, "  ");
    press(&mut app, key(KeyCode::Left));
    let cursor = app.input_state.get_cursor_pos();
    let action = press(&mut app, key(KeyCode::Enter));
    assert!(matches!(action, Action::Nothing));
    assert_eq!(app.current_screen, CurrentScreen::AddItem);
    assert_eq!(app.input_state.get_text(), "  ");
    assert_eq!(app.input_state.get_cursor_pos(), cursor);
    assert_eq!(app.store.take_pending().len(), 0);
    assert_eq!(selected_list(&app).items.len(), 1);
    assert_eq!(item_cursor(&app), None);
}

#[test]
fn blank_names_are_not_taken_on_any_editing_screen() {
    let mut app = app_with(&[("l", &["a"])]);
    press(&mut app, ch('s'));
    press(&mut app, key(KeyCode::Down));
    for enter in [with('A', KeyModifiers::Shift), with('M', KeyModifiers::Shift), ch('a'), ch('m')]
    {
        press(&mut app, enter);
        let screen = app.current_screen;
        assert!(screen != CurrentScreen::Main);
        while !app.input_state.get_text().is_empty() {
            press(&mut app, key(KeyCode::Backspace));
        }
        press(&mut app, ch('\t'));
        press(&mut app, key(KeyCode::Enter));
        assert_eq!(app.current_screen, screen);
        assert_eq!(app.input_state.get_text(), "\t");
        press(&mut app, key(KeyCode::Esc));
        assert_eq!(app.current_screen, CurrentScreen::Main);
    }
    assert_eq!(app.store.take_pending().len(), 0);
    assert_eq!(selected_list(&app).list.name, "l");
    assert_eq!(item_names(selected_list(&app)), vec!["a"]);
}

#[test]
fn blank_means_white_space_only() {
    assert!(is_blank(""));
    assert!(is_blank(" \t\n\r"));
    assert!(is_blank("\u{00A0}\u{2003}\u{3000}\u{2028}\u{0085}\u{1680}\u{205F}\u{202F}"));
    assert!(!is_blank(" a "));
    assert!(!is_blank("\u{200B}"));
    assert!(!is_blank("\u{FEFF}"));
    assert!(!is_blank("\u{180E}"));
    assert!(!is_blank("_"));
}

#[test]
fn modify_seeds_the_current_name() {
    let mut app = app_with(&[("groceries", &["milk"])]);
    press(&mut app, ch('s'));
    press(&mut app, with('M', KeyModifiers::Shift));
    assert_eq!(app.current_screen, CurrentScreen::ModifyList);
    assert_eq!(app.input_state.get_text(), "groceries");
    assert_eq!(app.input_state.get_cursor_pos(), 9);
    assert!(app.input_state.is_modifying);
    type_text(&mut app, "!");
    press(&mut app, key(KeyCode::Enter));
    assert_eq!(app.current_screen, CurrentScreen::Main);
    assert_eq!(selected_list(&app).list.name, "groceries!");
    assert_eq!(selected_list(&app).list.updated_at, now());
    assert_eq!(app.lists_component.lists.len(), 1);
    assert!(!app.input_state.is_modifying);

    press(&mut app, key(KeyCode::Down));
    press(&mut app, ch('m'));
    assert_eq!(app.current_screen, CurrentScreen::ModifyItem);
    assert_eq!(app.input_state.get_text(), "milk");
    press(&mut app, key(KeyCode::Backspace));
    type_text(&mut app, "d");
    press(&mut app, key(KeyCode::Enter));
    assert_eq!(item_names(selected_list(&app)), vec!["mild"]);
    assert_eq!(item_cursor(&app), Some(0));
    assert_eq!(selected_list(&app).items.len(), 1);
}

#[test]
fn modify_needs_a_selection() {
    let mut app = app_with(&[("l", &["a"])]);
    press(&mut app, with('M', KeyModifiers::Shift));
    assert_eq!(app.current_screen, CurrentScreen::Main);
    press(&mut app, ch('s'));
    press(&mut app, ch('m'));
    assert_eq!(app.current_screen, CurrentScreen::Main);
    assert_eq!(app.input_state.get_text(), "");
}

#[test]
fn cancel_discards_the_text_and_returns() {
    let mut app = app_with(&[("l", &["a"])]);
    press(&mut app, ch('s'));
    press(&mut app, ch('a'));
    type_text(&mut app, "half a na");
    press(&mut app, key(KeyCode::Esc));
    assert_eq!(app.current_screen, CurrentScreen::Main);
    assert_eq!(app.input_state.get_text(), "");
    assert_eq!(app.input_state.get_cursor_pos(), 0);
    assert_eq!(selected_list(&app).items.len(), 1);
    assert_eq!(app.store.take_pending().len(), 0);
    press(&mut app, ch('a'));
    assert_eq!(app.input_state.get_text(), "");
}

#[test]
fn browsing_keys_are_text_while_a_name_is_typed() {
    let mut app = app_with(&[("l", &["a", "b"])]);
    press(&mut app, ch('s'));
    press(&mut app, key(KeyCode::Down));
    press(&mut app, ch('a'));
    type_text(&mut app, "qdsw");
    press(&mut app, key(KeyCode::Up));
    press(&mut app, with('D', KeyModifiers::Shift));
    press(&mut app, with('s', KeyModifiers::Alt));
    assert_eq!(app.input_state.get_text(), "qdsw");
    assert!(!app.exit);
    assert_eq!(app.current_screen, CurrentScreen::AddItem);
    assert_eq!(item_cursor(&app), Some(0));
    assert_eq!(selected_list(&app).items.len(), 2);
    assert_eq!(app.lists_component.lists.len(), 1);
}

#[test]
fn intents_are_judged_against_the_screen() {
    let mut app = app_with(&[("l", &["a", "b"])]);
    press(&mut app, ch('s'));
    press(&mut app, key(KeyCode::Down));
    press(&mut app, ch('a'));
    for intent in [
        Intent::Quit,
        Intent::DeleteItem,
        Intent::DeleteList,
        Intent::ToggleItem,
        Intent::MoveItemDown,
        Intent::NextItem,
        Intent::NextList,
        Intent::CopyItems,
        Intent::EnterAddList,
        Intent::SwitchDb,
        Intent::NextDb,
    ] {
        assert!(matches!(app.perform(intent, now()), Action::Nothing));
    }
    assert_eq!(app.current_screen, CurrentScreen::AddItem);
    assert!(!app.exit);
    assert_eq!(item_names(selected_list(&app)), vec!["a", "b"]);
    assert_eq!(item_cursor(&app), Some(0));
    assert!(!selected_list(&app).items[0].item.is_done);
    assert_eq!(app.store.take_pending().len(), 0);

    press(&mut app, key(KeyCode::Esc));
    for intent in [Intent::Commit, Intent::Cancel, Intent::Edit(Edit::Type('x'))] {
        app.perform(intent, now());
    }
    assert_eq!(app.current_screen, CurrentScreen::Main);
    assert_eq!(app.input_state.get_text(), "");
}

#[test]
fn handlers_ignore_keys_of_other_screens() {
    let mut app = app_with(&[("l", &["a"])]);
    press(&mut app, ch('s'));
    press(&mut app, ch('a'));
    EventHandler::handle_main_screen_key(&mut app, ch('q'), now());
    EventHandler::handle_change_db_screen_key(&mut app, key(KeyCode::Esc), now());
    assert!(!app.exit);
    assert_eq!(app.current_screen, CurrentScreen::AddItem);
}

#[test]
fn unknown_keys_are_ignored() {
    let mut app = app_with(&[("l", &["a"])]);
    press(&mut app, ch('s'));
    press(&mut app, key(KeyCode::Down));
    for k in [
        ch('z'),
        key(KeyCode::Other),
        key(KeyCode::Backspace),
        with('q', KeyModifiers::Control),
        with('a', KeyModifiers::Shift),
        with('A', KeyModifiers::Plain),
        KeyEvent { code: KeyCode::Enter, modifiers: KeyModifiers::Other },
    ] {
        assert_eq!(EventHandler::main_screen_key(k), Intent::Ignore);
        assert!(matches!(press(&mut app, k), Action::Nothing));
    }
    assert_eq!(app.current_screen, CurrentScreen::Main);
    assert!(!app.exit);
    assert_eq!(item_cursor(&app), Some(0));
    assert!(!selected_list(&app).items[0].item.is_done);
}

#[test]
fn keys_mean_what_the_screen_says() {
    assert_eq!(EventHandler::main_screen_key(ch('q')), Intent::Quit);
    assert_eq!(EventHandler::main_screen_key(ch('d')), Intent::DeleteItem);
    assert_eq!(
        EventHandler::main_screen_key(with('D', KeyModifiers::Shift)),
        Intent::DeleteList
    );
    assert_eq!(EventHandler::main_screen_key(with('s', KeyModifiers::Alt)), Intent::MoveListDown);
    assert_eq!(EventHandler::main_screen_key(key(KeyCode::Right)), Intent::FirstItem);
    assert_eq!(EventHandler::editing_key(ch('q')), Intent::Edit(Edit::Type('q')));
    assert_eq!(EventHandler::editing_key(with('a', KeyModifiers::Control)), Intent::Edit(Edit::Start));
    assert_eq!(EventHandler::editing_key(with('e', KeyModifiers::Control)), Intent::Edit(Edit::End));
    assert_eq!(EventHandler::editing_key(with('A', KeyModifiers::Shift)), Intent::Ignore);
    assert_eq!(EventHandler::editing_key(key(KeyCode::Enter)), Intent::Commit);
    assert_eq!(EventHandler::editing_key(key(KeyCode::Esc)), Intent::Cancel);
    assert_eq!(EventHandler::change_db_key(with('A', KeyModifiers::Shift)), Intent::EnterAddDb);
    assert_eq!(EventHandler::change_db_key(ch('S')), Intent::SetDefaultDb);
    assert_eq!(EventHandler::change_db_key(ch('s')), Intent::Ignore);
    assert_eq!(EventHandler::change_db_key(key(KeyCode::Enter)), Intent::SwitchDb);
}

#[test]
fn quit_sets_the_exit_flag() {
    let mut app = app_with(&[]);
    press(&mut app, ch('q'));
    assert!(app.exit);
}

#[test]
fn copy_lists_every_item_on_a_line() {
    let mut app = app_with(&[("l", &["milk", "bread", "eggs"]), ("empty", &[])]);
    press(&mut app, ch('s'));
    match press(&mut app, ch('c')) {
        Action::Copy(text) => assert_eq!(text, "- milk\n- bread\n- eggs"),
        other => panic!("expected a copy, got {:?}", other),
    }
    press(&mut app, ch('s'));
    match press(&mut app, ch('c')) {
        Action::Copy(text) => assert_eq!(text, ""),
        other => panic!("expected a copy, got {:?}", other),
    }
    let one = UIList::get_all(&app_with(&[("l", &["only"])]).store).remove(0);
    assert_eq!(ItemsComponent::format_all_items(&one), "- only");
}

// ===== Typing =====

#[test]
fn typing_inserts_at_the_cursor() {
    let mut input = InputState::new();
    for c in "ac".chars() {
        input.add_char(c);
    }
    input.move_cursor_left();
    input.add_char('b');
    assert_eq!(input.get_text(), "abc");
    assert_eq!(input.get_cursor_pos(), 2);
    input.move_cursor_to_end();
    input.add_char('é');
    input.add_char('🚀');
    assert_eq!(input.get_text(), "abcé🚀");
    assert_eq!(input.get_cursor_pos(), 5);
}

#[test]
fn backspace_and_delete_remove_one_character() {
    let mut input = InputState::new();
    input.seed("héllo", false);
    assert_eq!(input.get_cursor_pos(), 5);
    input.remove_char_before_cursor();
    assert_eq!(input.get_text(), "héll");
    input.move_cursor_to_start();
    input.remove_char_before_cursor();
    assert_eq!(input.get_text(), "héll");
    assert_eq!(input.get_cursor_pos(), 0);
    input.move_cursor_right();
    input.delete_char_after_cursor();
    assert_eq!(input.get_text(), "hll");
    assert_eq!(input.get_cursor_pos(), 1);
    input.move_cursor_to_end();
    input.delete_char_after_cursor();
    assert_eq!(input.get_text(), "hll");
    assert_eq!(input.get_cursor_pos(), 3);
}

#[test]
fn cursor_in_the_text_stays_in_the_text() {
    let mut input = InputState::default();
    input.move_cursor_left();
    input.move_cursor_right();
    assert_eq!(input.get_cursor_pos(), 0);
    input.seed("ab", true);
    input.move_cursor_right();
    assert_eq!(input.get_cursor_pos(), 2);
    input.set_cursor_pos(40);
    input.add_char('c');
    assert_eq!(input.get_text(), "abc");
    assert_eq!(input.get_cursor_pos(), 3);
    input.set_cursor_pos(40);
    input.move_cursor_left();
    assert_eq!(input.get_cursor_pos(), 2);
    input.clear();
    assert_eq!(input.get_text(), "");
    assert_eq!(input.get_cursor_pos(), 0);
    assert!(!input.is_modifying);
    assert!(input.is_blank());
}

// ===== Databases =====

#[test]
fn database_screen_hands_out_what_is_left_to_do() {
    let mut app = app_with(&[("l", &[])]);
    app.config.dbs.push(DBConfig {
        name: "work".to_string(),
        connection_str: "sqlite:work.db".to_string(),
    });
    press(&mut app, with('C', KeyModifiers::Shift));
    assert_eq!(app.current_screen, CurrentScreen::ChangeDB);
    press(&mut app, key(KeyCode::Up));
    assert_eq!(app.selected_db_index, 0);
    press(&mut app, key(KeyCode::Down));
    press(&mut app, key(KeyCode::Down));
    assert_eq!(app.selected_db_index, 1);
    assert!(matches!(press(&mut app, ch('S')), Action::SaveConfig));
    assert_eq!(app.config.default, "work");
    assert!(matches!(press(&mut app, key(KeyCode::Enter)), Action::OpenDb(1)));
    assert_eq!(app.current_screen, CurrentScreen::ChangeDB);

    let mut other = Store::new();
    TodoList::create(&mut other, NewTodoList { name: "elsewhere".to_string() }, now()).unwrap();
    let work = app.config.dbs[1].clone();
    app.switch_to_db(work, other);
    assert_eq!(app.current_screen, CurrentScreen::Main);
    assert_eq!(app.current_db_config.name, "work");
    assert_eq!(app.lists_component.lists.len(), 1);
    assert_eq!(app.lists_component.lists[0].list.name, "elsewhere");
}

#[test]
fn new_database_is_named_on_its_own_screen() {
    let mut app = app_with(&[]);
    press(&mut app, with('C', KeyModifiers::Shift));
    press(&mut app, ch('A'));
    assert_eq!(app.current_screen, CurrentScreen::AddDB);
    assert!(matches!(press(&mut app, key(KeyCode::Enter)), Action::Nothing));
    type_text(&mut app, "home");
    match press(&mut app, key(KeyCode::Enter)) {
        Action::CreateDb(name) => assert_eq!(name, "home"),
        other => panic!("expected a database to create, got {:?}", other),
    }
    assert_eq!(app.current_screen, CurrentScreen::AddDB);
    assert_eq!(app.input_state.get_text(), "home");
    app.database_added(DBConfig {
        name: "home".to_string(),
        connection_str: "sqlite:home.db".to_string(),
    });
    assert_eq!(app.current_screen, CurrentScreen::ChangeDB);
    assert_eq!(app.input_state.get_text(), "");
    assert_eq!(app.config.dbs.len(), 2);
    press(&mut app, ch('A'));
    press(&mut app, key(KeyCode::Esc));
    assert_eq!(app.current_screen, CurrentScreen::ChangeDB);
    press(&mut app, key(KeyCode::Esc));
    assert_eq!(app.current_screen, CurrentScreen::Main);
}

// ===== Every state stays valid =====

#[test]
fn cursors_stay_valid_through_any_run_of_keys() {
    let keys = [
        ch('s'),
        key(KeyCode::Down),
        ch('d'),
        ch('a'),
        ch('x'),
        key(KeyCode::Enter),
        KeyEvent { code: KeyCode::Up, modifiers: KeyModifiers::Alt },
        KeyEvent { code: KeyCode::Down, modifiers: KeyModifiers::Alt },
        with('D', KeyModifiers::Shift),
        with('A', KeyModifiers::Shift),
        ch('y'),
        key(KeyCode::Enter),
        with('w', KeyModifiers::Alt),
        with('s', KeyModifiers::Alt),
        ch('b'),
        ch('w'),
        key(KeyCode::Esc),
        with('B', KeyModifiers::Shift),
        key(KeyCode::Enter),
        key(KeyCode::Left),
    ];
    let mut app = app_with(&[("a", &["1", "2", "3"]), ("b", &[]), ("c", &["4"])]);
    // A fixed walk through the keys that visits them in a scrambled order.
    let mut at: usize = 3;
    for _ in 0..600 {
        at = (at * 7 + 11) % keys.len();
        press(&mut app, keys[at]);
        assert!(cursors_are_valid(&app));
        let snapshot = UIList::get_all(&app.store);
        assert_eq!(snapshot.len(), app.lists_component.lists.len());
        for (shown, stored) in app.lists_component.lists.iter().zip(snapshot.iter()) {
            assert_eq!(shown.list.id, stored.list.id);
            assert_eq!(item_names(shown), item_names(stored));
            let keys: Vec<i64> = stored.items.iter().map(|i| i.item.ordering).collect();
            assert!(keys.windows(2).all(|w| w[0] < w[1]));
        }
        let list_keys: Vec<i64> = snapshot.iter().map(|l| l.list.ordering).collect();
        assert!(list_keys.windows(2).all(|w| w[0] < w[1]));
    }
}

// ===== What the store refuses =====

#[test]
fn refused_creation_is_reported_and_the_name_stays() {
    let mut store = Store::new();
    let last = TodoList {
        id: 1,
        name: "last".to_string(),
        ordering: i64::MAX,
        created_at: now(),
        updated_at: now(),
    };
    store.restore_list(last).unwrap();
    let full = TodoItem {
        id: 1,
        list_id: 1,
        name: "full".to_string(),
        is_done: false,
        priority: None,
        due_date: None,
        ordering: i64::MAX,
        created_at: now(),
        updated_at: now(),
    };
    store.restore_item(full).unwrap();
    let config = Config { default: "main".to_string(), dbs: vec![db()] };
    let mut app = App::new(store, config, db());

    press(&mut app, with('A', KeyModifiers::Shift));
    type_text(&mut app, "more");
    let action = press(&mut app, key(KeyCode::Enter));
    assert!(matches!(action, Action::Report(Failure::CreateList, StoreError::Exhausted)));
    assert_eq!(app.current_screen, CurrentScreen::AddList);
    assert_eq!(app.input_state.get_text(), "more");
    assert_eq!(app.lists_component.lists.len(), 1);
    press(&mut app, key(KeyCode::Esc));

    press(&mut app, ch('s'));
    press(&mut app, ch('a'));
    type_text(&mut app, "more");
    let action = press(&mut app, key(KeyCode::Enter));
    assert!(matches!(action, Action::Report(Failure::CreateItem, StoreError::Exhausted)));
    assert_eq!(app.current_screen, CurrentScreen::AddItem);
    assert_eq!(selected_list(&app).items.len(), 1);
    assert_eq!(app.store.take_pending().len(), 0);
}

#[test]
fn refused_moves_are_reported_and_nothing_moves() {
    let mut app = app_with(&[("a", &["1", "2"]), ("b", &[]), ("c", &[])]);
    press(&mut app, ch('s'));
    press(&mut app, key(KeyCode::Down));
    let one = selected_list(&app).items[0].item.id;
    app.store.delete_item(one);
    let down = KeyEvent { code: KeyCode::Down, modifiers: KeyModifiers::Alt };
    let action = press(&mut app, down);
    assert!(matches!(action, Action::Report(Failure::MoveItemDown, StoreError::NotFound)));
    assert_eq!(item_names(selected_list(&app)), vec!["1", "2"]);
    assert_eq!(item_cursor(&app), Some(0));

    press(&mut app, ch('s'));
    let b = selected_list(&app).list.id;
    app.store.delete_list(b);
    app.store.take_pending();
    let action = press(&mut app, with('w', KeyModifiers::Alt));
    assert!(matches!(action, Action::Report(Failure::MoveListUp, StoreError::NotFound)));
    let action = press(&mut app, with('s', KeyModifiers::Alt));
    assert!(matches!(action, Action::Report(Failure::MoveListDown, StoreError::NotFound)));
    assert_eq!(app.lists_component.lists.len(), 3);
    assert_eq!(app.lists_component.list_state.selected(), Some(1));
    assert_eq!(app.store.take_pending().len(), 0);
}

#[test]
fn text_can_be_changed_in_place() {
    let mut input = InputState::new();
    input.seed("abc", false);
    input.get_text_mut().push_str("def");
    assert_eq!(input.get_text(), "abcdef");
    assert_eq!(input.get_cursor_pos(), 3);
    input.add_char('x');
    assert_eq!(input.get_text(), "abcxdef");
}

#[test]
fn cursors_are_judged_at_run_time() {
    let mut app = app_with(&[("a", &["1"])]);
    assert!(app.lists_component.cursors_fit());
    app.lists_component.lists[0].item_state.select(Some(3));
    assert!(!app.lists_component.cursors_fit());
    app.lists_component.lists[0].item_state.select(Some(0));
    app.lists_component.list_state.select(Some(1));
    assert!(!app.lists_component.cursors_fit());
    app.lists_component.load_lists(&app.store);
    assert!(app.lists_component.cursors_fit());
    assert_eq!(app.lists_component.list_state.selected(), Some(0));
}
