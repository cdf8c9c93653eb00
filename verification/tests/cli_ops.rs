use judo::app::state::{App, CurrentScreen};
use judo::cli::ops::{
    add_item, add_list, delete_item, delete_list, get_db_from_option, get_db_pool_from_option,
    get_list_by_name_or_id, toggle_done_item, CliError,
};
use judo::db::config::{Config, DBConfig};
use judo::db::models::{NewTodoList, Timestamp, TodoItem, TodoList};
use judo::db::store::{Store, StoreError};

fn now() -> Timestamp {
    Timestamp { secs: 1_700_000_000, nanos: 0 }
}

/// An application over an empty store, with one database that is the
/// default one and the open one.
fn setup_test_app() -> App {
    let test_db_config =
        DBConfig { name: "test_db".to_string(), connection_str: "sqlite::memory:".to_string() };
    let config = Config { default: "test_db".to_string(), dbs: vec![test_db_config.clone()] };
    App::new(Store::new(), config, test_db_config)
}

// ===== List operations =====

#[test]
fn test_add_list_default_db() {
    let mut app = setup_test_app();

    add_list(&mut app, "Shopping List".to_string(), &None, now()).unwrap();

    let lists = TodoList::get_all(&app.store);
    assert_eq!(lists.len(), 1);
    assert_eq!(lists[0].name, "Shopping List");
}

#[test]
fn test_add_multiple_lists() {
    let mut app = setup_test_app();

    add_list(&mut app, "List 1".to_string(), &None, now()).unwrap();
    add_list(&mut app, "List 2".to_string(), &None, now()).unwrap();
    add_list(&mut app, "List 3".to_string(), &None, now()).unwrap();

    let lists = TodoList::get_all(&app.store);
    assert_eq!(lists.len(), 3);

    let names: Vec<String> = lists.iter().map(|l| l.name.clone()).collect();
    assert!(names.contains(&"List 1".to_string()));
    assert!(names.contains(&"List 2".to_string()));
    assert!(names.contains(&"List 3".to_string()));
}

#[test]
fn test_add_list_with_empty_name() {
    let mut app = setup_test_app();

    let res = add_list(&mut app, "".to_string(), &None, now());
    assert_eq!(res, Err(CliError::BlankName));

    let lists = TodoList::get_all(&app.store);
    assert_eq!(lists.len(), 0);
    assert_eq!(app.store.take_pending().len(), 0);
}

#[test]
fn test_add_list_with_special_characters() {
    let mut app = setup_test_app();

    let special_name = "Special List! @#$% & *()";
    add_list(&mut app, special_name.to_string(), &None, now()).unwrap();

    let lists = TodoList::get_all(&app.store);
    assert_eq!(lists.len(), 1);
    assert_eq!(lists[0].name, special_name);
}

#[test]
fn test_add_list_with_unicode() {
    let mut app = setup_test_app();

    let unicode_name = "🚀 Rocket List 测试";
    add_list(&mut app, unicode_name.to_string(), &None, now()).unwrap();

    let lists = TodoList::get_all(&app.store);
    assert_eq!(lists.len(), 1);
    assert_eq!(lists[0].name, unicode_name);
}

#[test]
fn test_delete_list_by_name() {
    let mut app = setup_test_app();

    add_list(&mut app, "To Delete".to_string(), &None, now()).unwrap();
    assert_eq!(TodoList::get_all(&app.store).len(), 1);

    delete_list(&mut app, Some("To Delete".to_string()), None, &None).unwrap();

    assert_eq!(TodoList::get_all(&app.store).len(), 0);
}

#[test]
fn test_delete_list_by_id() {
    let mut app = setup_test_app();

    let created =
        TodoList::create(&mut app.store, NewTodoList { name: "To Delete".to_string() }, now())
            .unwrap();

    delete_list(&mut app, None, Some(created.id), &None).unwrap();

    assert_eq!(TodoList::get_all(&app.store).len(), 0);
}

#[test]
fn test_delete_list_keeps_others() {
    let mut app = setup_test_app();

    add_list(&mut app, "Keep 1".to_string(), &None, now()).unwrap();
    add_list(&mut app, "Delete Me".to_string(), &None, now()).unwrap();
    add_list(&mut app, "Keep 2".to_string(), &None, now()).unwrap();

    delete_list(&mut app, Some("Delete Me".to_string()), None, &None).unwrap();

    let lists = TodoList::get_all(&app.store);
    assert_eq!(lists.len(), 2);

    let names: Vec<String> = lists.iter().map(|l| l.name.clone()).collect();
    assert!(names.contains(&"Keep 1".to_string()));
    assert!(names.contains(&"Keep 2".to_string()));
    assert!(!names.contains(&"Delete Me".to_string()));
}

// ===== Item operations =====

#[test]
fn test_add_item_to_list_by_name() {
    let mut app = setup_test_app();

    add_list(&mut app, "Shopping".to_string(), &None, now()).unwrap();
    add_item(&mut app, "Buy milk".to_string(), &None, None, Some("Shopping".to_string()), now())
        .unwrap();

    let lists = TodoList::get_all(&app.store);
    let items = lists[0].get_all_items(&app.store);
    assert_eq!(items.len(), 1);
    assert_eq!(items[0].name, "Buy milk");
    assert!(!items[0].is_done);
}

#[test]
fn test_add_item_to_list_by_id() {
    let mut app = setup_test_app();

    let created =
        TodoList::create(&mut app.store, NewTodoList { name: "Tasks".to_string() }, now())
            .unwrap();

    add_item(&mut app, "Complete project".to_string(), &None, Some(created.id), None, now())
        .unwrap();

    let items = TodoItem::get_by_list_id(&app.store, created.id);
    assert_eq!(items.len(), 1);
    assert_eq!(items[0].name, "Complete project");
}

#[test]
fn test_add_multiple_items_to_list() {
    let mut app = setup_test_app();

    add_list(&mut app, "Work".to_string(), &None, now()).unwrap();

    for name in ["Item 1", "Item 2", "Item 3"] {
        add_item(&mut app, name.to_string(), &None, None, Some("Work".to_string()), now())
            .unwrap();
    }

    let lists = TodoList::get_all(&app.store);
    let items = lists[0].get_all_items(&app.store);
    assert_eq!(items.len(), 3);

    let names: Vec<String> = items.iter().map(|i| i.name.clone()).collect();
    assert!(names.contains(&"Item 1".to_string()));
    assert!(names.contains(&"Item 2".to_string()));
    assert!(names.contains(&"Item 3".to_string()));
}

#[test]
fn test_add_item_with_special_characters() {
    let mut app = setup_test_app();

    add_list(&mut app, "Test".to_string(), &None, now()).unwrap();

    let special_name = "Special! @#$% & *() item";
    add_item(&mut app, special_name.to_string(), &None, None, Some("Test".to_string()), now())
        .unwrap();

    let lists = TodoList::get_all(&app.store);
    let items = lists[0].get_all_items(&app.store);
    assert_eq!(items[0].name, special_name);
}

#[test]
fn test_add_item_with_unicode() {
    let mut app = setup_test_app();

    add_list(&mut app, "Test".to_string(), &None, now()).unwrap();

    let unicode_name = "🎉 Party 测试 item";
    add_item(&mut app, unicode_name.to_string(), &None, None, Some("Test".to_string()), now())
        .unwrap();

    let lists = TodoList::get_all(&app.store);
    let items = lists[0].get_all_items(&app.store);
    assert_eq!(items[0].name, unicode_name);
}

#[test]
fn test_delete_item_by_id() {
    let mut app = setup_test_app();

    add_list(&mut app, "Test".to_string(), &None, now()).unwrap();
    add_item(&mut app, "To Delete".to_string(), &None, None, Some("Test".to_string()), now())
        .unwrap();

    let lists = TodoList::get_all(&app.store);
    let items = lists[0].get_all_items(&app.store);
    assert_eq!(items.len(), 1);

    delete_item(&mut app, items[0].id, &None).unwrap();

    assert_eq!(lists[0].get_all_items(&app.store).len(), 0);
}

#[test]
fn test_delete_item_keeps_others() {
    let mut app = setup_test_app();

    add_list(&mut app, "Test".to_string(), &None, now()).unwrap();
    for name in ["Item 1", "Item 2", "Item 3"] {
        add_item(&mut app, name.to_string(), &None, None, Some("Test".to_string()), now())
            .unwrap();
    }

    let lists = TodoList::get_all(&app.store);
    let items = lists[0].get_all_items(&app.store);
    let id_to_delete = items.iter().find(|i| i.name == "Item 2").unwrap().id;

    delete_item(&mut app, id_to_delete, &None).unwrap();

    let remaining = lists[0].get_all_items(&app.store);
    assert_eq!(remaining.len(), 2);

    let names: Vec<String> = remaining.iter().map(|i| i.name.clone()).collect();
    assert!(names.contains(&"Item 1".to_string()));
    assert!(names.contains(&"Item 3".to_string()));
    assert!(!names.contains(&"Item 2".to_string()));
}

#[test]
fn test_toggle_done_item() {
    let mut app = setup_test_app();

    add_list(&mut app, "Test".to_string(), &None, now()).unwrap();
    add_item(&mut app, "Toggle Me".to_string(), &None, None, Some("Test".to_string()), now())
        .unwrap();

    let lists = TodoList::get_all(&app.store);
    let items = lists[0].get_all_items(&app.store);
    let item_id = items[0].id;
    assert!(!items[0].is_done);

    // Toggle to done
    toggle_done_item(&mut app, item_id, &None, now()).unwrap();
    let item = TodoItem::get_by_id(&app.store, item_id).unwrap();
    assert!(item.is_done);

    // Toggle back to not done
    toggle_done_item(&mut app, item_id, &None, now()).unwrap();
    let item = TodoItem::get_by_id(&app.store, item_id).unwrap();
    assert!(!item.is_done);
}

#[test]
fn test_toggle_done_multiple_times() {
    let mut app = setup_test_app();

    add_list(&mut app, "Test".to_string(), &None, now()).unwrap();
    add_item(&mut app, "Toggle Test".to_string(), &None, None, Some("Test".to_string()), now())
        .unwrap();

    let lists = TodoList::get_all(&app.store);
    let items = lists[0].get_all_items(&app.store);
    let item_id = items[0].id;

    for i in 0..10 {
        toggle_done_item(&mut app, item_id, &None, now()).unwrap();
        let item = TodoItem::get_by_id(&app.store, item_id).unwrap();
        let expected_done = (i + 1) % 2 == 1;
        assert_eq!(item.is_done, expected_done);
    }
}

// ===== Edge cases =====

#[test]
fn test_add_item_with_empty_name() {
    let mut app = setup_test_app();

    add_list(&mut app, "Test".to_string(), &None, now()).unwrap();
    let res = add_item(&mut app, "".to_string(), &None, None, Some("Test".to_string()), now());
    assert_eq!(res, Err(CliError::BlankName));

    let lists = TodoList::get_all(&app.store);
    let items = lists[0].get_all_items(&app.store);
    assert_eq!(items.len(), 0);
    assert_eq!(app.store.take_pending().len(), 1);
}

#[test]
fn test_add_item_with_very_long_name() {
    let mut app = setup_test_app();

    add_list(&mut app, "Test".to_string(), &None, now()).unwrap();

    let long_name = "A".repeat(1000);
    add_item(&mut app, long_name.clone(), &None, None, Some("Test".to_string()), now()).unwrap();

    let lists = TodoList::get_all(&app.store);
    let items = lists[0].get_all_items(&app.store);
    assert_eq!(items[0].name, long_name);
}

#[test]
fn test_delete_list_with_items() {
    let mut app = setup_test_app();

    add_list(&mut app, "To Delete".to_string(), &None, now()).unwrap();
    add_item(&mut app, "Item 1".to_string(), &None, None, Some("To Delete".to_string()), now())
        .unwrap();
    add_item(&mut app, "Item 2".to_string(), &None, None, Some("To Delete".to_string()), now())
        .unwrap();

    let lists = TodoList::get_all(&app.store);
    assert_eq!(lists[0].get_all_items(&app.store).len(), 2);

    delete_list(&mut app, Some("To Delete".to_string()), None, &None).unwrap();

    assert_eq!(TodoList::get_all(&app.store).len(), 0);
}

#[test]
fn test_multiple_lists_with_items() {
    let mut app = setup_test_app();

    add_list(&mut app, "List 1".to_string(), &None, now()).unwrap();
    add_list(&mut app, "List 2".to_string(), &None, now()).unwrap();

    add_item(&mut app, "L1 Item 1".to_string(), &None, None, Some("List 1".to_string()), now())
        .unwrap();
    add_item(&mut app, "L1 Item 2".to_string(), &None, None, Some("List 1".to_string()), now())
        .unwrap();
    add_item(&mut app, "L2 Item 1".to_string(), &None, None, Some("List 2".to_string()), now())
        .unwrap();

    let lists = TodoList::get_all(&app.store);
    let list1 = lists.iter().find(|l| l.name == "List 1").unwrap();
    let list2 = lists.iter().find(|l| l.name == "List 2").unwrap();

    assert_eq!(list1.get_all_items(&app.store).len(), 2);
    assert_eq!(list2.get_all_items(&app.store).len(), 1);
}

#[test]
fn test_list_isolation() {
    let mut app = setup_test_app();

    add_list(&mut app, "List A".to_string(), &None, now()).unwrap();
    add_list(&mut app, "List B".to_string(), &None, now()).unwrap();

    add_item(&mut app, "Item A1".to_string(), &None, None, Some("List A".to_string()), now())
        .unwrap();
    add_item(&mut app, "Item B1".to_string(), &None, None, Some("List B".to_string()), now())
        .unwrap();

    let lists = TodoList::get_all(&app.store);
    let list_a = lists.iter().find(|l| l.name == "List A").unwrap();
    let list_b = lists.iter().find(|l| l.name == "List B").unwrap();

    // Delete item from List A
    let items_a = list_a.get_all_items(&app.store);
    delete_item(&mut app, items_a[0].id, &None).unwrap();

    // Verify List A empty, List B untouched
    assert_eq!(list_a.get_all_items(&app.store).len(), 0);
    let items_b = list_b.get_all_items(&app.store);
    assert_eq!(items_b.len(), 1);
    assert_eq!(items_b[0].name, "Item B1");
}

// ===== Workflows =====

#[test]
fn test_complex_workflow() {
    let mut app = setup_test_app();

    // Create a shopping list with items
    add_list(&mut app, "Shopping".to_string(), &None, now()).unwrap();
    for name in ["Milk", "Bread", "Eggs"] {
        add_item(&mut app, name.to_string(), &None, None, Some("Shopping".to_string()), now())
            .unwrap();
    }

    // Mark Milk as done
    let lists = TodoList::get_all(&app.store);
    let items = lists[0].get_all_items(&app.store);
    let milk_id = items.iter().find(|i| i.name == "Milk").unwrap().id;
    toggle_done_item(&mut app, milk_id, &None, now()).unwrap();

    // Delete Bread
    let bread_id = items.iter().find(|i| i.name == "Bread").unwrap().id;
    delete_item(&mut app, bread_id, &None).unwrap();

    // Verify final state
    let final_items = lists[0].get_all_items(&app.store);
    assert_eq!(final_items.len(), 2);

    let milk = final_items.iter().find(|i| i.name == "Milk").unwrap();
    let eggs = final_items.iter().find(|i| i.name == "Eggs").unwrap();
    assert!(milk.is_done);
    assert!(!eggs.is_done);
}

#[test]
fn test_multiple_operations_on_same_item() {
    let mut app = setup_test_app();

    add_list(&mut app, "Test".to_string(), &None, now()).unwrap();
    add_item(&mut app, "Test Item".to_string(), &None, None, Some("Test".to_string()), now())
        .unwrap();

    let lists = TodoList::get_all(&app.store);
    let item_id = lists[0].get_all_items(&app.store)[0].id;

    // Toggle 3 times: false -> true -> false -> true
    toggle_done_item(&mut app, item_id, &None, now()).unwrap();
    toggle_done_item(&mut app, item_id, &None, now()).unwrap();
    toggle_done_item(&mut app, item_id, &None, now()).unwrap();

    let item = TodoItem::get_by_id(&app.store, item_id).unwrap();
    assert!(item.is_done);
}

#[test]
fn test_empty_database_operations() {
    let mut app = setup_test_app();

    assert_eq!(TodoList::get_all(&app.store).len(), 0);

    // Add then immediately delete
    add_list(&mut app, "Temporary".to_string(), &None, now()).unwrap();
    delete_list(&mut app, Some("Temporary".to_string()), None, &None).unwrap();

    assert_eq!(TodoList::get_all(&app.store).len(), 0);
}

// ===== Which database, which list =====

#[test]
fn database_is_the_named_one_or_the_default() {
    let mut app = setup_test_app();
    app.config.dbs.push(DBConfig {
        name: "work".to_string(),
        connection_str: "sqlite:work.db".to_string(),
    });

    let default = get_db_from_option(&app, &None).unwrap();
    assert_eq!(default.name, "test_db");
    assert_eq!(default.connection_str, "sqlite::memory:");

    let named = get_db_from_option(&app, &Some("work".to_string())).unwrap();
    assert_eq!(named.connection_str, "sqlite:work.db");

    assert_eq!(
        get_db_from_option(&app, &Some("nowhere".to_string())).unwrap_err(),
        CliError::DbNotFound
    );
}

#[test]
fn missing_default_database_is_reported() {
    let mut app = setup_test_app();
    app.config.default = "gone".to_string();
    assert_eq!(get_db_from_option(&app, &None).unwrap_err(), CliError::DbNotFound);
    assert_eq!(
        add_list(&mut app, "Never".to_string(), &None, now()).unwrap_err(),
        CliError::DbNotFound
    );
    assert_eq!(TodoList::get_all(&app.store).len(), 0);
}

#[test]
fn database_that_is_not_open_is_refused() {
    let mut app = setup_test_app();
    app.config.dbs.push(DBConfig {
        name: "work".to_string(),
        connection_str: "sqlite:work.db".to_string(),
    });
    let work = Some("work".to_string());
    assert_eq!(get_db_pool_from_option(&app, &work).unwrap_err(), CliError::DbNotOpen);
    assert_eq!(get_db_pool_from_option(&app, &None), Ok(()));
    assert_eq!(
        add_list(&mut app, "Never".to_string(), &work, now()).unwrap_err(),
        CliError::DbNotOpen
    );
    assert_eq!(TodoList::get_all(&app.store).len(), 0);
}

#[test]
fn list_needs_exactly_one_of_name_and_id() {
    let mut app = setup_test_app();
    add_list(&mut app, "Chores".to_string(), &None, now()).unwrap();
    let id = TodoList::get_all(&app.store)[0].id;

    let both = get_list_by_name_or_id(&app, Some("Chores".to_string()), Some(id), &None);
    assert_eq!(both.unwrap_err(), CliError::BothNameAndId);
    let neither = get_list_by_name_or_id(&app, None, None, &None);
    assert_eq!(neither.unwrap_err(), CliError::NeitherNameNorId);

    // Nothing is touched where the selector is refused.
    assert_eq!(
        delete_list(&mut app, Some("Chores".to_string()), Some(id), &None).unwrap_err(),
        CliError::BothNameAndId
    );
    assert_eq!(
        add_item(&mut app, "x".to_string(), &None, None, None, now()).unwrap_err(),
        CliError::NeitherNameNorId
    );
    assert_eq!(TodoList::get_all(&app.store).len(), 1);
    assert_eq!(TodoItem::get_by_list_id(&app.store, id).len(), 0);
}

#[test]
fn list_is_found_by_name_or_by_id() {
    let mut app = setup_test_app();
    add_list(&mut app, "Chores".to_string(), &None, now()).unwrap();
    add_list(&mut app, "Errands".to_string(), &None, now()).unwrap();
    add_list(&mut app, "Chores".to_string(), &None, now()).unwrap();
    let lists = TodoList::get_all(&app.store);

    let by_name = get_list_by_name_or_id(&app, Some("Chores".to_string()), None, &None).unwrap();
    assert_eq!(by_name.id, lists[0].id);
    let by_id = get_list_by_name_or_id(&app, None, Some(lists[1].id), &None).unwrap();
    assert_eq!(by_id.name, "Errands");

    assert_eq!(
        get_list_by_name_or_id(&app, Some("Nope".to_string()), None, &None).unwrap_err(),
        CliError::ListNotFound
    );
    assert_eq!(
        get_list_by_name_or_id(&app, None, Some(999), &None).unwrap_err(),
        CliError::ListNotFound
    );
}

#[test]
fn missing_item_is_reported_and_nothing_changes() {
    let mut app = setup_test_app();
    add_list(&mut app, "Chores".to_string(), &None, now()).unwrap();
    add_item(&mut app, "Dust".to_string(), &None, None, Some("Chores".to_string()), now()).unwrap();
    let pending_before = app.store.take_pending().len();
    assert_eq!(pending_before, 2);

    assert_eq!(delete_item(&mut app, 42, &None).unwrap_err(), CliError::ItemNotFound);
    assert_eq!(toggle_done_item(&mut app, 42, &None, now()).unwrap_err(), CliError::ItemNotFound);
    assert_eq!(app.store.take_pending().len(), 0);
    assert_eq!(app.current_screen, CurrentScreen::Main);
}

#[test]
fn store_errors_reach_the_command_line() {
    let mut app = setup_test_app();
    // A list whose key is the largest there is leaves no key for another one.
    app.store
        .restore_list(TodoList {
            id: 7,
            name: "Last".to_string(),
            ordering: i64::MAX,
            created_at: now(),
            updated_at: now(),
        })
        .unwrap();
    assert_eq!(
        add_list(&mut app, "One more".to_string(), &None, now()).unwrap_err(),
        CliError::Storage(StoreError::Exhausted)
    );
    assert_eq!(TodoList::get_all(&app.store).len(), 1);
}

#[test]
fn wrong_data_ends_the_process_with_its_own_code() {
    for error in [
        CliError::BlankName,
        CliError::BothNameAndId,
        CliError::NeitherNameNorId,
        CliError::ListNotFound,
        CliError::ItemNotFound,
    ] {
        assert_eq!(error.exit_code(), 65);
    }
    for error in [
        CliError::Storage(StoreError::Exhausted),
        CliError::DbNotFound,
        CliError::DbNotOpen,
        CliError::Layout,
    ] {
        assert_eq!(error.exit_code(), 1);
    }
}

#[test]
fn commands_stamp_records_with_the_time_given() {
    let mut app = setup_test_app();
    let then = Timestamp { secs: 86_400, nanos: 5 };
    add_list(&mut app, "Chores".to_string(), &None, then).unwrap();
    add_item(&mut app, "Dust".to_string(), &None, None, Some("Chores".to_string()), then)
        .unwrap();
    let list = TodoList::get_all(&app.store).remove(0);
    assert_eq!(list.created_at, then);
    let item = TodoItem::get_by_list_id(&app.store, list.id).remove(0);
    assert_eq!(item.created_at, then);
    assert_eq!(item.updated_at, then);
    let later = Timestamp { secs: 86_401, nanos: 0 };
    toggle_done_item(&mut app, item.id, &None, later).unwrap();
    let item = TodoItem::get_by_id(&app.store, item.id).unwrap();
    assert_eq!(item.created_at, then);
    assert_eq!(item.updated_at, later);
}

#[test]
fn blank_names_are_refused_before_the_store_is_touched() {
    let mut app = setup_test_app();
    add_list(&mut app, "Chores".to_string(), &None, now()).unwrap();
    app.store.take_pending();
    for blank in ["", " ", "\t \n", "\u{00A0}\u{3000}"] {
        let res = add_list(&mut app, blank.to_string(), &None, now());
        assert_eq!(res, Err(CliError::BlankName));
        let res =
            add_item(&mut app, blank.to_string(), &None, None, Some("Chores".to_string()), now());
        assert_eq!(res, Err(CliError::BlankName));
    }
    assert_eq!(TodoList::get_all(&app.store).len(), 1);
    assert_eq!(TodoItem::get_by_list_id(&app.store, 1).len(), 0);
    assert_eq!(app.store.take_pending().len(), 0);
    // A name with anything but white space in it is taken as it stands.
    add_list(&mut app, " x ".to_string(), &None, now()).unwrap();
    assert_eq!(TodoList::get_all(&app.store)[1].name, " x ");
}

#[test]
fn blank_name_comes_after_the_database_and_before_the_list() {
    let mut app = setup_test_app();
    let nowhere = Some("nowhere".to_string());
    assert_eq!(add_list(&mut app, "".to_string(), &nowhere, now()), Err(CliError::DbNotFound));
    assert_eq!(
        add_item(&mut app, " ".to_string(), &nowhere, None, None, now()),
        Err(CliError::DbNotFound)
    );
    // The selector is not looked at while the name is blank.
    assert_eq!(
        add_item(&mut app, " ".to_string(), &None, None, None, now()),
        Err(CliError::BlankName)
    );
    assert_eq!(
        add_item(&mut app, " ".to_string(), &None, Some(1), Some("x".to_string()), now()),
        Err(CliError::BlankName)
    );
    assert_eq!(
        add_item(&mut app, "x".to_string(), &None, None, None, now()),
        Err(CliError::NeitherNameNorId)
    );
}
