use judo::app::state::App;
use judo::cli::ops::{list_dbs, list_items, list_lists, DbContents};
use judo::db::config::{Config, DBConfig};
use judo::db::models::{NewTodoItem, NewTodoList, Timestamp, TodoItem, TodoList, UIList};
use judo::db::store::Store;
use judo::ui::components::items::ItemsComponent;

fn now() -> Timestamp {
    Timestamp { secs: 5, nanos: 0 }
}

fn store_with(lists: &[(&str, &[&str])]) -> Store {
    let mut store = Store::new();
    for (name, items) in lists {
        let list =
            TodoList::create(&mut store, NewTodoList { name: name.to_string() }, now()).unwrap();
        for item in items.iter() {
            let new_item = NewTodoItem {
                list_id: list.id,
                name: item.to_string(),
                priority: None,
                due_date: None,
            };
            TodoItem::create(&mut store, new_item, now()).unwrap();
        }
    }
    store
}

fn contents(name: &str, lists: &[(&str, &[&str])]) -> DbContents {
    DbContents { name: name.to_string(), store: store_with(lists) }
}

#[test]
fn databases_are_laid_out_in_columns() {
    let dbs = vec![
        DBConfig { name: "test_db".to_string(), connection_str: "sqlite::memory:".to_string() },
        DBConfig { name: "w".to_string(), connection_str: "sqlite:work.db".to_string() },
    ];
    let config = Config { default: "w".to_string(), dbs };
    let db = config.dbs[0].clone();
    let app = App::new(Store::new(), config, db);
    let table = list_dbs(&app).unwrap();
    assert_eq!(
        table,
        "Name     Connection string\n\
         ----     -----------------\n\
         test_db  sqlite::memory:\n\
         w        sqlite:work.db\n"
    );
}

#[test]
fn no_database_gives_the_header_alone() {
    let config = Config { default: "".to_string(), dbs: vec![] };
    let db = DBConfig { name: "".to_string(), connection_str: "".to_string() };
    let app = App::new(Store::new(), config, db);
    assert_eq!(list_dbs(&app).unwrap(), "Name  Connection string\n----  -----------------\n");
}

#[test]
fn lists_are_counted_across_databases() {
    let dbs = vec![
        contents("home", &[("Groceries", &["milk", "eggs"]), ("Chores", &[])]),
        contents("work", &[("Q3", &["plan"])]),
    ];
    let table = list_lists(&dbs, None).unwrap();
    assert_eq!(
        table,
        "Name       ID  DB    No of items\n\
         ----       --  --    -----------\n\
         Groceries  1   home  2\n\
         Chores     2   home  0\n\
         Q3         1   work  1\n"
    );
}

#[test]
fn lists_of_one_database_can_be_asked_for() {
    let dbs = vec![
        contents("home", &[("Groceries", &["milk", "eggs"])]),
        contents("work", &[("Q3", &["plan"])]),
    ];
    let table = list_lists(&dbs, Some("work".to_string())).unwrap();
    assert_eq!(
        table,
        "Name  ID  DB    No of items\n\
         ----  --  --    -----------\n\
         Q3    1   work  1\n"
    );
    let none = list_lists(&dbs, Some("nowhere".to_string())).unwrap();
    assert_eq!(none, "Name  ID  DB  No of items\n----  --  --  -----------\n");
}

#[test]
fn items_are_listed_with_list_and_database() {
    let mut home = contents("home", &[("Groceries", &["milk", "eggs"]), ("Chores", &["dust"])]);
    let mut eggs = TodoItem::get_by_id(&home.store, 2).unwrap();
    eggs.toggle_done(&mut home.store, now());
    let dbs = vec![home, contents("work", &[])];
    let table = list_items(&dbs).unwrap();
    assert_eq!(
        table,
        "Name  ID  List name  List ID  DB    Done?\n\
         ----  --  ---------  -------  --    -----\n\
         milk  1   Groceries  1        home  false\n\
         eggs  2   Groceries  1        home  true\n\
         dust  3   Chores     2        home  false\n"
    );
}

#[test]
fn identities_are_written_in_decimal() {
    let mut store = Store::new();
    for (id, name) in [(-45, "neg"), (0, "zero"), (1234567890123, "big")] {
        let list =
            TodoList { id, name: name.to_string(), ordering: id, created_at: now(), updated_at: now() };
        store.restore_list(list).unwrap();
    }
    let dbs = vec![DbContents { name: "d".to_string(), store }];
    let table = list_lists(&dbs, None).unwrap();
    assert_eq!(
        table,
        "Name  ID             DB  No of items\n\
         ----  --             --  -----------\n\
         neg   -45            d   0\n\
         zero  0              d   0\n\
         big   1234567890123  d   0\n"
    );
}

#[test]
fn extreme_identities_are_written_in_full() {
    let mut store = Store::new();
    let list = TodoList {
        id: i64::MIN,
        name: "min".to_string(),
        ordering: 1,
        created_at: now(),
        updated_at: now(),
    };
    store.restore_list(list).unwrap();
    let list = TodoList {
        id: i64::MAX - 1,
        name: "max".to_string(),
        ordering: 2,
        created_at: now(),
        updated_at: now(),
    };
    store.restore_list(list).unwrap();
    let dbs = vec![DbContents { name: "d".to_string(), store }];
    let table = list_lists(&dbs, None).unwrap();
    assert!(table.contains("min   -9223372036854775808  d"));
    assert!(table.contains("max   9223372036854775806   d"));
}

// ===== What the screen shows of the items =====

fn snapshot_of(items: &[&str]) -> UIList {
    UIList::get_all(&store_with(&[("l", items)])).remove(0)
}

#[test]
fn nothing_is_shown_without_a_list() {
    assert!(ItemsComponent::render(None, 80).is_none());
}

#[test]
fn names_are_broken_to_the_width_that_is_left() {
    let list = snapshot_of(&["Buy milk and eggs", "short"]);
    let rows = ItemsComponent::render(Some(&list), 19).unwrap();
    assert_eq!(rows.len(), 2);
    assert_eq!(rows[0].lines, vec!["Buy milk", "and eggs"]);
    assert_eq!(rows[1].lines, vec!["short"]);
    let wide = ItemsComponent::render(Some(&list), 80).unwrap();
    assert_eq!(wide[0].lines, vec!["Buy milk and eggs"]);
}

#[test]
fn names_stay_whole_where_no_width_is_left() {
    let list = snapshot_of(&["Buy milk and eggs"]);
    for width in [0, 5, 9] {
        let rows = ItemsComponent::render(Some(&list), width).unwrap();
        assert_eq!(rows[0].lines, vec!["Buy milk and eggs"]);
    }
    let rows = ItemsComponent::render(Some(&list), 10).unwrap();
    assert_eq!(rows[0].lines.len(), 14);
    assert_eq!(rows[0].lines[0], "B");
}

#[test]
fn done_items_are_struck_through() {
    let mut store = store_with(&[("l", &["a", "b"])]);
    let mut b = TodoItem::get_by_id(&store, 2).unwrap();
    b.toggle_done(&mut store, now());
    let list = UIList::get_all(&store).remove(0);
    let rows = ItemsComponent::render(Some(&list), 40).unwrap();
    assert!(!rows[0].crossed_out);
    assert!(rows[1].crossed_out);
}

#[test]
fn an_empty_list_shows_no_rows() {
    let list = snapshot_of(&[]);
    assert_eq!(ItemsComponent::render(Some(&list), 40).unwrap().len(), 0);
}
