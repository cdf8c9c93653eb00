//! The operations of the command line: each names a database, acts on the
//! store that is open, and answers with a result or a table.

use vstd::prelude::*;
use vstd::string::StringExecFns;
use crate::app::state::{App, AppView};
use crate::cli::table::{
    align, db_row, db_rows, dbs_table, item_row, item_rows, list_row, list_rows, scope_rows,
    tab_aligned, table_output,
};
use crate::db::config::{ConfigView, DBConfig};
use crate::db::models::{
    item_records, list_records, ListRecord, NewTodoItem, NewTodoList, Timestamp, TodoItem,
    TodoList,
};
use crate::db::store::{lemma_list_pos, Store, StoreError, StoreView};
use crate::text::{is_blank, is_blank_text, push_bool, push_int, push_nat, str_eq};

verus! {

/// Why an operation of the command line was not carried out.
#[derive(Debug, Clone, Copy, PartialEq, Eq, Structural)]
pub enum CliError {
    /// The store refused the operation.
    Storage(StoreError),
    /// The list was named and given by identity at once.
    BothNameAndId,
    /// The list was neither named nor given by identity.
    NeitherNameNorId,
    /// The name for a new list or item is blank.
    BlankName,
    /// The database holds no such list.
    ListNotFound,
    /// The database holds no such item.
    ItemNotFound,
    /// No database of that name is known, or no default database.
    DbNotFound,
    /// The database is known, but it is not the one that is open.
    DbNotOpen,
    /// The table could not be laid out.
    Layout,
}

/// The exit code of a process that ends because its input data is wrong.
pub open spec fn data_error_code() -> i32 {
    65
}

/// The exit code of a process that ends on any other error.
pub open spec fn failure_code() -> i32 {
    1
}

/// `exitcode::DATAERR`: the exit code for incorrect input data, 65.
#[verifier::external_body]
fn dataerr() -> (code: i32)
    ensures
        code == data_error_code(),
{
    exitcode::DATAERR
}

impl CliError {
    /// The error lies in what the user asked for: a blank name, a list given
    /// twice or not at all, or a list or item that is not there.
    pub open spec fn is_data_error(self) -> bool {
        match self {
            CliError::BlankName
            | CliError::BothNameAndId
            | CliError::NeitherNameNorId
            | CliError::ListNotFound
            | CliError::ItemNotFound => true,
            _ => false,
        }
    }

    /// The exit code for a process that ends on this error.
    pub fn exit_code(&self) -> (code: i32)
        ensures
            code == (if self.is_data_error() {
                data_error_code()
            } else {
                failure_code()
            }),
    {
        match self {
            CliError::BlankName
            | CliError::BothNameAndId
            | CliError::NeitherNameNorId
            | CliError::ListNotFound
            | CliError::ItemNotFound => dataerr(),
            _ => 1,
        }
    }
}

/// The name of the database that `db` asks for: the one it names, or the
/// default one.
pub open spec fn wanted_db(config: ConfigView, db: Option<String>) -> Seq<char> {
    match db {
        Some(name) => name@,
        None => config.default,
    }
}

/// `i` is the position of the first list named `name`.
pub open spec fn is_first_list_named(v: StoreView, name: Seq<char>, i: int) -> bool {
    &&& 0 <= i < v.scopes.len()
    &&& v.scopes[i].list.name == name
    &&& forall|j: int| 0 <= j < i ==> (#[trigger] v.scopes[j]).list.name != name
}

/// Some list is named `name`.
pub open spec fn has_list_named(v: StoreView, name: Seq<char>) -> bool {
    exists|i: int| 0 <= i < v.scopes.len() && (#[trigger] v.scopes[i]).list.name == name
}

/// Why the database that `db_name` asks for cannot be worked on, if it
/// cannot: it is unknown, or it is not the open one.
pub open spec fn open_db_error(app: AppView, db_name: Option<String>) -> Option<
    CliError,
> {
    let name = wanted_db(app.config, db_name);
    if !app.config.has_db(name) {
        Some(CliError::DbNotFound)
    } else if name != app.current_db.name {
        Some(CliError::DbNotOpen)
    } else {
        None
    }
}

/// Why no list is found for a name or an identity, if none is: both or
/// neither were given, or the store holds no such list.
pub open spec fn find_list_error(v: StoreView, name: Option<String>, id: Option<i64>) -> Option<
    CliError,
> {
    match (id, name) {
        (Some(list_id), None) => if v.has_list(list_id) {
            None
        } else {
            Some(CliError::ListNotFound)
        },
        (None, Some(list_name)) => if has_list_named(v, list_name@) {
            None
        } else {
            Some(CliError::ListNotFound)
        },
        (Some(_), Some(_)) => Some(CliError::BothNameAndId),
        (None, None) => Some(CliError::NeitherNameNorId),
    }
}

/// `list` is the list that a name or an identity stands for: the one with
/// the identity, or the first one with the name.
pub open spec fn is_list_found(v: StoreView, name: Option<String>, id: Option<i64>, list: ListRecord) -> bool {
    match (id, name) {
        (Some(list_id), None) => v.has_list(list_id) && list == v.scope_of(list_id).list,
        (None, Some(list_name)) => exists|i: int|
            is_first_list_named(v, list_name@, i) && list == v.scopes[i].list,
        _ => false,
    }
}

/// The database that `db` names, or the default one where it names none.
pub fn get_db_from_option(app: &App, db: &Option<String>) -> (res: Result<DBConfig, CliError>)
    ensures
        app@.config.has_db(wanted_db(app@.config, *db)) ==> (res matches Ok(found) && exists|i: int|
            app@.config.is_first_named(wanted_db(app@.config, *db), i) && found@
                == app@.config.dbs[i]),
        !app@.config.has_db(wanted_db(app@.config, *db)) ==> res == Err::<DBConfig, CliError>(
            CliError::DbNotFound,
        ),
{
    let found = match db {
        Some(name) => app.config.get_db_by_name(name.as_str()),
        None => app.config.get_default(),
    };
    match found {
        Some(config) => Ok(config),
        None => Err(CliError::DbNotFound),
    }
}

/// Makes sure that the database that `db_option` asks for is the open one.
pub fn get_db_pool_from_option(app: &App, db_option: &Option<String>) -> (res: Result<(), CliError>)
    ensures
        match open_db_error(app@, *db_option) {
            Some(e) => res == Err::<(), CliError>(e),
            None => res is Ok,
        },
{
    let target_db = match get_db_from_option(app, db_option) {
        Ok(db) => db,
        Err(e) => {
            return Err(e);
        },
    };
    if str_eq(target_db.name.as_str(), app.current_db_config.name.as_str()) {
        Ok(())
    } else {
        Err(CliError::DbNotOpen)
    }
}

/// The list that `name` or `id` stands for in the database that `db_name`
/// asks for. Exactly one of `name` and `id` has to be given.
#[verifier::loop_isolation(false)]
pub fn get_list_by_name_or_id(
    app: &App,
    name: Option<String>,
    id: Option<i64>,
    db_name: &Option<String>,
) -> (res: Result<TodoList, CliError>)
    requires
        app.wf(),
    ensures
        match open_db_error(app@, *db_name) {
            Some(e) => res == Err::<TodoList, CliError>(e),
            None => match find_list_error(app@.store, name, id) {
                Some(e) => res == Err::<TodoList, CliError>(e),
                None => res matches Ok(list) && is_list_found(app@.store, name, id, list@),
            },
        },
{
    match get_db_pool_from_option(app, db_name) {
        Ok(()) => {},
        Err(e) => {
            return Err(e);
        },
    }
    match (id, name) {
        (Some(list_id), None) => {
            match TodoList::get_by_id(&app.store, list_id) {
                Some(list) => Ok(list),
                None => Err(CliError::ListNotFound),
            }
        },
        (None, Some(list_name)) => {
            let lists = TodoList::get_all(&app.store);
            let ghost v = app@.store;
            assert(lists.len() == v.scopes.len()) by {
                assert(list_records(lists@).len() == v.lists().len());
            }
            let mut k: usize = 0;
            while k < lists.len()
                invariant
                    k <= lists.len(),
                    lists.len() == v.scopes.len(),
                    list_records(lists@) == v.lists(),
                    forall|j: int| 0 <= j < k ==> (#[trigger] v.scopes[j]).list.name != list_name@,
                decreases lists.len() - k,
            {
                proof {
                    assert(list_records(lists@)[k as int] == lists@[k as int]@);
                    assert(v.lists()[k as int] == v.scopes[k as int].list);
                }
                if str_eq(lists[k].name.as_str(), list_name.as_str()) {
                    let found = lists[k].clone();
                    proof {
                        assert(v.scopes[k as int].list.name == list_name@);
                        assert(has_list_named(v, list_name@));
                        assert(is_first_list_named(v, list_name@, k as int));
                        assert(found@ == v.scopes[k as int].list);
                    }
                    return Ok(found);
                }
                k += 1;
            }
            assert(!has_list_named(v, list_name@));
            Err(CliError::ListNotFound)
        },
        (Some(_), Some(_)) => Err(CliError::BothNameAndId),
        (None, None) => Err(CliError::NeitherNameNorId),
    }
}

/// What adding a list named `name` at the time `now` comes to: `res` is the
/// answer and `after` the state that follows `before`. A blank name is no
/// name: it is refused, and nothing is stored.
pub open spec fn add_list_post(
    before: AppView,
    name: Seq<char>,
    db_name: Option<String>,
    now: Timestamp,
    res: Result<(), CliError>,
    after: AppView,
) -> bool {
    match open_db_error(before, db_name) {
        Some(e) => res == Err::<(), CliError>(e) && after == before,
        None => if is_blank_text(name) {
            res == Err::<(), CliError>(CliError::BlankName) && after == before
        } else if before.store.create_list_fails() {
            res == Err::<(), CliError>(CliError::Storage(StoreError::Exhausted)) && after == before
        } else {
            res is Ok && after == before.with_store(before.store.with_created_list(name, now))
        },
    }
}

/// Creates a list named `name` in the database that `db_name` asks for, at
/// the time `now`. A blank name is refused before the store is touched.
pub fn add_list(app: &mut App, name: String, db_name: &Option<String>, now: Timestamp) -> (res:
    Result<(), CliError>)
    requires
        old(app).wf(),
    ensures
        final(app).wf(),
        add_list_post(old(app)@, name@, *db_name, now, res, final(app)@),
{
    match get_db_pool_from_option(app, db_name) {
        Ok(()) => {},
        Err(e) => {
            return Err(e);
        },
    }
    if is_blank(name.as_str()) {
        return Err(CliError::BlankName);
    }
    let list = NewTodoList { name };
    match TodoList::create(&mut app.store, list, now) {
        Ok(_) => Ok(()),
        Err(e) => Err(CliError::Storage(e)),
    }
}

/// Deletes the list that `name` or `id` stands for, and its items, from the
/// database that `db_name` asks for.
pub fn delete_list(app: &mut App, name: Option<String>, id: Option<i64>, db_name: &Option<String>) -> (res:
    Result<(), CliError>)
    requires
        old(app).wf(),
    ensures
        final(app).wf(),
        match open_db_error(old(app)@, *db_name) {
            Some(e) => res == Err::<(), CliError>(e) && final(app)@ == old(app)@,
            None => match find_list_error(old(app)@.store, name, id) {
                Some(e) => res == Err::<(), CliError>(e) && final(app)@ == old(app)@,
                None => res is Ok && exists|list: ListRecord|
                    is_list_found(old(app)@.store, name, id, list) && final(app)@ == old(
                        app,
                    )@.with_store(old(app)@.store.without_list(list.id)),
            },
        },
{
    let target_list = match get_list_by_name_or_id(app, name, id, db_name) {
        Ok(list) => list,
        Err(e) => {
            return Err(e);
        },
    };
    let ghost found = target_list@;
    target_list.delete(&mut app.store);
    assert(is_list_found(old(app)@.store, name, id, found) && app@ == old(app)@.with_store(
        old(app)@.store.without_list(found.id),
    ));
    Ok(())
}

/// What adding an item named `name` to the list `list` at the time `now`
/// comes to.
pub open spec fn add_item_to(
    before: AppView,
    name: Seq<char>,
    list: ListRecord,
    now: Timestamp,
    res: Result<(), CliError>,
    after: AppView,
) -> bool {
    match before.store.create_item_error(list.id) {
        Some(e) => res == Err::<(), CliError>(CliError::Storage(e)) && after == before,
        None => res is Ok && after == before.with_store(
            before.store.with_item(before.store.created_item(list.id, name, None, None, now)),
        ),
    }
}

/// What adding an item named `name`, to the list that `list_name` or
/// `list_id` stands for, at the time `now` comes to: `res` is the answer and
/// `after` the state that follows `before`. A blank name is no name: it is
/// refused before the list is looked for, and nothing is stored.
pub open spec fn add_item_post(
    before: AppView,
    name: Seq<char>,
    db_name: Option<String>,
    list_id: Option<i64>,
    list_name: Option<String>,
    now: Timestamp,
    res: Result<(), CliError>,
    after: AppView,
) -> bool {
    match open_db_error(before, db_name) {
        Some(e) => res == Err::<(), CliError>(e) && after == before,
        None => if is_blank_text(name) {
            res == Err::<(), CliError>(CliError::BlankName) && after == before
        } else {
            match find_list_error(before.store, list_name, list_id) {
                Some(e) => res == Err::<(), CliError>(e) && after == before,
                None => exists|list: ListRecord|
                    is_list_found(before.store, list_name, list_id, list) && #[trigger] add_item_to(
                        before,
                        name,
                        list,
                        now,
                        res,
                        after,
                    ),
            }
        },
    }
}

/// Creates an item named `name` in the list that `list_name` or `list_id`
/// stands for, in the database that `db_name` asks for, at the time `now`. A
/// blank name is refused before the store is touched.
pub fn add_item(
    app: &mut App,
    name: String,
    db_name: &Option<String>,
    list_id: Option<i64>,
    list_name: Option<String>,
    now: Timestamp,
) -> (res: Result<(), CliError>)
    requires
        old(app).wf(),
    ensures
        final(app).wf(),
        add_item_post(old(app)@, name@, *db_name, list_id, list_name, now, res, final(app)@),
{
    match get_db_pool_from_option(app, db_name) {
        Ok(()) => {},
        Err(e) => {
            return Err(e);
        },
    }
    if is_blank(name.as_str()) {
        return Err(CliError::BlankName);
    }
    let target_list = match get_list_by_name_or_id(app, list_name, list_id, db_name) {
        Ok(list) => list,
        Err(e) => {
            return Err(e);
        },
    };
    let ghost found = target_list@;
    let new_item = NewTodoItem { name, list_id: target_list.id, priority: None, due_date: None };
    let res = match TodoItem::create(&mut app.store, new_item, now) {
        Ok(_) => Ok(()),
        Err(e) => Err(CliError::Storage(e)),
    };
    assert(is_list_found(old(app)@.store, list_name, list_id, found) && add_item_to(
        old(app)@,
        name@,
        found,
        now,
        res,
        app@,
    ));
    res
}

/// Deletes the item `id` from the database that `db_name` asks for.
pub fn delete_item(app: &mut App, id: i64, db_name: &Option<String>) -> (res: Result<(), CliError>)
    requires
        old(app).wf(),
    ensures
        final(app).wf(),
        match open_db_error(old(app)@, *db_name) {
            Some(e) => res == Err::<(), CliError>(e) && final(app)@ == old(app)@,
            None => if old(app)@.store.has_item(id) {
                res is Ok && final(app)@ == old(app)@.with_store(old(app)@.store.without_item(id))
            } else {
                res == Err::<(), CliError>(CliError::ItemNotFound) && final(app)@ == old(app)@
            },
        },
{
    match get_db_pool_from_option(app, db_name) {
        Ok(()) => {},
        Err(e) => {
            return Err(e);
        },
    }
    let item = match TodoItem::get_by_id(&app.store, id) {
        Some(this) => this,
        None => {
            return Err(CliError::ItemNotFound);
        },
    };
    proof {
        crate::db::store::lemma_item_place_valid(app@.store, id);
    }
    item.delete(&mut app.store);
    Ok(())
}

/// What marking the item `id` at the time `now` comes to: `res` is the
/// answer and `after` the state that follows `before`.
pub open spec fn toggle_done_post(
    before: AppView,
    id: i64,
    db_name: Option<String>,
    now: Timestamp,
    res: Result<(), CliError>,
    after: AppView,
) -> bool {
    match open_db_error(before, db_name) {
        Some(e) => res == Err::<(), CliError>(e) && after == before,
        None => if before.store.has_item(id) {
            res is Ok && after == before.with_store(
                before.store.with_item_done(id, !before.store.item(id).is_done, now),
            )
        } else {
            res == Err::<(), CliError>(CliError::ItemNotFound) && after == before
        },
    }
}

/// Marks the item `id` of the database that `db_name` asks for as done, or
/// as not done where it was done, at the time `now`.
pub fn toggle_done_item(app: &mut App, id: i64, db_name: &Option<String>, now: Timestamp) -> (res:
    Result<(), CliError>)
    requires
        old(app).wf(),
    ensures
        final(app).wf(),
        toggle_done_post(old(app)@, id, *db_name, now, res, final(app)@),
{
    match get_db_pool_from_option(app, db_name) {
        Ok(()) => {},
        Err(e) => {
            return Err(e);
        },
    }
    match TodoItem::get_by_id(&app.store, id) {
        Some(mut this) => {
            proof {
                crate::db::store::lemma_item_place_valid(app@.store, id);
            }
            this.toggle_done(&mut app.store, now);
            Ok(())
        },
        None => Err(CliError::ItemNotFound),
    }
}

/// The table of all databases that are known: their names and how to reach
/// them.
pub fn list_dbs(app: &App) -> (res: Result<String, CliError>)
    ensures
        res matches Ok(table) && table@ == tab_aligned(dbs_table(app@.config.dbs)),
{
    let db_list = &app.config.dbs;
    let mut text = String::from_str("Name\tConnection string\n");
    text.append("----\t-----------------\n");
    let ghost head = text@;
    let mut k: usize = 0;
    while k < db_list.len()
        invariant
            k <= db_list.len(),
            db_list == &app.config.dbs,
            text@ == head + db_rows(app@.config.dbs.take(k as int)),
        decreases db_list.len() - k,
    {
        text.append(db_list[k].name.as_str());
        text.append("\t");
        text.append(db_list[k].connection_str.as_str());
        text.append("\n");
        proof {
            let dbs = app@.config.dbs;
            let upto = dbs.take(k as int + 1);
            assert(upto.drop_last() =~= dbs.take(k as int));
            assert(upto.last() == db_list@[k as int]@);
            assert(text@ =~= head + (db_rows(upto.drop_last()) + db_row(upto.last())));
        }
        k += 1;
    }
    proof {
        assert(app@.config.dbs.take(k as int) =~= app@.config.dbs);
        assert(text@ =~= dbs_table(app@.config.dbs));
    }
    match table_output(align(text.as_str())) {
        Ok(table) => Ok(table),
        Err(_) => Err(CliError::Layout),
    }
}

/// What one database holds, for the tables that span databases.
#[derive(Debug)]
pub struct DbContents {
    pub name: String,
    pub store: Store,
}

/// What a [`DbContents`] stands for in contracts.
pub struct DbContentsView {
    pub name: Seq<char>,
    pub store: StoreView,
}

impl View for DbContents {
    type V = DbContentsView;

    open spec fn view(&self) -> DbContentsView {
        DbContentsView { name: self.name@, store: self.store@ }
    }
}

/// The views of a sequence of databases, in the same order.
pub open spec fn contents_views(dbs: Seq<DbContents>) -> Seq<DbContentsView> {
    dbs.map_values(|d: DbContents| d@)
}

/// The database `name` is asked for: no name was given, or this one.
pub open spec fn is_wanted(filter: Option<String>, name: Seq<char>) -> bool {
    match filter {
        Some(wanted) => wanted@ == name,
        None => true,
    }
}

/// The rows of the lists of all databases that are asked for.
pub open spec fn all_list_rows(dbs: Seq<DbContentsView>, filter: Option<String>) -> Seq<char>
    decreases dbs.len(),
{
    if dbs.len() == 0 {
        Seq::empty()
    } else {
        all_list_rows(dbs.drop_last(), filter) + (if is_wanted(filter, dbs.last().name) {
            list_rows(dbs.last().store.scopes, dbs.last().name)
        } else {
            Seq::empty()
        })
    }
}

/// The table of the lists before it is laid out.
pub open spec fn lists_table(dbs: Seq<DbContentsView>, filter: Option<String>) -> Seq<char> {
    "Name\tID\tDB\tNo of items\n"@ + "----\t--\t--\t-----------\n"@ + all_list_rows(dbs, filter)
}

/// The rows of the items of all databases.
pub open spec fn all_item_rows(dbs: Seq<DbContentsView>) -> Seq<char>
    decreases dbs.len(),
{
    if dbs.len() == 0 {
        Seq::empty()
    } else {
        all_item_rows(dbs.drop_last()) + scope_rows(dbs.last().store.scopes, dbs.last().name)
    }
}

/// The table of the items before it is laid out.
pub open spec fn items_table(dbs: Seq<DbContentsView>) -> Seq<char> {
    "Name\tID\tList name\tList ID\tDB\tDone?\n"@ + "----\t--\t---------\t-------\t--\t-----\n"@
        + all_item_rows(dbs)
}

/// Every database keeps the invariant of its store.
pub open spec fn all_wf(dbs: Seq<DbContents>) -> bool {
    forall|i: int| 0 <= i < dbs.len() ==> (#[trigger] dbs[i]).store.wf()
}

/// Appends the rows of the lists of the database `db` to `text`.
fn push_list_rows(text: &mut String, db: &DbContents)
    requires
        db.store.wf(),
    ensures
        final(text)@ == old(text)@ + list_rows(db@.store.scopes, db@.name),
{
    let ghost v = db@.store;
    let ghost head = text@;
    let lists = TodoList::get_all(&db.store);
    assert(lists.len() == v.scopes.len()) by {
        assert(list_records(lists@).len() == v.lists().len());
    }
    let mut p: usize = 0;
    while p < lists.len()
        invariant
            p <= lists.len(),
            lists.len() == v.scopes.len(),
            list_records(lists@) == v.lists(),
            v == db@.store,
            v.wf(),
            text@ == head + list_rows(v.scopes.take(p as int), db@.name),
        decreases lists.len() - p,
    {
        proof {
            assert(list_records(lists@)[p as int] == lists@[p as int]@);
            assert(v.lists()[p as int] == v.scopes[p as int].list);
            lemma_list_pos(v, p as int);
        }
        let list = &lists[p];
        let items = list.get_all_items(&db.store);
        assert(items.len() == v.scopes[p as int].items.len()) by {
            assert(item_records(items@).len() == v.items_of(list.id).len());
        }
        let num = items.len();
        text.append(list.name.as_str());
        text.append("\t");
        push_int(text, list.id);
        text.append("\t");
        text.append(db.name.as_str());
        text.append("\t");
        push_nat(text, num as u64);
        text.append("\n");
        proof {
            let upto = v.scopes.take(p as int + 1);
            assert(upto.drop_last() =~= v.scopes.take(p as int));
            assert(upto.last() == v.scopes[p as int]);
            assert(text@ =~= head + (list_rows(upto.drop_last(), db@.name) + list_row(
                upto.last().list,
                db@.name,
                upto.last().items.len(),
            )));
        }
        p += 1;
    }
    assert(v.scopes.take(p as int) =~= v.scopes);
}

/// The table of the lists of every database in `dbs`, or of the one named
/// `name` alone: each list with its identity, its database and the number of
/// its items.
pub fn list_lists(dbs: &Vec<DbContents>, name: Option<String>) -> (res: Result<String, CliError>)
    requires
        all_wf(dbs@),
    ensures
        res matches Ok(table) && table@ == tab_aligned(lists_table(contents_views(dbs@), name)),
{
    let mut text = String::from_str("Name\tID\tDB\tNo of items\n");
    text.append("----\t--\t--\t-----------\n");
    let ghost head = text@;
    let ghost views = contents_views(dbs@);
    let mut k: usize = 0;
    while k < dbs.len()
        invariant
            k <= dbs.len(),
            all_wf(dbs@),
            views == contents_views(dbs@),
            text@ == head + all_list_rows(views.take(k as int), name),
        decreases dbs.len() - k,
    {
        let db = &dbs[k];
        let wanted = match &name {
            Some(n) => str_eq(db.name.as_str(), n.as_str()),
            None => true,
        };
        if wanted {
            push_list_rows(&mut text, db);
        }
        proof {
            let upto = views.take(k as int + 1);
            assert(upto.drop_last() =~= views.take(k as int));
            assert(upto.last() == dbs@[k as int]@);
            assert(wanted == is_wanted(name, db@.name));
            assert(text@ =~= head + (all_list_rows(upto.drop_last(), name) + (if is_wanted(
                name,
                upto.last().name,
            ) {
                list_rows(upto.last().store.scopes, upto.last().name)
            } else {
                Seq::empty()
            })));
        }
        k += 1;
    }
    proof {
        assert(views.take(k as int) =~= views);
        assert(text@ =~= lists_table(views, name));
    }
    match table_output(align(text.as_str())) {
        Ok(table) => Ok(table),
        Err(_) => Err(CliError::Layout),
    }
}

/// Appends the rows of the items of the list `list` of the database `db` to
/// `text`.
fn push_item_rows(text: &mut String, items: &Vec<TodoItem>, list: &TodoList, db: &str)
    ensures
        final(text)@ == old(text)@ + item_rows(item_records(items@), list@, db@),
{
    let ghost head = text@;
    let ghost records = item_records(items@);
    let mut k: usize = 0;
    while k < items.len()
        invariant
            k <= items.len(),
            records == item_records(items@),
            text@ == head + item_rows(records.take(k as int), list@, db@),
        decreases items.len() - k,
    {
        let item = &items[k];
        text.append(item.name.as_str());
        text.append("\t");
        push_int(text, item.id);
        text.append("\t");
        text.append(list.name.as_str());
        text.append("\t");
        push_int(text, list.id);
        text.append("\t");
        text.append(db);
        text.append("\t");
        push_bool(text, item.is_done);
        text.append("\n");
        proof {
            let upto = records.take(k as int + 1);
            assert(upto.drop_last() =~= records.take(k as int));
            assert(upto.last() == items@[k as int]@);
            assert(text@ =~= head + (item_rows(upto.drop_last(), list@, db@) + item_row(
                upto.last(),
                list@,
                db@,
            )));
        }
        k += 1;
    }
    assert(records.take(k as int) =~= records);
}

/// Appends the rows of all items of the database `db` to `text`, list by
/// list.
fn push_scope_rows(text: &mut String, db: &DbContents)
    requires
        db.store.wf(),
    ensures
        final(text)@ == old(text)@ + scope_rows(db@.store.scopes, db@.name),
{
    let ghost v = db@.store;
    let ghost head = text@;
    let lists = TodoList::get_all(&db.store);
    assert(lists.len() == v.scopes.len()) by {
        assert(list_records(lists@).len() == v.lists().len());
    }
    let mut p: usize = 0;
    while p < lists.len()
        invariant
            p <= lists.len(),
            lists.len() == v.scopes.len(),
            list_records(lists@) == v.lists(),
            v == db@.store,
            v.wf(),
            text@ == head + scope_rows(v.scopes.take(p as int), db@.name),
        decreases lists.len() - p,
    {
        proof {
            assert(list_records(lists@)[p as int] == lists@[p as int]@);
            assert(v.lists()[p as int] == v.scopes[p as int].list);
            lemma_list_pos(v, p as int);
        }
        let list = &lists[p];
        let items = TodoItem::get_by_list_id(&db.store, list.id);
        push_item_rows(text, &items, list, db.name.as_str());
        proof {
            let upto = v.scopes.take(p as int + 1);
            assert(upto.drop_last() =~= v.scopes.take(p as int));
            assert(upto.last() == v.scopes[p as int]);
            assert(text@ =~= head + (scope_rows(upto.drop_last(), db@.name) + item_rows(
                upto.last().items,
                upto.last().list,
                db@.name,
            )));
        }
        p += 1;
    }
    assert(v.scopes.take(p as int) =~= v.scopes);
}

/// The table of the items of every database in `dbs`: each item with its
/// identity, its list, its database, and whether it is done.
pub fn list_items(dbs: &Vec<DbContents>) -> (res: Result<String, CliError>)
    requires
        all_wf(dbs@),
    ensures
        res matches Ok(table) && table@ == tab_aligned(items_table(contents_views(dbs@))),
{
    let mut text = String::from_str("Name\tID\tList name\tList ID\tDB\tDone?\n");
    text.append("----\t--\t---------\t-------\t--\t-----\n");
    let ghost head = text@;
    let ghost views = contents_views(dbs@);
    let mut k: usize = 0;
    while k < dbs.len()
        invariant
            k <= dbs.len(),
            all_wf(dbs@),
            views == contents_views(dbs@),
            text@ == head + all_item_rows(views.take(k as int)),
        decreases dbs.len() - k,
    {
        let db = &dbs[k];
        push_scope_rows(&mut text, db);
        proof {
            let upto = views.take(k as int + 1);
            assert(upto.drop_last() =~= views.take(k as int));
            assert(upto.last() == dbs@[k as int]@);
            assert(text@ =~= head + (all_item_rows(upto.drop_last()) + scope_rows(
                upto.last().store.scopes,
                upto.last().name,
            )));
        }
        k += 1;
    }
    proof {
        assert(views.take(k as int) =~= views);
        assert(text@ =~= items_table(views));
    }
    match table_output(align(text.as_str())) {
        Ok(table) => Ok(table),
        Err(_) => Err(CliError::Layout),
    }
}

} // verus!
