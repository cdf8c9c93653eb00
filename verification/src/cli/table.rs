//! Tables for the terminal: cells separated by tabs, laid out in columns.

use vstd::prelude::*;
use crate::db::config::DbRecord;
use crate::db::models::{ItemRecord, ListRecord};
use crate::db::store::Scope;
use crate::text::{int_decimal, nat_decimal};

verus! {

/// What `tabwriter` makes of a text whose cells end in a tab and whose rows
/// end in a line feed, with its settings as they are from the start: the same
/// rows with the cells of adjacent rows padded to columns.
pub uninterp spec fn tab_aligned(text: Seq<char>) -> Seq<char>;

/// Writes `text` through a `tabwriter::TabWriter` over a byte buffer
/// (`TabWriter::new`, `write_all`), takes the buffer back (`into_inner`,
/// which flushes) and reads it as a string. What comes out depends on the
/// text alone. It always comes out: writing into a byte buffer does not
/// fail, and the writer cuts the text at tabs and line feeds only and adds
/// nothing but spaces and line feeds, so the buffer holds UTF-8 as the text
/// does.
#[verifier::external_body]
pub(crate) fn align(text: &str) -> (aligned: Option<String>)
    ensures
        aligned is Some,
        aligned matches Some(table) ==> table@ == tab_aligned(text@),
{
    let mut writer = tabwriter::TabWriter::new(Vec::new());
    if std::io::Write::write_all(&mut writer, text.as_bytes()).is_err() {
        return None;
    }
    match writer.into_inner() {
        Ok(bytes) => String::from_utf8(bytes).ok(),
        Err(_) => None,
    }
}

/// The row of one database.
pub open spec fn db_row(db: DbRecord) -> Seq<char> {
    db.name + "\t"@ + db.connection_str + "\n"@
}

/// The rows of the databases, in their order.
pub open spec fn db_rows(dbs: Seq<DbRecord>) -> Seq<char>
    decreases dbs.len(),
{
    if dbs.len() == 0 {
        Seq::empty()
    } else {
        db_rows(dbs.drop_last()) + db_row(dbs.last())
    }
}

/// The table of the databases before it is laid out.
pub open spec fn dbs_table(dbs: Seq<DbRecord>) -> Seq<char> {
    "Name\tConnection string\n"@ + "----\t-----------------\n"@ + db_rows(dbs)
}

/// The row of one list of the database `db`, with the number of its items.
pub open spec fn list_row(list: ListRecord, db: Seq<char>, count: nat) -> Seq<char> {
    list.name + "\t"@ + int_decimal(list.id as int) + "\t"@ + db + "\t"@ + nat_decimal(count)
        + "\n"@
}

/// The rows of the lists of the database `db`, in their order.
pub open spec fn list_rows(scopes: Seq<Scope>, db: Seq<char>) -> Seq<char>
    decreases scopes.len(),
{
    if scopes.len() == 0 {
        Seq::empty()
    } else {
        list_rows(scopes.drop_last(), db) + list_row(
            scopes.last().list,
            db,
            scopes.last().items.len(),
        )
    }
}

/// The row of one item of the list `list` of the database `db`.
pub open spec fn item_row(item: ItemRecord, list: ListRecord, db: Seq<char>) -> Seq<char> {
    item.name + "\t"@ + int_decimal(item.id as int) + "\t"@ + list.name + "\t"@ + int_decimal(
        list.id as int,
    ) + "\t"@ + db + "\t"@ + (if item.is_done {
        "true"@
    } else {
        "false"@
    }) + "\n"@
}

/// The rows of the items of one list, in their order.
pub open spec fn item_rows(items: Seq<ItemRecord>, list: ListRecord, db: Seq<char>) -> Seq<char>
    decreases items.len(),
{
    if items.len() == 0 {
        Seq::empty()
    } else {
        item_rows(items.drop_last(), list, db) + item_row(items.last(), list, db)
    }
}

/// The rows of the items of all lists of the database `db`, list by list.
pub open spec fn scope_rows(scopes: Seq<Scope>, db: Seq<char>) -> Seq<char>
    decreases scopes.len(),
{
    if scopes.len() == 0 {
        Seq::empty()
    } else {
        scope_rows(scopes.drop_last(), db) + item_rows(
            scopes.last().items,
            scopes.last().list,
            db,
        )
    }
}

/// What to hand out for a table that was laid out, or was not.
pub fn table_output(aligned: Option<String>) -> (res: Result<String, TableError>)
    ensures
        match aligned {
            Some(table) => res matches Ok(out) && out@ == table@,
            None => res is Err,
        },
{
    match aligned {
        Some(table) => Ok(table),
        None => Err(TableError),
    }
}

/// The table could not be laid out.
#[derive(Debug, Clone, Copy, PartialEq, Eq, Structural)]
pub struct TableError;

} // verus!
