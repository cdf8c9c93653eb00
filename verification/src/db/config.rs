//! The databases that the manager knows.

use vstd::prelude::*;
use crate::text::str_eq;

verus! {

/// One database: its name and how to reach it.
#[derive(Debug)]
pub struct DBConfig {
    pub name: String,
    pub connection_str: String,
}

/// What a [`DBConfig`] stands for in contracts.
pub struct DbRecord {
    pub name: Seq<char>,
    pub connection_str: Seq<char>,
}

impl View for DBConfig {
    type V = DbRecord;

    open spec fn view(&self) -> DbRecord {
        DbRecord { name: self.name@, connection_str: self.connection_str@ }
    }
}

impl Clone for DBConfig {
    fn clone(&self) -> (copy: Self)
        ensures
            copy@ == self@,
    {
        DBConfig { name: self.name.clone(), connection_str: self.connection_str.clone() }
    }
}

/// The databases, and the name of the one to use where none is named.
#[derive(Debug)]
pub struct Config {
    pub default: String,
    pub dbs: Vec<DBConfig>,
}

/// What a [`Config`] stands for in contracts.
pub struct ConfigView {
    pub default: Seq<char>,
    pub dbs: Seq<DbRecord>,
}

impl ConfigView {
    /// Some database has the name `name`.
    pub open spec fn has_db(self, name: Seq<char>) -> bool {
        exists|i: int| 0 <= i < self.dbs.len() && (#[trigger] self.dbs[i]).name == name
    }

    /// `i` is the position of the first database named `name`.
    pub open spec fn is_first_named(self, name: Seq<char>, i: int) -> bool {
        &&& 0 <= i < self.dbs.len()
        &&& self.dbs[i].name == name
        &&& forall|j: int| 0 <= j < i ==> (#[trigger] self.dbs[j]).name != name
    }
}

impl View for Config {
    type V = ConfigView;

    open spec fn view(&self) -> ConfigView {
        ConfigView { default: self.default@, dbs: self.dbs@.map_values(|d: DBConfig| d@) }
    }
}

impl Clone for Config {
    fn clone(&self) -> (copy: Self)
        ensures
            copy@ == self@,
    {
        let mut dbs: Vec<DBConfig> = Vec::new();
        let mut k: usize = 0;
        while k < self.dbs.len()
            invariant
                k <= self.dbs.len(),
                dbs.len() == k,
                forall|j: int| 0 <= j < k ==> dbs@[j]@ == self.dbs@[j]@,
            decreases self.dbs.len() - k,
        {
            dbs.push(self.dbs[k].clone());
            k += 1;
        }
        assert(dbs@.map_values(|d: DBConfig| d@) =~= self.dbs@.map_values(|d: DBConfig| d@));
        Config { default: self.default.clone(), dbs }
    }
}

impl Config {
    /// The position of the first database named `name`.
    pub fn position_by_name(&self, name: &str) -> (found: Option<usize>)
        ensures
            match found {
                Some(i) => self@.is_first_named(name@, i as int),
                None => !self@.has_db(name@),
            },
    {
        let mut k: usize = 0;
        while k < self.dbs.len()
            invariant
                k <= self.dbs.len(),
                forall|j: int| 0 <= j < k ==> (#[trigger] self@.dbs[j]).name != name@,
            decreases self.dbs.len() - k,
        {
            assert(self@.dbs[k as int] == self.dbs@[k as int]@);
            if str_eq(self.dbs[k].name.as_str(), name) {
                return Some(k);
            }
            k += 1;
        }
        None
    }

    /// The first database named `name`, if there is one.
    pub fn get_db_by_name(&self, name: &str) -> (found: Option<DBConfig>)
        ensures
            found is Some <==> self@.has_db(name@),
            found matches Some(db) ==> exists|i: int|
                self@.is_first_named(name@, i) && db@ == self@.dbs[i],
    {
        match self.position_by_name(name) {
            Some(i) => {
                assert(self@.dbs[i as int] == self.dbs@[i as int]@);
                Some(self.dbs[i].clone())
            },
            None => None,
        }
    }

    /// The database to use where none is named: the first one that carries
    /// the default name.
    pub fn get_default(&self) -> (found: Option<DBConfig>)
        ensures
            found is Some <==> self@.has_db(self@.default),
            found matches Some(db) ==> exists|i: int|
                self@.is_first_named(self@.default, i) && db@ == self@.dbs[i],
    {
        self.get_db_by_name(self.default.as_str())
    }
}

} // verus!
