use vstd::prelude::*;
use crate::schema::Timestamp;
use crate::table_data::{Query, Script};

verus! {

/// The stored kinds of a table entity.
#[derive(Debug)]
pub struct RawTableEntityTypes;

/// The stored kinds of a query entity.
#[derive(Debug)]
pub struct RawQueryEntityTypes;

/// The stored kinds of a script entity.
#[derive(Debug)]
pub struct RawScriptEntityTypes;

/// A user account to store.
#[derive(Debug)]
pub struct NewUser {
    pub username: String,
    pub password: String,
    pub email: String,
}

/// A stored user account.
#[derive(Debug)]
pub struct User {
    pub user_account_id: i64,
    pub username: String,
    pub password: String,
    pub email: String,
}

/// A stored version of a query; its information is JSON text.
#[derive(Debug)]
pub struct RawQuery {
    pub query_id: i64,
    pub entity_id: i64,
    pub name: String,
    pub description: String,
    pub statement: String,
    pub query_info: String,
    pub is_deleted: bool,
    pub modified_at: Timestamp,
    pub modified_by: i64,
}

/// A stored version of a script; its information is JSON text.
#[derive(Debug)]
pub struct RawScript {
    pub script_id: i64,
    pub entity_id: i64,
    pub name: String,
    pub description: String,
    pub script_language: String,
    pub script_text: String,
    pub script_info: String,
    pub is_deleted: bool,
    pub modified_at: Timestamp,
    pub modified_by: i64,
}

/// A version of a query to store.
#[derive(Debug)]
pub struct NewRawQuery {
    pub entity_id: i64,
    pub name: String,
    pub description: String,
    pub statement: String,
    pub query_info: String,
    pub is_deleted: bool,
    pub modified_by: i64,
}

/// A version of a script to store.
#[derive(Debug)]
pub struct NewRawScript {
    pub entity_id: i64,
    pub name: String,
    pub description: String,
    pub script_language: String,
    pub script_text: String,
    pub script_info: String,
    pub is_deleted: bool,
    pub modified_by: i64,
}

/// The entity that a stored version describes.
pub trait ConvertRaw<RD>: Sized {
    spec fn converts(raw: RD, r: Self) -> bool;

    fn convert(raw: &RD) -> (r: Self)
        ensures
            Self::converts(*raw, r),
    ;
}

impl ConvertRaw<RawQuery> for Query {
    open spec fn converts(raw: RawQuery, r: Query) -> bool {
        r.name == raw.name && r.description == raw.description && r.statement == raw.statement
    }

    fn convert(raw: &RawQuery) -> (r: Query) {
        Query {
            name: raw.name.clone(),
            description: raw.description.clone(),
            statement: raw.statement.clone(),
        }
    }
}

impl ConvertRaw<RawScript> for Script {
    open spec fn converts(raw: RawScript, r: Script) -> bool {
        r.name == raw.name && r.description == raw.description && r.text == raw.script_text
    }

    fn convert(raw: &RawScript) -> (r: Script) {
        Script {
            name: raw.name.clone(),
            description: raw.description.clone(),
            text: raw.script_text.clone(),
        }
    }
}

/// The empty JSON object, which new versions carry as their information.
pub open spec fn empty_info() -> Seq<char> {
    "{}"@
}

impl Query {
    /// The version of the query to store for the entity `entity_id`.
    pub fn new_raw(&self, entity_id: i64, modified_by: i64) -> (r: NewRawQuery)
        ensures
            r.entity_id == entity_id,
            r.name == self.name,
            r.description == self.description,
            r.statement == self.statement,
            r.query_info@ == empty_info(),
            !r.is_deleted,
            r.modified_by == modified_by,
    {
        NewRawQuery {
            entity_id,
            name: self.name.clone(),
            description: self.description.clone(),
            statement: self.statement.clone(),
            query_info: String::from_str("{}"),
            is_deleted: false,
            modified_by,
        }
    }

    /// The version that marks the query `name` as deleted.
    pub fn tombstone(name: String, entity_id: i64, modified_by: i64) -> (r: NewRawQuery)
        ensures
            r.entity_id == entity_id,
            r.name == name,
            r.description@ == Seq::<char>::empty(),
            r.statement@ == Seq::<char>::empty(),
            r.query_info@ == empty_info(),
            r.is_deleted,
            r.modified_by == modified_by,
    {
        NewRawQuery {
            entity_id,
            name,
            description: String::new(),
            statement: String::new(),
            query_info: String::from_str("{}"),
            is_deleted: true,
            modified_by,
        }
    }
}

impl Script {
    /// The version of the script to store for the entity `entity_id`; only
    /// Python scripts are stored.
    pub fn new_raw(&self, entity_id: i64, modified_by: i64) -> (r: NewRawScript)
        ensures
            r.entity_id == entity_id,
            r.name == self.name,
            r.description == self.description,
            r.script_language@ == "Python"@,
            r.script_text == self.text,
            r.script_info@ == empty_info(),
            !r.is_deleted,
            r.modified_by == modified_by,
    {
        NewRawScript {
            entity_id,
            name: self.name.clone(),
            description: self.description.clone(),
            script_language: String::from_str("Python"),
            script_text: self.text.clone(),
            script_info: String::from_str("{}"),
            is_deleted: false,
            modified_by,
        }
    }

    /// The version that marks the script `name` as deleted.
    pub fn tombstone(name: String, entity_id: i64, modified_by: i64) -> (r: NewRawScript)
        ensures
            r.entity_id == entity_id,
            r.name == name,
            r.description@ == Seq::<char>::empty(),
            r.script_language@ == "Python"@,
            r.script_text@ == Seq::<char>::empty(),
            r.script_info@ == empty_info(),
            r.is_deleted,
            r.modified_by == modified_by,
    {
        NewRawScript {
            entity_id,
            name,
            description: String::new(),
            script_language: String::from_str("Python"),
            script_text: String::new(),
            script_info: String::from_str("{}"),
            is_deleted: true,
            modified_by,
        }
    }
}

} // verus!
