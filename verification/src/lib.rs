//! Core rules of the kakapo data server: permissions and the decisions that
//! guard every action, channels, table schemas and their history, table data
//! layouts, the SQL statements run against a data store, and the results of
//! entity and user management.

pub mod text;
pub mod permissions;
pub mod schema;
pub mod history;
pub mod manage;
pub mod sql;
pub mod cells;
pub mod row;
pub mod table_data;
pub mod entity;
pub mod auth;
pub mod channels;
pub mod api;
pub mod dbdata;
pub mod script;
