use vstd::prelude::*;
use crate::api::{ApiError, GetTableResult, GetTablesResult};
use crate::history::{unroll_next_modification, unroll_table};
use crate::schema::{
    commit_mods, replay_result, DetailedTable, Table, opt_mod_view, opt_stack, step, top_of, ModificationView, SchemaModification, SchemaState,
    SchemaStateView, StateError,
};
use crate::sql::{modification_commands, sql_commands_for_modification};
use crate::table_data::CreationMethod;
use crate::text::texts;

verus! {

/// Why a creation request is refused before anything changes.
#[derive(Clone, Copy, Debug, PartialEq, Eq, Structural)]
pub enum CreationRefusal {
    /// the entity does not exist and the request asks that it does
    NotFound,
    /// the entity exists and the request asks that it does not
    AlreadyExists,
}

/// Whether a creation request goes on with an entity that `exists` or not:
/// refused when it must exist and does not, or must not and does; otherwise
/// whether its modification is applied, which it is unless the entity
/// exists and existing ones are left as they are.
pub fn creation_decision(method: CreationMethod, exists: bool) -> (r: Result<bool, CreationRefusal>)
    ensures
        !exists && method == CreationMethod::FailIfNotExists ==> r == Err::<bool, CreationRefusal>(
            CreationRefusal::NotFound,
        ),
        exists && method == CreationMethod::FailIfExists ==> r == Err::<bool, CreationRefusal>(
            CreationRefusal::AlreadyExists,
        ),
        !(!exists && method == CreationMethod::FailIfNotExists) && !(exists && method
            == CreationMethod::FailIfExists) ==> r == Ok::<bool, CreationRefusal>(
            !(exists && method == CreationMethod::IgnoreIfExists),
        ),
{
    if !exists && method == CreationMethod::FailIfNotExists {
        return Err(CreationRefusal::NotFound);
    }
    if exists && method == CreationMethod::FailIfExists {
        return Err(CreationRefusal::AlreadyExists);
    }
    Ok(!(exists && method == CreationMethod::IgnoreIfExists))
}

/// The SQL commands that carry out `new_modification` on the table
/// `table_name`, whose schema is `schema_state` and whose last modification
/// is `last_modification`, with the schema it leaves; an error when the
/// modification cannot be applied to that schema.
pub fn migration_plan(
    table_name: &String,
    schema_state: SchemaState,
    last_modification: Option<SchemaModification>,
    new_modification: &SchemaModification,
) -> (r: Result<(Vec<String>, SchemaState), StateError>)
    ensures
        match r {
            Ok((commands, next)) => {
                &&& texts(commands@) == modification_commands(
                    new_modification@,
                    table_name@,
                    schema_state.columns@.len() == 0,
                )
                &&& top_of(
                    step(
                        new_modification@,
                        seq![schema_state@],
                        opt_stack(opt_mod_view(last_modification)),
                    ),
                ) matches Ok((s, _))
                &&& next@ == s
            },
            Err(e) => top_of(
                step(
                    new_modification@,
                    seq![schema_state@],
                    opt_stack(opt_mod_view(last_modification)),
                ),
            ) == Err::<(SchemaStateView, Option<ModificationView>), StateError>(e),
        },
{
    let is_empty = schema_state.columns.len() == 0;
    let commands = sql_commands_for_modification(new_modification, table_name, is_empty);
    match unroll_next_modification(new_modification, schema_state, last_modification) {
        Ok((next, _)) => Ok((commands, next)),
        Err(e) => Err(e),
    }
}

/// The table with the schema that its history leaves, when the history
/// replays without error.
pub open spec fn unrolled_as(t: DetailedTable, u: Table) -> bool {
    &&& u.name == t.name
    &&& u.description == t.description
    &&& replay_result(commit_mods(t.schema@)) matches Ok((s, _))
    &&& u.schema@ == s
}

/// The history of the table replays without error.
pub open spec fn replays(t: DetailedTable) -> bool {
    replay_result(commit_mods(t.schema@)) is Ok
}

/// The answer to a request for every table: the histories when `detailed`,
/// otherwise each table with the schema its history leaves, and a broken
/// state when a history does not replay.
pub fn tables_result(tables: Vec<DetailedTable>, detailed: bool) -> (r: Result<GetTablesResult, ApiError>)
    ensures
        detailed ==> r == Ok::<GetTablesResult, ApiError>(GetTablesResult::DetailedTables(tables)),
        !detailed && (forall|i: int| 0 <= i < tables@.len() ==> replays(#[trigger] tables@[i])) ==> (r matches Ok(
            GetTablesResult::Tables(ts),
        ) && ts@.len() == tables@.len() && forall|i: int|
            0 <= i < ts@.len() ==> unrolled_as(#[trigger] tables@[i], ts@[i])),
        !detailed && (exists|i: int| 0 <= i < tables@.len() && !replays(#[trigger] tables@[i])) ==> r
            == Err::<GetTablesResult, ApiError>(ApiError::InvalidStateError),
{
    if detailed {
        return Ok(GetTablesResult::DetailedTables(tables));
    }
    let ghost all = tables@;
    let mut rest = tables;
    let n = rest.len();
    let mut unrolled: Vec<Table> = Vec::new();
    let mut i: usize = 0;
    assert(all.skip(0) =~= all);
    while rest.len() > 0
        invariant
            !detailed,
            all == tables@,
            i <= n,
            all.len() == n,
            rest@ == all.skip(i as int),
            unrolled@.len() == i,
            forall|j: int| 0 <= j < i ==> unrolled_as(#[trigger] all[j], unrolled@[j]),
        decreases rest.len(),
    {
        let t = rest.remove(0);
        assert(t == all[i as int]);
        assert(rest@ =~= all.skip(i + 1));
        match unroll_table(t) {
            Ok(u) => {
                unrolled.push(u);
            },
            Err(_) => {
                return Err(ApiError::InvalidStateError);
            },
        }
        i = i + 1;
    }
    Ok(GetTablesResult::Tables(unrolled))
}

/// The answer to a request for one table: its history when `detailed`,
/// otherwise the table with the schema its history leaves, and a broken
/// state when the history does not replay.
pub fn table_result(table: DetailedTable, detailed: bool) -> (r: Result<GetTableResult, ApiError>)
    ensures
        detailed ==> r == Ok::<GetTableResult, ApiError>(GetTableResult::DetailedTable(table)),
        !detailed && replays(table) ==> (r matches Ok(GetTableResult::Table(u)) && unrolled_as(table, u)),
        !detailed && !replays(table) ==> r == Err::<GetTableResult, ApiError>(ApiError::InvalidStateError),
{
    if detailed {
        return Ok(GetTableResult::DetailedTable(table));
    }
    match unroll_table(table) {
        Ok(u) => Ok(GetTableResult::Table(u)),
        Err(_) => Err(ApiError::InvalidStateError),
    }
}

} // verus!
