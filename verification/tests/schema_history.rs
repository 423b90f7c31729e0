use kakapo::history::{
    find_rename, keep_listed_columns, rename_columns, unroll_modification_commits,
    unroll_modifications, unroll_next_modification, unroll_one_modification, unroll_table,
};
use kakapo::api::{ApiError, GetTableResult, GetTablesResult};
use kakapo::manage::{creation_decision, migration_plan, table_result, tables_result, CreationRefusal};
use kakapo::schema::{
    Column, Constraint, DataType, DetailedTable, RenameMapping, RenamePair, SchemaModification,
    SchemaModificationCommit, SchemaState, StateError, Timestamp, Value,
};
use kakapo::table_data::CreationMethod;

fn col(name: &str, data_type: DataType) -> Column {
    Column { name: name.to_string(), data_type, default: None }
}

fn create(names: &[&str]) -> SchemaModification {
    SchemaModification::Create {
        columns: names.iter().map(|n| col(n, DataType::Integer)).collect(),
        constraint: vec![],
    }
}

fn names(state: &SchemaState) -> Vec<String> {
    state.columns.iter().map(|c| c.name.clone()).collect()
}

#[test]
fn create_appends_columns_and_constraints() {
    let first = SchemaModification::Create {
        columns: vec![col("id", DataType::Integer)],
        constraint: vec![Constraint::Key("id".to_string())],
    };
    let second = SchemaModification::Create {
        columns: vec![col("name", DataType::String)],
        constraint: vec![Constraint::Unique("name".to_string())],
    };
    let (state, last) = unroll_modifications(vec![first, second]).unwrap();
    assert_eq!(names(&state), vec!["id".to_string(), "name".to_string()]);
    assert_eq!(state.constraint.len(), 2);
    assert!(matches!(&state.constraint[0], Constraint::Key(k) if k == "id"));
    assert!(matches!(&state.constraint[1], Constraint::Unique(k) if k == "name"));
    assert!(matches!(last, Some(SchemaModification::Create { .. })));
}

#[test]
fn revert_undoes_the_last_modification() {
    let (state, last) =
        unroll_modifications(vec![create(&["a"]), create(&["b"]), SchemaModification::Revert]).unwrap();
    assert_eq!(names(&state), vec!["a".to_string()]);
    match last {
        Some(SchemaModification::Create { columns, .. }) => assert_eq!(columns[0].name, "a"),
        _ => panic!("expected the first creation"),
    }
}

#[test]
fn revert_on_empty_history_fails() {
    assert_eq!(unroll_modifications(vec![SchemaModification::Revert]).unwrap_err(), StateError::RevertError);
    let r = unroll_modifications(vec![create(&["a"]), SchemaModification::Revert, SchemaModification::Revert]);
    assert_eq!(r.unwrap_err(), StateError::RevertError);
}

#[test]
fn failed_revert_stops_the_replay() {
    let r = unroll_modifications(vec![SchemaModification::Revert, create(&["a"])]);
    assert_eq!(r.unwrap_err(), StateError::RevertError);
}

#[test]
fn nop_changes_nothing() {
    let (state, last) = unroll_modifications(vec![create(&["a"]), SchemaModification::Nop]).unwrap();
    assert_eq!(names(&state), vec!["a".to_string()]);
    assert!(matches!(last, Some(SchemaModification::Create { .. })));
    let (empty, none) = unroll_modifications(vec![SchemaModification::Nop]).unwrap();
    assert!(empty.columns.is_empty());
    assert!(none.is_none());
}

#[test]
fn delete_forgets_the_history() {
    let (state, last) =
        unroll_modifications(vec![create(&["a"]), SchemaModification::Delete, create(&["b"])]).unwrap();
    assert_eq!(names(&state), vec!["b".to_string()]);
    assert!(last.is_some());
    let (state, last) = unroll_modifications(vec![create(&["a"]), SchemaModification::Delete]).unwrap();
    assert!(state.columns.is_empty() && state.constraint.is_empty());
    assert!(last.is_none());
    let r = unroll_modifications(vec![create(&["a"]), SchemaModification::Delete, SchemaModification::Revert]);
    assert_eq!(r.unwrap_err(), StateError::RevertError);
}

#[test]
fn remove_keeps_the_listed_columns() {
    let remove = SchemaModification::Remove { column: vec!["b".to_string()], constraint: vec![] };
    let (state, _) = unroll_modifications(vec![create(&["a", "b", "c"]), remove]).unwrap();
    assert_eq!(names(&state), vec!["b".to_string()]);
}

#[test]
fn rename_uses_the_latest_name_given() {
    let mut mapping = RenameMapping::new();
    mapping.insert("a".to_string(), "x".to_string());
    mapping.insert("a".to_string(), "y".to_string());
    mapping.insert("c".to_string(), "z".to_string());
    assert_eq!(mapping.pairs().len(), 2);
    let (state, _) =
        unroll_modifications(vec![create(&["a", "b"]), SchemaModification::Rename { mapping }]).unwrap();
    assert_eq!(names(&state), vec!["y".to_string(), "b".to_string()]);
    assert_eq!(state.columns[0].data_type, DataType::Integer);
}

#[test]
fn raw_keeps_the_schema_and_can_be_reverted() {
    let raw = SchemaModification::Raw { up: "up".to_string(), down: "down".to_string() };
    let (state, last) = unroll_modifications(vec![create(&["a"]), raw]).unwrap();
    assert_eq!(names(&state), vec!["a".to_string()]);
    assert!(matches!(last, Some(SchemaModification::Raw { .. })));
    let raw = SchemaModification::Raw { up: "up".to_string(), down: "down".to_string() };
    let (state, last) =
        unroll_modifications(vec![create(&["a"]), raw, SchemaModification::Revert]).unwrap();
    assert_eq!(names(&state), vec!["a".to_string()]);
    assert!(matches!(last, Some(SchemaModification::Create { .. })));
}

#[test]
fn stacks_grow_together() {
    let (states, back) = unroll_one_modification(&create(&["a"]), vec![], vec![]).unwrap();
    assert_eq!(states.len(), 1);
    assert_eq!(back.len(), 1);
    let (states, back) = unroll_one_modification(&SchemaModification::Revert, states, back).unwrap();
    assert_eq!(states.len(), 0);
    assert_eq!(back.len(), 0);
}

#[test]
fn next_modification_agrees_with_full_replay_except_revert() {
    let base = unroll_modifications(vec![create(&["a"]), create(&["b"])]).unwrap();
    let (next, last) = unroll_next_modification(&create(&["c"]), base.0, base.1).unwrap();
    let full = unroll_modifications(vec![create(&["a"]), create(&["b"]), create(&["c"])]).unwrap();
    assert_eq!(names(&next), names(&full.0));
    assert!(last.is_some());

    let base = unroll_modifications(vec![create(&["a"]), create(&["b"])]).unwrap();
    let (next, last) = unroll_next_modification(&SchemaModification::Revert, base.0, base.1).unwrap();
    assert!(next.columns.is_empty());
    assert!(last.is_none());
    let full = unroll_modifications(vec![create(&["a"]), create(&["b"]), SchemaModification::Revert]).unwrap();
    assert_eq!(names(&full.0), vec!["a".to_string()]);
}

#[test]
fn commits_and_tables_replay_their_actions() {
    let date = Timestamp { secs: 0, nanos: 0 };
    let commits = vec![
        SchemaModificationCommit { date, action: create(&["a"]) },
        SchemaModificationCommit { date, action: create(&["b"]) },
    ];
    let (state, _) = unroll_modification_commits(commits).unwrap();
    assert_eq!(names(&state), vec!["a".to_string(), "b".to_string()]);

    let table = DetailedTable {
        name: "t".to_string(),
        description: "d".to_string(),
        schema: vec![
            SchemaModificationCommit { date, action: create(&["a"]) },
            SchemaModificationCommit { date, action: SchemaModification::Nop },
        ],
    };
    let t = unroll_table(table).unwrap();
    assert_eq!(t.name, "t");
    assert_eq!(t.description, "d");
    assert_eq!(names(&t.schema), vec!["a".to_string()]);

    let bad = DetailedTable {
        name: "t".to_string(),
        description: "d".to_string(),
        schema: vec![SchemaModificationCommit { date, action: SchemaModification::Revert }],
    };
    assert_eq!(unroll_table(bad).unwrap_err(), StateError::RevertError);
}

#[test]
fn helpers_find_keep_and_rename() {
    let pairs = vec![RenamePair { from: "a".to_string(), to: "z".to_string() }];
    assert_eq!(find_rename(&pairs, &"a".to_string()), Some("z".to_string()));
    assert_eq!(find_rename(&pairs, &"b".to_string()), None);
    let columns = vec![col("a", DataType::Json), col("b", DataType::Json)];
    let kept = keep_listed_columns(&columns, &vec!["a".to_string()]);
    assert_eq!(kept.len(), 1);
    assert_eq!(kept[0].name, "a");
    let renamed = rename_columns(&columns, &pairs);
    assert_eq!(renamed[0].name, "z");
    assert_eq!(renamed[1].name, "b");
}

#[test]
fn columns_keep_their_defaults() {
    let m = SchemaModification::Create {
        columns: vec![Column {
            name: "n".to_string(),
            data_type: DataType::Integer,
            default: Some(Value::Integer(7)),
        }],
        constraint: vec![],
    };
    let (state, _) = unroll_modifications(vec![m]).unwrap();
    assert!(matches!(state.columns[0].default, Some(Value::Integer(7))));
}

#[test]
fn creation_decisions() {
    assert_eq!(creation_decision(CreationMethod::FailIfNotExists, false), Err(CreationRefusal::NotFound));
    assert_eq!(creation_decision(CreationMethod::FailIfNotExists, true), Ok(true));
    assert_eq!(creation_decision(CreationMethod::FailIfExists, true), Err(CreationRefusal::AlreadyExists));
    assert_eq!(creation_decision(CreationMethod::FailIfExists, false), Ok(true));
    assert_eq!(creation_decision(CreationMethod::IgnoreIfExists, true), Ok(false));
    assert_eq!(creation_decision(CreationMethod::IgnoreIfExists, false), Ok(true));
    assert_eq!(creation_decision(CreationMethod::Update, true), Ok(true));
}

#[test]
fn migration_plan_gives_commands_and_next_schema() {
    let (commands, next) =
        migration_plan(&"t".to_string(), SchemaState::new(), None, &create(&["a"])).unwrap();
    assert_eq!(commands, vec!["CREATE TABLE t (a INTEGER);".to_string()]);
    assert_eq!(names(&next), vec!["a".to_string()]);
    let r = migration_plan(&"t".to_string(), SchemaState::new(), None, &SchemaModification::Revert);
    assert_eq!(r.unwrap_err(), StateError::RevertError);
}

#[test]
fn tables_with_current_or_full_schema() {
    let date = Timestamp { secs: 0, nanos: 0 };
    let good = || DetailedTable {
        name: "t".to_string(),
        description: "d".to_string(),
        schema: vec![SchemaModificationCommit { date, action: create(&["a"]) }],
    };
    let bad = || DetailedTable {
        name: "u".to_string(),
        description: String::new(),
        schema: vec![SchemaModificationCommit { date, action: SchemaModification::Revert }],
    };
    match tables_result(vec![good(), bad()], true) {
        Ok(GetTablesResult::DetailedTables(ts)) => assert_eq!(ts.len(), 2),
        _ => panic!("expected the histories"),
    }
    match tables_result(vec![good(), good()], false) {
        Ok(GetTablesResult::Tables(ts)) => {
            assert_eq!(ts.len(), 2);
            assert_eq!(names(&ts[1].schema), vec!["a".to_string()]);
        },
        _ => panic!("expected the tables"),
    }
    assert_eq!(tables_result(vec![good(), bad()], false).unwrap_err(), ApiError::InvalidStateError);
    assert!(matches!(table_result(good(), false), Ok(GetTableResult::Table(t)) if t.name == "t"));
    assert!(matches!(table_result(bad(), true), Ok(GetTableResult::DetailedTable(_))));
    assert_eq!(table_result(bad(), false).unwrap_err(), ApiError::InvalidStateError);
}
