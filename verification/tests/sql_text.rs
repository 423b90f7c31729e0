use kakapo::row::RowMap;
use kakapo::schema::{
    Column, Constraint, DataType, RenameMapping, SchemaModification, SchemaState, Table, Value,
};
use kakapo::sql::{
    count_key, delete_with_key_statement, format_column, insert_row_statement, key_of, rows_result,
    select_all_statement, single_row_result, sql_commands_for_modification, table_column_names,
    update_row_statement, update_with_key_statement, upsert_row_statement, DataError,
};
use kakapo::table_data::{RowData, TableData};
use kakapo::text::{decimal_text, join_strings, quote};

fn col(name: &str, data_type: DataType) -> Column {
    Column { name: name.to_string(), data_type, default: None }
}

fn table(key: Option<&str>) -> Table {
    Table {
        name: "users".to_string(),
        description: String::new(),
        schema: SchemaState {
            columns: vec![col("id", DataType::Integer), col("name", DataType::String)],
            constraint: match key {
                Some(k) => vec![Constraint::Unique("name".to_string()), Constraint::Key(k.to_string())],
                None => vec![],
            },
        },
    }
}

fn row(pairs: &[(&str, Value)]) -> RowMap {
    let mut r = RowMap::new();
    for (k, v) in pairs {
        r.insert(k.to_string(), v.clone());
    }
    r
}

#[test]
fn column_definitions() {
    let cases = vec![
        (DataType::SmallInteger, "c SMALLINT"),
        (DataType::Integer, "c INTEGER"),
        (DataType::BigInteger, "c BIGINT"),
        (DataType::Float, "c REAL"),
        (DataType::DoubleFloat, "c DOUBLE PRECISION"),
        (DataType::String, "c TEXT"),
        (DataType::VarChar { length: 255 }, "c VARCHAR(255)"),
        (DataType::Byte, "c BYTEA"),
        (DataType::Timestamp { with_tz: true }, "c TIMESTAMP WITH TIMEZONE"),
        (DataType::Timestamp { with_tz: false }, "c TIMESTAMP WITHOUT TIMEZONE"),
        (DataType::Date, "c DATE"),
        (DataType::Time { with_tz: true }, "c TIME WITH TIMEZONE"),
        (DataType::Time { with_tz: false }, "c TIME WITHOUT TIMEZONE"),
        (DataType::Boolean, "c BOOLEAN"),
        (DataType::Json, "c JSON"),
    ];
    for (t, expected) in cases {
        assert_eq!(format_column(&col("c", t)), expected);
    }
}

#[test]
fn texts_and_numbers() {
    assert_eq!(decimal_text(0), "0");
    assert_eq!(decimal_text(7), "7");
    assert_eq!(decimal_text(10), "10");
    assert_eq!(decimal_text(1234567890), "1234567890");
    assert_eq!(quote("a"), "\"a\"");
    assert_eq!(join_strings(&vec![], ", "), "");
    assert_eq!(join_strings(&vec!["a".to_string()], ", "), "a");
    assert_eq!(join_strings(&vec!["a".to_string(), "b".to_string(), "c".to_string()], "-"), "a-b-c");
}

#[test]
fn commands_for_creating_a_table() {
    let m = SchemaModification::Create {
        columns: vec![col("id", DataType::Integer), col("name", DataType::String)],
        constraint: vec![Constraint::Key("id".to_string()), Constraint::Unique("name".to_string())],
    };
    let commands = sql_commands_for_modification(&m, &"t".to_string(), true);
    assert_eq!(
        commands,
        vec![
            "CREATE TABLE t (id INTEGER, name TEXT);".to_string(),
            "ALTER TABLE t ADD PRIMARY KEY (id);".to_string(),
        ]
    );
    let commands = sql_commands_for_modification(&m, &"t".to_string(), false);
    assert_eq!(
        commands,
        vec![
            "ALTER TABLE t ADD COLUMN id INTEGER, ADD COLUMNname TEXT;".to_string(),
            "ALTER TABLE t ADD PRIMARY KEY (id);".to_string(),
        ]
    );
    let nothing = SchemaModification::Create { columns: vec![], constraint: vec![] };
    assert!(sql_commands_for_modification(&nothing, &"t".to_string(), false).is_empty());
}

#[test]
fn commands_for_other_modifications() {
    assert_eq!(
        sql_commands_for_modification(&SchemaModification::Delete, &"t".to_string(), false),
        vec!["DROP TABLE IF EXISTS t".to_string()]
    );
    let others = vec![
        SchemaModification::Remove { column: vec![], constraint: vec![] },
        SchemaModification::Rename { mapping: RenameMapping::new() },
        SchemaModification::Raw { up: String::new(), down: String::new() },
        SchemaModification::Nop,
        SchemaModification::Revert,
    ];
    for m in others {
        assert!(sql_commands_for_modification(&m, &"t".to_string(), false).is_empty());
    }
}

#[test]
fn select_all_rows() {
    let s = select_all_statement(&table(Some("id")));
    assert_eq!(s.query, "SELECT \"users\".\"id\", \"users\".\"name\" FROM \"users\";");
    assert!(s.params.is_empty());
}

#[test]
fn key_of_a_table() {
    assert_eq!(key_of(&table(Some("id"))), Ok("id".to_string()));
    assert_eq!(key_of(&table(None)), Err(DataError::NoKey));
    assert_eq!(table(Some("name")).get_key(), Some("name".to_string()));
    assert_eq!(table(None).get_key(), None);
}

#[test]
fn upsert_statement() {
    let r = row(&[("name", Value::String("bob".to_string())), ("id", Value::Integer(3))]);
    let s = upsert_row_statement(&table(Some("id")), &"id".to_string(), &r).unwrap();
    assert_eq!(
        s.query,
        "INSERT INTO \"users\" (\"id\", \"name\")\nVALUES ($1, $2)\nON CONFLICT (\"id\") DO UPDATE SET \"name\" = EXCLUDED.\"name\"\nRETURNING \"id\", \"name\";"
    );
    assert!(matches!(s.params[0], Value::Integer(3)));
    assert!(matches!(&s.params[1], Value::String(x) if x == "bob"));

    let only_key = row(&[("id", Value::Integer(3))]);
    let s = upsert_row_statement(&table(Some("id")), &"id".to_string(), &only_key).unwrap();
    assert_eq!(s.query, "INSERT INTO \"users\" (\"id\")\nVALUES ($1)\n\nRETURNING \"id\", \"name\";");

    let no_key = row(&[("name", Value::Null)]);
    assert!(matches!(
        upsert_row_statement(&table(Some("id")), &"id".to_string(), &no_key),
        Err(DataError::NoPrimaryKeyGiven)
    ));
}

#[test]
fn insert_statement() {
    let r = row(&[("id", Value::Integer(1)), ("name", Value::Null)]);
    let s = insert_row_statement(&table(Some("id")), &"id".to_string(), &r, true).unwrap();
    assert_eq!(
        s.query,
        "INSERT INTO \"users\" (\"id\", \"name\")\nVALUES ($1, $2)\nON CONFLICT (\"id\") DO NOTHING\nRETURNING \"id\", \"name\";"
    );
    let s = insert_row_statement(&table(Some("id")), &"id".to_string(), &r, false).unwrap();
    assert_eq!(s.query, "INSERT INTO \"users\" (\"id\", \"name\")\nVALUES ($1, $2)\n\nRETURNING \"id\", \"name\";");
    let no_key = row(&[("name", Value::Null)]);
    assert!(matches!(
        insert_row_statement(&table(Some("id")), &"id".to_string(), &no_key, true),
        Err(DataError::NoPrimaryKeyGiven)
    ));
}

#[test]
fn update_statement() {
    let r = row(&[("id", Value::Integer(1)), ("name", Value::String("x".to_string())), ("age", Value::Integer(2))]);
    let s = update_row_statement(&table(Some("id")), &"id".to_string(), &r).unwrap();
    assert_eq!(
        s.query,
        "UPDATE \"users\" SET \"age\" = $1, \"name\" = $3\nWHERE \"id\" = $2\nRETURNING \"id\", \"name\";"
    );
    assert_eq!(s.params.len(), 3);
    assert!(matches!(s.params[0], Value::Integer(2)));
}

#[test]
fn update_with_key_statement_text() {
    let r = RowData::RowData(row(&[("name", Value::String("x".to_string()))]));
    let s = update_with_key_statement(&table(Some("id")), r, "7".to_string()).unwrap();
    assert_eq!(s.query, "UPDATE \"users\" SET \"name\" = $1\nWHERE \"id\" = $2\nRETURNING \"id\", \"name\";");
    assert_eq!(s.params.len(), 2);
    assert!(matches!(&s.params[1], Value::String(k) if k == "7"));
    let flat = RowData::RowsFlatData { columns: vec!["name".to_string()], data: vec![Value::Null] };
    assert!(matches!(
        update_with_key_statement(&table(None), flat, "7".to_string()),
        Err(DataError::NoKey)
    ));
}

#[test]
fn delete_statement() {
    let s = delete_with_key_statement(&table(Some("id")), "9".to_string()).unwrap();
    assert_eq!(s.query, "DELETE FROM \"users\" \nWHERE \"id\" = $1\nRETURNING \"id\", \"name\";");
    assert!(matches!(&s.params[0], Value::String(k) if k == "9"));
    assert!(matches!(delete_with_key_statement(&table(None), "9".to_string()), Err(DataError::NoKey)));
}

#[test]
fn many_parameters_count_past_nine() {
    let mut pairs = vec![];
    for i in 0..10 {
        pairs.push((format!("c{}", i), Value::Integer(i)));
    }
    let mut r = RowMap::new();
    for (k, v) in pairs {
        r.insert(k, v);
    }
    let s = update_with_key_statement(&table(Some("id")), RowData::RowData(r), "k".to_string()).unwrap();
    assert!(s.query.contains("\"c9\" = $10"));
    assert!(s.query.contains("WHERE \"id\" = $11"));
}

#[test]
fn results_of_statements() {
    let t = table(Some("id"));
    assert_eq!(table_column_names(&t), vec!["id".to_string(), "name".to_string()]);
    match rows_result(&t, vec![vec![Value::Integer(1), Value::Null]]) {
        TableData::RowsFlatData { columns, data } => {
            assert_eq!(columns, vec!["id".to_string(), "name".to_string()]);
            assert_eq!(data.len(), 1);
        },
        _ => panic!("expected flat rows"),
    }
    assert!(matches!(single_row_result(&t, vec![]), Err(DataError::NoRow)));
    match single_row_result(&t, vec![vec![Value::Integer(5), Value::Null], vec![]]) {
        Ok(RowData::RowsFlatData { columns, data }) => {
            assert_eq!(columns.len(), 2);
            assert!(matches!(data[0], Value::Integer(5)));
        },
        _ => panic!("expected one flat row"),
    }
    assert_eq!(count_key(&vec!["a".to_string(), "b".to_string(), "a".to_string()], &"a".to_string()), 2);
}
