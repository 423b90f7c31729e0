use kakapo::row::{text_lt, RowMap};
use kakapo::schema::Value;
use kakapo::table_data::{
    zip_row, CreationMethod, OnDuplicate, QueryParams, RowData, TableData, TableDataFormat,
};

fn row(pairs: &[(&str, i64)]) -> RowMap {
    let mut r = RowMap::new();
    for (k, v) in pairs {
        r.insert(k.to_string(), Value::Integer(*v));
    }
    r
}

fn int_of(v: Option<&Value>) -> Option<i64> {
    match v {
        Some(Value::Integer(i)) => Some(*i),
        _ => None,
    }
}

#[test]
fn text_order() {
    assert!(text_lt(&"a".to_string(), &"b".to_string()));
    assert!(text_lt(&"a".to_string(), &"ab".to_string()));
    assert!(!text_lt(&"ab".to_string(), &"a".to_string()));
    assert!(!text_lt(&"a".to_string(), &"a".to_string()));
    assert!(text_lt(&"".to_string(), &"a".to_string()));
    assert!(text_lt(&"Z".to_string(), &"a".to_string()));
    assert!(text_lt(&"é".to_string(), &"ü".to_string()));
}

#[test]
fn rows_keep_names_in_order_and_replace_values() {
    let mut r = row(&[("b", 2), ("a", 1), ("c", 3)]);
    assert_eq!(r.keys(), vec!["a".to_string(), "b".to_string(), "c".to_string()]);
    r.insert("b".to_string(), Value::Integer(20));
    assert_eq!(r.len(), 3);
    assert_eq!(int_of(r.get(&"b".to_string())), Some(20));
    assert_eq!(int_of(r.get(&"z".to_string())), None);
    let values: Vec<Option<i64>> = r.values().iter().map(|v| int_of(Some(v))).collect();
    assert_eq!(values, vec![Some(1), Some(20), Some(3)]);
}

#[test]
fn zip_pairs_as_far_as_both_go() {
    let r = zip_row(&vec!["x".to_string(), "y".to_string()], &vec![Value::Integer(1)]);
    assert_eq!(r.keys(), vec!["x".to_string()]);
    let r = zip_row(&vec!["x".to_string(), "x".to_string()], &vec![Value::Integer(1), Value::Integer(2)]);
    assert_eq!(r.len(), 1);
    assert_eq!(int_of(r.get(&"x".to_string())), Some(2));
}

#[test]
fn flat_rows_become_maps() {
    let data = TableData::RowsFlatData {
        columns: vec!["b".to_string(), "a".to_string()],
        data: vec![vec![Value::Integer(1), Value::Integer(2)], vec![Value::Integer(3), Value::Integer(4)]],
    };
    let rows = data.into_rows_data_vec();
    assert_eq!(rows.len(), 2);
    assert_eq!(int_of(rows[0].get(&"b".to_string())), Some(1));
    assert_eq!(int_of(rows[1].get(&"a".to_string())), Some(4));
    let again = TableData::RowsData(rows).into_rows_data();
    assert!(matches!(again, TableData::RowsData(ref r) if r.len() == 2));
}

#[test]
fn map_rows_become_flat_with_nulls() {
    let data = TableData::RowsData(vec![row(&[("b", 1)]), row(&[("a", 2), ("c", 3)])]);
    match data.into_rows_flat_data() {
        TableData::RowsFlatData { columns, data } => {
            assert_eq!(columns, vec!["a".to_string(), "b".to_string(), "c".to_string()]);
            assert!(matches!(data[0][0], Value::Null));
            assert!(matches!(data[0][1], Value::Integer(1)));
            assert!(matches!(data[0][2], Value::Null));
            assert!(matches!(data[1][0], Value::Integer(2)));
            assert!(matches!(data[1][1], Value::Null));
            assert!(matches!(data[1][2], Value::Integer(3)));
        },
        _ => panic!("expected flat rows"),
    }
    match TableData::RowsData(vec![]).into_rows_flat_data() {
        TableData::RowsFlatData { columns, data } => {
            assert!(columns.is_empty());
            assert!(data.is_empty());
        },
        _ => panic!("expected flat rows"),
    }
}

#[test]
fn one_row_as_table_data() {
    match RowData::RowData(row(&[("a", 1)])).into_table_data() {
        TableData::RowsData(rows) => assert_eq!(rows.len(), 1),
        _ => panic!("expected rows"),
    }
    let flat = RowData::RowsFlatData { columns: vec!["a".to_string()], data: vec![Value::Integer(1)] };
    match flat.into_table_data() {
        TableData::RowsFlatData { columns, data } => {
            assert_eq!(columns, vec!["a".to_string()]);
            assert_eq!(data.len(), 1);
        },
        _ => panic!("expected flat rows"),
    }
    let flat = RowData::RowsFlatData { columns: vec!["a".to_string()], data: vec![Value::Integer(1)] };
    assert_eq!(int_of(flat.into_row_data_vec().get(&"a".to_string())), Some(1));
}

#[test]
fn formats_and_methods() {
    assert_eq!(OnDuplicate::Update.into_method(), CreationMethod::Update);
    assert_eq!(OnDuplicate::Ignore.into_method(), CreationMethod::IgnoreIfExists);
    assert_eq!(OnDuplicate::Fail.into_method(), CreationMethod::FailIfExists);
    assert_eq!(OnDuplicate::default(), OnDuplicate::Update);
    assert_eq!(CreationMethod::default(), CreationMethod::Update);
    assert_eq!(TableDataFormat::default(), TableDataFormat::Rows);
    assert_eq!(TableDataFormat::Rows.as_name(), "rows");
    assert_eq!(TableDataFormat::FlatRows.as_name(), "flatRows");
    assert_eq!(TableDataFormat::from_name(&"rows".to_string()), Some(TableDataFormat::Rows));
    assert_eq!(TableDataFormat::from_name(&"flatRows".to_string()), Some(TableDataFormat::FlatRows));
    assert_eq!(TableDataFormat::from_name(&"columns".to_string()), None);
    assert!(matches!(QueryParams::default(), QueryParams::Unnamed(v) if v.is_empty()));
}
