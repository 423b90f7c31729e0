use vstd::prelude::*;
use crate::row::{increasing, lists_keys, RowMap};
use crate::schema::{Constraint, ConstraintView, Table, Value, constraints_view};
use crate::text::texts;

verus! {

/// What to do with a row whose key is already taken.
#[derive(Clone, Copy, Debug, PartialEq, Eq, Structural)]
pub enum OnDuplicate {
    Update,
    Ignore,
    Fail,
}

impl Default for OnDuplicate {
    fn default() -> (r: Self)
        ensures
            r == OnDuplicate::Update,
    {
        OnDuplicate::Update
    }
}

/// How an entity is created when one of the same name may exist.
#[derive(Clone, Copy, Debug, PartialEq, Eq, Structural)]
pub enum CreationMethod {
    Update,
    IgnoreIfExists,
    FailIfExists,
    FailIfNotExists,
}

impl Default for CreationMethod {
    fn default() -> (r: Self)
        ensures
            r == CreationMethod::Update,
    {
        CreationMethod::Update
    }
}

impl OnDuplicate {
    /// The creation method that handles duplicates this way.
    pub fn into_method(self) -> (r: CreationMethod)
        ensures
            r == match self {
                OnDuplicate::Update => CreationMethod::Update,
                OnDuplicate::Ignore => CreationMethod::IgnoreIfExists,
                OnDuplicate::Fail => CreationMethod::FailIfExists,
            },
    {
        match self {
            OnDuplicate::Update => CreationMethod::Update,
            OnDuplicate::Ignore => CreationMethod::IgnoreIfExists,
            OnDuplicate::Fail => CreationMethod::FailIfExists,
        }
    }
}

/// A value that can identify a row.
#[derive(Debug, PartialEq, Eq, Hash)]
pub enum IndexableValue {
    String(String),
    Integer(i64),
}

/// The layouts in which table data is sent.
#[derive(Clone, Copy, Debug, PartialEq, Eq, Structural)]
pub enum TableDataFormat {
    Rows,
    FlatRows,
}

impl Default for TableDataFormat {
    fn default() -> (r: Self)
        ensures
            r == TableDataFormat::Rows,
    {
        TableDataFormat::Rows
    }
}

impl TableDataFormat {
    /// The name under which the layout is written: `rows` or `flatRows`.
    pub fn as_name(&self) -> (r: &'static str)
        ensures
            r@ == match *self {
                TableDataFormat::Rows => "rows"@,
                TableDataFormat::FlatRows => "flatRows"@,
            },
    {
        match self {
            TableDataFormat::Rows => "rows",
            TableDataFormat::FlatRows => "flatRows",
        }
    }

    /// The layout written as `name`, if `name` is `rows` or `flatRows`.
    pub fn from_name(name: &String) -> (r: Option<Self>)
        ensures
            r == if name@ == "rows"@ {
                Some(TableDataFormat::Rows)
            } else if name@ == "flatRows"@ {
                Some(TableDataFormat::FlatRows)
            } else {
                None::<TableDataFormat>
            },
    {
        if *name == String::from_str("rows") {
            Some(TableDataFormat::Rows)
        } else if *name == String::from_str("flatRows") {
            Some(TableDataFormat::FlatRows)
        } else {
            None
        }
    }
}

/// One row, as a map or as values under a list of column names.
#[derive(Debug)]
pub enum RowData {
    RowData(RowMap),
    RowsFlatData { columns: Vec<String>, data: Vec<Value> },
}

/// Several rows, as maps or as value lists under one list of column names.
#[derive(Debug)]
pub enum TableData {
    RowsData(Vec<RowMap>),
    RowsFlatData { columns: Vec<String>, data: Vec<Vec<Value>> },
}

/// The map that pairing the first `n` names with the first `n` values
/// gives, a later pair replacing an earlier one of the same name.
pub open spec fn zipped(names: Seq<Seq<char>>, values: Seq<Value>, n: int) -> Map<Seq<char>, Value>
    decreases n,
{
    if n <= 0 {
        Map::empty()
    } else {
        zipped(names, values, n - 1).insert(names[n - 1], values[n - 1])
    }
}

/// The row that a flat row gives: its values under the column names, as far
/// as both lists go.
pub open spec fn flat_row_map(names: Seq<Seq<char>>, values: Seq<Value>) -> Map<Seq<char>, Value> {
    zipped(
        names,
        values,
        if names.len() < values.len() {
            names.len() as int
        } else {
            values.len() as int
        },
    )
}

/// Pairing names with values gives a row with a value under every name of
/// the first `n` pairs and under no other name; where no name is repeated,
/// each name holds the value it is paired with, null included.
pub proof fn law_zipped_holds_every_pair(names: Seq<Seq<char>>, values: Seq<Value>, n: int)
    requires
        0 <= n <= names.len(),
        n <= values.len(),
    ensures
        forall|i: int| 0 <= i < n ==> #[trigger] zipped(names, values, n).contains_key(names[i]),
        forall|k: Seq<char>| #[trigger] zipped(names, values, n).contains_key(k) ==> exists|i: int|
            0 <= i < n && names[i] == k,
        (forall|i: int, j: int| 0 <= i < j < n ==> names[i] != names[j]) ==> forall|i: int|
            0 <= i < n ==> #[trigger] zipped(names, values, n)[names[i]] == values[i],
    decreases n,
{
    if n > 0 {
        law_zipped_holds_every_pair(names, values, n - 1);
        let m0 = zipped(names, values, n - 1);
        let m = zipped(names, values, n);
        assert(m == m0.insert(names[n - 1], values[n - 1]));
        assert forall|i: int| 0 <= i < n implies #[trigger] m.contains_key(names[i]) by {
            if i < n - 1 {
                assert(m0.contains_key(names[i]));
            }
        }
        assert forall|k: Seq<char>| #[trigger] m.contains_key(k) implies exists|i: int|
            0 <= i < n && names[i] == k by {
            if k != names[n - 1] {
                assert(m0.contains_key(k));
                let i = choose|i: int| 0 <= i < n - 1 && names[i] == k;
            }
        }
        if forall|i: int, j: int| 0 <= i < j < n ==> names[i] != names[j] {
            assert(forall|i: int, j: int| 0 <= i < j < n - 1 ==> names[i] != names[j]);
            assert forall|i: int| 0 <= i < n implies #[trigger] m[names[i]] == values[i] by {
                if i < n - 1 {
                    assert(names[i] != names[n - 1]);
                    assert(m0[names[i]] == values[i]);
                }
            }
        }
    }
}

/// The row that a flat row gives has a value under each column name that
/// is paired with a value, null included, and under no other name; where no
/// column name is repeated, it holds under each the value paired with it.
pub proof fn law_flat_row_keeps_every_cell(names: Seq<Seq<char>>, values: Seq<Value>)
    ensures
        forall|i: int|
            0 <= i < names.len() && i < values.len() ==> #[trigger] flat_row_map(
                names,
                values,
            ).contains_key(names[i]),
        forall|k: Seq<char>| #[trigger] flat_row_map(names, values).contains_key(k) ==> exists|i: int|
            0 <= i < names.len() && i < values.len() && names[i] == k,
        (forall|i: int, j: int| 0 <= i < j < names.len() ==> names[i] != names[j]) ==> forall|i: int|
            0 <= i < names.len() && i < values.len() ==> #[trigger] flat_row_map(names, values)[names[i]]
                == values[i],
{
    let n = if names.len() < values.len() {
        names.len() as int
    } else {
        values.len() as int
    };
    law_zipped_holds_every_pair(names, values, n);
}

/// The row that pairs `columns` with `values`, as far as both lists go.
pub fn zip_row(columns: &Vec<String>, values: &Vec<Value>) -> (r: RowMap)
    ensures
        r@ == flat_row_map(texts(columns@), values@),
{
    let n = if columns.len() < values.len() {
        columns.len()
    } else {
        values.len()
    };
    let mut row = RowMap::new();
    let mut i: usize = 0;
    while i < n
        invariant
            i <= n,
            n <= columns.len(),
            n <= values.len(),
            row@ == zipped(texts(columns@), values@, i as int),
        decreases n - i,
    {
        row.insert(columns[i].clone(), values[i].clone());
        i = i + 1;
    }
    row
}

impl RowData {
    /// The row as table data of one row, in the same layout.
    pub fn into_table_data(self) -> (r: TableData)
        ensures
            match self {
                RowData::RowData(x) => r matches TableData::RowsData(rows) && rows@ == seq![x],
                RowData::RowsFlatData { columns, data } => r matches TableData::RowsFlatData {
                    columns: c2,
                    data: d2,
                } && c2 == columns && d2@ == seq![data],
            },
    {
        match self {
            RowData::RowData(x) => {
                let mut rows: Vec<RowMap> = Vec::new();
                rows.push(x);
                TableData::RowsData(rows)
            },
            RowData::RowsFlatData { columns, data } => {
                let mut rows: Vec<Vec<Value>> = Vec::new();
                rows.push(data);
                TableData::RowsFlatData { columns, data: rows }
            },
        }
    }

    /// The row as a map.
    pub fn into_row_data_vec(self) -> (r: RowMap)
        ensures
            match self {
                RowData::RowData(x) => r == x,
                RowData::RowsFlatData { columns, data } => r@ == flat_row_map(
                    texts(columns@),
                    data@,
                ),
            },
    {
        match self {
            RowData::RowData(x) => x,
            RowData::RowsFlatData { columns, data } => zip_row(&columns, &data),
        }
    }
}

/// The names of a table column list that a flat layout uses.
pub open spec fn row_maps(rows: Seq<RowMap>) -> Seq<Map<Seq<char>, Value>> {
    rows.map_values(|r: RowMap| r@)
}

/// Some row of `rows` has a value under `name`.
pub open spec fn some_row_has(rows: Seq<RowMap>, name: Seq<char>) -> bool {
    exists|i: int| 0 <= i < rows.len() && (#[trigger] rows[i])@.contains_key(name)
}

/// The value of a row under a column, or null where it has none.
pub open spec fn cell(row: Map<Seq<char>, Value>, name: Seq<char>) -> Value {
    if row.contains_key(name) {
        row[name]
    } else {
        Value::Null
    }
}

impl TableData {
    /// The rows of a flat layout as maps.
    pub fn get_rows_data_from_rows_flat_data(columns: Vec<String>, data: Vec<Vec<Value>>) -> (r: Vec<
        RowMap,
    >)
        ensures
            r@.len() == data@.len(),
            forall|i: int| 0 <= i < r@.len() ==> (#[trigger] r@[i])@ == flat_row_map(
                texts(columns@),
                data@[i]@,
            ),
    {
        let mut rows: Vec<RowMap> = Vec::new();
        let mut i: usize = 0;
        while i < data.len()
            invariant
                i <= data.len(),
                rows@.len() == i,
                forall|j: int| 0 <= j < i ==> (#[trigger] rows@[j])@ == flat_row_map(
                    texts(columns@),
                    data@[j]@,
                ),
            decreases data.len() - i,
        {
            rows.push(zip_row(&columns, &data[i]));
            i = i + 1;
        }
        rows
    }

    /// The data with each row as a map.
    pub fn into_rows_data(self) -> (r: TableData)
        ensures
            match self {
                TableData::RowsData(rows) => r matches TableData::RowsData(r2) && r2 == rows,
                TableData::RowsFlatData { columns, data } => r matches TableData::RowsData(r2)
                    && r2@.len() == data@.len() && forall|i: int|
                    0 <= i < r2@.len() ==> (#[trigger] r2@[i])@ == flat_row_map(
                        texts(columns@),
                        data@[i]@,
                    ),
            },
    {
        match self {
            TableData::RowsFlatData { columns, data } => {
                let rows_data = TableData::get_rows_data_from_rows_flat_data(columns, data);
                TableData::RowsData(rows_data)
            },
            TableData::RowsData(rows) => TableData::RowsData(rows),
        }
    }

    /// The rows as maps.
    pub fn into_rows_data_vec(self) -> (r: Vec<RowMap>)
        ensures
            match self {
                TableData::RowsData(rows) => r == rows,
                TableData::RowsFlatData { columns, data } => r@.len() == data@.len() && forall|i: int|
                    0 <= i < r@.len() ==> (#[trigger] r@[i])@ == flat_row_map(
                        texts(columns@),
                        data@[i]@,
                    ),
            },
    {
        match self {
            TableData::RowsFlatData { columns, data } => {
                TableData::get_rows_data_from_rows_flat_data(columns, data)
            },
            TableData::RowsData(rows) => rows,
        }
    }

    /// The data in the flat layout. Rows given as maps take as columns every
    /// name that some row has, in increasing order, and each row holds null
    /// under the columns it has no value for.
    pub fn into_rows_flat_data(self) -> (r: TableData)
        ensures
            match self {
                TableData::RowsFlatData { columns, data } => r matches TableData::RowsFlatData {
                    columns: c2,
                    data: d2,
                } && c2 == columns && d2 == data,
                TableData::RowsData(rows) => r matches TableData::RowsFlatData {
                    columns: c2,
                    data: d2,
                } && {
                    let names = texts(c2@);
                    &&& increasing(names)
                    &&& forall|k: Seq<char>| #[trigger] names.contains(k) <==> some_row_has(rows@, k)
                    &&& d2@.len() == rows@.len()
                    &&& forall|i: int| 0 <= i < rows@.len() ==> (#[trigger] d2@[i])@.len() == names.len()
                    &&& forall|i: int, j: int|
                        0 <= i < rows@.len() && 0 <= j < names.len() ==> (#[trigger] d2@[i])@[j]
                            == cell(rows@[i]@, #[trigger] names[j])
                },
            },
    {
        match self {
            TableData::RowsFlatData { columns, data } => TableData::RowsFlatData { columns, data },
            TableData::RowsData(rows) => {
                let mut all = RowMap::new();
                let mut i: usize = 0;
                while i < rows.len()
                    invariant
                        i <= rows.len(),
                        forall|k: Seq<char>| #[trigger] all@.contains_key(k) <==> some_row_has(
                            rows@.take(i as int),
                            k,
                        ),
                    decreases rows.len() - i,
                {
                    let keys = rows[i].keys();
                    let ghost row_names = rows@[i as int].names();
                    let mut j: usize = 0;
                    while j < keys.len()
                        invariant
                            i < rows.len(),
                            j <= keys.len(),
                            keys@.map_values(|x: String| x@) == row_names,
                            row_names == rows@[i as int].names(),
                            lists_keys(row_names, rows@[i as int]@),
                            forall|k: Seq<char>| #[trigger] all@.contains_key(k) <==> (some_row_has(
                                rows@.take(i as int),
                                k,
                            ) || exists|m: int| 0 <= m < j && row_names[m] == k),
                        decreases keys.len() - j,
                    {
                        assert(row_names[j as int] == keys@[j as int]@);
                        all.insert(keys[j].clone(), Value::Null);
                        j = j + 1;
                    }
                    proof {
                        assert forall|k: Seq<char>| #[trigger] all@.contains_key(k) <==> some_row_has(
                            rows@.take(i + 1),
                            k,
                        ) by {
                            let t = rows@.take(i + 1);
                            if some_row_has(rows@.take(i as int), k) {
                                let r = choose|r: int| 0 <= r < i && (#[trigger] rows@.take(i as int)[r])@.contains_key(k);
                                assert(t[r] == rows@.take(i as int)[r]);
                            }
                            if exists|m: int| 0 <= m < j && row_names[m] == k {
                                assert(t[i as int] == rows@[i as int]);
                            }
                            if some_row_has(t, k) {
                                let r = choose|r: int| 0 <= r < i + 1 && (#[trigger] t[r])@.contains_key(k);
                                if r < i {
                                    assert(rows@.take(i as int)[r] == t[r]);
                                } else {
                                    assert(t[r] == rows@[i as int]);
                                    let m = choose|m: int| 0 <= m < row_names.len() && row_names[m] == k;
                                }
                            }
                        }
                    }
                    i = i + 1;
                }
                assert(rows@.take(rows.len() as int) =~= rows@);
                let columns = all.keys();
                let ghost names = texts(columns@);
                let mut data: Vec<Vec<Value>> = Vec::new();
                let mut r: usize = 0;
                while r < rows.len()
                    invariant
                        r <= rows.len(),
                        names == texts(columns@),
                        data@.len() == r,
                        forall|a: int| 0 <= a < r ==> (#[trigger] data@[a])@.len() == names.len(),
                        forall|a: int, b: int|
                            0 <= a < r && 0 <= b < names.len() ==> (#[trigger] data@[a])@[b] == cell(
                                rows@[a]@,
                                #[trigger] names[b],
                            ),
                    decreases rows.len() - r,
                {
                    let mut new_row: Vec<Value> = Vec::new();
                    let mut c: usize = 0;
                    while c < columns.len()
                        invariant
                            r < rows.len(),
                            c <= columns.len(),
                            names == texts(columns@),
                            new_row@.len() == c,
                            forall|b: int| 0 <= b < c ==> #[trigger] new_row@[b] == cell(
                                rows@[r as int]@,
                                names[b],
                            ),
                        decreases columns.len() - c,
                    {
                        let v = match rows[r].get(&columns[c]) {
                            Some(value) => value.clone(),
                            None => Value::Null,
                        };
                        new_row.push(v);
                        c = c + 1;
                    }
                    data.push(new_row);
                    r = r + 1;
                }
                proof {
                    assert forall|k: Seq<char>| #[trigger] names.contains(k) <==> some_row_has(rows@, k) by {
                        if names.contains(k) {
                            let m = choose|m: int| 0 <= m < names.len() && names[m] == k;
                            assert(all@.contains_key(names[m]));
                        }
                        if some_row_has(rows@, k) {
                            assert(all@.contains_key(k));
                            let m = choose|m: int| 0 <= m < names.len() && names[m] == k;
                        }
                    }
                }
                TableData::RowsFlatData { columns, data }
            },
        }
    }
}

/// The column of the first key constraint, if any.
pub open spec fn first_key(cs: Seq<ConstraintView>) -> Option<String>
    decreases cs.len(),
{
    if cs.len() == 0 {
        None
    } else {
        match cs[0] {
            ConstraintView::Key(x) => Some(x),
            _ => first_key(cs.drop_first()),
        }
    }
}

impl Table {
    /// The column of the table's first key constraint, if it has one.
    pub fn get_key(&self) -> (r: Option<String>)
        ensures
            r == first_key(constraints_view(self.schema.constraint@)),
    {
        let ghost cs = constraints_view(self.schema.constraint@);
        let mut i: usize = 0;
        assert(cs.skip(0) =~= cs);
        while i < self.schema.constraint.len()
            invariant
                i <= self.schema.constraint.len(),
                cs == constraints_view(self.schema.constraint@),
                first_key(cs) == first_key(cs.skip(i as int)),
            decreases self.schema.constraint.len() - i,
        {
            assert(cs.skip(i as int)[0] == self.schema.constraint@[i as int]@);
            assert(cs.skip(i as int).drop_first() =~= cs.skip(i + 1));
            match &self.schema.constraint[i] {
                Constraint::Key(x) => {
                    return Some(x.clone());
                },
                _ => {},
            }
            i = i + 1;
        }
        None
    }
}

/// A stored query.
#[derive(Debug)]
pub struct Query {
    pub name: String,
    pub description: String,
    pub statement: String,
}

/// The parameters handed to a query, by position.
#[derive(Debug)]
pub enum QueryParams {
    Unnamed(Vec<Value>),
}

impl Default for QueryParams {
    fn default() -> (r: Self)
        ensures
            r matches QueryParams::Unnamed(v) && v@.len() == 0,
    {
        QueryParams::Unnamed(Vec::new())
    }
}

/// A stored script.
#[derive(Debug)]
pub struct Script {
    pub name: String,
    pub description: String,
    pub text: String,
}

/// A table together with rows of it.
#[derive(Debug)]
pub struct TableWithData {
    pub table: Table,
    pub data: TableData,
}

/// A query together with the rows it gave.
#[derive(Debug)]
pub struct QueryWithData {
    pub query: Query,
    pub data: TableData,
}

} // verus!
