use vstd::prelude::*;
use crate::row::{increasing, lemma_text_less_irreflexive, lists_keys, RowMap};
use crate::schema::{
    Column, Constraint, ConstraintView, DataType, ModificationView, SchemaModification, Table, Value,
    constraints_view,
};
use crate::table_data::{first_key, RowData, TableData};
use crate::text::{decimal, decimal_text, join, join_strings, quote, quoted, texts};

verus! {

/// The SQL type that stores a column of type `t`.
pub open spec fn sql_type(t: DataType) -> Seq<char> {
    match t {
        DataType::SmallInteger => "SMALLINT"@,
        DataType::Integer => "INTEGER"@,
        DataType::BigInteger => "BIGINT"@,
        DataType::Float => "REAL"@,
        DataType::DoubleFloat => "DOUBLE PRECISION"@,
        DataType::String => "TEXT"@,
        DataType::VarChar { length } => "VARCHAR("@ + decimal(length as nat) + ")"@,
        DataType::Byte => "BYTEA"@,
        DataType::Timestamp { with_tz } => "TIMESTAMP "@ + time_zone_text(with_tz),
        DataType::Date => "DATE"@,
        DataType::Time { with_tz } => "TIME "@ + time_zone_text(with_tz),
        DataType::Boolean => "BOOLEAN"@,
        DataType::Json => "JSON"@,
    }
}

pub open spec fn time_zone_text(with_tz: bool) -> Seq<char> {
    if with_tz {
        "WITH TIMEZONE"@
    } else {
        "WITHOUT TIMEZONE"@
    }
}

/// A column as it stands in a table definition: its name, a space, its type.
pub open spec fn column_definition(c: Column) -> Seq<char> {
    c.name@ + " "@ + sql_type(c.data_type)
}

fn time_zone(with_tz: bool) -> (r: &'static str)
    ensures
        r@ == time_zone_text(with_tz),
{
    if with_tz {
        "WITH TIMEZONE"
    } else {
        "WITHOUT TIMEZONE"
    }
}

/// The column as it stands in a table definition.
pub fn format_column(column: &Column) -> (r: String)
    ensures
        r@ == column_definition(*column),
{
    let mut out = column.name.clone();
    out.append(" ");
    match column.data_type {
        DataType::SmallInteger => out.append("SMALLINT"),
        DataType::Integer => out.append("INTEGER"),
        DataType::BigInteger => out.append("BIGINT"),
        DataType::Float => out.append("REAL"),
        DataType::DoubleFloat => out.append("DOUBLE PRECISION"),
        DataType::String => out.append("TEXT"),
        DataType::VarChar { length } => {
            out.append("VARCHAR(");
            let digits = decimal_text(length as u128);
            out.append(digits.as_str());
            out.append(")");
        },
        DataType::Byte => out.append("BYTEA"),
        DataType::Timestamp { with_tz } => {
            out.append("TIMESTAMP ");
            out.append(time_zone(with_tz));
        },
        DataType::Date => out.append("DATE"),
        DataType::Time { with_tz } => {
            out.append("TIME ");
            out.append(time_zone(with_tz));
        },
        DataType::Boolean => out.append("BOOLEAN"),
        DataType::Json => out.append("JSON"),
    }
    out
}

/// The command that makes `column` the primary key of `table`.
pub open spec fn primary_key_command(table: Seq<char>, column: Seq<char>) -> Seq<char> {
    "ALTER TABLE "@ + table + " ADD PRIMARY KEY ("@ + column + ");"@
}

/// The primary-key commands of the key constraints among `cs`, in their
/// order; the other constraints give no command.
pub open spec fn key_commands(cs: Seq<ConstraintView>, table: Seq<char>) -> Seq<Seq<char>>
    decreases cs.len(),
{
    if cs.len() == 0 {
        Seq::empty()
    } else {
        key_commands(cs.drop_last(), table) + match cs.last() {
            ConstraintView::Key(x) => seq![primary_key_command(table, x@)],
            _ => Seq::empty(),
        }
    }
}

/// The commands that create the columns: a new table when it is empty,
/// otherwise added columns, and nothing when there is no column to add.
pub open spec fn column_commands(columns: Seq<Column>, table: Seq<char>, is_empty: bool) -> Seq<
    Seq<char>,
> {
    let defs = columns.map_values(|c: Column| column_definition(c));
    if is_empty {
        seq!["CREATE TABLE "@ + table + " ("@ + join(defs, ", "@) + ");"@]
    } else if columns.len() == 0 {
        Seq::empty()
    } else {
        seq!["ALTER TABLE "@ + table + " ADD COLUMN "@ + join(defs, ", ADD COLUMN"@) + ";"@]
    }
}

/// The SQL commands that carry out a modification of the schema of `table`.
/// Only a create and a delete change the stored table.
pub open spec fn modification_commands(m: ModificationView, table: Seq<char>, is_empty: bool) -> Seq<
    Seq<char>,
> {
    match m {
        ModificationView::Create { columns, constraint } => column_commands(
            columns,
            table,
            is_empty,
        ) + key_commands(constraint, table),
        ModificationView::Delete => seq!["DROP TABLE IF EXISTS "@ + table],
        _ => Seq::empty(),
    }
}

/// The definitions of a list of columns.
fn format_columns(columns: &Vec<Column>) -> (r: Vec<String>)
    ensures
        texts(r@) == columns@.map_values(|c: Column| column_definition(c)),
{
    let mut defs: Vec<String> = Vec::new();
    let mut i: usize = 0;
    while i < columns.len()
        invariant
            i <= columns.len(),
            defs@.len() == i,
            forall|j: int| 0 <= j < i ==> (#[trigger] defs@[j])@ == column_definition(columns@[j]),
        decreases columns.len() - i,
    {
        defs.push(format_column(&columns[i]));
        i = i + 1;
    }
    assert(texts(defs@) =~= columns@.map_values(|c: Column| column_definition(c)));
    defs
}

/// The SQL commands that carry out `new_modification` on the table
/// `table_name`, which holds no column yet when `is_empty`.
pub fn sql_commands_for_modification(
    new_modification: &SchemaModification,
    table_name: &String,
    is_empty: bool,
) -> (r: Vec<String>)
    ensures
        texts(r@) == modification_commands(new_modification@, table_name@, is_empty),
{
    match new_modification {
        SchemaModification::Create { columns, constraint } => {
            let formatted = format_columns(columns);
            let mut commands: Vec<String> = Vec::new();
            if is_empty {
                let mut cmd = String::from_str("CREATE TABLE ");
                cmd.append(table_name.as_str());
                cmd.append(" (");
                let joined = join_strings(&formatted, ", ");
                cmd.append(joined.as_str());
                cmd.append(");");
                commands.push(cmd);
            } else if columns.len() > 0 {
                let mut cmd = String::from_str("ALTER TABLE ");
                cmd.append(table_name.as_str());
                cmd.append(" ADD COLUMN ");
                let joined = join_strings(&formatted, ", ADD COLUMN");
                cmd.append(joined.as_str());
                cmd.append(";");
                commands.push(cmd);
            }
            let ghost first = texts(commands@);
            assert(first == column_commands(columns@, table_name@, is_empty));
            let ghost cs = constraints_view(constraint@);
            let mut i: usize = 0;
            assert(cs.take(0) =~= Seq::<ConstraintView>::empty());
            assert(first + key_commands(cs.take(0), table_name@) =~= first);
            while i < constraint.len()
                invariant
                    i <= constraint.len(),
                    cs == constraints_view(constraint@),
                    texts(commands@) == first + key_commands(cs.take(i as int), table_name@),
                decreases constraint.len() - i,
            {
                proof {
                    assert(cs.take(i + 1).drop_last() =~= cs.take(i as int));
                    assert(cs.take(i + 1).last() == constraint@[i as int]@);
                }
                let ghost before = texts(commands@);
                match &constraint[i] {
                    Constraint::Key(x) => {
                        let mut cmd = String::from_str("ALTER TABLE ");
                        cmd.append(table_name.as_str());
                        cmd.append(" ADD PRIMARY KEY (");
                        cmd.append(x.as_str());
                        cmd.append(");");
                        commands.push(cmd);
                        assert(texts(commands@) =~= before.push(primary_key_command(table_name@, x@)));
                    },
                    _ => {
                        assert(texts(commands@) =~= before + Seq::<Seq<char>>::empty());
                    },
                }
                i = i + 1;
            }
            assert(cs.take(constraint.len() as int) =~= cs);
            commands
        },
        SchemaModification::Delete => {
            let mut cmd = String::from_str("DROP TABLE IF EXISTS ");
            cmd.append(table_name.as_str());
            let mut commands: Vec<String> = Vec::new();
            commands.push(cmd);
            assert(texts(commands@) =~= seq![cmd@]);
            commands
        },
        _ => {
            let commands: Vec<String> = Vec::new();
            assert(texts(commands@) =~= Seq::<Seq<char>>::empty());
            commands
        },
    }
}

/// Why a statement on table data cannot be made or its result read.
#[derive(Clone, Copy, Debug, PartialEq, Eq, Structural)]
pub enum DataError {
    /// the table has no key constraint
    NoKey,
    /// a row names its key column other than exactly once
    NoPrimaryKeyGiven,
    /// the statement returned no row
    NoRow,
}

/// A statement with the values of its numbered parameters.
#[derive(Debug)]
pub struct Statement {
    pub query: String,
    pub params: Vec<Value>,
}

/// The names of the columns of a table, in their order.
pub open spec fn column_names(table: Table) -> Seq<Seq<char>> {
    table.schema.columns@.map_values(|c: Column| c.name@)
}

/// The names, each between double quotes.
pub open spec fn quoted_all(names: Seq<Seq<char>>) -> Seq<Seq<char>> {
    names.map_values(|x: Seq<char>| quoted(x))
}

/// The clause that returns the columns `columns` of the changed rows.
pub open spec fn returning_clause(columns: Seq<Seq<char>>) -> Seq<char> {
    "RETURNING "@ + join(quoted_all(columns), ", "@)
}

/// The numbered parameter `n`.
pub open spec fn placeholder(n: nat) -> Seq<char> {
    "$"@ + decimal(n)
}

/// The parameters numbered from 1 to `n`.
pub open spec fn placeholders(n: nat) -> Seq<Seq<char>> {
    Seq::new(n, |i: int| placeholder((i + 1) as nat))
}

/// How many times `names` holds `key`.
pub open spec fn key_occurrences(names: Seq<Seq<char>>, key: Seq<char>) -> nat
    decreases names.len(),
{
    if names.len() == 0 {
        0
    } else {
        key_occurrences(names.drop_last(), key) + if names.last() == key {
            1nat
        } else {
            0nat
        }
    }
}

/// In a list of names in increasing order, a name occurs once if the list
/// holds it and not at all otherwise.
pub proof fn law_key_occurs_once(names: Seq<Seq<char>>, key: Seq<char>)
    requires
        increasing(names),
    ensures
        key_occurrences(names, key) <= 1,
        (key_occurrences(names, key) == 1) == names.contains(key),
    decreases names.len(),
{
    if names.len() > 0 {
        let init = names.drop_last();
        assert forall|j: int, k: int| 0 <= j < k < init.len() implies crate::row::text_less(
            #[trigger] init[j],
            #[trigger] init[k],
        ) by {
            assert(init[j] == names[j] && init[k] == names[k]);
        }
        law_key_occurs_once(init, key);
        if names.last() == key {
            if init.contains(key) {
                let j = choose|j: int| 0 <= j < init.len() && init[j] == key;
                assert(init[j] == names[j]);
                assert(crate::row::text_less(names[j], names[names.len() - 1]));
                lemma_text_less_irreflexive(key);
            }
            assert(names.contains(key)) by {
                assert(names[names.len() - 1] == key);
            }
        } else {
            if names.contains(key) {
                let j = choose|j: int| 0 <= j < names.len() && names[j] == key;
                assert(j < names.len() - 1);
                assert(init[j] == key);
            }
            if init.contains(key) {
                let j = choose|j: int| 0 <= j < init.len() && init[j] == key;
                assert(names[j] == key);
            }
        }
    }
}

/// A row names the key exactly once when it has a value under it.
proof fn lemma_row_names_key(row: RowMap, key: Seq<char>)
    requires
        lists_keys(row.names(), row@),
    ensures
        (key_occurrences(row.names(), key) == 1) == row@.contains_key(key),
{
    law_key_occurs_once(row.names(), key);
    if row@.contains_key(key) {
        let i = choose|i: int| 0 <= i < row.names().len() && row.names()[i] == key;
        assert(row.names().contains(key));
    }
    if row.names().contains(key) {
        let i = choose|i: int| 0 <= i < row.names().len() && row.names()[i] == key;
        assert(row@.contains_key(row.names()[i]));
    }
}

/// For each name but the key, in order: the column takes the value that
/// was refused.
pub open spec fn excluded_updates(names: Seq<Seq<char>>, key: Seq<char>) -> Seq<Seq<char>>
    decreases names.len(),
{
    if names.len() == 0 {
        Seq::empty()
    } else {
        excluded_updates(names.drop_last(), key) + if names.last() != key {
            seq![quoted(names.last()) + " = EXCLUDED."@ + quoted(names.last())]
        } else {
            Seq::empty()
        }
    }
}

/// For each name that is the key (when `keep_key`) or that is not (when
/// not), in order: the column equals the parameter of its position.
pub open spec fn assignments(names: Seq<Seq<char>>, key: Seq<char>, keep_key: bool) -> Seq<
    Seq<char>,
>
    decreases names.len(),
{
    if names.len() == 0 {
        Seq::empty()
    } else {
        assignments(names.drop_last(), key, keep_key) + if (names.last() == key) == keep_key {
            seq![quoted(names.last()) + " = "@ + placeholder(names.len())]
        } else {
            Seq::empty()
        }
    }
}

/// Each column equals the parameter of its position.
pub open spec fn all_assignments(names: Seq<Seq<char>>) -> Seq<Seq<char>> {
    Seq::new(names.len(), |i: int| quoted(names[i]) + " = "@ + placeholder((i + 1) as nat))
}

/// The statement that reads every row of a table.
pub open spec fn select_all_text(table: Seq<char>, columns: Seq<Seq<char>>) -> Seq<char> {
    "SELECT "@ + join(
        columns.map_values(|c: Seq<char>| quoted(table) + "."@ + quoted(c)),
        ", "@,
    ) + " FROM "@ + quoted(table) + ";"@
}

/// The first two lines of an insertion of a row with the columns `names`.
pub open spec fn insert_head(table: Seq<char>, names: Seq<Seq<char>>) -> Seq<char> {
    "INSERT INTO "@ + quoted(table) + " ("@ + join(quoted_all(names), ", "@) + ")"@ + "\n"@
        + "VALUES ("@ + join(placeholders(names.len()), ", "@) + ")"@
}

/// The statement that inserts a row, or updates the row of the same key.
pub open spec fn upsert_text(
    table: Seq<char>,
    names: Seq<Seq<char>>,
    key: Seq<char>,
    columns: Seq<Seq<char>>,
) -> Seq<char> {
    let updates = excluded_updates(names, key);
    insert_head(table, names) + "\n"@ + (if updates.len() > 0 {
        "ON CONFLICT ("@ + quoted(key) + ") DO UPDATE SET "@ + join(updates, ", "@)
    } else {
        Seq::empty()
    }) + "\n"@ + returning_clause(columns) + ";"@
}

/// The statement that inserts a row, skipping it when its key is taken if
/// `ignore_on_failure`.
pub open spec fn insert_text(
    table: Seq<char>,
    names: Seq<Seq<char>>,
    key: Seq<char>,
    columns: Seq<Seq<char>>,
    ignore_on_failure: bool,
) -> Seq<char> {
    insert_head(table, names) + "\n"@ + (if ignore_on_failure {
        "ON CONFLICT ("@ + quoted(key) + ") DO NOTHING"@
    } else {
        Seq::empty()
    }) + "\n"@ + returning_clause(columns) + ";"@
}

/// The statement that updates the row whose key the row gives.
pub open spec fn update_text(
    table: Seq<char>,
    names: Seq<Seq<char>>,
    key: Seq<char>,
    columns: Seq<Seq<char>>,
) -> Seq<char> {
    "UPDATE "@ + quoted(table) + " SET "@ + join(assignments(names, key, false), ", "@) + "\n"@
        + "WHERE "@ + join(assignments(names, key, true), " AND "@) + "\n"@ + returning_clause(
        columns,
    ) + ";"@
}

/// The statement that updates the row of a given key; the key value is the
/// parameter after those of the row.
pub open spec fn update_with_key_text(
    table: Seq<char>,
    names: Seq<Seq<char>>,
    key: Seq<char>,
    columns: Seq<Seq<char>>,
) -> Seq<char> {
    "UPDATE "@ + quoted(table) + " SET "@ + join(all_assignments(names), ", "@) + "\n"@ + "WHERE "@
        + quoted(key) + " = "@ + placeholder(names.len() + 1) + "\n"@ + returning_clause(columns)
        + ";"@
}

/// The statement that deletes the row of a given key, the first parameter.
pub open spec fn delete_with_key_text(table: Seq<char>, key: Seq<char>, columns: Seq<Seq<char>>) -> Seq<
    char,
> {
    "DELETE FROM "@ + quoted(table) + " "@ + "\n"@ + "WHERE "@ + quoted(key) + " = $1"@ + "\n"@
        + returning_clause(columns) + ";"@
}

/// The names of the columns of a table, in their order.
pub fn table_column_names(table: &Table) -> (r: Vec<String>)
    ensures
        texts(r@) == column_names(*table),
{
    let mut names: Vec<String> = Vec::new();
    let mut i: usize = 0;
    while i < table.schema.columns.len()
        invariant
            i <= table.schema.columns.len(),
            names@.len() == i,
            forall|j: int| 0 <= j < i ==> (#[trigger] names@[j])@ == table.schema.columns@[j].name@,
        decreases table.schema.columns.len() - i,
    {
        names.push(table.schema.columns[i].name.clone());
        i = i + 1;
    }
    assert(texts(names@) =~= column_names(*table));
    names
}

/// The names, each between double quotes.
fn quote_all(names: &Vec<String>) -> (r: Vec<String>)
    ensures
        texts(r@) == quoted_all(texts(names@)),
{
    let mut out: Vec<String> = Vec::new();
    let mut i: usize = 0;
    while i < names.len()
        invariant
            i <= names.len(),
            out@.len() == i,
            forall|j: int| 0 <= j < i ==> (#[trigger] out@[j])@ == quoted(names@[j]@),
        decreases names.len() - i,
    {
        out.push(quote(names[i].as_str()));
        i = i + 1;
    }
    assert(texts(out@) =~= quoted_all(texts(names@)));
    out
}

/// The clause that returns the given columns of the changed rows.
fn returning(columns: &Vec<String>) -> (r: String)
    ensures
        r@ == returning_clause(texts(columns@)),
{
    let mut out = String::from_str("RETURNING ");
    let quoted_columns = quote_all(columns);
    let joined = join_strings(&quoted_columns, ", ");
    out.append(joined.as_str());
    out
}

/// The numbered parameter `n`.
fn placeholder_text(n: u128) -> (r: String)
    ensures
        r@ == placeholder(n as nat),
{
    let mut out = String::from_str("$");
    let digits = decimal_text(n);
    out.append(digits.as_str());
    out
}

/// The parameters numbered from 1 to `n`.
fn placeholder_list(n: usize) -> (r: Vec<String>)
    ensures
        texts(r@) == placeholders(n as nat),
{
    let mut out: Vec<String> = Vec::new();
    let mut i: usize = 0;
    while i < n
        invariant
            i <= n,
            out@.len() == i,
            forall|j: int| 0 <= j < i ==> (#[trigger] out@[j])@ == placeholder((j + 1) as nat),
        decreases n - i,
    {
        out.push(placeholder_text(i as u128 + 1));
        i = i + 1;
    }
    assert(texts(out@) =~= placeholders(n as nat));
    out
}

/// How many times `names` holds `key`.
pub fn count_key(names: &Vec<String>, key: &String) -> (r: usize)
    ensures
        r == key_occurrences(texts(names@), key@),
{
    let ghost ns = texts(names@);
    let mut count: usize = 0;
    let mut i: usize = 0;
    while i < names.len()
        invariant
            i <= names.len(),
            ns == texts(names@),
            count == key_occurrences(ns.take(i as int), key@),
            count <= i,
        decreases names.len() - i,
    {
        assert(ns.take(i + 1).drop_last() =~= ns.take(i as int));
        if names[i] == *key {
            count = count + 1;
        }
        i = i + 1;
    }
    assert(ns.take(names.len() as int) =~= ns);
    count
}

/// For each name but the key: the column takes the refused value.
fn excluded_update_list(names: &Vec<String>, key: &String) -> (r: Vec<String>)
    ensures
        texts(r@) == excluded_updates(texts(names@), key@),
{
    let ghost ns = texts(names@);
    let mut out: Vec<String> = Vec::new();
    let mut i: usize = 0;
    while i < names.len()
        invariant
            i <= names.len(),
            ns == texts(names@),
            texts(out@) == excluded_updates(ns.take(i as int), key@),
        decreases names.len() - i,
    {
        assert(ns.take(i + 1).drop_last() =~= ns.take(i as int));
        let ghost before = texts(out@);
        if names[i] != *key {
            let q = quote(names[i].as_str());
            let mut item = q.clone();
            item.append(" = EXCLUDED.");
            item.append(q.as_str());
            out.push(item);
            assert(texts(out@) =~= before + seq![quoted(ns[i as int]) + " = EXCLUDED."@ + quoted(ns[i as int])]);
        } else {
            assert(texts(out@) =~= before + Seq::<Seq<char>>::empty());
        }
        i = i + 1;
    }
    assert(ns.take(names.len() as int) =~= ns);
    out
}

/// For each name that is the key (when `keep_key`) or is not (otherwise):
/// the column equals the parameter of its position.
fn assignment_list(names: &Vec<String>, key: &String, keep_key: bool) -> (r: Vec<String>)
    ensures
        texts(r@) == assignments(texts(names@), key@, keep_key),
{
    let ghost ns = texts(names@);
    let mut out: Vec<String> = Vec::new();
    let mut i: usize = 0;
    while i < names.len()
        invariant
            i <= names.len(),
            ns == texts(names@),
            texts(out@) == assignments(ns.take(i as int), key@, keep_key),
        decreases names.len() - i,
    {
        assert(ns.take(i + 1).drop_last() =~= ns.take(i as int));
        let ghost before = texts(out@);
        if (names[i] == *key) == keep_key {
            let mut item = quote(names[i].as_str());
            item.append(" = ");
            let p = placeholder_text(i as u128 + 1);
            item.append(p.as_str());
            out.push(item);
            assert(texts(out@) =~= before + seq![quoted(ns[i as int]) + " = "@ + placeholder((i + 1) as nat)]);
        } else {
            assert(texts(out@) =~= before + Seq::<Seq<char>>::empty());
        }
        i = i + 1;
    }
    assert(ns.take(names.len() as int) =~= ns);
    out
}

/// Each column equals the parameter of its position.
fn all_assignment_list(names: &Vec<String>) -> (r: Vec<String>)
    ensures
        texts(r@) == all_assignments(texts(names@)),
{
    let mut out: Vec<String> = Vec::new();
    let mut i: usize = 0;
    while i < names.len()
        invariant
            i <= names.len(),
            out@.len() == i,
            forall|j: int| 0 <= j < i ==> (#[trigger] out@[j])@ == quoted(names@[j]@) + " = "@ + placeholder((j + 1) as nat),
        decreases names.len() - i,
    {
        let mut item = quote(names[i].as_str());
        item.append(" = ");
        let p = placeholder_text(i as u128 + 1);
        item.append(p.as_str());
        out.push(item);
        i = i + 1;
    }
    assert(texts(out@) =~= all_assignments(texts(names@)));
    out
}

/// The first two lines of an insertion of a row with the columns `names`.
fn insert_head_text(table_name: &String, names: &Vec<String>) -> (r: String)
    ensures
        r@ == insert_head(table_name@, texts(names@)),
{
    let mut out = String::from_str("INSERT INTO ");
    let t = quote(table_name.as_str());
    out.append(t.as_str());
    out.append(" (");
    let quoted_names = quote_all(names);
    let joined = join_strings(&quoted_names, ", ");
    out.append(joined.as_str());
    out.append(")");
    out.append("\n");
    out.append("VALUES (");
    let params = placeholder_list(names.len());
    let joined_params = join_strings(&params, ", ");
    out.append(joined_params.as_str());
    out.append(")");
    out
}

/// The statement that reads every row of a table, without parameters.
pub fn select_all_statement(table: &Table) -> (r: Statement)
    ensures
        r.query@ == select_all_text(table.name@, column_names(*table)),
        r.params@.len() == 0,
{
    let names = table_column_names(table);
    let t = quote(table.name.as_str());
    let mut qualified: Vec<String> = Vec::new();
    let mut i: usize = 0;
    while i < names.len()
        invariant
            i <= names.len(),
            t@ == quoted(table.name@),
            qualified@.len() == i,
            forall|j: int| 0 <= j < i ==> (#[trigger] qualified@[j])@ == quoted(table.name@) + "."@
                + quoted(names@[j]@),
        decreases names.len() - i,
    {
        let mut item = t.clone();
        item.append(".");
        let c = quote(names[i].as_str());
        item.append(c.as_str());
        qualified.push(item);
        i = i + 1;
    }
    assert(texts(qualified@) =~= texts(names@).map_values(
        |c: Seq<char>| quoted(table.name@) + "."@ + quoted(c),
    ));
    let mut query = String::from_str("SELECT ");
    let joined = join_strings(&qualified, ", ");
    query.append(joined.as_str());
    query.append(" FROM ");
    query.append(t.as_str());
    query.append(";");
    Statement { query, params: Vec::new() }
}

/// The key column of a table: that of its first key constraint.
pub fn key_of(table: &Table) -> (r: Result<String, DataError>)
    ensures
        match first_key(constraints_view(table.schema.constraint@)) {
            Some(k) => r == Ok::<String, DataError>(k),
            None => r == Err::<String, DataError>(DataError::NoKey),
        },
{
    match table.get_key() {
        Some(k) => Ok(k),
        None => Err(DataError::NoKey),
    }
}

/// The statement that inserts `row` into `table`, or updates the row with
/// the same value under `key`; the row must name `key` exactly once.
pub fn upsert_row_statement(table: &Table, key: &String, row: &RowMap) -> (r: Result<
    Statement,
    DataError,
>)
    ensures
        match r {
            Ok(s) => {
                &&& key_occurrences(row.names(), key@) == 1
                &&& s.query@ == upsert_text(table.name@, row.names(), key@, column_names(*table))
                &&& s.params@ == row.values_in_order()
            },
            Err(e) => e == DataError::NoPrimaryKeyGiven && key_occurrences(row.names(), key@) != 1,
        },
        r is Err <==> !row@.contains_key(key@),
{
    let names = row.keys();
    proof {
        lemma_row_names_key(*row, key@);
    }
    if count_key(&names, key) != 1 {
        return Err(DataError::NoPrimaryKeyGiven);
    }
    let values = row.values();
    let mut query = insert_head_text(&table.name, &names);
    query.append("\n");
    let updates = excluded_update_list(&names, key);
    if updates.len() > 0 {
        query.append("ON CONFLICT (");
        let k = quote(key.as_str());
        query.append(k.as_str());
        query.append(") DO UPDATE SET ");
        let joined = join_strings(&updates, ", ");
        query.append(joined.as_str());
    }
    query.append("\n");
    let columns = table_column_names(table);
    let ret = returning(&columns);
    query.append(ret.as_str());
    query.append(";");
    Ok(Statement { query, params: values })
}

/// The statement that inserts `row` into `table`; with `ignore_on_failure`
/// a row whose key is taken is skipped. The row must name `key` exactly
/// once.
#[verifier::spinoff_prover]
pub fn insert_row_statement(
    table: &Table,
    key: &String,
    row: &RowMap,
    ignore_on_failure: bool,
) -> (r: Result<Statement, DataError>)
    ensures
        match r {
            Ok(s) => {
                &&& key_occurrences(row.names(), key@) == 1
                &&& s.query@ == insert_text(
                    table.name@,
                    row.names(),
                    key@,
                    column_names(*table),
                    ignore_on_failure,
                )
                &&& s.params@ == row.values_in_order()
            },
            Err(e) => e == DataError::NoPrimaryKeyGiven && key_occurrences(row.names(), key@) != 1,
        },
        r is Err <==> !row@.contains_key(key@),
{
    let names = row.keys();
    proof {
        lemma_row_names_key(*row, key@);
    }
    if count_key(&names, key) != 1 {
        return Err(DataError::NoPrimaryKeyGiven);
    }
    let values = row.values();
    let mut query = insert_head_text(&table.name, &names);
    query.append("\n");
    if ignore_on_failure {
        query.append("ON CONFLICT (");
        let k = quote(key.as_str());
        query.append(k.as_str());
        query.append(") DO NOTHING");
    }
    query.append("\n");
    let columns = table_column_names(table);
    let ret = returning(&columns);
    query.append(ret.as_str());
    query.append(";");
    Ok(Statement { query, params: values })
}

/// The statement that updates the row of `table` whose key `row` gives;
/// the row must name `key` exactly once.
pub fn update_row_statement(table: &Table, key: &String, row: &RowMap) -> (r: Result<
    Statement,
    DataError,
>)
    ensures
        match r {
            Ok(s) => {
                &&& key_occurrences(row.names(), key@) == 1
                &&& s.query@ == update_text(table.name@, row.names(), key@, column_names(*table))
                &&& s.params@ == row.values_in_order()
            },
            Err(e) => e == DataError::NoPrimaryKeyGiven && key_occurrences(row.names(), key@) != 1,
        },
        r is Err <==> !row@.contains_key(key@),
{
    let names = row.keys();
    proof {
        lemma_row_names_key(*row, key@);
    }
    if count_key(&names, key) != 1 {
        return Err(DataError::NoPrimaryKeyGiven);
    }
    let values = row.values();
    let mut query = String::from_str("UPDATE ");
    let t = quote(table.name.as_str());
    query.append(t.as_str());
    query.append(" SET ");
    let sets = assignment_list(&names, key, false);
    let joined_sets = join_strings(&sets, ", ");
    query.append(joined_sets.as_str());
    query.append("\n");
    query.append("WHERE ");
    let conditions = assignment_list(&names, key, true);
    let joined_conditions = join_strings(&conditions, " AND ");
    query.append(joined_conditions.as_str());
    query.append("\n");
    let columns = table_column_names(table);
    let ret = returning(&columns);
    query.append(ret.as_str());
    query.append(";");
    Ok(Statement { query, params: values })
}

/// The statement that updates the row of `table` whose key is `key_value`
/// with the values of `row_data`; the key value comes after the row's
/// values among the parameters.
pub fn update_with_key_statement(table: &Table, row_data: RowData, key_value: String) -> (r:
    Result<Statement, DataError>)
    ensures
        match first_key(constraints_view(table.schema.constraint@)) {
            None => r == Err::<Statement, DataError>(DataError::NoKey),
            Some(key) => r matches Ok(s) && exists|row: RowMap|
                {
                    &&& (match row_data {
                        RowData::RowData(x) => row == x,
                        RowData::RowsFlatData { columns, data } => row@
                            == crate::table_data::flat_row_map(texts(columns@), data@),
                    })
                    &&& s.query@ == update_with_key_text(
                        table.name@,
                        row.names(),
                        key@,
                        column_names(*table),
                    )
                    &&& s.params@ == row.values_in_order().push(Value::String(key_value))
                },
        },
{
    let key = match key_of(table) {
        Ok(k) => k,
        Err(e) => {
            return Err(e);
        },
    };
    let row = row_data.into_row_data_vec();
    let names = row.keys();
    let mut values = row.values();
    let mut query = String::from_str("UPDATE ");
    let t = quote(table.name.as_str());
    query.append(t.as_str());
    query.append(" SET ");
    let sets = all_assignment_list(&names);
    let joined_sets = join_strings(&sets, ", ");
    query.append(joined_sets.as_str());
    query.append("\n");
    query.append("WHERE ");
    let k = quote(key.as_str());
    query.append(k.as_str());
    query.append(" = ");
    let p = placeholder_text(names.len() as u128 + 1);
    query.append(p.as_str());
    query.append("\n");
    let columns = table_column_names(table);
    let ret = returning(&columns);
    query.append(ret.as_str());
    query.append(";");
    values.push(Value::String(key_value));
    Ok(Statement { query, params: values })
}

/// The statement that deletes the row of `table` whose key is
/// `key_value`, the one parameter.
pub fn delete_with_key_statement(table: &Table, key_value: String) -> (r: Result<
    Statement,
    DataError,
>)
    ensures
        match first_key(constraints_view(table.schema.constraint@)) {
            None => r == Err::<Statement, DataError>(DataError::NoKey),
            Some(key) => r matches Ok(s) && s.query@ == delete_with_key_text(
                table.name@,
                key@,
                column_names(*table),
            ) && s.params@ == seq![Value::String(key_value)],
        },
{
    let key = match key_of(table) {
        Ok(k) => k,
        Err(e) => {
            return Err(e);
        },
    };
    let mut query = String::from_str("DELETE FROM ");
    let t = quote(table.name.as_str());
    query.append(t.as_str());
    query.append(" ");
    query.append("\n");
    query.append("WHERE ");
    let k = quote(key.as_str());
    query.append(k.as_str());
    query.append(" = $1");
    query.append("\n");
    let columns = table_column_names(table);
    let ret = returning(&columns);
    query.append(ret.as_str());
    query.append(";");
    let mut params: Vec<Value> = Vec::new();
    params.push(Value::String(key_value));
    Ok(Statement { query, params })
}

/// The rows that statements returned, under the names of the table's
/// columns.
pub fn rows_result(table: &Table, rows: Vec<Vec<Value>>) -> (r: TableData)
    ensures
        r matches TableData::RowsFlatData { columns, data } && texts(columns@) == column_names(*table)
            && data == rows,
{
    TableData::RowsFlatData { columns: table_column_names(table), data: rows }
}

/// The first row that a statement returned, under the names of the table's
/// columns; an error when it returned none.
pub fn single_row_result(table: &Table, rows: Vec<Vec<Value>>) -> (r: Result<RowData, DataError>)
    ensures
        rows@.len() == 0 ==> r == Err::<RowData, DataError>(DataError::NoRow),
        rows@.len() > 0 ==> (r matches Ok(RowData::RowsFlatData { columns, data }) && texts(columns@)
            == column_names(*table) && data@ == rows@[0]@),
{
    if rows.len() == 0 {
        return Err(DataError::NoRow);
    }
    let data = crate::schema::clone_values(&rows[0]);
    Ok(RowData::RowsFlatData { columns: table_column_names(table), data })
}

/// `cmd` is the primary-key command that the constraint `c` calls for.
pub open spec fn key_command_of(c: ConstraintView, table: Seq<char>, cmd: Seq<char>) -> bool {
    c matches ConstraintView::Key(x) && cmd == primary_key_command(table, x@)
}

/// The commands for the key constraints: one primary-key command for each
/// key constraint, whatever its place among the constraints, and no other.
proof fn lemma_key_commands(cs: Seq<ConstraintView>, table: Seq<char>)
    ensures
        key_commands(cs, table).len() == cs.filter(|c: ConstraintView| c is Key).len(),
        forall|j: int|
            0 <= j < cs.len() && (#[trigger] cs[j]) is Key ==> exists|m: int|
                0 <= m < key_commands(cs, table).len() && key_command_of(
                    cs[j],
                    table,
                    #[trigger] key_commands(cs, table)[m],
                ),
        forall|i: int|
            0 <= i < key_commands(cs, table).len() ==> exists|j: int|
                0 <= j < cs.len() && key_command_of(
                    #[trigger] cs[j],
                    table,
                    #[trigger] key_commands(cs, table)[i],
                ),
    decreases cs.len(),
{
    reveal(Seq::filter);
    if cs.len() > 0 {
        let init = cs.drop_last();
        lemma_key_commands(init, table);
        let k0 = key_commands(init, table);
        let k = key_commands(cs, table);
        assert(k.take(k0.len() as int) =~= k0);
        assert forall|j: int| 0 <= j < cs.len() && (#[trigger] cs[j]) is Key implies exists|m: int|
            0 <= m < k.len() && key_command_of(cs[j], table, #[trigger] k[m]) by {
            if j < cs.len() - 1 {
                assert(init[j] == cs[j]);
                let m = choose|m: int| 0 <= m < k0.len() && key_command_of(init[j], table, #[trigger] k0[m]);
                assert(k[m] == k0[m]);
            } else {
                assert(k[k0.len() as int] == k.last());
                assert(key_command_of(cs[j], table, k[k0.len() as int]));
            }
        }
        assert forall|i: int| 0 <= i < k.len() implies exists|j: int|
            0 <= j < cs.len() && key_command_of(#[trigger] cs[j], table, #[trigger] k[i]) by {
            if i < k0.len() {
                assert(k[i] == k0[i]);
                let j = choose|j: int|
                    0 <= j < init.len() && key_command_of(#[trigger] init[j], table, #[trigger] k0[i]);
                assert(cs[j] == init[j]);
            } else {
                if cs.last() is Key {
                    assert(key_command_of(cs[cs.len() - 1], table, k[i]));
                } else {
                    assert(k =~= k0);
                }
            }
        }
    }
}

/// Creating columns gives the commands for the columns, then exactly one
/// primary-key command for each key constraint of the modification, at
/// whatever place it stands, and no other command.
pub proof fn law_create_key_commands(
    columns: Seq<Column>,
    constraint: Seq<ConstraintView>,
    table: Seq<char>,
    is_empty: bool,
)
    ensures
        ({
            let cmds = modification_commands(
                ModificationView::Create { columns, constraint },
                table,
                is_empty,
            );
            let head = column_commands(columns, table, is_empty);
            let keys = cmds.skip(head.len() as int);
            &&& cmds.take(head.len() as int) == head
            &&& keys.len() == constraint.filter(|c: ConstraintView| c is Key).len()
            &&& forall|j: int|
                0 <= j < constraint.len() && (#[trigger] constraint[j]) is Key ==> exists|m: int|
                    0 <= m < keys.len() && key_command_of(constraint[j], table, #[trigger] keys[m])
            &&& forall|i: int|
                0 <= i < keys.len() ==> exists|j: int|
                    0 <= j < constraint.len() && key_command_of(
                        #[trigger] constraint[j],
                        table,
                        #[trigger] keys[i],
                    )
        }),
{
    let cmds = modification_commands(ModificationView::Create { columns, constraint }, table, is_empty);
    let head = column_commands(columns, table, is_empty);
    lemma_key_commands(constraint, table);
    assert(cmds.take(head.len() as int) =~= head);
    assert(cmds.skip(head.len() as int) =~= key_commands(constraint, table));
}

/// The updates of an upsert set, in order, each column of the row but the
/// key to the value that was refused, and no other column.
pub proof fn law_upsert_updates_non_key_columns(names: Seq<Seq<char>>, key: Seq<char>)
    ensures
        excluded_updates(names, key) == names.filter(|n: Seq<char>| n != key).map_values(
            |n: Seq<char>| quoted(n) + " = EXCLUDED."@ + quoted(n),
        ),
    decreases names.len(),
{
    reveal(Seq::filter);
    if names.len() > 0 {
        law_upsert_updates_non_key_columns(names.drop_last(), key);
        let f = |n: Seq<char>| quoted(n) + " = EXCLUDED."@ + quoted(n);
        let p = |n: Seq<char>| n != key;
        let before = names.drop_last().filter(p);
        if names.last() != key {
            assert(names.filter(p) == before.push(names.last()));
            assert(before.push(names.last()).map_values(f) =~= before.map_values(f).push(
                f(names.last()),
            ));
        } else {
            assert(names.filter(p) == before);
            assert(excluded_updates(names, key) =~= excluded_updates(names.drop_last(), key));
        }
    }
}

/// The conflict clause of an upsert names the key, and only columns other
/// than the key are updated on a conflict.
pub proof fn law_upsert_conflict_on_key(
    table: Seq<char>,
    names: Seq<Seq<char>>,
    key: Seq<char>,
    columns: Seq<Seq<char>>,
)
    ensures
        ({
            let others = names.filter(|n: Seq<char>| n != key);
            upsert_text(table, names, key, columns) == insert_head(table, names) + "\n"@ + (if others.len()
                > 0 {
                "ON CONFLICT ("@ + quoted(key) + ") DO UPDATE SET "@ + join(
                    others.map_values(|n: Seq<char>| quoted(n) + " = EXCLUDED."@ + quoted(n)),
                    ", "@,
                )
            } else {
                Seq::empty()
            }) + "\n"@ + returning_clause(columns) + ";"@
        }),
{
    law_upsert_updates_non_key_columns(names, key);
}

/// An insertion that skips taken keys has the conflict clause on the key
/// and nothing else where one that does not skip has none, whatever the
/// order of the row's columns.
pub proof fn law_insert_conflict_on_key(
    table: Seq<char>,
    names: Seq<Seq<char>>,
    key: Seq<char>,
    columns: Seq<Seq<char>>,
)
    ensures
        insert_text(table, names, key, columns, true) == insert_head(table, names) + "\n"@
            + "ON CONFLICT ("@ + quoted(key) + ") DO NOTHING"@ + "\n"@ + returning_clause(columns)
            + ";"@,
        insert_text(table, names, key, columns, false) == insert_head(table, names) + "\n"@ + "\n"@
            + returning_clause(columns) + ";"@,
{
    assert(insert_head(table, names) + "\n"@ + Seq::<char>::empty() =~= insert_head(table, names)
        + "\n"@);
}

} // verus!
