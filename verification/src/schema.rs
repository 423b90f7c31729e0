use vstd::prelude::*;

verus! {

/// The type of a column.
#[derive(Clone, Copy, Debug, PartialEq, Eq, Structural)]
pub enum DataType {
    SmallInteger,
    Integer,
    BigInteger,
    Float,
    DoubleFloat,
    String,
    VarChar { length: u32 },
    Byte,
    Timestamp { with_tz: bool },
    Date,
    Time { with_tz: bool },
    Boolean,
    Json,
}

/// A single cell. A JSON cell holds the text of the JSON document.
#[derive(Debug)]
pub enum Value {
    Null,
    String(String),
    Integer(i64),
    Json(String),
}

impl Clone for Value {
    fn clone(&self) -> (r: Self)
        ensures
            r == *self,
    {
        match self {
            Value::Null => Value::Null,
            Value::String(s) => Value::String(s.clone()),
            Value::Integer(i) => Value::Integer(*i),
            Value::Json(j) => Value::Json(j.clone()),
        }
    }
}

/// Copies a list of values, element by element.
pub fn clone_values(values: &Vec<Value>) -> (r: Vec<Value>)
    ensures
        r@ == values@,
{
    let r = values.clone();
    assert(r@ =~= values@);
    r
}

/// Copies a list of texts, element by element.
pub fn clone_strings(texts: &Vec<String>) -> (r: Vec<String>)
    ensures
        r@ == texts@,
{
    let r = texts.clone();
    assert(r@ =~= texts@);
    r
}

/// A condition on the value of a column.
#[derive(Debug)]
pub enum Expression {
    Equals { column: String, value: Value },
    NotEqual { column: String, value: Value },
    GreaterThan { column: String, value: Value },
    LessThan { column: String, value: Value },
    In { column: String, values: Vec<Value> },
}

/// An expression with its list of values taken as a sequence.
pub enum ExpressionView {
    Equals { column: String, value: Value },
    NotEqual { column: String, value: Value },
    GreaterThan { column: String, value: Value },
    LessThan { column: String, value: Value },
    In { column: String, values: Seq<Value> },
}

impl View for Expression {
    type V = ExpressionView;

    open spec fn view(&self) -> ExpressionView {
        match self {
            Expression::Equals { column, value } => ExpressionView::Equals { column: *column, value: *value },
            Expression::NotEqual { column, value } => ExpressionView::NotEqual { column: *column, value: *value },
            Expression::GreaterThan { column, value } => ExpressionView::GreaterThan {
                column: *column,
                value: *value,
            },
            Expression::LessThan { column, value } => ExpressionView::LessThan { column: *column, value: *value },
            Expression::In { column, values } => ExpressionView::In { column: *column, values: values@ },
        }
    }
}

impl Clone for Expression {
    fn clone(&self) -> (r: Self)
        ensures
            r@ == self@,
    {
        match self {
            Expression::Equals { column, value } => Expression::Equals {
                column: column.clone(),
                value: value.clone(),
            },
            Expression::NotEqual { column, value } => Expression::NotEqual {
                column: column.clone(),
                value: value.clone(),
            },
            Expression::GreaterThan { column, value } => Expression::GreaterThan {
                column: column.clone(),
                value: value.clone(),
            },
            Expression::LessThan { column, value } => Expression::LessThan {
                column: column.clone(),
                value: value.clone(),
            },
            Expression::In { column, values } => Expression::In {
                column: column.clone(),
                values: clone_values(values),
            },
        }
    }
}

/// A constraint on the rows of a table.
#[derive(Debug)]
pub enum Constraint {
    Key(String),
    Unique(String),
    UniqueTogether(Vec<String>),
    Check(Expression),
    Reference { column: String, foreign_table: String, foreign_column: String },
    ReferenceTogether { columns: Vec<String>, foreign_table: String, foreign_columns: Vec<String> },
}

/// A constraint with its lists taken as sequences.
pub enum ConstraintView {
    Key(String),
    Unique(String),
    UniqueTogether(Seq<String>),
    Check(ExpressionView),
    Reference { column: String, foreign_table: String, foreign_column: String },
    ReferenceTogether { columns: Seq<String>, foreign_table: String, foreign_columns: Seq<String> },
}

impl View for Constraint {
    type V = ConstraintView;

    open spec fn view(&self) -> ConstraintView {
        match self {
            Constraint::Key(x) => ConstraintView::Key(*x),
            Constraint::Unique(x) => ConstraintView::Unique(*x),
            Constraint::UniqueTogether(xs) => ConstraintView::UniqueTogether(xs@),
            Constraint::Check(e) => ConstraintView::Check(e@),
            Constraint::Reference { column, foreign_table, foreign_column } => ConstraintView::Reference {
                column: *column,
                foreign_table: *foreign_table,
                foreign_column: *foreign_column,
            },
            Constraint::ReferenceTogether { columns, foreign_table, foreign_columns } =>
                ConstraintView::ReferenceTogether {
                columns: columns@,
                foreign_table: *foreign_table,
                foreign_columns: foreign_columns@,
            },
        }
    }
}

impl Clone for Constraint {
    fn clone(&self) -> (r: Self)
        ensures
            r@ == self@,
    {
        match self {
            Constraint::Key(x) => Constraint::Key(x.clone()),
            Constraint::Unique(x) => Constraint::Unique(x.clone()),
            Constraint::UniqueTogether(xs) => Constraint::UniqueTogether(clone_strings(xs)),
            Constraint::Check(e) => Constraint::Check(e.clone()),
            Constraint::Reference { column, foreign_table, foreign_column } => Constraint::Reference {
                column: column.clone(),
                foreign_table: foreign_table.clone(),
                foreign_column: foreign_column.clone(),
            },
            Constraint::ReferenceTogether { columns, foreign_table, foreign_columns } =>
                Constraint::ReferenceTogether {
                columns: clone_strings(columns),
                foreign_table: foreign_table.clone(),
                foreign_columns: clone_strings(foreign_columns),
            },
        }
    }
}

/// The views of a list of constraints.
pub open spec fn constraints_view(s: Seq<Constraint>) -> Seq<ConstraintView> {
    s.map_values(|c: Constraint| c@)
}

/// A column of a table.
#[derive(Debug)]
pub struct Column {
    pub name: String,
    pub data_type: DataType,
    pub default: Option<Value>,
}

impl Clone for Column {
    fn clone(&self) -> (r: Self)
        ensures
            r == *self,
    {
        let default = match &self.default {
            Some(v) => Some(v.clone()),
            None => None,
        };
        Column { name: self.name.clone(), data_type: self.data_type, default }
    }
}

/// Copies a list of columns, element by element.
pub fn clone_columns(columns: &Vec<Column>) -> (r: Vec<Column>)
    ensures
        r@ == columns@,
{
    let r = columns.clone();
    assert(r@ =~= columns@);
    r
}

/// Copies a list of constraints, element by element.
pub fn clone_constraints(constraints: &Vec<Constraint>) -> (r: Vec<Constraint>)
    ensures
        constraints_view(r@) == constraints_view(constraints@),
{
    let r = constraints.clone();
    assert(constraints_view(r@) =~= constraints_view(constraints@));
    r
}

/// The schema of a table at one point of its history.
#[derive(Debug)]
pub struct SchemaState {
    pub columns: Vec<Column>,
    pub constraint: Vec<Constraint>,
}

/// A schema as sequences: its columns and its constraints.
pub struct SchemaStateView {
    pub columns: Seq<Column>,
    pub constraint: Seq<ConstraintView>,
}

impl View for SchemaState {
    type V = SchemaStateView;

    open spec fn view(&self) -> SchemaStateView {
        SchemaStateView { columns: self.columns@, constraint: constraints_view(self.constraint@) }
    }
}

impl Clone for SchemaState {
    fn clone(&self) -> (r: Self)
        ensures
            r@ == self@,
    {
        SchemaState {
            columns: clone_columns(&self.columns),
            constraint: clone_constraints(&self.constraint),
        }
    }
}

impl SchemaState {
    /// The schema with no column and no constraint.
    pub fn new() -> (r: Self)
        ensures
            r@ == initial_state(),
    {
        let r = SchemaState { columns: Vec::new(), constraint: Vec::new() };
        assert(constraints_view(r.constraint@) =~= Seq::empty());
        r
    }
}

/// One renaming of a column.
#[derive(Debug)]
pub struct RenamePair {
    pub from: String,
    pub to: String,
}

impl Clone for RenamePair {
    fn clone(&self) -> (r: Self)
        ensures
            r == *self,
    {
        RenamePair { from: self.from.clone(), to: self.to.clone() }
    }
}

/// No two pairs rename the same column name.
pub open spec fn sources_distinct(pairs: Seq<RenamePair>) -> bool {
    forall|i: int, j: int|
        0 <= i < j < pairs.len() ==> (#[trigger] pairs[i]).from@ != (#[trigger] pairs[j]).from@
}

/// Where no two pairs rename the same name, the new name of `name` is the
/// target of the one pair that renames it, and there is none when no pair
/// does.
pub proof fn law_rename_target_unique(pairs: Seq<RenamePair>, name: Seq<char>)
    requires
        sources_distinct(pairs),
    ensures
        forall|i: int|
            0 <= i < pairs.len() && (#[trigger] pairs[i]).from@ == name ==> rename_target(pairs, name)
                == Some(pairs[i].to),
        (forall|i: int| 0 <= i < pairs.len() ==> (#[trigger] pairs[i]).from@ != name) ==> rename_target(
            pairs,
            name,
        ) is None,
    decreases pairs.len(),
{
    if pairs.len() > 0 {
        let rest = pairs.drop_first();
        assert forall|i: int, j: int| 0 <= i < j < rest.len() implies (#[trigger] rest[i]).from@ != (
        #[trigger] rest[j]).from@ by {
            assert(rest[i] == pairs[i + 1] && rest[j] == pairs[j + 1]);
        }
        law_rename_target_unique(rest, name);
        assert forall|i: int|
            0 <= i < pairs.len() && (#[trigger] pairs[i]).from@ == name implies rename_target(pairs, name)
                == Some(pairs[i].to) by {
            if i > 0 {
                assert(rest[i - 1] == pairs[i]);
                assert(pairs[0].from@ != pairs[i].from@);
            }
        }
        if forall|i: int| 0 <= i < pairs.len() ==> (#[trigger] pairs[i]).from@ != name {
            assert forall|i: int| 0 <= i < rest.len() implies (#[trigger] rest[i]).from@ != name by {
                assert(rest[i] == pairs[i + 1]);
            }
            assert(pairs[0].from@ != name);
        }
    }
}

/// The renamings of one modification: at most one new name for each column
/// name, as a map from old names to new names.
#[derive(Debug)]
pub struct RenameMapping {
    pairs: Vec<RenamePair>,
}

impl RenameMapping {
    #[verifier::type_invariant]
    spec fn one_pair_per_name(self) -> bool {
        sources_distinct(self.pairs@)
    }

    /// The renamings, in the order they were added.
    pub closed spec fn pair_seq(self) -> Seq<RenamePair> {
        self.pairs@
    }

    /// The mapping that renames nothing.
    pub fn new() -> (r: Self)
        ensures
            r.pair_seq() == Seq::<RenamePair>::empty(),
    {
        RenameMapping { pairs: Vec::new() }
    }

    /// Renames `from` to `to`, in place of the renaming of `from` that was
    /// there.
    pub fn insert(&mut self, from: String, to: String)
        ensures
            sources_distinct(final(self).pair_seq()),
            forall|k: Seq<char>| #[trigger] rename_target(final(self).pair_seq(), k) == if k == from@ {
                Some(to)
            } else {
                rename_target(old(self).pair_seq(), k)
            },
    {
        proof {
            use_type_invariant(&*self);
        }
        let mut pairs: Vec<RenamePair> = Vec::new();
        std::mem::swap(&mut pairs, &mut self.pairs);
        let ghost p0 = pairs@;
        let ghost f = from@;
        let ghost t = to;
        let mut i: usize = 0;
        while i < pairs.len()
            invariant
                i <= pairs.len(),
                pairs@ == p0,
                f == from@,
                forall|j: int| 0 <= j < i ==> (#[trigger] p0[j]).from@ != f,
            ensures
                i <= pairs.len(),
                forall|j: int| 0 <= j < i ==> (#[trigger] p0[j]).from@ != f,
                i < pairs.len() ==> p0[i as int].from@ == f,
            decreases pairs.len() - i,
        {
            if pairs[i].from == from {
                break;
            }
            i = i + 1;
        }
        let found = i < pairs.len();
        if found {
            pairs.set(i, RenamePair { from, to });
        } else {
            pairs.push(RenamePair { from, to });
        }
        let ghost p1 = pairs@;
        proof {
            assert(p1[i as int].from@ == f && p1[i as int].to == t);
            assert forall|a: int, b: int| 0 <= a < b < p1.len() implies (#[trigger] p1[a]).from@ != (
            #[trigger] p1[b]).from@ by {
                if a != i && b != i {
                    assert(p1[a] == p0[a] && p1[b] == p0[b]);
                } else if a == i {
                    assert(p1[b] == p0[b]);
                    assert(p0[a].from@ == f || !found);
                } else {
                    assert(p1[a] == p0[a]);
                }
            }
            law_rename_target_unique(p0, f);
            assert forall|k: Seq<char>| #[trigger] rename_target(p1, k) == if k == f {
                Some(t)
            } else {
                rename_target(p0, k)
            } by {
                law_rename_target_unique(p1, k);
                law_rename_target_unique(p0, k);
                if k == f {
                    assert(p1[i as int].from@ == k);
                } else if exists|j: int| 0 <= j < p0.len() && (#[trigger] p0[j]).from@ == k {
                    let j = choose|j: int| 0 <= j < p0.len() && (#[trigger] p0[j]).from@ == k;
                    assert(j != i);
                    assert(p1[j] == p0[j]);
                } else {
                    assert forall|j: int| 0 <= j < p1.len() implies (#[trigger] p1[j]).from@ != k by {
                        if j != i {
                            assert(p1[j] == p0[j]);
                        }
                    }
                }
            }
        }
        self.pairs = pairs;
    }

    /// The renamings, in the order they were added; no two rename the same
    /// name.
    pub fn pairs(&self) -> (r: &Vec<RenamePair>)
        ensures
            r@ == self.pair_seq(),
            sources_distinct(r@),
    {
        proof {
            use_type_invariant(self);
        }
        &self.pairs
    }
}

impl Clone for RenameMapping {
    fn clone(&self) -> (r: Self)
        ensures
            r.pair_seq() == self.pair_seq(),
    {
        proof {
            use_type_invariant(self);
        }
        let pairs = self.pairs.clone();
        assert(pairs@ =~= self.pairs@);
        RenameMapping { pairs }
    }
}

/// One change to the schema of a table, as its history stores it.
#[derive(Debug)]
pub enum SchemaModification {
    Create { columns: Vec<Column>, constraint: Vec<Constraint> },
    Remove { column: Vec<String>, constraint: Vec<Constraint> },
    Rename { mapping: RenameMapping },
    Raw { up: String, down: String },
    Nop,
    Revert,
    Delete,
}

/// A modification with its lists taken as sequences.
pub enum ModificationView {
    Create { columns: Seq<Column>, constraint: Seq<ConstraintView> },
    Remove { column: Seq<String>, constraint: Seq<ConstraintView> },
    Rename { mapping: Seq<RenamePair> },
    Raw { up: String, down: String },
    Nop,
    Revert,
    Delete,
}

impl View for SchemaModification {
    type V = ModificationView;

    open spec fn view(&self) -> ModificationView {
        match self {
            SchemaModification::Create { columns, constraint } => ModificationView::Create {
                columns: columns@,
                constraint: constraints_view(constraint@),
            },
            SchemaModification::Remove { column, constraint } => ModificationView::Remove {
                column: column@,
                constraint: constraints_view(constraint@),
            },
            SchemaModification::Rename { mapping } => ModificationView::Rename { mapping: mapping.pair_seq() },
            SchemaModification::Raw { up, down } => ModificationView::Raw { up: *up, down: *down },
            SchemaModification::Nop => ModificationView::Nop,
            SchemaModification::Revert => ModificationView::Revert,
            SchemaModification::Delete => ModificationView::Delete,
        }
    }
}

impl Clone for SchemaModification {
    fn clone(&self) -> (r: Self)
        ensures
            r@ == self@,
    {
        match self {
            SchemaModification::Create { columns, constraint } => SchemaModification::Create {
                columns: clone_columns(columns),
                constraint: clone_constraints(constraint),
            },
            SchemaModification::Remove { column, constraint } => SchemaModification::Remove {
                column: clone_strings(column),
                constraint: clone_constraints(constraint),
            },
            SchemaModification::Rename { mapping } => SchemaModification::Rename {
                mapping: mapping.clone(),
            },
            SchemaModification::Raw { up, down } => SchemaModification::Raw {
                up: up.clone(),
                down: down.clone(),
            },
            SchemaModification::Nop => SchemaModification::Nop,
            SchemaModification::Revert => SchemaModification::Revert,
            SchemaModification::Delete => SchemaModification::Delete,
        }
    }
}

/// A moment, in seconds and nanoseconds since the epoch.
#[derive(Clone, Copy, Debug, PartialEq, Eq, Structural)]
pub struct Timestamp {
    pub secs: i64,
    pub nanos: u32,
}

/// A modification together with the moment it was made.
#[derive(Debug)]
pub struct SchemaModificationCommit {
    pub date: Timestamp,
    pub action: SchemaModification,
}

/// A table with the whole history of its schema.
#[derive(Debug)]
pub struct DetailedTable {
    pub name: String,
    pub description: String,
    pub schema: Vec<SchemaModificationCommit>,
}

/// A table with its current schema.
#[derive(Debug)]
pub struct Table {
    pub name: String,
    pub description: String,
    pub schema: SchemaState,
}

impl Clone for Table {
    fn clone(&self) -> (r: Self)
        ensures
            r.name == self.name,
            r.description == self.description,
            r.schema@ == self.schema@,
    {
        Table {
            name: self.name.clone(),
            description: self.description.clone(),
            schema: self.schema.clone(),
        }
    }
}

/// Replaying a history failed.
#[derive(Debug, Clone, Copy, PartialEq, Eq, Structural)]
pub enum StateError {
    /// a revert with nothing left to revert
    RevertError,
}

pub open spec fn initial_state() -> SchemaStateView {
    SchemaStateView { columns: Seq::empty(), constraint: Seq::empty() }
}

/// The newest schema of a stack, or the empty schema.
pub open spec fn last_or_initial(states: Seq<SchemaStateView>) -> SchemaStateView {
    if states.len() == 0 {
        initial_state()
    } else {
        states.last()
    }
}

/// The newest modification of a stack, if any.
pub open spec fn last_modification(back: Seq<ModificationView>) -> Option<ModificationView> {
    if back.len() == 0 {
        None
    } else {
        Some(back.last())
    }
}

/// `names` holds the text `name`.
pub open spec fn names_contain(names: Seq<String>, name: Seq<char>) -> bool {
    exists|i: int| 0 <= i < names.len() && (#[trigger] names[i])@ == name
}

/// The new name of `name` under `pairs`: the target of the first pair
/// that names it.
pub open spec fn rename_target(pairs: Seq<RenamePair>, name: Seq<char>) -> Option<String>
    decreases pairs.len(),
{
    if pairs.len() == 0 {
        None
    } else if pairs[0].from@ == name {
        Some(pairs[0].to)
    } else {
        rename_target(pairs.drop_first(), name)
    }
}

/// A column after the renamings `pairs`.
pub open spec fn renamed_column(pairs: Seq<RenamePair>, c: Column) -> Column {
    match rename_target(pairs, c.name@) {
        Some(new_name) => Column { name: new_name, data_type: c.data_type, default: c.default },
        None => c,
    }
}

/// The columns that a removal keeps: those whose name it lists.
pub open spec fn kept_columns(columns: Seq<Column>, names: Seq<String>) -> Seq<Column> {
    columns.filter(|c: Column| names_contain(names, c.name@))
}

/// The stacks of schemas and of modifications after one more modification.
pub open spec fn step(
    m: ModificationView,
    states: Seq<SchemaStateView>,
    back: Seq<ModificationView>,
) -> Result<(Seq<SchemaStateView>, Seq<ModificationView>), StateError> {
    let last = last_or_initial(states);
    match m {
        ModificationView::Create { columns, constraint } => Ok(
            (
                states.push(
                    SchemaStateView {
                        columns: last.columns + columns,
                        constraint: last.constraint + constraint,
                    },
                ),
                back.push(m),
            ),
        ),
        ModificationView::Remove { column, constraint } => Ok(
            (
                states.push(
                    SchemaStateView {
                        columns: kept_columns(last.columns, column),
                        constraint: last.constraint,
                    },
                ),
                back.push(m),
            ),
        ),
        ModificationView::Rename { mapping } => Ok(
            (
                states.push(
                    SchemaStateView {
                        columns: last.columns.map_values(|c: Column| renamed_column(mapping, c)),
                        constraint: last.constraint,
                    },
                ),
                back.push(m),
            ),
        ),
        ModificationView::Raw { .. } => Ok((states.push(last), back.push(m))),
        ModificationView::Nop => Ok((states, back)),
        ModificationView::Revert => if states.len() > 0 && back.len() > 0 {
            Ok((states.drop_last(), back.drop_last()))
        } else {
            Err(StateError::RevertError)
        },
        ModificationView::Delete => Ok((Seq::empty(), Seq::empty())),
    }
}

/// The stacks after replaying a whole history from empty stacks.
pub open spec fn replay(mods: Seq<ModificationView>) -> Result<
    (Seq<SchemaStateView>, Seq<ModificationView>),
    StateError,
>
    decreases mods.len(),
{
    if mods.len() == 0 {
        Ok((Seq::empty(), Seq::empty()))
    } else {
        match replay(mods.drop_last()) {
            Ok((states, back)) => step(mods.last(), states, back),
            Err(e) => Err(e),
        }
    }
}

/// The newest schema and the newest modification of two stacks, or the
/// error that produced no stacks.
pub open spec fn top_of(
    r: Result<(Seq<SchemaStateView>, Seq<ModificationView>), StateError>,
) -> Result<(SchemaStateView, Option<ModificationView>), StateError> {
    match r {
        Ok((states, back)) => Ok((last_or_initial(states), last_modification(back))),
        Err(e) => Err(e),
    }
}

/// The current schema and the last modification that a history leaves.
pub open spec fn replay_result(mods: Seq<ModificationView>) -> Result<
    (SchemaStateView, Option<ModificationView>),
    StateError,
> {
    top_of(replay(mods))
}

/// A stack of at most one modification.
pub open spec fn opt_stack(m: Option<ModificationView>) -> Seq<ModificationView> {
    match m {
        Some(x) => seq![x],
        None => Seq::empty(),
    }
}

/// The view of an optional modification.
pub open spec fn opt_mod_view(m: Option<SchemaModification>) -> Option<ModificationView> {
    match m {
        Some(x) => Some(x@),
        None => None,
    }
}

/// The views of a schema and of an optional modification, or the error.
pub open spec fn top_view(
    r: Result<(SchemaState, Option<SchemaModification>), StateError>,
) -> Result<(SchemaStateView, Option<ModificationView>), StateError> {
    match r {
        Ok((s, m)) => Ok((s@, opt_mod_view(m))),
        Err(e) => Err(e),
    }
}

/// The modifications of a list of commits, in their order.
pub open spec fn commit_mods(commits: Seq<SchemaModificationCommit>) -> Seq<ModificationView> {
    commits.map_values(|c: SchemaModificationCommit| c.action@)
}

/// The views of a stack of schemas.
pub open spec fn states_view(states: Seq<SchemaState>) -> Seq<SchemaStateView> {
    states.map_values(|s: SchemaState| s@)
}

/// The views of a list of modifications.
pub open spec fn mods_view(mods: Seq<SchemaModification>) -> Seq<ModificationView> {
    mods.map_values(|m: SchemaModification| m@)
}

/// The views of the two stacks that a replay step returns.
pub open spec fn stacks_view(
    r: Result<(Vec<SchemaState>, Vec<SchemaModification>), StateError>,
) -> Result<(Seq<SchemaStateView>, Seq<ModificationView>), StateError> {
    match r {
        Ok((states, back)) => Ok((states_view(states@), mods_view(back@))),
        Err(e) => Err(e),
    }
}

} // verus!
