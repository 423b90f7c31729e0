use vstd::prelude::*;
use crate::schema::{
    clone_columns, clone_constraints, commit_mods, constraints_view, kept_columns, last_modification,
    last_or_initial, law_rename_target_unique, sources_distinct,
    mods_view, names_contain, opt_mod_view, opt_stack, rename_target, renamed_column, replay,
    replay_result, stacks_view, states_view, step, top_of, top_view, Column, DetailedTable,
    ModificationView, RenamePair, SchemaModification, SchemaModificationCommit, SchemaState,
    SchemaStateView, StateError, Table,
};

verus! {

/// A copy of the newest schema of the stack, or the empty schema.
fn last_state(state: &Vec<SchemaState>) -> (r: SchemaState)
    ensures
        r@ == last_or_initial(states_view(state@)),
{
    if state.len() == 0 {
        SchemaState::new()
    } else {
        state[state.len() - 1].clone()
    }
}

/// Whether `names` holds the text of `name`.
pub fn contains_name(names: &Vec<String>, name: &String) -> (r: bool)
    ensures
        r == names_contain(names@, name@),
{
    let mut i: usize = 0;
    while i < names.len()
        invariant
            i <= names.len(),
            forall|j: int| 0 <= j < i ==> (#[trigger] names@[j])@ != name@,
        decreases names.len() - i,
    {
        if names[i] == *name {
            return true;
        }
        i = i + 1;
    }
    false
}

/// Renaming looks past the pairs that do not name the column.
proof fn lemma_rename_target_skip(pairs: Seq<RenamePair>, name: Seq<char>, i: int)
    requires
        0 <= i <= pairs.len(),
        forall|j: int| 0 <= j < i ==> (#[trigger] pairs[j]).from@ != name,
    ensures
        rename_target(pairs, name) == rename_target(pairs.skip(i), name),
    decreases i,
{
    if i > 0 {
        let rest = pairs.drop_first();
        assert forall|j: int| 0 <= j < i - 1 implies (#[trigger] rest[j]).from@ != name by {
            assert(rest[j] == pairs[j + 1]);
        }
        lemma_rename_target_skip(rest, name, i - 1);
        assert(rest.skip(i - 1) =~= pairs.skip(i));
    } else {
        assert(pairs.skip(0) =~= pairs);
    }
}

/// The new name that `pairs` gives to `name`, if any.
pub fn find_rename(pairs: &Vec<RenamePair>, name: &String) -> (r: Option<String>)
    ensures
        r == rename_target(pairs@, name@),
{
    let mut i: usize = 0;
    while i < pairs.len()
        invariant
            i <= pairs.len(),
            forall|j: int| 0 <= j < i ==> (#[trigger] pairs@[j]).from@ != name@,
        decreases pairs.len() - i,
    {
        if pairs[i].from == *name {
            proof {
                lemma_rename_target_skip(pairs@, name@, i as int);
                assert(pairs@.skip(i as int)[0] == pairs@[i as int]);
            }
            return Some(pairs[i].to.clone());
        }
        i = i + 1;
    }
    proof {
        lemma_rename_target_skip(pairs@, name@, i as int);
    }
    None
}

/// The columns whose name `names` lists, in their order.
pub fn keep_listed_columns(columns: &Vec<Column>, names: &Vec<String>) -> (r: Vec<Column>)
    ensures
        r@ == kept_columns(columns@, names@),
{
    let ghost pred = |c: Column| names_contain(names@, c.name@);
    let mut kept: Vec<Column> = Vec::new();
    let mut i: usize = 0;
    while i < columns.len()
        invariant
            i <= columns.len(),
            pred == (|c: Column| names_contain(names@, c.name@)),
            kept@ == columns@.take(i as int).filter(pred),
        decreases columns.len() - i,
    {
        proof {
            reveal(Seq::filter);
            assert(columns@.take(i + 1).drop_last() =~= columns@.take(i as int));
            assert(columns@.take(i + 1).last() == columns@[i as int]);
        }
        if contains_name(names, &columns[i].name) {
            kept.push(columns[i].clone());
        }
        i = i + 1;
    }
    assert(columns@.take(columns.len() as int) =~= columns@);
    kept
}

/// The columns, each renamed by `pairs` where it names them.
pub fn rename_columns(columns: &Vec<Column>, pairs: &Vec<RenamePair>) -> (r: Vec<Column>)
    ensures
        r@ == columns@.map_values(|c: Column| renamed_column(pairs@, c)),
{
    let mut renamed: Vec<Column> = Vec::new();
    let mut i: usize = 0;
    while i < columns.len()
        invariant
            i <= columns.len(),
            renamed@.len() == i,
            forall|j: int| 0 <= j < i ==> #[trigger] renamed@[j] == renamed_column(pairs@, columns@[j]),
        decreases columns.len() - i,
    {
        let c = columns[i].clone();
        let next = match find_rename(pairs, &c.name) {
            Some(new_name) => Column { name: new_name, data_type: c.data_type, default: c.default },
            None => c,
        };
        renamed.push(next);
        i = i + 1;
    }
    assert(renamed@ =~= columns@.map_values(|c: Column| renamed_column(pairs@, c)));
    renamed
}

/// Applies one modification to the stack of schemas and the stack of the
/// modifications that can still be reverted. A revert pops both stacks and
/// fails when either is empty; a delete empties both; a no-op keeps both.
pub fn unroll_one_modification(
    modification: &SchemaModification,
    state: Vec<SchemaState>,
    backwards_state: Vec<SchemaModification>,
) -> (r: Result<(Vec<SchemaState>, Vec<SchemaModification>), StateError>)
    ensures
        stacks_view(r) == step(modification@, states_view(state@), mods_view(backwards_state@)),
{
    let ghost states0 = states_view(state@);
    let ghost back0 = mods_view(backwards_state@);
    match modification {
        SchemaModification::Create { columns, constraint } => {
            let mut last = last_state(&state);
            let ghost last0 = last@;
            let mut added_columns = clone_columns(columns);
            last.columns.append(&mut added_columns);
            let mut added_constraints = clone_constraints(constraint);
            let ghost c0 = last.constraint@;
            let ghost c1 = added_constraints@;
            last.constraint.append(&mut added_constraints);
            proof {
                assert(constraints_view(c0 + c1) =~= constraints_view(c0) + constraints_view(c1));
                assert(last@.columns =~= last0.columns + columns@);
            }
            let mut states = state;
            states.push(last);
            let mut back = backwards_state;
            back.push(modification.clone());
            proof {
                assert(states_view(states@) =~= states0.push(states@.last()@));
                assert(mods_view(back@) =~= back0.push(modification@));
            }
            Ok((states, back))
        },
        SchemaModification::Remove { column, constraint: _ } => {
            let mut last = last_state(&state);
            last.columns = keep_listed_columns(&last.columns, column);
            let mut states = state;
            states.push(last);
            let mut back = backwards_state;
            back.push(modification.clone());
            proof {
                assert(states_view(states@) =~= states0.push(states@.last()@));
                assert(mods_view(back@) =~= back0.push(modification@));
            }
            Ok((states, back))
        },
        SchemaModification::Rename { mapping } => {
            let mut last = last_state(&state);
            last.columns = rename_columns(&last.columns, mapping.pairs());
            let mut states = state;
            states.push(last);
            let mut back = backwards_state;
            back.push(modification.clone());
            proof {
                assert(states_view(states@) =~= states0.push(states@.last()@));
                assert(mods_view(back@) =~= back0.push(modification@));
            }
            Ok((states, back))
        },
        SchemaModification::Raw { .. } => {
            let last = last_state(&state);
            let mut states = state;
            states.push(last);
            let mut back = backwards_state;
            back.push(modification.clone());
            proof {
                assert(states_view(states@) =~= states0.push(states@.last()@));
                assert(mods_view(back@) =~= back0.push(modification@));
            }
            Ok((states, back))
        },
        SchemaModification::Nop => Ok((state, backwards_state)),
        SchemaModification::Revert => {
            if state.len() > 0 && backwards_state.len() > 0 {
                let mut states = state;
                let mut back = backwards_state;
                let _ = states.pop();
                let _ = back.pop();
                proof {
                    assert(states_view(states@) =~= states0.drop_last());
                    assert(mods_view(back@) =~= back0.drop_last());
                }
                Ok((states, back))
            } else {
                Err(StateError::RevertError)
            }
        },
        SchemaModification::Delete => {
            let states: Vec<SchemaState> = Vec::new();
            let back: Vec<SchemaModification> = Vec::new();
            proof {
                assert(states_view(states@) =~= Seq::empty());
                assert(mods_view(back@) =~= Seq::empty());
            }
            Ok((states, back))
        },
    }
}

/// Applies one modification to a single schema and the last modification
/// that can still be reverted; returns the resulting schema and last
/// modification.
pub fn unroll_next_modification(
    modification: &SchemaModification,
    state: SchemaState,
    backwards_state: Option<SchemaModification>,
) -> (r: Result<(SchemaState, Option<SchemaModification>), StateError>)
    ensures
        top_view(r) == top_of(
            step(modification@, seq![state@], opt_stack(opt_mod_view(backwards_state))),
        ),
{
    let ghost s0 = state@;
    let ghost b0 = opt_mod_view(backwards_state);
    let mut state_vec: Vec<SchemaState> = Vec::new();
    state_vec.push(state);
    let mut backwards_vec: Vec<SchemaModification> = Vec::new();
    match backwards_state {
        Some(x) => backwards_vec.push(x),
        None => {},
    }
    proof {
        assert(states_view(state_vec@) =~= seq![s0]);
        assert(mods_view(backwards_vec@) =~= opt_stack(b0));
    }
    let (state_result, backwards_result) = match unroll_one_modification(
        modification,
        state_vec,
        backwards_vec,
    ) {
        Ok(p) => p,
        Err(e) => {
            return Err(e);
        },
    };
    let final_state = last_state(&state_result);
    let final_backwards = if backwards_result.len() == 0 {
        None
    } else {
        Some(backwards_result[backwards_result.len() - 1].clone())
    };
    Ok((final_state, final_backwards))
}

/// A history that fails on a prefix fails, with the same error, as a whole.
proof fn lemma_replay_error_persists(mods: Seq<ModificationView>, i: int)
    requires
        0 <= i <= mods.len(),
        replay(mods.take(i)) is Err,
    ensures
        replay(mods) == replay(mods.take(i)),
    decreases mods.len() - i,
{
    if i < mods.len() {
        assert(mods.drop_last().take(i) =~= mods.take(i));
        lemma_replay_error_persists(mods.drop_last(), i);
    } else {
        assert(mods.take(i) =~= mods);
    }
}

/// Replaying the first `i + 1` modifications is one step past replaying the
/// first `i`.
proof fn lemma_replay_take_succ(mods: Seq<ModificationView>, i: int)
    requires
        0 <= i < mods.len(),
    ensures
        replay(mods.take(i + 1)) == match replay(mods.take(i)) {
            Ok((states, back)) => step(mods[i], states, back),
            Err(e) => Err(e),
        },
{
    assert(mods.take(i + 1).drop_last() =~= mods.take(i));
}

/// Replays a whole history from empty stacks and returns the current schema
/// with the last modification that can still be reverted; the first failing
/// revert ends the replay with its error.
pub fn unroll_modifications(modifications: Vec<SchemaModification>) -> (r: Result<
    (SchemaState, Option<SchemaModification>),
    StateError,
>)
    ensures
        top_view(r) == replay_result(mods_view(modifications@)),
{
    let ghost ms = mods_view(modifications@);
    let mut states: Vec<SchemaState> = Vec::new();
    let mut back: Vec<SchemaModification> = Vec::new();
    let mut i: usize = 0;
    proof {
        assert(states_view(states@) =~= Seq::empty());
        assert(mods_view(back@) =~= Seq::empty());
        assert(ms.take(0) =~= Seq::empty());
    }
    while i < modifications.len()
        invariant
            i <= modifications.len(),
            ms == mods_view(modifications@),
            replay(ms.take(i as int)) == Ok::<_, StateError>((states_view(states@), mods_view(back@))),
        decreases modifications.len() - i,
    {
        proof {
            lemma_replay_take_succ(ms, i as int);
        }
        match unroll_one_modification(&modifications[i], states, back) {
            Ok((s, b)) => {
                states = s;
                back = b;
            },
            Err(e) => {
                proof {
                    lemma_replay_error_persists(ms, i + 1);
                }
                return Err(e);
            },
        }
        i = i + 1;
    }
    proof {
        assert(ms.take(i as int) =~= ms);
    }
    let final_state = last_state(&states);
    let final_backwards = if back.len() == 0 {
        None
    } else {
        Some(back[back.len() - 1].clone())
    };
    Ok((final_state, final_backwards))
}

/// Replays the modifications of a list of commits, in their order.
pub fn unroll_modification_commits(modification_commits: Vec<SchemaModificationCommit>) -> (r:
    Result<(SchemaState, Option<SchemaModification>), StateError>)
    ensures
        top_view(r) == replay_result(commit_mods(modification_commits@)),
{
    let modifications = commit_actions(&modification_commits);
    unroll_modifications(modifications)
}

/// The modifications of a list of commits, copied in their order.
fn commit_actions(commits: &Vec<SchemaModificationCommit>) -> (r: Vec<SchemaModification>)
    ensures
        mods_view(r@) == commit_mods(commits@),
{
    let mut actions: Vec<SchemaModification> = Vec::new();
    let mut i: usize = 0;
    while i < commits.len()
        invariant
            i <= commits.len(),
            actions@.len() == i,
            forall|j: int| 0 <= j < i ==> (#[trigger] actions@[j])@ == commits@[j].action@,
        decreases commits.len() - i,
    {
        actions.push(commits[i].action.clone());
        i = i + 1;
    }
    assert(mods_view(actions@) =~= commit_mods(commits@));
    actions
}

/// The table with the schema that its whole history leaves.
pub fn unroll_table(table: DetailedTable) -> (r: Result<Table, StateError>)
    ensures
        match r {
            Ok(t) => {
                &&& t.name == table.name
                &&& t.description == table.description
                &&& replay_result(commit_mods(table.schema@)) matches Ok((s, _))
                &&& t.schema@ == s
            },
            Err(e) => replay_result(commit_mods(table.schema@)) == Err::<
                (SchemaStateView, Option<ModificationView>),
                StateError,
            >(e),
        },
{
    let modifications = commit_actions(&table.schema);
    let (schema_state, _) = match unroll_modifications(modifications) {
        Ok(p) => p,
        Err(e) => {
            return Err(e);
        },
    };
    Ok(Table { name: table.name, description: table.description, schema: schema_state })
}

/// A modification that pushes a new schema and is remembered for a revert.
pub open spec fn is_revertible(m: ModificationView) -> bool {
    ||| m is Create
    ||| m is Remove
    ||| m is Rename
    ||| m is Raw
}

/// A revert right after a create, remove, rename or raw modification brings
/// both stacks back to what they were before it.
pub proof fn law_revert_undoes(
    m: ModificationView,
    states: Seq<SchemaStateView>,
    back: Seq<ModificationView>,
)
    requires
        is_revertible(m),
    ensures
        step(m, states, back) matches Ok((s1, b1)) && step(ModificationView::Revert, s1, b1) == Ok::<
            _,
            StateError,
        >((states, back)),
{
    match step(m, states, back) {
        Ok((s1, b1)) => {
            assert(s1.drop_last() =~= states);
            assert(b1.drop_last() =~= back);
        },
        Err(_) => {},
    }
}

/// Appending a modification and its revert to a history changes nothing of
/// what the history replays to.
pub proof fn law_replay_revert_undoes(mods: Seq<ModificationView>, m: ModificationView)
    requires
        is_revertible(m),
    ensures
        replay(mods.push(m).push(ModificationView::Revert)) == replay(mods),
{
    let with_m = mods.push(m);
    let full = with_m.push(ModificationView::Revert);
    assert(full.drop_last() =~= with_m);
    assert(with_m.drop_last() =~= mods);
    assert(full.last() == ModificationView::Revert);
    assert(with_m.last() == m);
    reveal_with_fuel(replay, 3);
    match replay(mods) {
        Ok((states, back)) => {
            law_revert_undoes(m, states, back);
        },
        Err(_) => {},
    }
}

/// A no-op leaves what a history replays to unchanged.
pub proof fn law_replay_nop(mods: Seq<ModificationView>)
    ensures
        replay(mods.push(ModificationView::Nop)) == replay(mods),
{
    assert(mods.push(ModificationView::Nop).drop_last() =~= mods);
}

/// A delete empties both stacks of a history that replays without error.
pub proof fn law_replay_delete(mods: Seq<ModificationView>)
    requires
        replay(mods) is Ok,
    ensures
        replay(mods.push(ModificationView::Delete)) == Ok::<_, StateError>(
            (Seq::<SchemaStateView>::empty(), Seq::<ModificationView>::empty()),
        ),
{
    assert(mods.push(ModificationView::Delete).drop_last() =~= mods);
}

/// Replaying from given stacks: the stacks after applying `mods` one by one.
pub open spec fn replay_from(
    mods: Seq<ModificationView>,
    states: Seq<SchemaStateView>,
    back: Seq<ModificationView>,
) -> Result<(Seq<SchemaStateView>, Seq<ModificationView>), StateError>
    decreases mods.len(),
{
    if mods.len() == 0 {
        Ok((states, back))
    } else {
        match replay_from(mods.drop_last(), states, back) {
            Ok((s, b)) => step(mods.last(), s, b),
            Err(e) => Err(e),
        }
    }
}

/// Replaying a history that ends in `rest` is replaying `rest` from the
/// stacks that the part before it leaves.
proof fn lemma_replay_split(prefix: Seq<ModificationView>, rest: Seq<ModificationView>)
    requires
        replay(prefix) is Ok,
    ensures
        replay(prefix + rest) == replay_from(rest, replay(prefix)->Ok_0.0, replay(prefix)->Ok_0.1),
    decreases rest.len(),
{
    if rest.len() == 0 {
        assert(prefix + rest =~= prefix);
    } else {
        lemma_replay_split(prefix, rest.drop_last());
        assert((prefix + rest).drop_last() =~= prefix + rest.drop_last());
        assert((prefix + rest).last() == rest.last());
    }
}

/// Everything before a delete is forgotten: a history whose part before the
/// delete replays without error replays as the part after it alone.
pub proof fn law_delete_forgets_history(
    before: Seq<ModificationView>,
    after: Seq<ModificationView>,
)
    requires
        replay(before) is Ok,
    ensures
        replay(before.push(ModificationView::Delete) + after) == replay(after),
{
    law_replay_delete(before);
    lemma_replay_split(before.push(ModificationView::Delete), after);
    lemma_replay_split(Seq::empty(), after);
    assert(Seq::<ModificationView>::empty() + after =~= after);
}

/// Every history that replays without error leaves two stacks of the same
/// height: one schema for each modification that can still be reverted.
pub proof fn law_replay_stacks_match(mods: Seq<ModificationView>)
    requires
        replay(mods) is Ok,
    ensures
        replay(mods)->Ok_0.0.len() == replay(mods)->Ok_0.1.len(),
    decreases mods.len(),
{
    if mods.len() > 0 {
        law_replay_stacks_match(mods.drop_last());
    }
}

/// A revert with nothing before it fails.
pub proof fn law_revert_on_empty_history_fails()
    ensures
        replay(seq![ModificationView::Revert]) == Err::<
            (Seq<SchemaStateView>, Seq<ModificationView>),
            StateError,
        >(StateError::RevertError),
{
    assert(seq![ModificationView::Revert].drop_last() =~= Seq::<ModificationView>::empty());
    reveal_with_fuel(replay, 2);
}

/// Except for a revert, a modification leaves the same newest schema and
/// newest modification whether it is applied to the whole stacks or only to
/// their newest entries, as one step of an incremental update does.
pub proof fn law_next_agrees_with_stacks(
    m: ModificationView,
    states: Seq<SchemaStateView>,
    back: Seq<ModificationView>,
)
    requires
        !(m is Revert),
    ensures
        top_of(step(m, states, back)) == top_of(
            step(m, seq![last_or_initial(states)], opt_stack(last_modification(back))),
        ),
{
}

/// A rename changes nothing of a schema but column names: each column keeps
/// its place, its type and its default, and takes the new name of the pair
/// that renames it, or keeps its name when no pair does; the constraints
/// stay as they were.
pub proof fn law_rename_changes_only_names(
    mapping: Seq<RenamePair>,
    states: Seq<SchemaStateView>,
    back: Seq<ModificationView>,
)
    requires
        sources_distinct(mapping),
    ensures
        step(ModificationView::Rename { mapping }, states, back) matches Ok((s1, _)) && {
            let before = last_or_initial(states);
            let after = s1.last();
            &&& after.constraint == before.constraint
            &&& after.columns.len() == before.columns.len()
            &&& forall|j: int|
                0 <= j < before.columns.len() ==> {
                    &&& (#[trigger] after.columns[j]).data_type == before.columns[j].data_type
                    &&& after.columns[j].default == before.columns[j].default
                    &&& forall|i: int|
                        0 <= i < mapping.len() && (#[trigger] mapping[i]).from@
                            == before.columns[j].name@ ==> after.columns[j].name == mapping[i].to
                    &&& (forall|i: int|
                        0 <= i < mapping.len() ==> (#[trigger] mapping[i]).from@
                            != before.columns[j].name@) ==> after.columns[j].name
                        == before.columns[j].name
                }
        },
{
    let before = last_or_initial(states);
    assert forall|j: int| 0 <= j < before.columns.len() implies {
        let c = before.columns[j];
        let r = #[trigger] renamed_column(mapping, before.columns[j]);
        &&& r.data_type == c.data_type
        &&& r.default == c.default
        &&& forall|i: int|
            0 <= i < mapping.len() && (#[trigger] mapping[i]).from@ == c.name@ ==> r.name
                == mapping[i].to
        &&& (forall|i: int| 0 <= i < mapping.len() ==> (#[trigger] mapping[i]).from@ != c.name@)
            ==> r.name == c.name
    } by {
        law_rename_target_unique(mapping, before.columns[j].name@);
    }
}

} // verus!
