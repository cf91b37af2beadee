use crate::errors::EnvError;
use crate::gamestates::game_state::GameState;
use vstd::prelude::*;

verus! {

/// The rows of a table as sequences.
pub open spec fn rows_of(table: Seq<Vec<i8>>) -> Seq<Seq<i8>> {
    table.map_values(|row: Vec<i8>| row@)
}

/// The rows of a table with one more row.
pub proof fn lemma_rows_of_push(table: Seq<Vec<i8>>, row: Vec<i8>)
    ensures
        rows_of(table.push(row)) == rows_of(table).push(row@),
{
    assert(rows_of(table.push(row)) =~= rows_of(table).push(row@));
}

/// The indices of a batch, one after the other, the batch's own grouping
/// forgotten.
pub open spec fn batch_indices(actions: Seq<Vec<i64>>) -> Seq<i64> {
    actions.map_values(|group: Vec<i64>| group@).flatten()
}

/// Whether every index names a row of a table with `rows` rows.
pub open spec fn indices_in_range(indices: Seq<i64>, rows: nat) -> bool {
    forall|k: int| 0 <= k < indices.len() ==> 0 <= #[trigger] indices[k] < rows
}

/// The rows of `table` that `indices` name, in the order of the indices.
pub open spec fn decode(table: Seq<Seq<i8>>, indices: Seq<i64>) -> Seq<Seq<i8>> {
    indices.map_values(|i: i64| table[i as int])
}

/// Flattening a sequence of groups is flattening the groups before a
/// position and then those from it on.
pub proof fn lemma_flatten_split(groups: Seq<Seq<i64>>, at: int)
    requires
        0 <= at <= groups.len(),
    ensures
        groups.flatten() == groups.take(at).flatten() + groups.skip(at).flatten(),
{
    vstd::seq_lib::lemma_flatten_concat(groups.take(at), groups.skip(at));
    assert(groups.take(at) + groups.skip(at) =~= groups);
}

/// A decoder of discrete actions: a finite table of control vectors, and
/// the way from indices to its rows.
pub trait ActionParser {
    /// The decoder is fit for use.
    spec fn wf(&self) -> bool;

    /// The table of control vectors. The position of a row is the discrete
    /// action that stands for it.
    spec fn table(&self) -> Seq<Seq<i8>>;

    /// The shape of the action space: one entry, the number of rows of the
    /// table.
    fn get_action_space(&mut self) -> (action_space: Vec<usize>)
        requires
            old(self).wf(),
        ensures
            final(self).wf(),
            final(self).table() == old(self).table(),
            action_space@ == seq![old(self).table().len() as usize],
    ;

    /// Decodes every index of every group of `actions` into its control
    /// vector. The result is flat: one vector per index, in the order in
    /// which the indices stand in the batch. An index outside the table
    /// fails the whole call.
    fn parse_actions(&mut self, actions: Vec<Vec<i64>>, state: &GameState) -> (parsed: Result<
        Vec<Vec<i8>>,
        EnvError,
    >)
        requires
            old(self).wf(),
        ensures
            final(self).wf(),
            final(self).table() == old(self).table(),
            match parsed {
                Ok(rows) => {
                    &&& indices_in_range(batch_indices(actions@), old(self).table().len())
                    &&& rows_of(rows@) == decode(old(self).table(), batch_indices(actions@))
                },
                Err(e) => {
                    &&& e == EnvError::InvalidActionIndex
                    &&& !indices_in_range(batch_indices(actions@), old(self).table().len())
                },
            },
    ;
}

} // verus!
