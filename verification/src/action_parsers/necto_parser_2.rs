use crate::action_parsers::action_parser::{
    batch_indices, decode, indices_in_range, lemma_flatten_split, lemma_rows_of_push, rows_of,
    ActionParser,
};
use crate::errors::EnvError;
use crate::gamestates::game_state::GameState;
use vstd::prelude::*;

verus! {

/// Whether a ground combination is part of the table: boost asks for full
/// forward throttle.
pub open spec fn ground_kept(throttle: int, boost: int) -> bool {
    boost == 1 ==> throttle == 1
}

/// The control vector of a ground combination.
pub open spec fn ground_row(throttle: int, steer: int, boost: int, handbrake: int) -> Seq<i8> {
    let part = if throttle != 0 {
        throttle
    } else if boost != 0 {
        boost
    } else {
        0
    };
    seq![
        part as i8,
        steer as i8,
        0i8,
        steer as i8,
        0i8,
        0i8,
        boost as i8,
        handbrake as i8,
    ]
}

/// The rows that the first `n` ground candidates give. The candidates are
/// the combinations of throttle (-1, 0, 1), steer (-1, 0, 1), boost (0, 1)
/// and handbrake (0, 1) in nested order, the last input changing fastest.
pub open spec fn ground_rows(n: nat) -> Seq<Seq<i8>>
    decreases n,
{
    if n == 0 {
        Seq::empty()
    } else {
        let c = n - 1;
        let throttle = c / 12 - 1;
        let steer = (c / 4) % 3 - 1;
        let boost = (c / 2) % 2;
        let handbrake = c % 2;
        let before = ground_rows((n - 1) as nat);
        if ground_kept(throttle, boost) {
            before.push(ground_row(throttle, steer, boost, handbrake))
        } else {
            before
        }
    }
}

/// Whether an aerial combination is part of the table: no yaw while
/// jumping, and at least one of pitch, roll and jump is used.
pub open spec fn aerial_kept(pitch: int, yaw: int, roll: int, jump: int) -> bool {
    &&& jump == 1 ==> yaw == 0
    &&& !(pitch == 0 && roll == 0 && jump == 0)
}

/// The control vector of an aerial combination. Its first component carries
/// the boost input.
pub open spec fn aerial_row(pitch: int, yaw: int, roll: int, jump: int, boost: int) -> Seq<i8> {
    let handbrake = if jump == 1 && (pitch != 0 || yaw != 0 || roll != 0) {
        1i8
    } else {
        0i8
    };
    seq![
        boost as i8,
        yaw as i8,
        pitch as i8,
        yaw as i8,
        roll as i8,
        jump as i8,
        boost as i8,
        handbrake,
    ]
}

/// The rows that the first `n` aerial candidates give. The candidates are
/// the combinations of pitch, yaw and roll (-1, 0, 1 each), jump (0, 1) and
/// boost (0, 1) in nested order, the last input changing fastest.
pub open spec fn aerial_rows(n: nat) -> Seq<Seq<i8>>
    decreases n,
{
    if n == 0 {
        Seq::empty()
    } else {
        let c = n - 1;
        let pitch = c / 36 - 1;
        let yaw = (c / 12) % 3 - 1;
        let roll = (c / 4) % 3 - 1;
        let jump = (c / 2) % 2;
        let boost = c % 2;
        let before = aerial_rows((n - 1) as nat);
        if aerial_kept(pitch, yaw, roll, jump) {
            before.push(aerial_row(pitch, yaw, roll, jump, boost))
        } else {
            before
        }
    }
}

/// The action table: the rows of all 36 ground candidates, then those of
/// all 108 aerial candidates.
pub open spec fn necto_table() -> Seq<Seq<i8>> {
    ground_rows(36) + aerial_rows(108)
}

/// Maps discrete action indices to control vectors by a table that is built
/// once and never changes.
pub struct NectoAction {
    _lookup_table: Vec<Vec<i8>>,
}

impl NectoAction {
    /// The table the decoder holds.
    pub closed spec fn view(&self) -> Seq<Seq<i8>> {
        rows_of(self._lookup_table@)
    }

    /// A decoder that holds the action table.
    pub fn new() -> (parser: Self)
        ensures
            parser.wf(),
            parser@ == necto_table(),
    {
        NectoAction { _lookup_table: NectoAction::make_lookup_table() }
    }

    fn make_lookup_table() -> (actions: Vec<Vec<i8>>)
        ensures
            rows_of(actions@) == necto_table(),
    {
        let mut actions = Vec::<Vec<i8>>::new();
        assert(rows_of(actions@) =~= ground_rows(0));
        let mut throttle: i8 = -1;
        while throttle <= 1
            invariant
                -1 <= throttle <= 2,
                rows_of(actions@) == ground_rows((12 * (throttle + 1)) as nat),
            decreases 2 - throttle,
        {
            let mut steer: i8 = -1;
            while steer <= 1
                invariant
                    -1 <= throttle <= 1,
                    -1 <= steer <= 2,
                    rows_of(actions@) == ground_rows(
                        (12 * (throttle + 1) + 4 * (steer + 1)) as nat,
                    ),
                decreases 2 - steer,
            {
                let mut boost: i8 = 0;
                while boost <= 1
                    invariant
                        -1 <= throttle <= 1,
                        -1 <= steer <= 1,
                        0 <= boost <= 2,
                        rows_of(actions@) == ground_rows(
                            (12 * (throttle + 1) + 4 * (steer + 1) + 2 * boost) as nat,
                        ),
                    decreases 2 - boost,
                {
                    let mut handbrake: i8 = 0;
                    while handbrake <= 1
                        invariant
                            -1 <= throttle <= 1,
                            -1 <= steer <= 1,
                            0 <= boost <= 1,
                            0 <= handbrake <= 2,
                            rows_of(actions@) == ground_rows(
                                (12 * (throttle + 1) + 4 * (steer + 1) + 2 * boost
                                    + handbrake) as nat,
                            ),
                        decreases 2 - handbrake,
                    {
                        let ghost c = 12 * (throttle + 1) + 4 * (steer + 1) + 2 * boost
                            + handbrake;
                        assert(c / 12 - 1 == throttle && (c / 4) % 3 - 1 == steer && (c / 2) % 2
                            == boost && c % 2 == handbrake);
                        if !(boost == 1 && throttle != 1) {
                            let part: i8 = if throttle != 0 {
                                throttle
                            } else if boost != 0 {
                                boost
                            } else {
                                0
                            };
                            let row = vec![part, steer, 0, steer, 0, 0, boost, handbrake];
                            assert(row@ =~= ground_row(
                                throttle as int,
                                steer as int,
                                boost as int,
                                handbrake as int,
                            ));
                            proof {
                                lemma_rows_of_push(actions@, row);
                            }
                            actions.push(row);
                        }
                        handbrake += 1;
                    }
                    boost += 1;
                }
                steer += 1;
            }
            throttle += 1;
        }
        assert(rows_of(actions@) =~= ground_rows(36) + aerial_rows(0));
        let mut pitch: i8 = -1;
        while pitch <= 1
            invariant
                -1 <= pitch <= 2,
                rows_of(actions@) == ground_rows(36) + aerial_rows((36 * (pitch + 1)) as nat),
            decreases 2 - pitch,
        {
            let mut yaw: i8 = -1;
            while yaw <= 1
                invariant
                    -1 <= pitch <= 1,
                    -1 <= yaw <= 2,
                    rows_of(actions@) == ground_rows(36) + aerial_rows(
                        (36 * (pitch + 1) + 12 * (yaw + 1)) as nat,
                    ),
                decreases 2 - yaw,
            {
                let mut roll: i8 = -1;
                while roll <= 1
                    invariant
                        -1 <= pitch <= 1,
                        -1 <= yaw <= 1,
                        -1 <= roll <= 2,
                        rows_of(actions@) == ground_rows(36) + aerial_rows(
                            (36 * (pitch + 1) + 12 * (yaw + 1) + 4 * (roll + 1)) as nat,
                        ),
                    decreases 2 - roll,
                {
                    let mut jump: i8 = 0;
                    while jump <= 1
                        invariant
                            -1 <= pitch <= 1,
                            -1 <= yaw <= 1,
                            -1 <= roll <= 1,
                            0 <= jump <= 2,
                            rows_of(actions@) == ground_rows(36) + aerial_rows(
                                (36 * (pitch + 1) + 12 * (yaw + 1) + 4 * (roll + 1) + 2
                                    * jump) as nat,
                            ),
                        decreases 2 - jump,
                    {
                        let mut boost: i8 = 0;
                        while boost <= 1
                            invariant
                                -1 <= pitch <= 1,
                                -1 <= yaw <= 1,
                                -1 <= roll <= 1,
                                0 <= jump <= 1,
                                0 <= boost <= 2,
                                rows_of(actions@) == ground_rows(36) + aerial_rows(
                                    (36 * (pitch + 1) + 12 * (yaw + 1) + 4 * (roll + 1) + 2
                                        * jump + boost) as nat,
                                ),
                            decreases 2 - boost,
                        {
                            let ghost c = 36 * (pitch + 1) + 12 * (yaw + 1) + 4 * (roll + 1)
                                + 2 * jump + boost;
                            assert(c / 36 - 1 == pitch && (c / 12) % 3 - 1 == yaw && (c / 4) % 3
                                - 1 == roll && (c / 2) % 2 == jump && c % 2 == boost);
                            if !(jump == 1 && yaw != 0) && !(pitch == roll && roll == jump
                                && jump == 0) {
                                let handbrake: i8 = if jump == 1 && (pitch != 0 || yaw != 0
                                    || roll != 0) {
                                    1
                                } else {
                                    0
                                };
                                let row = vec![boost, yaw, pitch, yaw, roll, jump, boost, handbrake];
                                assert(row@ =~= aerial_row(
                                    pitch as int,
                                    yaw as int,
                                    roll as int,
                                    jump as int,
                                    boost as int,
                                ));
                                proof {
                                    lemma_rows_of_push(actions@, row);
                                }
                                actions.push(row);
                                assert(rows_of(actions@) =~= ground_rows(36) + aerial_rows(
                                    (c + 1) as nat,
                                ));
                            }
                            boost += 1;
                        }
                        jump += 1;
                    }
                    roll += 1;
                }
                yaw += 1;
            }
            pitch += 1;
        }
        actions
    }
}

impl ActionParser for NectoAction {
    /// The decoder holds the action table.
    open spec fn wf(&self) -> bool {
        self@ == necto_table()
    }

    open spec fn table(&self) -> Seq<Seq<i8>> {
        self@
    }

    /// The shape of the action space: one entry, 90, the number of rows of
    /// the table.
    fn get_action_space(&mut self) -> (action_space: Vec<usize>)
        ensures
            *final(self) == *old(self),
            action_space@ == seq![90usize],
    {
        proof {
            lemma_table_len();
        }
        let mut action_space = Vec::<usize>::new();
        action_space.push(self._lookup_table.len());
        assert(action_space@ =~= seq![90usize]);
        action_space
    }

    /// Decodes every index of every group of `actions` into the row of the
    /// action table that it names, and leaves the decoder as it was. The
    /// snapshot plays no part.
    fn parse_actions(&mut self, actions: Vec<Vec<i64>>, _state: &GameState) -> (parsed: Result<
        Vec<Vec<i8>>,
        EnvError,
    >)
        ensures
            *final(self) == *old(self),
            match parsed {
                Ok(rows) => {
                    &&& indices_in_range(batch_indices(actions@), 90)
                    &&& rows_of(rows@) == decode(necto_table(), batch_indices(actions@))
                },
                Err(e) => {
                    &&& e == EnvError::InvalidActionIndex
                    &&& !indices_in_range(batch_indices(actions@), 90)
                },
            },
    {
        proof {
            lemma_table_len();
        }
        let ghost groups = actions@.map_values(|group: Vec<i64>| group@);
        let mut parsed_actions = Vec::<Vec<i8>>::new();
        let mut b: usize = 0;
        assert(groups.take(0) =~= Seq::<Seq<i64>>::empty());
        assert(rows_of(parsed_actions@) =~= decode(necto_table(), groups.take(0).flatten()));
        while b < actions.len()
            invariant
                self.wf(),
                groups == actions@.map_values(|group: Vec<i64>| group@),
                b <= actions@.len(),
                indices_in_range(groups.take(b as int).flatten(), necto_table().len()),
                rows_of(parsed_actions@) == decode(necto_table(), groups.take(b as int).flatten()),
            decreases actions@.len() - b,
        {
            let action_vec = &actions[b];
            let ghost done = groups.take(b as int).flatten();
            let mut k: usize = 0;
            assert(done + action_vec@.take(0) =~= done);
            while k < action_vec.len()
                invariant
                    self.wf(),
                    groups == actions@.map_values(|group: Vec<i64>| group@),
                    b < actions@.len(),
                    action_vec == &actions@[b as int],
                    done == groups.take(b as int).flatten(),
                    k <= action_vec@.len(),
                    indices_in_range(done + action_vec@.take(k as int), necto_table().len()),
                    rows_of(parsed_actions@) == decode(
                        necto_table(),
                        done + action_vec@.take(k as int),
                    ),
                decreases action_vec@.len() - k,
            {
                let action = action_vec[k];
                if action < 0 || action as u64 >= self._lookup_table.len() as u64 {
                    proof {
                        lemma_table_len();
                        lemma_flatten_split(groups, b as int);
                        let whole = groups.flatten();
                        let at = done.len() + k;
                        assert(groups.skip(b as int).first() == action_vec@);
                        assert(groups.skip(b as int).flatten() == action_vec@ + groups.skip(
                            b as int,
                        ).drop_first().flatten());
                        assert(whole[at] == action);
                    }
                    return Err(EnvError::InvalidActionIndex);
                }
                let row = self._lookup_table[action as usize].clone();
                proof {
                    lemma_rows_of_push(parsed_actions@, row);
                    assert(action_vec@.take(k + 1) =~= action_vec@.take(k as int).push(action));
                    assert(done + action_vec@.take(k + 1) =~= (done + action_vec@.take(
                        k as int,
                    )).push(action));
                }
                parsed_actions.push(row);
                assert(rows_of(parsed_actions@) =~= decode(
                    necto_table(),
                    done + action_vec@.take(k + 1),
                ));
                k += 1;
            }
            proof {
                assert(action_vec@.take(k as int) =~= action_vec@);
                assert(groups.take(b + 1) =~= groups.take(b as int).push(action_vec@));
                groups.take(b as int).lemma_flatten_push(action_vec@);
                assert(groups.take(b + 1).flatten() =~= done + action_vec@);
            }
            b += 1;
        }
        assert(groups.take(b as int) =~= groups);
        Ok(parsed_actions)
    }
}

/// Rows that the four candidates of ground group `g` give: one group for each
/// pair of throttle and steer.
spec fn ground_group_len(g: int) -> nat {
    if g / 3 == 2 {
        4
    } else {
        2
    }
}

/// Rows that the four candidates of aerial group `g` give: one group for each
/// triple of pitch, yaw and roll.
spec fn aerial_group_len(g: int) -> nat {
    let pitch = g / 9 - 1;
    let yaw = (g / 3) % 3 - 1;
    let roll = g % 3 - 1;
    let gliding: nat = if pitch == 0 && roll == 0 {
        0
    } else {
        2
    };
    let jumping: nat = if yaw == 0 {
        2
    } else {
        0
    };
    gliding + jumping
}

spec fn aerial_len_upto(g: nat) -> nat
    decreases g,
{
    if g == 0 {
        0
    } else {
        aerial_len_upto((g - 1) as nat) + aerial_group_len(g - 1)
    }
}

proof fn lemma_ground_group(g: nat)
    requires
        g < 9,
    ensures
        ground_rows(4 * g + 4).len() == ground_rows(4 * g).len() + ground_group_len(g as int),
{
    let n = 4 * g;
    assert(n / 12 == g / 3 && (n + 1) / 12 == g / 3 && (n + 2) / 12 == g / 3 && (n + 3) / 12 == g
        / 3);
    assert((n / 2) % 2 == 0 && ((n + 1) / 2) % 2 == 0 && ((n + 2) / 2) % 2 == 1 && ((n + 3) / 2)
        % 2 == 1);
    reveal_with_fuel(ground_rows, 5);
}

proof fn lemma_ground_len(g: nat)
    requires
        g <= 9,
    ensures
        g <= 6 ==> ground_rows(4 * g).len() == 2 * g,
        g > 6 ==> ground_rows(4 * g).len() == 4 * g - 12,
    decreases g,
{
    if g > 0 {
        lemma_ground_len((g - 1) as nat);
        lemma_ground_group((g - 1) as nat);
    }
}

proof fn lemma_aerial_group(g: nat)
    requires
        g < 27,
    ensures
        aerial_rows(4 * g + 4).len() == aerial_rows(4 * g).len() + aerial_group_len(g as int),
{
    let n = 4 * g;
    assert(n / 36 == g / 9 && (n + 1) / 36 == g / 9 && (n + 2) / 36 == g / 9 && (n + 3) / 36 == g
        / 9);
    assert(n / 12 == g / 3 && (n + 1) / 12 == g / 3 && (n + 2) / 12 == g / 3 && (n + 3) / 12 == g
        / 3);
    assert(n / 4 == g && (n + 1) / 4 == g && (n + 2) / 4 == g && (n + 3) / 4 == g);
    assert((n / 2) % 2 == 0 && ((n + 1) / 2) % 2 == 0 && ((n + 2) / 2) % 2 == 1 && ((n + 3) / 2)
        % 2 == 1);
    reveal_with_fuel(aerial_rows, 5);
}

proof fn lemma_aerial_len(g: nat)
    requires
        g <= 27,
    ensures
        aerial_rows(4 * g).len() == aerial_len_upto(g),
    decreases g,
{
    if g > 0 {
        lemma_aerial_len((g - 1) as nat);
        lemma_aerial_group((g - 1) as nat);
    }
}

proof fn lemma_ground_rows_shape(n: nat)
    ensures
        forall|i: int| 0 <= i < ground_rows(n).len() ==> (#[trigger] ground_rows(n)[i]).len() == 8,
    decreases n,
{
    if n > 0 {
        lemma_ground_rows_shape((n - 1) as nat);
        let c = n - 1;
        let before = ground_rows((n - 1) as nat);
        assert(ground_row(c / 12 - 1, (c / 4) % 3 - 1, (c / 2) % 2, c % 2).len() == 8);
        assert forall|i: int| 0 <= i < ground_rows(n).len() implies (#[trigger] ground_rows(
            n,
        )[i]).len() == 8 by {
            if i < before.len() {
                assert(ground_rows(n)[i] == before[i]);
            }
        }
    }
}

proof fn lemma_aerial_rows_shape(n: nat)
    ensures
        forall|i: int| 0 <= i < aerial_rows(n).len() ==> (#[trigger] aerial_rows(n)[i]).len() == 8,
    decreases n,
{
    if n > 0 {
        lemma_aerial_rows_shape((n - 1) as nat);
        let c = n - 1;
        let before = aerial_rows((n - 1) as nat);
        assert(aerial_row(c / 36 - 1, (c / 12) % 3 - 1, (c / 4) % 3 - 1, (c / 2) % 2, c % 2).len()
            == 8);
        assert forall|i: int| 0 <= i < aerial_rows(n).len() implies (#[trigger] aerial_rows(
            n,
        )[i]).len() == 8 by {
            if i < before.len() {
                assert(aerial_rows(n)[i] == before[i]);
            }
        }
    }
}

/// The count of the table: 24 ground rows, then 66 aerial rows.
pub proof fn lemma_table_len()
    ensures
        ground_rows(36).len() == 24,
        aerial_rows(108).len() == 66,
        necto_table().len() == 90,
{
    lemma_ground_len(9);
    lemma_aerial_len(27);
    assert(aerial_len_upto(27) == 66) by {
        reveal_with_fuel(aerial_len_upto, 28);
    }
}

/// Every row of the table is a control vector: it has eight components.
pub proof fn lemma_rows_are_control_vectors()
    ensures
        forall|i: int|
            0 <= i < necto_table().len() ==> (#[trigger] necto_table()[i]).len() == 8,
{
    lemma_ground_rows_shape(36);
    lemma_aerial_rows_shape(108);
}

/// Two decoders hold the same table, row for row: the table does not depend
/// on when or how often it is built.
pub proof fn lemma_table_is_stable(first: NectoAction, second: NectoAction)
    requires
        first.wf(),
        second.wf(),
    ensures
        first@ == second@,
{
}

/// A batch that holds one group with one index of the table decodes to
/// exactly one control vector of eight components, the row that the index
/// names.
pub proof fn lemma_decode_single(actions: Seq<Vec<i64>>, index: i64)
    requires
        actions.len() == 1,
        actions[0]@ == seq![index],
        0 <= index < necto_table().len(),
    ensures
        indices_in_range(batch_indices(actions), necto_table().len()),
        decode(necto_table(), batch_indices(actions)) == seq![necto_table()[index as int]],
        necto_table()[index as int].len() == 8,
{
    let groups = actions.map_values(|group: Vec<i64>| group@);
    groups.lemma_flatten_one_element();
    assert(batch_indices(actions) == seq![index]);
    assert(decode(necto_table(), seq![index]) =~= seq![necto_table()[index as int]]);
    lemma_rows_are_control_vectors();
}

} // verus!
