use crate::common_values::ORANGE_TEAM;
use crate::errors::EnvError;
use crate::features::{zeros, Feature, Scale};
use crate::gamestates::game_state::GameState;
use crate::gamestates::physics_object::PhysicsObject;
use crate::gamestates::player_data::PlayerData;
use crate::obs_builders::obs_builder::ObsBuilder;
use std::collections::VecDeque;
use vstd::prelude::*;

verus! {

/// One remembered ball state as it is stored: position, linear velocity and
/// angular velocity, each with its components in reverse axis order.
pub type BallEntry = [[Feature; 3]; 3];

/// The cells that a stored ball state contributes to an observation: angular
/// velocity, linear velocity, position, each as stored.
pub open spec fn entry_cells(entry: BallEntry) -> Seq<Feature> {
    entry[2]@ + entry[1]@ + entry[0]@
}

/// The cells of the live ball: standardized position, linear velocity and
/// angular velocity, each in axis order.
pub open spec fn ball_cells(ball: PhysicsObject) -> Seq<Feature> {
    ball.position.scaled_cells(Scale::Position) + ball.linear_velocity.scaled_cells(
        Scale::Position,
    ) + ball.angular_velocity.scaled_cells(Scale::Angular)
}

/// One flag cell for each pad.
pub open spec fn pad_cells(pads: Seq<bool>) -> Seq<Feature> {
    pads.map_values(|set: bool| Feature::flag(set))
}

/// A history of `n` entries in which nothing has been seen yet.
pub open spec fn blank_history(n: nat) -> Seq<Seq<Feature>> {
    Seq::new(n, |i: int| zeros(9))
}

/// The history after `entry` has been seen: the entry in front, the oldest
/// entry dropped, the length as it was.
pub open spec fn remember(history: Seq<Seq<Feature>>, entry: Seq<Feature>) -> Seq<Seq<Feature>> {
    (seq![entry] + history).take(history.len() as int)
}

/// The block of a player as seen against `ball`: where the ball is and how
/// it moves relative to the car, the car's position, its forward and up
/// directions, its linear and angular velocity, its boost and its three
/// flags (on the ground, has a flip, demolished).
pub open spec fn player_cells(car: PlayerData, ball: PhysicsObject, inverted: bool) -> Seq<
    Feature,
> {
    let body = car.body(inverted);
    ball.position.relative_cells(body.position, Scale::Position)
        + ball.linear_velocity.relative_cells(body.linear_velocity, Scale::Position)
        + body.position.scaled_cells(Scale::Position) + body.rotation.forward.raw_cells()
        + body.rotation.up.raw_cells() + body.linear_velocity.scaled_cells(Scale::Position)
        + body.angular_velocity.scaled_cells(Scale::Angular) + seq![
        Feature::Raw(car.boost_amount),
        Feature::flag(car.on_ground),
        Feature::flag(car.has_flip),
        Feature::flag(car.is_demoed),
    ]
}

/// The block of a player other than the observer: the player's own block,
/// then its position and linear velocity relative to the observer's car.
pub open spec fn other_cells(
    car: PlayerData,
    ball: PhysicsObject,
    inverted: bool,
    observer: PhysicsObject,
) -> Seq<Feature> {
    let body = car.body(inverted);
    player_cells(car, ball, inverted) + body.position.relative_cells(
        observer.position,
        Scale::Position,
    ) + body.linear_velocity.relative_cells(observer.linear_velocity, Scale::Position)
}

/// Whether `other` is a teammate of `me` (and not `me` itself).
pub open spec fn is_ally(other: PlayerData, me: PlayerData) -> bool {
    other.car_id != me.car_id && other.team_num == me.team_num
}

/// Whether `other` is an opponent of `me` (and not `me` itself).
pub open spec fn is_enemy(other: PlayerData, me: PlayerData) -> bool {
    other.car_id != me.car_id && other.team_num != me.team_num
}

/// Teammates of `me` among the first `n` players.
pub open spec fn allies_among(players: Seq<PlayerData>, me: PlayerData, n: int) -> nat
    decreases n,
{
    if n <= 0 {
        0
    } else {
        allies_among(players, me, n - 1) + if is_ally(players[n - 1], me) {
            1nat
        } else {
            0nat
        }
    }
}

/// Opponents of `me` among the first `n` players.
pub open spec fn enemies_among(players: Seq<PlayerData>, me: PlayerData, n: int) -> nat
    decreases n,
{
    if n <= 0 {
        0
    } else {
        enemies_among(players, me, n - 1) + if is_enemy(players[n - 1], me) {
            1nat
        } else {
            0nat
        }
    }
}

/// Blocks that an observation has for teammates: one less than the team.
pub open spec fn ally_slots(team_size: nat) -> nat {
    if team_size == 0 {
        0
    } else {
        (team_size - 1) as nat
    }
}

/// Whether player `k` of the snapshot gets a block: it is not the observer,
/// and fewer players of its side than the side has slots stand before it.
pub open spec fn is_shown(players: Seq<PlayerData>, me: PlayerData, team_size: nat, k: int) -> bool {
    ||| is_ally(players[k], me) && allies_among(players, me, k) < ally_slots(team_size)
    ||| is_enemy(players[k], me) && enemies_among(players, me, k) < team_size
}

/// The blocks of the players that are shown among the first `n`, in
/// snapshot order.
pub open spec fn shown_cells(
    players: Seq<PlayerData>,
    me: PlayerData,
    ball: PhysicsObject,
    inverted: bool,
    team_size: nat,
    n: int,
) -> Seq<Feature>
    decreases n,
{
    if n <= 0 {
        Seq::empty()
    } else {
        let before = shown_cells(players, me, ball, inverted, team_size, n - 1);
        if is_shown(players, me, team_size, n - 1) {
            before + other_cells(players[n - 1], ball, inverted, me.body(inverted))
        } else {
            before
        }
    }
}

/// Slots of a side with `slots` slots that stay empty when `present`
/// players of that side are in the snapshot.
pub open spec fn empty_slots(slots: nat, present: nat) -> nat {
    if present < slots {
        (slots - present) as nat
    } else {
        0
    }
}

/// Whether `player` sees the field mirrored: the orange side does.
pub open spec fn sees_inverted(player: PlayerData) -> bool {
    player.team_num == ORANGE_TEAM
}

/// The ball as `player` sees it.
pub open spec fn ball_seen(player: PlayerData, state: GameState) -> PhysicsObject {
    if sees_inverted(player) {
        state.inverted_ball
    } else {
        state.ball
    }
}

/// The pads as `player` sees them.
pub open spec fn pads_seen(player: PlayerData, state: GameState) -> Seq<bool> {
    if sees_inverted(player) {
        state.inverted_boost_pads@
    } else {
        state.boost_pads@
    }
}

/// Whether an observation can be built for `player`: a history is kept for
/// its car id, and the snapshot holds a player with that id.
pub open spec fn is_known(player: PlayerData, state: GameState) -> bool {
    0 <= player.car_id < 8 && state.has_car(player.car_id)
}

/// The observation of `player` in `state`, given the history kept for it.
///
/// In order: the live ball, the previous action, the pads, the history from
/// the newest entry to the oldest, the player's own block, the blocks of the
/// other players that are shown, and a block of zeros for every slot of
/// either side that stays empty. An orange player sees the mirrored ball,
/// pads and cars.
pub open spec fn observation(
    history: Seq<Seq<Feature>>,
    team_size: nat,
    player: PlayerData,
    state: GameState,
    previous_action: Seq<Feature>,
) -> Seq<Feature> {
    let inverted = sees_inverted(player);
    let ball = ball_seen(player, state);
    let players = state.players@;
    let n = players.len() as int;
    ball_cells(ball) + previous_action + pad_cells(pads_seen(player, state)) + history.flatten()
        + player_cells(
        player,
        ball,
        inverted,
    ) + shown_cells(players, player, ball, inverted, team_size, n) + zeros(
        31 * empty_slots(ally_slots(team_size), allies_among(players, player, n)),
    ) + zeros(31 * empty_slots(team_size, enemies_among(players, player, n)))
}

/// Length of every observation of an encoder with these sizes, for a
/// previous action of `action_len` cells: 9 cells for the live ball, the
/// previous action, 34 pads, 9 cells for each entry of the history, 25 for
/// the observer's own block, and 31 for each slot of a teammate or an
/// opponent.
pub open spec fn observation_len(team_size: nat, stack_size: nat, action_len: nat) -> nat {
    9 + action_len + 34 + 9 * stack_size + 25 + 31 * (ally_slots(team_size) + team_size)
}

/// What an encoder is, for its callers: its two sizes and, for each of the
/// eight agent slots (car ids 0 to 7), the history of ball states from the
/// newest to the oldest, each as the nine cells that it contributes to an
/// observation.
pub struct EncoderModel {
    pub team_size: nat,
    pub stack_size: nat,
    pub histories: Seq<Seq<Seq<Feature>>>,
}

impl EncoderModel {
    /// The model with the history of `slot` replaced.
    pub open spec fn with_history(self, slot: int, history: Seq<Seq<Feature>>) -> EncoderModel {
        EncoderModel { histories: self.histories.update(slot, history), ..self }
    }

    /// The model after `player` has been observed in `state`: its history
    /// has the ball of this tick, as the player sees it, in front.
    pub open spec fn learns(self, player: PlayerData, state: GameState) -> EncoderModel {
        self.with_history(
            player.car_id as int,
            remember(
                self.histories[player.car_id as int],
                ball_cells(ball_seen(player, state)).reverse(),
            ),
        )
    }

    /// The observation of `player` in `state`, for a previous action of any
    /// length.
    pub open spec fn observes(
        self,
        player: PlayerData,
        state: GameState,
        previous_action: Seq<Feature>,
    ) -> Seq<Feature> {
        observation(
            self.histories[player.car_id as int],
            self.team_size,
            player,
            state,
            previous_action,
        )
    }

    /// The model with nothing seen yet in any history.
    pub open spec fn blank(self) -> EncoderModel {
        EncoderModel {
            histories: Seq::new(8, |slot: int| blank_history(self.stack_size)),
            ..self
        }
    }

    /// Every slot has a history of `stack_size` entries of nine cells, and
    /// the length of an observation fits the machine.
    pub open spec fn wf(self) -> bool {
        &&& self.histories.len() == 8
        &&& forall|slot: int|
            0 <= slot < 8 ==> (#[trigger] self.histories[slot]).len() == self.stack_size
        &&& forall|slot: int, i: int|
            0 <= slot < 8 && 0 <= i < self.stack_size ==> (#[trigger] self.histories[slot][i]).len()
                == 9
        &&& observation_len(self.team_size, self.stack_size, 8) <= usize::MAX
    }
}

/// Observation encoder that shows, besides the present tick, a stack of the
/// ball states of the ticks before it, and pads the blocks of absent
/// players with zeros.
pub struct AdvancedObsPadderStacker {
    team_size: usize,
    stack_size: usize,
    ball_stack: Vec<VecDeque<BallEntry>>,
}

/// The histories of a stack of stored entries.
pub open spec fn histories_of(stack: Seq<VecDeque<BallEntry>>) -> Seq<Seq<Seq<Feature>>> {
    stack.map_values(
        |deque: VecDeque<BallEntry>| deque@.map_values(|entry: BallEntry| entry_cells(entry)),
    )
}

impl View for AdvancedObsPadderStacker {
    type V = EncoderModel;

    closed spec fn view(&self) -> EncoderModel {
        EncoderModel {
            team_size: self.team_size as nat,
            stack_size: self.stack_size as nat,
            histories: histories_of(self.ball_stack@),
        }
    }
}

/// Appends `cells` to `obs`.
fn extend(obs: &mut Vec<Feature>, cells: &[Feature])
    ensures
        final(obs)@ == old(obs)@ + cells@,
{
    let mut i: usize = 0;
    while i < cells.len()
        invariant
            i <= cells@.len(),
            obs@ == old(obs)@ + cells@.take(i as int),
        decreases cells@.len() - i,
    {
        obs.push(cells[i]);
        assert(cells@.take(i + 1) =~= cells@.take(i as int).push(cells@[i as int]));
        i += 1;
    }
    assert(cells@.take(i as int) =~= cells@);
}

/// The three cells in reverse order.
fn reversed(cells: [Feature; 3]) -> (r: [Feature; 3])
    ensures
        r@ == cells@.reverse(),
{
    let r = [cells[2], cells[1], cells[0]];
    assert(r@ =~= cells@.reverse());
    r
}

impl AdvancedObsPadderStacker {
    /// An encoder for teams of `team_size` players (3 if none is given) that
    /// remembers `stack_size` ball states for each agent (15 if none is
    /// given), with nothing seen yet.
    pub fn new(team_size: Option<usize>, stack_size: Option<usize>) -> (encoder: Self)
        requires
            observation_len(
                match team_size {
                    Some(n) => n as nat,
                    None => 3,
                },
                match stack_size {
                    Some(n) => n as nat,
                    None => 15,
                },
                8,
            ) <= usize::MAX,
        ensures
            encoder.wf(),
            encoder@.team_size == match team_size {
                Some(n) => n as nat,
                None => 3,
            },
            encoder@.stack_size == match stack_size {
                Some(n) => n as nat,
                None => 15,
            },
            encoder@ == encoder@.blank(),
    {
        let team_size = match team_size {
            Some(team_size) => team_size,
            None => 3,
        };
        let stack_size = match stack_size {
            Some(stack_size) => stack_size,
            None => 15,
        };
        let mut advobsps = AdvancedObsPadderStacker {
            team_size: team_size,
            stack_size: stack_size,
            ball_stack: Vec::<VecDeque<BallEntry>>::with_capacity(8),
        };
        let mut i: usize = 0;
        while i < 8
            invariant
                i <= 8,
                advobsps.team_size == team_size,
                advobsps.stack_size == stack_size,
                advobsps.ball_stack@.len() == i,
                stack_size < usize::MAX,
                forall|slot: int|
                    0 <= slot < i ==> (#[trigger] histories_of(advobsps.ball_stack@)[slot])
                        == blank_history(stack_size as nat),
            decreases 8 - i,
        {
            advobsps.blank_stack();
            i += 1;
        }
        assert(advobsps@.histories =~= advobsps@.blank().histories);
        advobsps
    }

    /// Adds the history of one more agent, with nothing seen yet.
    fn blank_stack(&mut self)
        requires
            old(self).stack_size < usize::MAX,
        ensures
            final(self).team_size == old(self).team_size,
            final(self).stack_size == old(self).stack_size,
            final(self).ball_stack@.len() == old(self).ball_stack@.len() + 1,
            histories_of(final(self).ball_stack@) == histories_of(old(self).ball_stack@).push(
                blank_history(old(self).stack_size as nat),
            ),
    {
        let still = [Feature::Int(0), Feature::Int(0), Feature::Int(0)];
        let default_ball: BallEntry = [still, still, still];
        let mut default_deque = VecDeque::<BallEntry>::with_capacity(self.stack_size + 1);
        let mut i: usize = 0;
        while i < self.stack_size
            invariant
                i <= self.stack_size,
                default_deque@.len() == i,
                forall|j: int| 0 <= j < i ==> (#[trigger] default_deque@[j]) == default_ball,
            decreases self.stack_size - i,
        {
            default_deque.push_front(default_ball);
            i += 1;
        }
        proof {
            assert(entry_cells(default_ball) =~= zeros(9));
            assert(default_deque@.map_values(|entry: BallEntry| entry_cells(entry))
                =~= blank_history(self.stack_size as nat));
            assert(histories_of(self.ball_stack@.push(default_deque)) =~= histories_of(
                self.ball_stack@,
            ).push(blank_history(self.stack_size as nat)));
        }
        self.ball_stack.push(default_deque);
    }

    /// Puts a ball state in front of the history of agent `index` and drops
    /// the oldest one. The state is stored with the components of each
    /// vector in reverse axis order.
    fn add_ball_to_stack(
        &mut self,
        pos_std: [Feature; 3],
        lin_std: [Feature; 3],
        ang_std: [Feature; 3],
        index: usize,
    )
        requires
            old(self).wf(),
            index < 8,
        ensures
            final(self).wf(),
            final(self)@ == old(self)@.with_history(
                index as int,
                remember(
                    old(self)@.histories[index as int],
                    (pos_std@ + lin_std@ + ang_std@).reverse(),
                ),
            ),
    {
        let entry: BallEntry = [reversed(pos_std), reversed(lin_std), reversed(ang_std)];
        let ghost cells = (pos_std@ + lin_std@ + ang_std@).reverse();
        let ghost before = self.ball_stack@[index as int]@;
        let ghost stack_before = self.ball_stack@;
        assert(entry_cells(entry) =~= cells);
        assert(histories_of(stack_before)[index as int].len() == self.stack_size);
        self.ball_stack[index].push_front(entry);
        self.ball_stack[index].truncate(self.stack_size);
        proof {
            let after = self.ball_stack@[index as int]@;
            assert(after == (seq![entry] + before).take(self.stack_size as int));
            assert(after.map_values(|e: BallEntry| entry_cells(e)) =~= remember(
                before.map_values(|e: BallEntry| entry_cells(e)),
                cells,
            ));
            assert(histories_of(self.ball_stack@) =~= histories_of(stack_before).update(
                index as int,
                remember(histories_of(stack_before)[index as int], cells),
            ));
            assert forall|slot: int, i: int| 0 <= slot < 8 && 0 <= i < self.stack_size implies (
            #[trigger] self@.histories[slot][i]).len() == 9 by {
                if slot == index {
                    if i > 0 {
                        assert(self@.histories[slot][i] == old(self)@.histories[slot][i - 1]);
                    }
                } else {
                    assert(self@.histories[slot] == old(self)@.histories[slot]);
                }
            }
        }
    }

    /// Appends the block of an empty slot: zeros.
    fn _add_dummy(obs: &mut Vec<Feature>)
        ensures
            final(obs)@ == old(obs)@ + zeros(31),
    {
        let mut i: usize = 0;
        assert(obs@ =~= old(obs)@ + zeros(0));
        while i < 31
            invariant
                i <= 31,
                obs@ == old(obs)@ + zeros(i as nat),
            decreases 31 - i,
        {
            obs.push(Feature::Int(0));
            assert(obs@ =~= old(obs)@ + zeros((i + 1) as nat));
            i += 1;
        }
    }

    /// Appends the block of `car` as seen against `ball`, followed, where an
    /// observer's car is given, by the car's position and linear velocity
    /// relative to it. Returns the car in the frame that was used.
    fn _add_player_to_obs(
        &self,
        obs: &mut Vec<Feature>,
        car: &PlayerData,
        ball: &PhysicsObject,
        inverted: bool,
        player: Option<&PhysicsObject>,
    ) -> (player_car: PhysicsObject)
        ensures
            player_car == car.body(inverted),
            final(obs)@ == old(obs)@ + match player {
                Some(observer) => other_cells(*car, *ball, inverted, *observer),
                None => player_cells(*car, *ball, inverted),
            },
    {
        let player_car: PhysicsObject;
        if inverted {
            player_car = car.inverted_car_data;
        } else {
            player_car = car.car_data;
        }
        let rel_pos = ball.position.relative_to(&player_car.position, Scale::Position);
        let rel_vel = ball.linear_velocity.relative_to(
            &player_car.linear_velocity,
            Scale::Position,
        );

        extend(obs, &rel_pos);
        extend(obs, &rel_vel);
        extend(obs, &player_car.position.divide_by_var(Scale::Position));
        extend(obs, &player_car.forward().into_array());
        extend(obs, &player_car.up().into_array());
        extend(obs, &player_car.linear_velocity.divide_by_var(Scale::Position));
        extend(obs, &player_car.angular_velocity.divide_by_var(Scale::Angular));
        let status = [
            Feature::Raw(car.boost_amount),
            flag(car.on_ground),
            flag(car.has_flip),
            flag(car.is_demoed),
        ];
        extend(obs, &status);
        assert(obs@ =~= old(obs)@ + player_cells(*car, *ball, inverted));

        match player {
            Some(player) => {
                extend(obs, &player_car.position.relative_to(&player.position, Scale::Position));
                extend(
                    obs,
                    &player_car.linear_velocity.relative_to(
                        &player.linear_velocity,
                        Scale::Position,
                    ),
                );
                assert(obs@ =~= old(obs)@ + other_cells(*car, *ball, inverted, *player));
            },
            None => (),
        };

        player_car
    }
}

impl ObsBuilder for AdvancedObsPadderStacker {
    type Model = EncoderModel;

    /// The encoder is well formed: its model is.
    open spec fn wf(&self) -> bool {
        self@.wf()
    }

    open spec fn model(&self) -> EncoderModel {
        self@
    }

    /// A reset leaves nothing in any history, whatever the first snapshot.
    open spec fn cleared(model: EncoderModel, state: GameState) -> EncoderModel {
        model.blank()
    }

    open spec fn obs_len(model: EncoderModel) -> nat {
        observation_len(model.team_size, model.stack_size, 8)
    }

    /// A history is kept for the player's car id, and the snapshot holds a
    /// player with that id.
    open spec fn knows(model: EncoderModel, player: PlayerData, state: GameState) -> bool {
        is_known(player, state)
    }

    open spec fn observes(
        model: EncoderModel,
        player: PlayerData,
        state: GameState,
        previous_action: Seq<Feature>,
    ) -> Seq<Feature> {
        model.observes(player, state, previous_action)
    }

    open spec fn learns(model: EncoderModel, player: PlayerData, state: GameState) -> EncoderModel {
        model.learns(player, state)
    }

    /// Forgets every ball state seen so far.
    fn reset(&mut self, _initial_state: &GameState)
        ensures
            final(self)@ == old(self)@.blank(),
    {
        self.ball_stack.clear();
        let mut i: usize = 0;
        while i < 8
            invariant
                i <= 8,
                self.team_size == old(self).team_size,
                self.stack_size == old(self).stack_size,
                self.ball_stack@.len() == i,
                self.stack_size < usize::MAX,
                forall|slot: int|
                    0 <= slot < i ==> (#[trigger] histories_of(self.ball_stack@)[slot])
                        == blank_history(self.stack_size as nat),
            decreases 8 - i,
        {
            self.blank_stack();
            i += 1;
        }
        assert(self@.histories =~= old(self)@.blank().histories);
    }

    /// The shape of an observation: one entry, the length of every
    /// observation that `build_obs` gives for a previous action of eight
    /// components.
    fn get_obs_space(&mut self) -> (shape: Vec<usize>)
        ensures
            *final(self) == *old(self),
            shape@ == seq![
                observation_len(old(self)@.team_size, old(self)@.stack_size, 8) as usize,
            ],
    {
        let ally_cap = if self.team_size == 0 {
            0
        } else {
            self.team_size - 1
        };
        let len = 76 + 9 * self.stack_size + 31 * (ally_cap + self.team_size);
        let mut shape = Vec::<usize>::new();
        shape.push(len);
        assert(shape@ =~= seq![len]);
        shape
    }

    /// Builds the observation of `player` in `state` and then remembers the
    /// ball of this tick for the player's next observation. The history
    /// that the observation shows is the one from before this call.
    ///
    /// Fails, leaving the encoder as it was, when no history is kept for
    /// the player's car id or the snapshot holds no player with that id.
    fn build_obs(
        &mut self,
        player: &PlayerData,
        state: &GameState,
        previous_action: &Vec<Feature>,
    ) -> (built: Result<Vec<Feature>, EnvError>)
        ensures
            built is Ok ==> built->Ok_0@.len() == observation_len(
                old(self)@.team_size,
                old(self)@.stack_size,
                previous_action@.len(),
            ),
    {
        if player.car_id < 0 || player.car_id >= 8 || !state.contains_car(player.car_id) {
            return Err(EnvError::UnknownAgent);
        }
        let index = player.car_id as usize;
        let inverted: bool;
        let ball: &PhysicsObject;
        let pads: &[bool; 34];
        if player.team_num == ORANGE_TEAM {
            inverted = true;
            ball = &state.inverted_ball;
            pads = &state.inverted_boost_pads;
        } else {
            inverted = false;
            ball = &state.ball;
            pads = &state.boost_pads;
        }

        let pos_std = ball.position.divide_by_var(Scale::Position);
        let lin_std = ball.linear_velocity.divide_by_var(Scale::Position);
        let ang_std = ball.angular_velocity.divide_by_var(Scale::Angular);

        let mut obs = Vec::<Feature>::with_capacity(276);

        extend(&mut obs, &pos_std);
        extend(&mut obs, &lin_std);
        extend(&mut obs, &ang_std);
        extend(&mut obs, previous_action.as_slice());
        let mut p: usize = 0;
        let ghost head = obs@;
        assert(head =~= ball_cells(*ball) + previous_action@);
        assert(pad_cells(pads@).take(0) =~= Seq::<Feature>::empty());
        while p < 34
            invariant
                p <= 34,
                pads@.len() == 34,
                obs@ == head + pad_cells(pads@).take(p as int),
            decreases 34 - p,
        {
            obs.push(flag(pads[p]));
            assert(pad_cells(pads@).take(p + 1) =~= pad_cells(pads@).take(p as int).push(
                Feature::flag(pads@[p as int]),
            ));
            p += 1;
        }
        assert(pad_cells(pads@).take(34) =~= pad_cells(pads@));

        let ghost history = self@.histories[index as int];
        let ghost shown_head = obs@;
        let ball_stack = &self.ball_stack[index];
        let mut i: usize = 0;
        assert(history.take(0) =~= Seq::<Seq<Feature>>::empty());
        while i < ball_stack.len()
            invariant
                i <= ball_stack@.len(),
                history == ball_stack@.map_values(|entry: BallEntry| entry_cells(entry)),
                obs@ == shown_head + history.take(i as int).flatten(),
            decreases ball_stack@.len() - i,
        {
            let ball_vec = &ball_stack[i];
            let pos_std_stack = &ball_vec[0];
            let lin_std_stack = &ball_vec[1];
            let ang_std_stack = &ball_vec[2];
            extend(&mut obs, ang_std_stack);
            extend(&mut obs, lin_std_stack);
            extend(&mut obs, pos_std_stack);
            proof {
                assert(history.take(i + 1) =~= history.take(i as int).push(history[i as int]));
                history.take(i as int).lemma_flatten_push(history[i as int]);
                assert(obs@ =~= shown_head + history.take(i + 1).flatten());
            }
            i += 1;
        }
        assert(history.take(i as int) =~= history);

        self.add_ball_to_stack(pos_std, lin_std, ang_std, index);
        assert(pos_std@ + lin_std@ + ang_std@ =~= ball_cells(*ball));

        let player_car = self._add_player_to_obs(&mut obs, player, ball, inverted, None);

        let ally_cap: usize = if self.team_size == 0 {
            0
        } else {
            self.team_size - 1
        };
        let mut ally_count: usize = 0;
        let mut enemy_count: usize = 0;
        let ghost base = obs@;
        let ghost players = state.players@;
        let ghost team = self.team_size as nat;
        assert(base =~= ball_cells(*ball) + previous_action@ + pad_cells(pads@) + history.flatten()
            + player_cells(*player, *ball, inverted));

        let mut k: usize = 0;
        while k < state.players.len()
            invariant
                k <= players.len(),
                players == state.players@,
                team == self.team_size,
                ally_cap == ally_slots(team),
                player_car == player.body(inverted),
                ally_count == allies_among(players, *player, k as int),
                enemy_count == enemies_among(players, *player, k as int),
                ally_count <= k,
                enemy_count <= k,
                obs@ == base + shown_cells(players, *player, *ball, inverted, team, k as int),
            decreases players.len() - k,
        {
            let other = &state.players[k];
            let ghost before = obs@;
            if other.car_id != player.car_id {
                if other.team_num == player.team_num {
                    ally_count += 1;
                    if ally_count <= ally_cap {
                        self._add_player_to_obs(&mut obs, other, ball, inverted, Some(&player_car));
                    }
                } else {
                    enemy_count += 1;
                    if enemy_count <= self.team_size {
                        self._add_player_to_obs(&mut obs, other, ball, inverted, Some(&player_car));
                    }
                }
            }
            assert(obs@ =~= base + shown_cells(players, *player, *ball, inverted, team, k + 1));
            k += 1;
        }

        let ghost allies = allies_among(players, *player, players.len() as int);
        let ghost enemies = enemies_among(players, *player, players.len() as int);
        let ghost shown = obs@;
        assert(zeros(0) =~= Seq::<Feature>::empty());
        while ally_count < ally_cap
            invariant
                allies <= ally_count,
                allies >= ally_cap ==> ally_count == allies,
                allies < ally_cap ==> ally_count <= ally_cap,
                obs@ == shown + zeros((31 * (ally_count - allies)) as nat),
            decreases ally_cap - ally_count,
        {
            AdvancedObsPadderStacker::_add_dummy(&mut obs);
            assert(zeros((31 * (ally_count - allies)) as nat) + zeros(31) =~= zeros(
                (31 * (ally_count + 1 - allies)) as nat,
            ));
            ally_count += 1;
        }
        let ghost padded = obs@;
        assert(padded =~= shown + zeros(31 * empty_slots(ally_slots(team), allies)));
        while enemy_count < self.team_size
            invariant
                team == self.team_size,
                enemies <= enemy_count,
                enemies >= team ==> enemy_count == enemies,
                enemies < team ==> enemy_count <= team,
                obs@ == padded + zeros((31 * (enemy_count - enemies)) as nat),
            decreases self.team_size - enemy_count,
        {
            AdvancedObsPadderStacker::_add_dummy(&mut obs);
            assert(zeros((31 * (enemy_count - enemies)) as nat) + zeros(31) =~= zeros(
                (31 * (enemy_count + 1 - enemies)) as nat,
            ));
            enemy_count += 1;
        }
        assert(obs@ =~= padded + zeros(31 * empty_slots(team, enemies)));
        proof {
            lemma_observation_len(history, team, *player, *state, previous_action@);
        }

        Ok(obs)
    }
}

/// The cell of a flag.
fn flag(set: bool) -> (cell: Feature)
    ensures
        cell == Feature::flag(set),
{
    if set {
        Feature::Int(1)
    } else {
        Feature::Int(0)
    }
}

/// The history after the ball states `entries` have been seen one after the
/// other, the first of them first.
pub open spec fn remember_all(history: Seq<Seq<Feature>>, entries: Seq<Seq<Feature>>) -> Seq<
    Seq<Feature>,
>
    decreases entries.len(),
{
    if entries.len() == 0 {
        history
    } else {
        remember(remember_all(history, entries.drop_last()), entries.last())
    }
}

/// The smaller of two counts.
pub open spec fn at_most(count: nat, limit: nat) -> nat {
    if count < limit {
        count
    } else {
        limit
    }
}

proof fn lemma_flatten_len(history: Seq<Seq<Feature>>)
    requires
        forall|i: int| 0 <= i < history.len() ==> (#[trigger] history[i]).len() == 9,
    ensures
        history.flatten().len() == 9 * history.len(),
    decreases history.len(),
{
    if history.len() > 0 {
        lemma_flatten_len(history.drop_last());
        history.drop_last().lemma_flatten_push(history.last());
        assert(history.drop_last().push(history.last()) =~= history);
    }
}

proof fn lemma_blank_flatten(n: nat)
    ensures
        blank_history(n).flatten() == zeros(9 * n),
    decreases n,
{
    if n == 0 {
        assert(blank_history(0).flatten() =~= zeros(0));
    } else {
        lemma_blank_flatten((n - 1) as nat);
        blank_history((n - 1) as nat).lemma_flatten_push(zeros(9));
        assert(blank_history((n - 1) as nat).push(zeros(9)) =~= blank_history(n));
        assert(zeros((9 * (n - 1)) as nat) + zeros(9) =~= zeros(9 * n));
    }
}

proof fn lemma_shown_len(
    players: Seq<PlayerData>,
    me: PlayerData,
    ball: PhysicsObject,
    inverted: bool,
    team_size: nat,
    n: int,
)
    requires
        0 <= n <= players.len(),
    ensures
        shown_cells(players, me, ball, inverted, team_size, n).len() == 31 * (at_most(
            allies_among(players, me, n),
            ally_slots(team_size),
        ) + at_most(enemies_among(players, me, n), team_size)),
    decreases n,
{
    if n > 0 {
        lemma_shown_len(players, me, ball, inverted, team_size, n - 1);
        assert(other_cells(players[n - 1], ball, inverted, me.body(inverted)).len() == 31);
    }
}

/// Every observation of an encoder has the same length, whatever the
/// snapshot holds: it depends on the team size, the stack size and the
/// length of the previous action alone.
pub proof fn lemma_observation_len(
    history: Seq<Seq<Feature>>,
    team_size: nat,
    player: PlayerData,
    state: GameState,
    previous_action: Seq<Feature>,
)
    requires
        forall|i: int| 0 <= i < history.len() ==> (#[trigger] history[i]).len() == 9,
    ensures
        observation(history, team_size, player, state, previous_action).len() == observation_len(
            team_size,
            history.len(),
            previous_action.len(),
        ),
{
    let players = state.players@;
    let n = players.len() as int;
    lemma_flatten_len(history);
    lemma_shown_len(
        players,
        player,
        ball_seen(player, state),
        sees_inverted(player),
        team_size,
        n,
    );
    assert(player_cells(player, ball_seen(player, state), sees_inverted(player)).len() == 25);
    assert(pad_cells(pads_seen(player, state)).len() == 34);
}

/// An observation built from a history in which nothing has been seen
/// shows only zeros where the history stands: in the `9 * stack_size` cells
/// after the ball, the previous action and the pads.
pub proof fn lemma_history_blank_after_reset(
    model: EncoderModel,
    player: PlayerData,
    state: GameState,
    previous_action: Seq<Feature>,
)
    requires
        model.wf(),
        is_known(player, state),
    ensures
        ({
            let obs = observation(
                model.blank().histories[player.car_id as int],
                model.team_size,
                player,
                state,
                previous_action,
            );
            let start = 9 + previous_action.len() as int + 34;
            &&& start + 9 * model.stack_size <= obs.len()
            &&& obs.subrange(start, start + 9 * model.stack_size) == zeros(9 * model.stack_size)
        }),
{
    let history = blank_history(model.stack_size);
    assert(model.blank().histories[player.car_id as int] == history);
    let obs = observation(history, model.team_size, player, state, previous_action);
    let start = 9 + previous_action.len() as int + 34;
    lemma_blank_flatten(model.stack_size);
    lemma_observation_len(history, model.team_size, player, state, previous_action);
    assert(pad_cells(pads_seen(player, state)).len() == 34);
    assert(obs.subrange(start, start + 9 * model.stack_size) =~= zeros(9 * model.stack_size));
}

/// A history that has seen no more ball states than it has entries holds
/// them from the newest to the oldest, followed by what is left of the
/// entries it had before.
pub proof fn lemma_remember_all(history: Seq<Seq<Feature>>, entries: Seq<Seq<Feature>>)
    requires
        entries.len() <= history.len(),
    ensures
        remember_all(history, entries) == entries.reverse() + history.take(
            history.len() - entries.len(),
        ),
    decreases entries.len(),
{
    if entries.len() == 0 {
        assert(entries.reverse() + history.take(history.len() as int) =~= history);
    } else {
        lemma_remember_all(history, entries.drop_last());
        assert(remember_all(history, entries) =~= entries.reverse() + history.take(
            history.len() - entries.len(),
        ));
    }
}

/// After exactly as many ticks as the history has entries, the oldest entry
/// is the ball state of the first of these ticks, and nothing from before
/// them is left.
pub proof fn lemma_oldest_after_full_stack(
    history: Seq<Seq<Feature>>,
    entries: Seq<Seq<Feature>>,
)
    requires
        entries.len() == history.len(),
        history.len() > 0,
    ensures
        remember_all(history, entries) == entries.reverse(),
        remember_all(history, entries).last() == entries.first(),
{
    lemma_remember_all(history, entries);
    assert(entries.reverse() + history.take(0) =~= entries.reverse());
}

/// Where the snapshot holds fewer opponents of the observer than the team
/// size, the observation ends in one block of 31 zeros for each opponent
/// that is missing.
pub proof fn lemma_opponent_padding(
    history: Seq<Seq<Feature>>,
    team_size: nat,
    player: PlayerData,
    state: GameState,
    previous_action: Seq<Feature>,
)
    requires
        enemies_among(state.players@, player, state.players@.len() as int) < team_size,
    ensures
        ({
            let obs = observation(history, team_size, player, state, previous_action);
            let missing = team_size - enemies_among(
                state.players@,
                player,
                state.players@.len() as int,
            );
            &&& 31 * missing <= obs.len()
            &&& obs.skip(obs.len() - 31 * missing) == zeros((31 * missing) as nat)
        }),
{
    let obs = observation(history, team_size, player, state, previous_action);
    let missing = team_size - enemies_among(state.players@, player, state.players@.len() as int);
    assert(obs.skip(obs.len() - 31 * missing) =~= zeros((31 * missing) as nat));
}

/// Where the snapshot holds fewer teammates of the observer than the team
/// has besides it, the observation holds, before the blocks for missing
/// opponents, one block of 31 zeros for each teammate that is missing.
pub proof fn lemma_teammate_padding(
    history: Seq<Seq<Feature>>,
    team_size: nat,
    player: PlayerData,
    state: GameState,
    previous_action: Seq<Feature>,
)
    requires
        allies_among(state.players@, player, state.players@.len() as int) < ally_slots(team_size),
    ensures
        ({
            let n = state.players@.len() as int;
            let obs = observation(history, team_size, player, state, previous_action);
            let missing = ally_slots(team_size) - allies_among(state.players@, player, n);
            let after = 31 * empty_slots(team_size, enemies_among(state.players@, player, n));
            &&& 31 * missing + after <= obs.len()
            &&& obs.subrange(obs.len() - after - 31 * missing, obs.len() - after) == zeros(
                (31 * missing) as nat,
            )
        }),
{
    let n = state.players@.len() as int;
    let obs = observation(history, team_size, player, state, previous_action);
    let missing = ally_slots(team_size) - allies_among(state.players@, player, n);
    let after = 31 * empty_slots(team_size, enemies_among(state.players@, player, n));
    assert(obs.subrange(obs.len() - after - 31 * missing, obs.len() - after) =~= zeros(
        (31 * missing) as nat,
    ));
}

} // verus!
