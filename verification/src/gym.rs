use crate::action_parsers::action_parser::{
    batch_indices, decode, indices_in_range, rows_of, ActionParser,
};
use crate::communication::communication_handler::{format_pipe_id, pipe_name};
use crate::errors::EnvError;
use crate::features::{zeros, Feature};
use crate::gamestates::game_state::GameState;
use crate::obs_builders::obs_builder::ObsBuilder;
use vstd::prelude::*;

verus! {

/// Where an environment stands in its life.
#[derive(Clone, Copy, Debug, PartialEq, Eq, Structural)]
pub enum Phase {
    /// Made, with no channel to the simulation yet.
    Unconnected,
    /// The channel is open and the configuration delivered.
    Connected,
    /// An episode is under way: actions are answered by snapshots.
    Running,
    /// The channel failed or was closed. Nothing more can be done.
    Terminal,
}

/// What a reset or a step hands back.
#[derive(Debug, PartialEq, Eq)]
pub struct StepResult {
    /// One observation for each player of the snapshot, in snapshot order.
    /// Empty when the channel failed.
    pub observations: Vec<Vec<Feature>>,
    /// Set when the environment has ended.
    pub done: bool,
    /// The failure that ended the environment, if one did.
    pub failure: Option<EnvError>,
}

/// The observations of a result as sequences.
pub open spec fn cells_of(observations: Seq<Vec<Feature>>) -> Seq<Seq<Feature>> {
    observations.map_values(|obs: Vec<Feature>| obs@)
}

/// A control vector as cells.
pub open spec fn action_cells(controls: Seq<i8>) -> Seq<Feature> {
    controls.map_values(|c: i8| Feature::Int(c))
}

/// The previous action of the player at position `i` of the snapshot: the
/// `i`-th control vector that was last decoded, or eight zeros where there
/// is none.
pub open spec fn previous_action(prev_actions: Seq<Seq<i8>>, i: int) -> Seq<Feature> {
    if 0 <= i < prev_actions.len() {
        action_cells(prev_actions[i])
    } else {
        zeros(8)
    }
}

/// The encoder after the first `n` players of the snapshot have been
/// observed, one after the other.
pub open spec fn model_after<O: ObsBuilder>(model: O::Model, state: GameState, n: int) -> O::Model
    decreases n,
{
    if n <= 0 {
        model
    } else {
        O::learns(model_after::<O>(model, state, n - 1), state.players@[n - 1], state)
    }
}

/// How many of the first `n` players of the snapshot are observed before
/// one is met of whom no observation can be built: `n` if there is none.
pub open spec fn known_prefix<O: ObsBuilder>(model: O::Model, state: GameState, n: int) -> int
    decreases n,
{
    if n <= 0 {
        0
    } else {
        let before = known_prefix::<O>(model, state, n - 1);
        if before == n - 1 && O::knows(
            model_after::<O>(model, state, n - 1),
            state.players@[n - 1],
            state,
        ) {
            n
        } else {
            before
        }
    }
}

/// The observations of the first `n` players of the snapshot, built one
/// after the other by an encoder that starts as `model`.
pub open spec fn observations<O: ObsBuilder>(
    model: O::Model,
    state: GameState,
    prev_actions: Seq<Seq<i8>>,
    n: int,
) -> Seq<Seq<Feature>> {
    Seq::new(
        n as nat,
        |i: int|
            O::observes(
                model_after::<O>(model, state, i),
                state.players@[i],
                state,
                previous_action(prev_actions, i),
            ),
    )
}

/// Whether `r` is the result that reports the end of the environment by
/// `failure`: it is done, it names the failure, and it has no observations.
pub open spec fn ended_by(r: Result<StepResult, EnvError>, failure: EnvError) -> bool {
    &&& r is Ok
    &&& r->Ok_0.done
    &&& r->Ok_0.failure == Some(failure)
    &&& r->Ok_0.observations@.len() == 0
}

/// Once a player is met of whom no observation can be built, no later
/// player is counted.
proof fn lemma_known_prefix_stops<O: ObsBuilder>(
    model: O::Model,
    state: GameState,
    stop: int,
    n: int,
)
    requires
        0 <= stop < n,
        known_prefix::<O>(model, state, stop) == stop,
        !O::knows(model_after::<O>(model, state, stop), state.players@[stop], state),
    ensures
        known_prefix::<O>(model, state, n) == stop,
    decreases n,
{
    if n > stop + 1 {
        lemma_known_prefix_stops::<O>(model, state, stop, n - 1);
    }
}

/// The decisions of an environment that drives a simulation over a
/// channel. The environment itself neither reads nor writes: its caller
/// does what each operation asks for and reports what came back.
///
/// The caller starts the simulation, opens the pipe, delivers the
/// configuration and tells `connect` how that went. For an episode it sends
/// the reset frame and hands the answer to `reset`. For a tick it has
/// `parse_actions` decode the discrete actions, sends the control vectors
/// kept in `_prev_actions`, and hands the answer to `step`. One request is
/// under way at a time.
pub struct Gym<O: ObsBuilder, A: ActionParser> {
    pub _obs_builder: O,
    pub _action_parser: A,
    pub observation_space: Vec<usize>,
    pub action_space: Vec<usize>,
    pub _launch_preference: String,
    pub _use_injector: bool,
    pub _force_paging: bool,
    pub _raise_on_crash: bool,
    /// The name of the pipe, in ASCII bytes.
    pub _local_pipe_name: Vec<u8>,
    pub _local_pipe_id: usize,
    pub _minimized: bool,
    pub _auto_minimize: bool,
    /// The snapshot of the last tick.
    pub _prev_state: GameState,
    /// The control vectors that were last decoded.
    pub _prev_actions: Vec<Vec<i8>>,
    pub _phase: Phase,
}

impl<O: ObsBuilder, A: ActionParser> Gym<O, A> {
    /// The encoder and the decoder are fit for use.
    pub open spec fn wf(&self) -> bool {
        &&& self._obs_builder.wf()
        &&& self._action_parser.wf()
    }

    /// The two environments are set up alike: they differ at most in what
    /// their encoder remembers, in the snapshot and the actions they keep,
    /// and in their phase.
    pub open spec fn same_setup(&self, other: &Self) -> bool {
        &&& self._action_parser.table() == other._action_parser.table()
        &&& self.observation_space == other.observation_space
        &&& self.action_space == other.action_space
        &&& self._launch_preference == other._launch_preference
        &&& self._use_injector == other._use_injector
        &&& self._force_paging == other._force_paging
        &&& self._raise_on_crash == other._raise_on_crash
        &&& self._local_pipe_name == other._local_pipe_name
        &&& self._local_pipe_id == other._local_pipe_id
        &&& self._minimized == other._minimized
        &&& self._auto_minimize == other._auto_minimize
    }

    /// An environment that is not connected yet. Where no value is given,
    /// the pipe id is 0, the launcher is the one named "epic", the injector
    /// is used, and paging, raising on a crash and minimizing are off. The
    /// pipe is named after its id.
    pub fn new(
        obs_builder: O,
        action_parser: A,
        pipe_id: Option<usize>,
        launch_preference: Option<String>,
        use_injector: Option<bool>,
        force_paging: Option<bool>,
        raise_on_crash: Option<bool>,
        auto_minimize: Option<bool>,
    ) -> (gym: Self)
        requires
            obs_builder.wf(),
            action_parser.wf(),
        ensures
            gym.wf(),
            gym._phase == Phase::Unconnected,
            gym._obs_builder.model() == obs_builder.model(),
            gym._action_parser.table() == action_parser.table(),
            gym.observation_space@ == seq![O::obs_len(obs_builder.model()) as usize],
            gym.action_space@ == seq![action_parser.table().len() as usize],
            gym._local_pipe_id == (match pipe_id {
                Some(id) => id,
                None => 0,
            }),
            gym._local_pipe_name@ == pipe_name(gym._local_pipe_id as nat),
            gym._launch_preference@ == (match launch_preference {
                Some(preference) => preference@,
                None => "epic"@,
            }),
            gym._use_injector == (match use_injector {
                Some(b) => b,
                None => true,
            }),
            gym._force_paging == (match force_paging {
                Some(b) => b,
                None => false,
            }),
            gym._raise_on_crash == (match raise_on_crash {
                Some(b) => b,
                None => false,
            }),
            gym._auto_minimize == (match auto_minimize {
                Some(b) => b,
                None => false,
            }),
            !gym._minimized,
            gym._prev_actions@.len() == 0,
            gym._prev_state.is_blank(),
    {
        let pipe_id = match pipe_id {
            Some(pipe_id) => pipe_id,
            None => 0,
        };
        let launch_preference = match launch_preference {
            Some(preference) => preference,
            None => "epic".to_owned(),
        };
        let use_injector = match use_injector {
            Some(use_injector) => use_injector,
            None => true,
        };
        let force_paging = match force_paging {
            Some(force_paging) => force_paging,
            None => false,
        };
        let raise_on_crash = match raise_on_crash {
            Some(raise) => raise,
            None => false,
        };
        let auto_minimize = match auto_minimize {
            Some(auto_minimize) => auto_minimize,
            None => false,
        };
        let mut obs_builder = obs_builder;
        let mut action_parser = action_parser;
        let observation_space = obs_builder.get_obs_space();
        let action_space = action_parser.get_action_space();
        Gym {
            _obs_builder: obs_builder,
            _action_parser: action_parser,
            observation_space,
            action_space,
            _launch_preference: launch_preference,
            _use_injector: use_injector,
            _force_paging: force_paging,
            _raise_on_crash: raise_on_crash,
            _local_pipe_name: format_pipe_id(pipe_id),
            _local_pipe_id: pipe_id,
            _minimized: false,
            _auto_minimize: auto_minimize,
            _prev_state: GameState::new(),
            _prev_actions: Vec::new(),
            _phase: Phase::Unconnected,
        }
    }

    /// Takes note of how opening the channel and delivering the
    /// configuration went: the environment is connected if both succeeded
    /// and has ended if not. The outcome is handed back as it came.
    pub fn connect(&mut self, outcome: Result<(), EnvError>) -> (r: Result<(), EnvError>)
        requires
            old(self)._phase == Phase::Unconnected,
        ensures
            r == outcome,
            *final(self) == (Gym {
                _phase: if outcome is Ok {
                    Phase::Connected
                } else {
                    Phase::Terminal
                },
                ..*old(self)
            }),
    {
        match outcome {
            Ok(()) => {
                self._phase = Phase::Connected;
            },
            Err(_) => {
                self._phase = Phase::Terminal;
            },
        }
        outcome
    }

    /// Ends the environment. Says whether a channel and a process are there
    /// to be released: they are if the environment was connected or
    /// running. Closing again changes nothing and asks for nothing.
    pub fn close(&mut self) -> (release: bool)
        ensures
            release == (old(self)._phase == Phase::Connected || old(self)._phase
                == Phase::Running),
            *final(self) == (Gym { _phase: Phase::Terminal, ..*old(self) }),
    {
        let release = match self._phase {
            Phase::Connected => true,
            Phase::Running => true,
            _ => false,
        };
        self._phase = Phase::Terminal;
        release
    }

    /// Decodes the discrete actions of a tick and keeps the control vectors
    /// in `_prev_actions`, from where they are sent and where the next
    /// observations find them. An index outside the table fails the call
    /// and leaves in place what was kept before.
    pub fn parse_actions(&mut self, actions: Vec<Vec<i64>>) -> (r: Result<(), EnvError>)
        requires
            old(self).wf(),
            old(self)._phase == Phase::Running,
        ensures
            final(self).wf(),
            final(self).same_setup(old(self)),
            final(self)._obs_builder == old(self)._obs_builder,
            final(self)._prev_state == old(self)._prev_state,
            final(self)._phase == Phase::Running,
            match r {
                Ok(()) => {
                    &&& indices_in_range(
                        batch_indices(actions@),
                        old(self)._action_parser.table().len(),
                    )
                    &&& rows_of(final(self)._prev_actions@) == decode(
                        old(self)._action_parser.table(),
                        batch_indices(actions@),
                    )
                },
                Err(e) => {
                    &&& e == EnvError::InvalidActionIndex
                    &&& !indices_in_range(
                        batch_indices(actions@),
                        old(self)._action_parser.table().len(),
                    )
                    &&& final(self)._prev_actions == old(self)._prev_actions
                },
            },
    {
        match self._action_parser.parse_actions(actions, &self._prev_state) {
            Ok(rows) => {
                self._prev_actions = rows;
                Ok(())
            },
            Err(e) => Err(e),
        }
    }

    /// What to do when the channel has failed for good: the environment has
    /// ended, and the failure is raised or reported in a result that is
    /// done, as the environment was set up.
    fn fail(&mut self, failure: EnvError) -> (r: Result<StepResult, EnvError>)
        ensures
            *final(self) == (Gym { _phase: Phase::Terminal, ..*old(self) }),
            old(self)._raise_on_crash ==> r == Err::<StepResult, EnvError>(failure),
            !old(self)._raise_on_crash ==> ended_by(r, failure),
    {
        self._phase = Phase::Terminal;
        if self._raise_on_crash {
            Err(failure)
        } else {
            Ok(StepResult { observations: Vec::new(), done: true, failure: Some(failure) })
        }
    }

    /// The previous action of the player at position `i` of the snapshot.
    fn previous_action_of(&self, i: usize) -> (cells: Vec<Feature>)
        ensures
            cells@ == previous_action(rows_of(self._prev_actions@), i as int),
    {
        let mut cells = Vec::<Feature>::new();
        if i < self._prev_actions.len() {
            let controls = &self._prev_actions[i];
            let mut c: usize = 0;
            assert(action_cells(controls@).take(0) =~= cells@);
            while c < controls.len()
                invariant
                    c <= controls@.len(),
                    cells@ == action_cells(controls@).take(c as int),
                decreases controls@.len() - c,
            {
                cells.push(Feature::Int(controls[c]));
                assert(action_cells(controls@).take(c + 1) =~= action_cells(controls@).take(
                    c as int,
                ).push(Feature::Int(controls@[c as int])));
                c += 1;
            }
            assert(action_cells(controls@).take(c as int) =~= action_cells(controls@));
        } else {
            let mut c: usize = 0;
            assert(cells@ =~= zeros(0));
            while c < 8
                invariant
                    c <= 8,
                    cells@ == zeros(c as nat),
                decreases 8 - c,
            {
                cells.push(Feature::Int(0));
                assert(zeros(c as nat).push(Feature::Int(0)) =~= zeros((c + 1) as nat));
                c += 1;
            }
        }
        cells
    }

    /// Builds the observation of every player of `state`, in snapshot
    /// order, and stops at the first of whom none can be built.
    fn observe(&mut self, state: &GameState) -> (r: Result<Vec<Vec<Feature>>, EnvError>)
        requires
            old(self).wf(),
        ensures
            final(self).wf(),
            *final(self) == (Gym { _obs_builder: final(self)._obs_builder, ..*old(self) }),
            final(self)._obs_builder.model() == model_after::<O>(
                old(self)._obs_builder.model(),
                *state,
                known_prefix::<O>(
                    old(self)._obs_builder.model(),
                    *state,
                    state.players@.len() as int,
                ),
            ),
            match r {
                Ok(built) => {
                    &&& known_prefix::<O>(
                        old(self)._obs_builder.model(),
                        *state,
                        state.players@.len() as int,
                    ) == state.players@.len()
                    &&& cells_of(built@) == observations::<O>(
                        old(self)._obs_builder.model(),
                        *state,
                        rows_of(old(self)._prev_actions@),
                        state.players@.len() as int,
                    )
                },
                Err(e) => {
                    &&& e == EnvError::UnknownAgent
                    &&& known_prefix::<O>(
                        old(self)._obs_builder.model(),
                        *state,
                        state.players@.len() as int,
                    ) < state.players@.len()
                },
            },
    {
        let ghost model = self._obs_builder.model();
        let ghost prev = rows_of(self._prev_actions@);
        let mut built = Vec::<Vec<Feature>>::new();
        let mut i: usize = 0;
        assert(cells_of(built@) =~= observations::<O>(model, *state, prev, 0));
        while i < state.players.len()
            invariant
                i <= state.players@.len(),
                self.wf(),
                *self == (Gym { _obs_builder: self._obs_builder, ..*old(self) }),
                prev == rows_of(self._prev_actions@),
                model == old(self)._obs_builder.model(),
                known_prefix::<O>(model, *state, i as int) == i,
                self._obs_builder.model() == model_after::<O>(model, *state, i as int),
                cells_of(built@) == observations::<O>(model, *state, prev, i as int),
            decreases state.players@.len() - i,
        {
            let previous = self.previous_action_of(i);
            let player = &state.players[i];
            match self._obs_builder.build_obs(player, state, &previous) {
                Ok(obs) => {
                    let ghost before = built@;
                    built.push(obs);
                    assert(built@ == before.push(obs));
                    assert(observations::<O>(model, *state, prev, i + 1)[i as int] == obs@);
                    assert(cells_of(built@) =~= cells_of(before).push(obs@));
                    assert(cells_of(built@) =~= observations::<O>(model, *state, prev, i + 1));
                },
                Err(e) => {
                    proof {
                        lemma_known_prefix_stops::<O>(
                            model,
                            *state,
                            i as int,
                            state.players@.len() as int,
                        );
                    }
                    return Err(e);
                },
            }
            i += 1;
        }
        Ok(built)
    }

    /// Takes the answer to a reset: the first snapshot of an episode, or the
    /// failure of the channel.
    ///
    /// With a snapshot, the encoder starts over, the previous actions are
    /// dropped, and the players are observed one after the other. If every
    /// one can be observed, the snapshot is kept and the environment runs.
    /// If not, the call fails at the first that cannot, and neither the
    /// snapshot is kept nor the phase changed. With a failure of the
    /// channel the environment ends, as `step` says.
    pub fn reset(&mut self, reply: Result<GameState, EnvError>) -> (r: Result<
        StepResult,
        EnvError,
    >)
        requires
            old(self).wf(),
            old(self)._phase == Phase::Connected || old(self)._phase == Phase::Running,
        ensures
            final(self).wf(),
            final(self).same_setup(old(self)),
            match reply {
                Ok(state) => {
                    let n = state.players@.len() as int;
                    let start = O::cleared(old(self)._obs_builder.model(), state);
                    let known = known_prefix::<O>(start, state, n);
                    &&& final(self)._obs_builder.model() == model_after::<O>(start, state, known)
                    &&& final(self)._prev_actions@.len() == 0
                    &&& if known == n {
                        &&& r is Ok
                        &&& !r->Ok_0.done
                        &&& r->Ok_0.failure is None
                        &&& cells_of(r->Ok_0.observations@) == observations::<O>(
                            start,
                            state,
                            Seq::empty(),
                            n,
                        )
                        &&& final(self)._prev_state == state
                        &&& final(self)._phase == Phase::Running
                    } else {
                        &&& r == Err::<StepResult, EnvError>(EnvError::UnknownAgent)
                        &&& final(self)._prev_state == old(self)._prev_state
                        &&& final(self)._phase == old(self)._phase
                    }
                },
                Err(failure) => {
                    &&& *final(self) == (Gym { _phase: Phase::Terminal, ..*old(self) })
                    &&& old(self)._raise_on_crash ==> r == Err::<StepResult, EnvError>(failure)
                    &&& !old(self)._raise_on_crash ==> ended_by(r, failure)
                },
            },
    {
        match reply {
            Ok(state) => {
                self._obs_builder.reset(&state);
                self._prev_actions = Vec::new();
                assert(rows_of(self._prev_actions@) =~= Seq::<Seq<i8>>::empty());
                match self.observe(&state) {
                    Ok(observations) => {
                        self._prev_state = state;
                        self._phase = Phase::Running;
                        Ok(StepResult { observations, done: false, failure: None })
                    },
                    Err(e) => Err(e),
                }
            },
            Err(failure) => self.fail(failure),
        }
    }

    /// Takes the answer to the actions of a tick: the next snapshot, or the
    /// failure of the channel.
    ///
    /// With a snapshot, the players are observed one after the other, each
    /// with the control vector that `parse_actions` decoded for it as its
    /// previous action. If every one can be observed, the snapshot is kept.
    /// If not, the call fails at the first that cannot. With a failure of
    /// the channel the environment ends: the failure is raised if the
    /// environment was set up to raise on a crash, and is reported in a
    /// result that is done and has no observations if not.
    pub fn step(&mut self, reply: Result<GameState, EnvError>) -> (r: Result<
        StepResult,
        EnvError,
    >)
        requires
            old(self).wf(),
            old(self)._phase == Phase::Running,
        ensures
            final(self).wf(),
            final(self).same_setup(old(self)),
            match reply {
                Ok(state) => {
                    let n = state.players@.len() as int;
                    let start = old(self)._obs_builder.model();
                    let known = known_prefix::<O>(start, state, n);
                    &&& final(self)._obs_builder.model() == model_after::<O>(start, state, known)
                    &&& final(self)._prev_actions == old(self)._prev_actions
                    &&& final(self)._phase == Phase::Running
                    &&& if known == n {
                        &&& r is Ok
                        &&& !r->Ok_0.done
                        &&& r->Ok_0.failure is None
                        &&& cells_of(r->Ok_0.observations@) == observations::<O>(
                            start,
                            state,
                            rows_of(old(self)._prev_actions@),
                            n,
                        )
                        &&& final(self)._prev_state == state
                    } else {
                        &&& r == Err::<StepResult, EnvError>(EnvError::UnknownAgent)
                        &&& final(self)._prev_state == old(self)._prev_state
                    }
                },
                Err(failure) => {
                    &&& *final(self) == (Gym { _phase: Phase::Terminal, ..*old(self) })
                    &&& old(self)._raise_on_crash ==> r == Err::<StepResult, EnvError>(failure)
                    &&& !old(self)._raise_on_crash ==> ended_by(r, failure)
                },
            },
    {
        match reply {
            Ok(state) => {
                match self.observe(&state) {
                    Ok(observations) => {
                        self._prev_state = state;
                        Ok(StepResult { observations, done: false, failure: None })
                    },
                    Err(e) => Err(e),
                }
            },
            Err(failure) => self.fail(failure),
        }
    }
}

} // verus!
