use crate::errors::EnvError;
use crate::features::Feature;
use crate::gamestates::game_state::GameState;
use crate::gamestates::player_data::PlayerData;
use vstd::prelude::*;

verus! {

/// An encoder of observations: it turns a snapshot, as one player sees it,
/// into a vector of cells, and may remember what it has seen.
pub trait ObsBuilder {
    /// What the encoder remembers, for its callers.
    type Model;

    /// The encoder is fit for use.
    spec fn wf(&self) -> bool;

    /// What the encoder remembers.
    spec fn model(&self) -> Self::Model;

    /// The model after a reset with `state` as the first snapshot.
    spec fn cleared(model: Self::Model, state: GameState) -> Self::Model;

    /// Length of every observation for a previous action of eight
    /// components.
    spec fn obs_len(model: Self::Model) -> nat;

    /// Whether an observation can be built for `player` in `state`.
    spec fn knows(model: Self::Model, player: PlayerData, state: GameState) -> bool;

    /// The observation of `player` in `state`.
    spec fn observes(
        model: Self::Model,
        player: PlayerData,
        state: GameState,
        previous_action: Seq<Feature>,
    ) -> Seq<Feature>;

    /// The model after `player` has been observed in `state`.
    spec fn learns(model: Self::Model, player: PlayerData, state: GameState) -> Self::Model;

    /// Starts an episode over.
    fn reset(&mut self, initial_state: &GameState)
        requires
            old(self).wf(),
        ensures
            final(self).wf(),
            final(self).model() == Self::cleared(old(self).model(), *initial_state),
    ;

    /// The shape of an observation: one entry, its length.
    fn get_obs_space(&mut self) -> (shape: Vec<usize>)
        requires
            old(self).wf(),
        ensures
            final(self).wf(),
            final(self).model() == old(self).model(),
            shape@ == seq![Self::obs_len(old(self).model()) as usize],
    ;

    /// Builds the observation of `player` in `state`. Fails, and remembers
    /// nothing, for a player of whom no observation can be built.
    fn build_obs(
        &mut self,
        player: &PlayerData,
        state: &GameState,
        previous_action: &Vec<Feature>,
    ) -> (built: Result<Vec<Feature>, EnvError>)
        requires
            old(self).wf(),
        ensures
            final(self).wf(),
            match built {
                Ok(obs) => {
                    &&& Self::knows(old(self).model(), *player, *state)
                    &&& obs@ == Self::observes(
                        old(self).model(),
                        *player,
                        *state,
                        previous_action@,
                    )
                    &&& previous_action@.len() == 8 ==> obs@.len() == Self::obs_len(
                        old(self).model(),
                    )
                    &&& final(self).model() == Self::learns(old(self).model(), *player, *state)
                },
                Err(e) => {
                    &&& e == EnvError::UnknownAgent
                    &&& !Self::knows(old(self).model(), *player, *state)
                    &&& final(self).model() == old(self).model()
                },
            },
    ;
}

} // verus!
