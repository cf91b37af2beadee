use crate::common_values::BOOST_PADS;
use crate::gamestates::physics_object::PhysicsObject;
use crate::gamestates::player_data::PlayerData;
use vstd::prelude::*;

verus! {

/// The world at one tick.
#[derive(Clone, Debug, PartialEq, Eq)]
pub struct GameState {
    /// The ball in the field's own frame.
    pub ball: PhysicsObject,
    /// The ball in the mirrored frame.
    pub inverted_ball: PhysicsObject,
    /// One flag per pad, set while the pad can be picked up.
    pub boost_pads: [bool; BOOST_PADS],
    /// The same flags in the order of the mirrored frame.
    pub inverted_boost_pads: [bool; BOOST_PADS],
    /// The active players, in an order that is stable from tick to tick.
    pub players: Vec<PlayerData>,
}

impl GameState {
    /// Whether this is the snapshot before any tick: the ball at rest, no
    /// pad set, no player.
    pub open spec fn is_blank(self) -> bool {
        &&& self.ball == PhysicsObject::at_rest()
        &&& self.inverted_ball == PhysicsObject::at_rest()
        &&& self.boost_pads@ == Seq::new(34, |i: int| false)
        &&& self.inverted_boost_pads@ == Seq::new(34, |i: int| false)
        &&& self.players@.len() == 0
    }

    /// The snapshot before any tick.
    pub fn new() -> (state: GameState)
        ensures
            state.is_blank(),
    {
        let pads = [false; BOOST_PADS];
        assert(pads@ =~= Seq::new(34, |i: int| false));
        GameState {
            ball: PhysicsObject::new(),
            inverted_ball: PhysicsObject::new(),
            boost_pads: pads,
            inverted_boost_pads: pads,
            players: Vec::new(),
        }
    }

    /// Whether a player with this car id is in the snapshot.
    pub open spec fn has_car(self, car_id: i32) -> bool {
        exists|k: int| 0 <= k < self.players@.len() && #[trigger] self.players@[k].car_id == car_id
    }

    /// Whether a player with this car id is in the snapshot.
    pub fn contains_car(&self, car_id: i32) -> (found: bool)
        ensures
            found == self.has_car(car_id),
    {
        let mut k: usize = 0;
        while k < self.players.len()
            invariant
                k <= self.players@.len(),
                forall|j: int| 0 <= j < k ==> #[trigger] self.players@[j].car_id != car_id,
            decreases self.players@.len() - k,
        {
            if self.players[k].car_id == car_id {
                return true;
            }
            k += 1;
        }
        false
    }
}

} // verus!
