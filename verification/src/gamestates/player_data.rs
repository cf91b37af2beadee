use crate::gamestates::physics_object::PhysicsObject;
use vstd::prelude::*;

verus! {

/// One active player at one tick.
#[derive(Clone, Copy, Debug, PartialEq, Eq, Structural)]
pub struct PlayerData {
    /// Identity of the car, stable within a session.
    pub car_id: i32,
    pub team_num: i32,
    /// The car in the field's own frame.
    pub car_data: PhysicsObject,
    /// The car in the mirrored frame.
    pub inverted_car_data: PhysicsObject,
    /// Boost in the tank, a measurement.
    pub boost_amount: u64,
    pub on_ground: bool,
    pub has_flip: bool,
    pub is_demoed: bool,
}

impl PlayerData {
    /// The car in the frame that an observer on the mirrored side
    /// (`inverted`) or on the field's own side sees.
    pub open spec fn body(self, inverted: bool) -> PhysicsObject {
        if inverted {
            self.inverted_car_data
        } else {
            self.car_data
        }
    }
}

} // verus!
