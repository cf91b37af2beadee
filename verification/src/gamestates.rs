pub mod game_state;
pub mod physics_object;
pub mod player_data;
