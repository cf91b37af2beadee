//! The core of a reinforcement-learning environment that drives a running
//! simulation: the table of discrete actions, the encoder of observations
//! with its history of ball states, the framing of messages, and the
//! decisions of the controller. Nothing here reads, writes or computes with
//! measurements: the caller does, and reports what came back.

pub mod action_parsers;
pub mod common_values;
pub mod communication;
pub mod errors;
pub mod features;
pub mod gamestates;
pub mod gym;
pub mod obs_builders;
