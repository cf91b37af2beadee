pub mod aspo4_array;
pub mod obs_builder;
