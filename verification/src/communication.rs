pub mod communication_handler;
pub mod message;
