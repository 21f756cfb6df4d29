pub mod checker;
pub mod game;
mod rng;
pub mod sim;
