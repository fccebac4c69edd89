pub mod game;
pub mod rules;
